//! Per-document metadata records under `.bentolifelayout/documents`.
use vstd::prelude::*;
use crate::document_identity::{formatted_comment, plain_id, DocumentIdentityService};
use crate::paths::{
    lemma_normalize_keeps_path, lemma_three_part_path, no_separator, normalize_slashes,
    normalize_slashes_exec, path_join,
};
use crate::security::{unit_view, LAYOUT_FOLDER};
use crate::storage::{
    content_hash, current_timestamp_label, decimal, decimal_exec, is_hash_label, timestamp_label,
    vault_relative_chars, vault_relative_check,
};
use crate::text::{
    append, append_str, chars_of, eq_str, has_prefix, is_ascii_alnum, is_ascii_alnum_exec, owned,
    starts_with_str, string_of, string_views,
};

verus! {

/// The version of the document metadata format.
pub const DOCUMENT_METADATA_VERSION: u32 = 1;

/// How a document's identity is recorded in its Markdown.
#[derive(Debug, Clone, PartialEq, Eq)]
pub struct DocumentIdentityMetadata {
    pub strategy: String,
    pub comment: String,
}

/// The single frontmatter key that app metadata may use in Markdown.
#[derive(Debug, Clone, PartialEq, Eq)]
pub struct FrontmatterContract {
    pub required_key: String,
    pub required_value: String,
    pub allowed_app_metadata_in_markdown: Vec<String>,
}

/// Where content lives and what metadata may hold.
#[derive(Debug, Clone, PartialEq, Eq)]
pub struct ContentPolicy {
    pub content_lives_inside_vault: bool,
    pub markdown_is_content_source_of_truth: bool,
    pub layout_is_stored_in_bentolife_folder: bool,
    pub full_content_is_not_duplicated_in_metadata: bool,
}

/// The metadata record of one Markdown document.
#[derive(Debug, Clone, PartialEq, Eq)]
pub struct DocumentMetadata {
    pub schema_version: u32,
    pub document_id: String,
    pub document_type: String,
    pub vault_relative: bool,
    pub current_path: String,
    pub previous_paths: Vec<String>,
    pub layout_path: String,
    pub identity: DocumentIdentityMetadata,
    pub frontmatter_contract: FrontmatterContract,
    pub content_policy: ContentPolicy,
    pub content_hash: String,
    pub recovery_status: String,
    pub created_at: String,
    pub updated_at: String,
}

/// Creates, checks and locates document metadata.
pub struct DocumentMetadataService;

/// The folder of document metadata records.
pub const DOCUMENTS_FOLDER: &'static str = ".bentolifelayout/documents";

/// The folder of layout metadata records.
pub const LAYOUTS_FOLDER: &'static str = ".bentolifelayout/layouts";

/// A document id starts with `bl_doc_` and holds only ASCII letters,
/// digits and underscores.
pub open spec fn document_id_check(id: Seq<char>) -> Result<(), Seq<char>> {
    if !has_prefix(id, "bl_doc_"@) {
        Err("Document IDs must start with bl_doc_."@)
    } else if forall|i: int| 0 <= i < id.len() ==> (is_ascii_alnum(#[trigger] id[i]) || id[i]
        == '_') {
        Ok(())
    } else {
        Err("Document IDs may contain only ASCII letters, numbers, and underscores."@)
    }
}

/// The vault-relative path of the metadata record of a document.
pub open spec fn metadata_relative(id: Seq<char>) -> Seq<char> {
    DOCUMENTS_FOLDER@ + "/"@ + id + ".json"@
}

/// The vault-relative path of the layout record of a document.
pub open spec fn layout_relative(id: Seq<char>) -> Seq<char> {
    LAYOUTS_FOLDER@ + "/"@ + id + ".layout.json"@
}

/// The checks a document metadata record must pass, in order.
pub open spec fn metadata_check(m: DocumentMetadata) -> Result<(), Seq<char>> {
    if m.schema_version != DOCUMENT_METADATA_VERSION {
        Err("Unsupported document metadata version "@ + decimal(m.schema_version as nat) + "."@)
    } else if document_id_check(m.document_id@) is Err {
        document_id_check(m.document_id@)
    } else if vault_relative_check(m.current_path@) is Err {
        vault_relative_check(m.current_path@)
    } else if vault_relative_check(m.layout_path@) is Err {
        vault_relative_check(m.layout_path@)
    } else if vault_relative_check(m.frontmatter_contract.required_value@) is Err {
        vault_relative_check(m.frontmatter_contract.required_value@)
    } else if m.frontmatter_contract.required_key@ != "bentolife_metadata"@ {
        Err("Document metadata must use bentolife_metadata frontmatter."@)
    } else if m.frontmatter_contract.required_value@ != metadata_relative(m.document_id@) {
        Err("Document metadata path must be based on the document ID."@)
    } else if !m.vault_relative {
        Err("Document metadata must use vault-relative paths."@)
    } else {
        Ok(())
    }
}

/// A valid document id is a plain id.
pub proof fn lemma_valid_id_is_plain(id: Seq<char>)
    requires
        document_id_check(id) is Ok,
    ensures
        plain_id(id),
{
    reveal_strlit("bl_doc_");
}

proof fn lemma_id_paths_relative(id: Seq<char>)
    requires
        document_id_check(id) is Ok,
    ensures
        vault_relative_check(metadata_relative(id)) is Ok,
        vault_relative_check(layout_relative(id)) is Ok,
{
    reveal_strlit("bl_doc_");
    reveal_strlit(".bentolifelayout/documents");
    reveal_strlit(".bentolifelayout/layouts");
    reveal_strlit(".bentolifelayout");
    reveal_strlit("documents");
    reveal_strlit("layouts");
    reveal_strlit("/");
    reveal_strlit(".json");
    reveal_strlit(".layout.json");
    reveal_strlit("..");
    let c1 = id + ".json"@;
    let c2 = id + ".layout.json"@;
    assert(no_separator(c1)) by {
        assert forall|j: int| 0 <= j < c1.len() implies c1[j] != '/' && c1[j] != '\\' by {
            if j < id.len() {
                assert(c1[j] == id[j]);
            }
        }
    }
    assert(no_separator(c2)) by {
        assert forall|j: int| 0 <= j < c2.len() implies c2[j] != '/' && c2[j] != '\\' by {
            if j < id.len() {
                assert(c2[j] == id[j]);
            }
        }
    }
    assert(c1.len() != 2);
    assert(c2.len() != 2);
    assert(".bentolifelayout"@.len() != ".."@.len());
    assert("documents"@.len() != ".."@.len());
    assert("layouts"@.len() != ".."@.len());
    lemma_three_part_path(".bentolifelayout"@, "documents"@, c1);
    lemma_three_part_path(".bentolifelayout"@, "layouts"@, c2);
    assert(metadata_relative(id) =~= ".bentolifelayout"@ + "/"@ + "documents"@ + "/"@ + c1);
    assert(layout_relative(id) =~= ".bentolifelayout"@ + "/"@ + "layouts"@ + "/"@ + c2);
}

/// What `create_default_with_type` records, apart from timestamps and the hash.
pub open spec fn default_metadata_fields(
    m: DocumentMetadata,
    id: Seq<char>,
    path: Seq<char>,
    document_type: Seq<char>,
) -> bool {
    &&& m.schema_version == DOCUMENT_METADATA_VERSION
    &&& m.document_id@ == id
    &&& m.document_type@ == document_type
    &&& m.vault_relative
    &&& m.current_path@ == normalize_slashes(path)
    &&& m.previous_paths@.len() == 0
    &&& m.layout_path@ == layout_relative(id)
    &&& m.identity.strategy@ == "hidden_markdown_uuid_comment"@
    &&& m.identity.comment@ == formatted_comment(id)
    &&& m.frontmatter_contract.required_key@ == "bentolife_metadata"@
    &&& m.frontmatter_contract.required_value@ == metadata_relative(id)
    &&& string_views(m.frontmatter_contract.allowed_app_metadata_in_markdown@) == seq![
        "bentolife_metadata"@,
    ]
    &&& m.content_policy.content_lives_inside_vault
    &&& m.content_policy.markdown_is_content_source_of_truth
    &&& m.content_policy.layout_is_stored_in_bentolife_folder
    &&& m.content_policy.full_content_is_not_duplicated_in_metadata
    &&& is_hash_label(m.content_hash@)
    &&& m.recovery_status@ == "managed"@
    &&& m.created_at@ == m.updated_at@
    &&& exists|s: u64| m.created_at@ == timestamp_label(s as nat)
}

/// The error, if any, of creating default metadata: an invalid id first,
/// then a Markdown path that is not vault-relative.
pub open spec fn default_metadata_error(id: Seq<char>, path: Seq<char>) -> Option<Seq<char>> {
    match document_id_check(id) {
        Err(e) => Some(e),
        Ok(_) => match vault_relative_check(path) {
            Err(e) => Some(e),
            Ok(_) => None,
        },
    }
}

fn document_id_check_chars(id: &[char]) -> (r: Result<(), Vec<char>>)
    ensures
        match r {
            Ok(_) => document_id_check(id@) is Ok,
            Err(e) => document_id_check(id@) == Err::<(), Seq<char>>(e@),
        },
{
    if !starts_with_str(id, "bl_doc_") {
        return Err(chars_of("Document IDs must start with bl_doc_."));
    }
    let n = id.len();
    let mut i: usize = 0;
    while i < n
        invariant
            n == id@.len(),
            i <= id@.len(),
            has_prefix(id@, "bl_doc_"@),
            forall|j: int| 0 <= j < i ==> (is_ascii_alnum(#[trigger] id@[j]) || id@[j] == '_'),
        decreases id@.len() - i,
    {
        if !(is_ascii_alnum_exec(id[i]) || id[i] == '_') {
            return Err(
                chars_of("Document IDs may contain only ASCII letters, numbers, and underscores."),
            );
        }
        i = i + 1;
    }
    Ok(())
}

fn relative_check_string(p: &String) -> (r: Result<(), String>)
    ensures
        unit_view(r) == vault_relative_check(p@),
{
    let v = chars_of(p.as_str());
    match vault_relative_chars(v.as_slice()) {
        Ok(_) => Ok(()),
        Err(e) => Err(string_of(e.as_slice())),
    }
}

impl DocumentMetadataService {
    /// The name of this service.
    pub fn service_name() -> (r: &'static str)
        ensures
            r@ == "DocumentMetadataService"@,
    {
        "DocumentMetadataService"
    }

    /// The vault-relative path of a document's metadata record.
    pub fn metadata_relative_path(document_id: &str) -> (r: String)
        ensures
            r@ == metadata_relative(document_id@),
    {
        let mut v = chars_of(DOCUMENTS_FOLDER);
        append_str(&mut v, "/");
        append_str(&mut v, document_id);
        append_str(&mut v, ".json");
        string_of(v.as_slice())
    }

    /// The path of a document's metadata record inside the vault.
    pub fn metadata_path(vault_path: &str, document_id: &str) -> (r: String)
        ensures
            r@ == path_join(vault_path@, metadata_relative(document_id@)),
    {
        let rel = Self::metadata_relative_path(document_id);
        crate::paths::join_path(vault_path, rel.as_str())
    }

    /// Checks that a document id starts with `bl_doc_` and holds only ASCII
    /// letters, digits and underscores.
    pub fn validate_document_id(document_id: &str) -> (r: Result<(), String>)
        ensures
            unit_view(r) == document_id_check(document_id@),
    {
        let v = chars_of(document_id);
        match document_id_check_chars(v.as_slice()) {
            Ok(_) => Ok(()),
            Err(e) => Err(string_of(e.as_slice())),
        }
    }

    /// A metadata record read from the vault, accepted only when it passes
    /// the record checks.
    pub fn read(metadata: DocumentMetadata) -> (r: Result<DocumentMetadata, String>)
        ensures
            match r {
                Ok(m) => m == metadata && metadata_check(metadata) is Ok,
                Err(e) => metadata_check(metadata) == Err::<(), Seq<char>>(e@),
            },
    {
        match metadata.validate() {
            Ok(_) => Ok(metadata),
            Err(e) => Err(e),
        }
    }

    /// Where a metadata record is written: its record path inside the vault,
    /// given only for a record that passes the checks.
    pub fn write(vault_path: &str, metadata: &DocumentMetadata) -> (r: Result<String, String>)
        ensures
            match r {
                Ok(p) => metadata_check(*metadata) is Ok && p@ == path_join(
                    vault_path@,
                    metadata_relative(metadata.document_id@),
                ),
                Err(e) => metadata_check(*metadata) == Err::<(), Seq<char>>(e@),
            },
    {
        match metadata.validate() {
            Ok(_) => Ok(Self::metadata_path(vault_path, metadata.document_id.as_str())),
            Err(e) => Err(e),
        }
    }

    /// Default metadata of a Markdown document of type `markdown_document`.
    pub fn create_default(
        document_id: &str,
        markdown_relative_path: &str,
        markdown_content: &str,
    ) -> (r: Result<DocumentMetadata, String>)
        ensures
            match r {
                Ok(m) => default_metadata_error(document_id@, markdown_relative_path@) is None
                    && default_metadata_fields(
                    m,
                    document_id@,
                    markdown_relative_path@,
                    "markdown_document"@,
                ) && m.content_hash@ == crate::storage::text_hash(markdown_content@) && metadata_check(m) is Ok,
                Err(e) => default_metadata_error(document_id@, markdown_relative_path@) == Some(
                    e@,
                ),
            },
    {
        Self::create_default_with_type(
            document_id,
            markdown_relative_path,
            markdown_content,
            "markdown_document",
        )
    }

    /// Default metadata of a Markdown document of the given type: refused for
    /// an invalid id or a Markdown path that is not vault-relative.
    pub fn create_default_with_type(
        document_id: &str,
        markdown_relative_path: &str,
        markdown_content: &str,
        document_type: &str,
    ) -> (r: Result<DocumentMetadata, String>)
        ensures
            match r {
                Ok(m) => default_metadata_error(document_id@, markdown_relative_path@) is None
                    && default_metadata_fields(
                    m,
                    document_id@,
                    markdown_relative_path@,
                    document_type@,
                ) && m.content_hash@ == crate::storage::text_hash(markdown_content@) && metadata_check(m) is Ok,
                Err(e) => default_metadata_error(document_id@, markdown_relative_path@) == Some(
                    e@,
                ),
            },
    {
        let idv = chars_of(document_id);
        match document_id_check_chars(idv.as_slice()) {
            Ok(_) => {},
            Err(e) => {
                return Err(string_of(e.as_slice()));
            },
        }
        let pv = chars_of(markdown_relative_path);
        match vault_relative_chars(pv.as_slice()) {
            Ok(_) => {},
            Err(e) => {
                return Err(string_of(e.as_slice()));
            },
        }
        proof {
            lemma_id_paths_relative(document_id@);
            lemma_normalize_keeps_path(markdown_relative_path@);
        }
        let metadata_path = Self::metadata_relative_path(document_id);
        let mut layout = chars_of(LAYOUTS_FOLDER);
        append_str(&mut layout, "/");
        append_str(&mut layout, document_id);
        append_str(&mut layout, ".layout.json");
        let now = current_timestamp_label();
        let current = normalize_slashes_exec(pv.as_slice());
        let mut allowed: Vec<String> = Vec::new();
        allowed.push(owned("bentolife_metadata"));
        assert(string_views(allowed@) =~= seq!["bentolife_metadata"@]);
        let metadata = DocumentMetadata {
            schema_version: DOCUMENT_METADATA_VERSION,
            document_id: owned(document_id),
            document_type: owned(document_type),
            vault_relative: true,
            current_path: string_of(current.as_slice()),
            previous_paths: Vec::new(),
            layout_path: string_of(layout.as_slice()),
            identity: DocumentIdentityMetadata {
                strategy: owned("hidden_markdown_uuid_comment"),
                comment: DocumentIdentityService::format_comment(document_id),
            },
            frontmatter_contract: FrontmatterContract {
                required_key: owned("bentolife_metadata"),
                required_value: metadata_path,
                allowed_app_metadata_in_markdown: allowed,
            },
            content_policy: ContentPolicy {
                content_lives_inside_vault: true,
                markdown_is_content_source_of_truth: true,
                layout_is_stored_in_bentolife_folder: true,
                full_content_is_not_duplicated_in_metadata: true,
            },
            content_hash: content_hash(markdown_content),
            recovery_status: owned("managed"),
            created_at: now.clone(),
            updated_at: now,
        };
        match metadata.validate() {
            Ok(_) => {},
            Err(e) => {
                return Err(e);
            },
        }
        Ok(metadata)
    }
}

impl DocumentMetadata {
    /// Checks the version, the id, the vault-relative paths, the frontmatter
    /// contract, and that the record path follows from the id.
    pub fn validate(&self) -> (r: Result<(), String>)
        ensures
            unit_view(r) == metadata_check(*self),
    {
        if self.schema_version != DOCUMENT_METADATA_VERSION {
            let mut v = chars_of("Unsupported document metadata version ");
            let d = decimal_exec(self.schema_version as u64);
            append(&mut v, d.as_slice());
            append_str(&mut v, ".");
            return Err(string_of(v.as_slice()));
        }
        match DocumentMetadataService::validate_document_id(self.document_id.as_str()) {
            Ok(_) => {},
            Err(e) => {
                return Err(e);
            },
        }
        match relative_check_string(&self.current_path) {
            Ok(_) => {},
            Err(e) => {
                return Err(e);
            },
        }
        match relative_check_string(&self.layout_path) {
            Ok(_) => {},
            Err(e) => {
                return Err(e);
            },
        }
        match relative_check_string(&self.frontmatter_contract.required_value) {
            Ok(_) => {},
            Err(e) => {
                return Err(e);
            },
        }
        let key = chars_of(self.frontmatter_contract.required_key.as_str());
        if !eq_str(key.as_slice(), "bentolife_metadata") {
            return Err(owned("Document metadata must use bentolife_metadata frontmatter."));
        }
        let expected = DocumentMetadataService::metadata_relative_path(self.document_id.as_str());
        let value = chars_of(self.frontmatter_contract.required_value.as_str());
        if !eq_str(value.as_slice(), expected.as_str()) {
            return Err(owned("Document metadata path must be based on the document ID."));
        }
        if !self.vault_relative {
            return Err(owned("Document metadata must use vault-relative paths."));
        }
        Ok(())
    }
}

} // verus!

verus! {

fn copy_text_list(v: &Vec<String>) -> (r: Vec<String>)
    ensures
        r@ == v@,
{
    let mut r: Vec<String> = Vec::new();
    let n = v.len();
    let mut i: usize = 0;
    while i < n
        invariant
            n == v@.len(),
            i <= n,
            r@ == v@.take(i as int),
        decreases n - i,
    {
        r.push(v[i].clone());
        assert(r@ =~= v@.take(i + 1));
        i = i + 1;
    }
    assert(v@.take(n as int) =~= v@);
    r
}

/// A copy of a metadata record: every field equal, the lists holding the
/// same items.
pub fn copy_metadata(m: &DocumentMetadata) -> (r: DocumentMetadata)
    ensures
        r == (DocumentMetadata {
            previous_paths: r.previous_paths,
            frontmatter_contract: FrontmatterContract {
                allowed_app_metadata_in_markdown: r.frontmatter_contract.allowed_app_metadata_in_markdown,
                ..m.frontmatter_contract
            },
            ..*m
        }),
        r.previous_paths@ == m.previous_paths@,
        r.frontmatter_contract.allowed_app_metadata_in_markdown@ == m.frontmatter_contract.allowed_app_metadata_in_markdown@,
{
    DocumentMetadata {
        schema_version: m.schema_version,
        document_id: m.document_id.clone(),
        document_type: m.document_type.clone(),
        vault_relative: m.vault_relative,
        current_path: m.current_path.clone(),
        previous_paths: copy_text_list(&m.previous_paths),
        layout_path: m.layout_path.clone(),
        identity: DocumentIdentityMetadata {
            strategy: m.identity.strategy.clone(),
            comment: m.identity.comment.clone(),
        },
        frontmatter_contract: FrontmatterContract {
            required_key: m.frontmatter_contract.required_key.clone(),
            required_value: m.frontmatter_contract.required_value.clone(),
            allowed_app_metadata_in_markdown: copy_text_list(&m.frontmatter_contract.allowed_app_metadata_in_markdown),
        },
        content_policy: ContentPolicy {
            content_lives_inside_vault: m.content_policy.content_lives_inside_vault,
            markdown_is_content_source_of_truth: m.content_policy.markdown_is_content_source_of_truth,
            layout_is_stored_in_bentolife_folder: m.content_policy.layout_is_stored_in_bentolife_folder,
            full_content_is_not_duplicated_in_metadata: m.content_policy.full_content_is_not_duplicated_in_metadata,
        },
        content_hash: m.content_hash.clone(),
        recovery_status: m.recovery_status.clone(),
        created_at: m.created_at.clone(),
        updated_at: m.updated_at.clone(),
    }
}

} // verus!
