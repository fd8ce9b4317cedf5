//! Workspace recovery: which problems a vault shows, which action mends
//! each, and how metadata is rebuilt, set aside as an orphan, restored or
//! repointed.  Reading and writing the records is left to the caller, which
//! hands in what it read.
use vstd::prelude::*;
use crate::document_identity::{identity_comment, DocumentIdentityService};
use crate::document_metadata::{
    default_metadata_error, default_metadata_fields, document_id_check, metadata_check, DocumentMetadata,
    DocumentMetadataService,
};
use crate::security::unit_view;
use crate::text::{append_str, chars_of, eq_str, has_prefix, owned, starts_with_str, string_of, string_views};
use crate::theme::opt_string_view;
use crate::vault::VaultState;
use crate::workspace_scanner::{issue_views, normalized_path, ScanIssue, WorkspaceScanResult};

verus! {

/// A problem recovery can show, with the action that mends it.
pub struct RecoveryIssue {
    pub code: String,
    pub message: String,
    pub document_id: Option<String>,
    pub markdown_relative_path: Option<String>,
    pub action: Option<String>,
}

/// The problems of a vault, with the scan they were read from when the
/// vault was ready to scan.
pub struct WorkspaceRecoveryPreview {
    pub vault_path: String,
    pub issues: Vec<RecoveryIssue>,
    pub scan: Option<WorkspaceScanResult>,
}

/// What a recovery action did.
pub struct RecoveryResult {
    pub action: String,
    pub document_id: Option<String>,
    pub markdown_relative_path: Option<String>,
    pub changed_paths: Vec<String>,
    pub message: String,
    pub scan: Option<WorkspaceScanResult>,
}

/// What is recorded of metadata set aside as an orphan.
#[derive(Debug, Clone, PartialEq, Eq)]
pub struct OrphanManifest {
    pub document_id: String,
    pub original_metadata_path: String,
    pub original_layout_path: String,
    pub last_known_markdown_path: String,
    pub reason: String,
    pub orphaned_at: String,
}

/// Recovers vaults.
pub struct RecoveryService;

impl RecoveryService {
    /// The service's name.
    pub fn service_name() -> (r: &'static str)
        ensures
            r@ == "RecoveryService"@,
    {
        "RecoveryService"
    }

    /// The recovery preview of a vault, from its inspected state and message
    /// and, for a vault that was ready, the scan made of it: the vault's issue,
    /// then the scan's recovery issues.
    pub fn preview_workspace_recovery(
        vault_path: &str,
        state: VaultState,
        message: &str,
        scan: Option<WorkspaceScanResult>,
    ) -> (r: WorkspaceRecoveryPreview)
        ensures
            r.vault_path@ == vault_path@,
            recovery_issue_views(r.issues@) == vault_issue_views(state, message@) + match scan {
                Some(s) => scan_recovery_views(issue_views(s.issues@)),
                None => seq![],
            },
            r.scan == scan,
    {
        let mut issues = vault_issues(state, message);
        let ghost first = recovery_issue_views(issues@);
        match &scan {
            Some(s) => {
                let mut more = scan_recovery_issues(&s.issues);
                let ghost second = recovery_issue_views(more@);
                let ghost b = issues@;
                issues.append(&mut more);
                assert(recovery_issue_views(issues@) =~= first + second);
            },
            None => {
                assert(recovery_issue_views(issues@) =~= first + seq![]);
            },
        }
        WorkspaceRecoveryPreview { vault_path: owned(vault_path), issues, scan }
    }

    /// Regenerated layout metadata of a document, from its Markdown's
    /// headings.
    pub fn recover_layout_metadata(document_id: &str, markdown: &str) -> (r: Result<
        crate::layout_metadata::LayoutMetadata,
        String,
    >)
        ensures
            match r {
                Ok(m) => document_id_check(document_id@) is Ok && crate::layout_metadata::default_layout_fields(
                    m,
                    document_id@,
                ) && crate::layout_metadata::generated_cards(
                    m.cards@,
                    crate::layout_metadata::heading_matches(markdown@),
                ) && crate::layout_metadata::layout_check(m) is Ok,
                Err(e) => document_id_check(document_id@) == Err::<(), Seq<char>>(e@),
            },
    {
        crate::layout_metadata::LayoutMetadataService::generate_from_markdown(document_id, markdown)
    }

    /// Rebuilt metadata for a Markdown file with a valid id: refused when
    /// metadata for the id exists already; else the default metadata of the
    /// document type its folder gives.
    pub fn recover_document_metadata(
        document_id: &str,
        markdown_relative_path: &str,
        markdown: &str,
        metadata_exists: bool,
    ) -> (r: Result<DocumentMetadata, String>)
        ensures
            metadata_exists ==> (r matches Err(e) && e@ == "Document metadata already exists for "@ + document_id@ + "."@),
            !metadata_exists ==> match r {
                Ok(m) => default_metadata_error(document_id@, markdown_relative_path@) is None && default_metadata_fields(
                    m,
                    document_id@,
                    markdown_relative_path@,
                    path_document_type(markdown_relative_path@),
                ) && metadata_check(m) is Ok,
                Err(e) => default_metadata_error(document_id@, markdown_relative_path@) == Some(e@),
            },
    {
        if metadata_exists {
            return Err(text3("Document metadata already exists for ", document_id, "."));
        }
        DocumentMetadataService::create_default_with_type(
            document_id,
            markdown_relative_path,
            markdown,
            document_type_for_path(markdown_relative_path),
        )
    }

    /// Sets aside the metadata of a document whose Markdown file is missing:
    /// refused while the file exists, or when an orphan of the id exists
    /// already; else the metadata marked orphaned, and the manifest that
    /// records where it came from.
    pub fn orphan_missing_document_metadata(metadata: DocumentMetadata, markdown_exists: bool, orphan_exists: bool) -> (r:
        Result<(DocumentMetadata, OrphanManifest), String>)
        ensures
            markdown_exists ==> (r matches Err(e) && e@
                == "Refusing to orphan metadata while the Markdown file still exists."@),
            !markdown_exists && orphan_exists ==> (r matches Err(e) && e@ == "Orphan metadata already exists for "@
                + metadata.document_id@ + "."@),
            !markdown_exists && !orphan_exists ==> (r matches Ok(p) && restamped(p.0, metadata, "orphaned"@)
                && p.1.document_id@ == metadata.document_id@ && p.1.original_metadata_path@
                == metadata.frontmatter_contract.required_value@ && p.1.original_layout_path@ == metadata.layout_path@
                && p.1.last_known_markdown_path@ == metadata.current_path@ && p.1.reason@ == "markdown_missing"@
                && exists|s: u64| p.1.orphaned_at@ == crate::storage::timestamp_label(s as nat)),
    {
        if markdown_exists {
            return Err(owned("Refusing to orphan metadata while the Markdown file still exists."));
        }
        if orphan_exists {
            return Err(text3("Orphan metadata already exists for ", metadata.document_id.as_str(), "."));
        }
        let manifest = OrphanManifest {
            document_id: metadata.document_id.clone(),
            original_metadata_path: metadata.frontmatter_contract.required_value.clone(),
            original_layout_path: metadata.layout_path.clone(),
            last_known_markdown_path: metadata.current_path.clone(),
            reason: owned("markdown_missing"),
            orphaned_at: crate::storage::current_timestamp_label(),
        };
        let mut metadata = metadata;
        metadata.recovery_status = owned("orphaned");
        metadata.updated_at = crate::storage::current_timestamp_label();
        Ok((metadata, manifest))
    }

    /// Brings orphaned metadata back for the Markdown file now at
    /// `markdown_relative_path`: refused when the Markdown has no identity
    /// comment or one for another document.
    pub fn restore_orphaned_document_metadata(
        document_id: &str,
        markdown_relative_path: &str,
        markdown: &str,
        orphaned: DocumentMetadata,
    ) -> (r: Result<DocumentMetadata, String>)
        ensures
            match identity_comment(markdown@) {
                None => r matches Err(e) && e@
                    == "Cannot restore orphaned metadata without a BentoLife document ID comment."@,
                Some(c) => if c.0 != document_id@ {
                    r matches Err(e) && e@ == "Markdown identity "@ + c.0 + " does not match orphaned document "@
                        + document_id@ + "."@
                } else {
                    r matches Ok(m) && restored_fields(m, orphaned, markdown_relative_path@)
                },
            },
    {
        let identity = match DocumentIdentityService::find_identity_comment(markdown) {
            None => {
                return Err(owned("Cannot restore orphaned metadata without a BentoLife document ID comment."));
            },
            Some(c) => c,
        };
        let idc = chars_of(identity.document_id.as_str());
        if !eq_str(idc.as_slice(), document_id) {
            let mut v = chars_of("Markdown identity ");
            append_str(&mut v, identity.document_id.as_str());
            append_str(&mut v, " does not match orphaned document ");
            append_str(&mut v, document_id);
            append_str(&mut v, ".");
            return Err(string_of(v.as_slice()));
        }
        let c = chars_of(markdown_relative_path);
        let p = crate::text::replace_char_exec(c.as_slice(), '\\', '/');
        let mut metadata = orphaned;
        metadata.current_path = string_of(p.as_slice());
        metadata.recovery_status = owned("managed");
        metadata.content_hash = crate::storage::content_hash(markdown);
        metadata.updated_at = crate::storage::current_timestamp_label();
        Ok(metadata)
    }

    /// Repoints a document's frontmatter at its metadata: the Markdown made
    /// managed again under the metadata's path, and the metadata with the new
    /// Markdown's hash and a new time stamp.
    pub fn repair_document_frontmatter_reference(metadata: DocumentMetadata, markdown: &str) -> (r: (
        DocumentMetadata,
        String,
    ))
        ensures
            r.1@ == crate::markdown_document::managed_markdown(
                markdown@,
                metadata.document_id@,
                metadata.frontmatter_contract.required_value@,
            ),
            crate::storage::is_hash_label(r.0.content_hash@),
            exists|s: u64| r.0.updated_at@ == crate::storage::timestamp_label(s as nat),
            r.0 == (DocumentMetadata { content_hash: r.0.content_hash, updated_at: r.0.updated_at, ..metadata }),
    {
        let managed = crate::markdown_document::MarkdownDocumentService::prepare_managed_markdown(
            markdown,
            metadata.document_id.as_str(),
            metadata.frontmatter_contract.required_value.as_str(),
        );
        let mut metadata = metadata;
        metadata.content_hash = crate::storage::content_hash(managed.as_str());
        metadata.updated_at = crate::storage::current_timestamp_label();
        (metadata, managed)
    }
}

/// The action that mends a scan issue, by its code.
pub open spec fn issue_action(code: Seq<char>) -> Option<Seq<char>> {
    if code == "metadata_missing"@ {
        Some("recover_document_metadata"@)
    } else if code == "layout_missing"@ {
        Some("recover_layout_metadata"@)
    } else if code == "markdown_missing"@ {
        Some("orphan_missing_document_metadata"@)
    } else if code == "metadata_path_mismatch"@ {
        Some("repair_document_frontmatter_reference"@)
    } else {
        None
    }
}

/// The action that mends a scan issue, by its code.
pub fn action_for_issue(code: &str) -> (r: Option<String>)
    ensures
        opt_string_view(r) == issue_action(code@),
{
    let c = chars_of(code);
    if eq_str(c.as_slice(), "metadata_missing") {
        Some(owned("recover_document_metadata"))
    } else if eq_str(c.as_slice(), "layout_missing") {
        Some(owned("recover_layout_metadata"))
    } else if eq_str(c.as_slice(), "markdown_missing") {
        Some(owned("orphan_missing_document_metadata"))
    } else if eq_str(c.as_slice(), "metadata_path_mismatch") {
        Some(owned("repair_document_frontmatter_reference"))
    } else {
        None
    }
}

/// The document type of a Markdown file, by the module folder it lies in.
pub open spec fn path_document_type(path: Seq<char>) -> Seq<char> {
    let p = normalized_path(path);
    if has_prefix(p, "modules/notes/data/"@) {
        "note"@
    } else if has_prefix(p, "modules/todos/data/"@) {
        "todos"@
    } else if has_prefix(p, "modules/contacts/data/"@) {
        "contact"@
    } else if has_prefix(p, "modules/habits/data/"@) {
        "habit"@
    } else {
        "markdown_document"@
    }
}

/// The document type of a Markdown file, by the module folder it lies in.
pub fn document_type_for_path(path: &str) -> (r: &'static str)
    ensures
        r@ == path_document_type(path@),
{
    let c = chars_of(path);
    let p = crate::text::replace_char_exec(c.as_slice(), '\\', '/');
    proof {
        reveal_strlit("note");
        reveal_strlit("todos");
        reveal_strlit("contact");
        reveal_strlit("habit");
        reveal_strlit("markdown_document");
    }
    if starts_with_str(p.as_slice(), "modules/notes/data/") {
        "note"
    } else if starts_with_str(p.as_slice(), "modules/todos/data/") {
        "todos"
    } else if starts_with_str(p.as_slice(), "modules/contacts/data/") {
        "contact"
    } else if starts_with_str(p.as_slice(), "modules/habits/data/") {
        "habit"
    } else {
        "markdown_document"
    }
}

/// Where orphaned document metadata is kept, relative to the vault.
pub open spec fn orphan_document_relative(id: Seq<char>) -> Seq<char> {
    ".bentolifelayout/orphans/documents/"@ + id + ".json"@
}

/// Where orphaned layout metadata is kept, relative to the vault.
pub open spec fn orphan_layout_relative(id: Seq<char>) -> Seq<char> {
    ".bentolifelayout/orphans/layouts/"@ + id + ".layout.json"@
}

/// Where the manifest of an orphan is kept, relative to the vault.
pub open spec fn orphan_manifest_relative(id: Seq<char>) -> Seq<char> {
    ".bentolifelayout/orphans/"@ + id + ".orphan.json"@
}

fn text3(a: &str, b: &str, c: &str) -> (r: String)
    ensures
        r@ == a@ + b@ + c@,
{
    let mut v = chars_of(a);
    append_str(&mut v, b);
    append_str(&mut v, c);
    string_of(v.as_slice())
}

/// Where orphaned document metadata is kept, relative to the vault.
pub fn orphan_document_relative_path(document_id: &str) -> (r: String)
    ensures
        r@ == orphan_document_relative(document_id@),
{
    text3(".bentolifelayout/orphans/documents/", document_id, ".json")
}

/// Where orphaned layout metadata is kept, relative to the vault.
pub fn orphan_layout_relative_path(document_id: &str) -> (r: String)
    ensures
        r@ == orphan_layout_relative(document_id@),
{
    text3(".bentolifelayout/orphans/layouts/", document_id, ".layout.json")
}

/// Where the manifest of an orphan is kept, relative to the vault.
pub fn orphan_manifest_relative_path(document_id: &str) -> (r: String)
    ensures
        r@ == orphan_manifest_relative(document_id@),
{
    text3(".bentolifelayout/orphans/", document_id, ".orphan.json")
}

/// The view of a recovery issue: code, message, document id, path, action.
pub open spec fn recovery_issue_view(i: RecoveryIssue) -> (Seq<char>, Seq<char>, Option<Seq<char>>, Option<Seq<char>>, Option<Seq<char>>) {
    (i.code@, i.message@, opt_string_view(i.document_id), opt_string_view(i.markdown_relative_path), opt_string_view(i.action))
}

/// The views of recovery issues.
pub open spec fn recovery_issue_views(v: Seq<RecoveryIssue>) -> Seq<(Seq<char>, Seq<char>, Option<Seq<char>>, Option<Seq<char>>, Option<Seq<char>>)> {
    v.map_values(|i: RecoveryIssue| recovery_issue_view(i))
}

/// The issue a vault that is not ready raises: a missing layout folder and
/// an incomplete scaffold are repaired; other states are reported with
/// their inspection message.
pub open spec fn vault_issue_views(state: VaultState, message: Seq<char>) -> Seq<(Seq<char>, Seq<char>, Option<Seq<char>>, Option<Seq<char>>, Option<Seq<char>>)> {
    if state == VaultState::LayoutMissing {
        seq![
            ("layout_folder_missing"@, "The .bentolifelayout folder is missing; Markdown content may still be safe."@,
                None, None, Some("repair_vault_structure"@)),
        ]
    } else if state == VaultState::ScaffoldIncomplete {
        seq![
            ("layout_scaffold_incomplete"@, "Required BentoLife metadata folders or bootstrap files are missing."@,
                None, None, Some("repair_vault_structure"@)),
        ]
    } else if state != VaultState::Ready {
        seq![("vault_not_ready"@, message, None, None, None)]
    } else {
        seq![]
    }
}

/// The recovery issues of a scan: those classified as recovery issues, in
/// order, each with the action that mends it.
pub open spec fn scan_recovery_views(
    v: Seq<(Seq<char>, Seq<char>, Option<Seq<char>>, Option<Seq<char>>, Seq<char>, Option<Seq<char>>)>,
) -> Seq<(Seq<char>, Seq<char>, Option<Seq<char>>, Option<Seq<char>>, Option<Seq<char>>)>
    decreases v.len(),
{
    if v.len() == 0 {
        seq![]
    } else {
        let rest = scan_recovery_views(v.drop_last());
        let i = v.last();
        if i.4 == "recovery_issue"@ {
            rest.push((i.0, i.1, i.2, i.3, issue_action(i.0)))
        } else {
            rest
        }
    }
}

fn copy_opt(o: &Option<String>) -> (r: Option<String>)
    ensures
        opt_string_view(r) == opt_string_view(*o),
{
    match o {
        Some(s) => Some(s.clone()),
        None => None,
    }
}

fn vault_issues(state: VaultState, message: &str) -> (r: Vec<RecoveryIssue>)
    ensures
        recovery_issue_views(r@) == vault_issue_views(state, message@),
{
    let mut out: Vec<RecoveryIssue> = Vec::new();
    if state == VaultState::LayoutMissing {
        out.push(RecoveryIssue {
            code: owned("layout_folder_missing"),
            message: owned("The .bentolifelayout folder is missing; Markdown content may still be safe."),
            document_id: None,
            markdown_relative_path: None,
            action: Some(owned("repair_vault_structure")),
        });
    } else if state == VaultState::ScaffoldIncomplete {
        out.push(RecoveryIssue {
            code: owned("layout_scaffold_incomplete"),
            message: owned("Required BentoLife metadata folders or bootstrap files are missing."),
            document_id: None,
            markdown_relative_path: None,
            action: Some(owned("repair_vault_structure")),
        });
    } else if state != VaultState::Ready {
        out.push(RecoveryIssue {
            code: owned("vault_not_ready"),
            message: owned(message),
            document_id: None,
            markdown_relative_path: None,
            action: None,
        });
    }
    assert(recovery_issue_views(out@) =~= vault_issue_views(state, message@));
    out
}

/// The recovery issues of a scan's issues (see `scan_recovery_views`).
pub fn scan_recovery_issues(issues: &Vec<ScanIssue>) -> (r: Vec<RecoveryIssue>)
    ensures
        recovery_issue_views(r@) == scan_recovery_views(issue_views(issues@)),
{
    let mut out: Vec<RecoveryIssue> = Vec::new();
    let n = issues.len();
    let mut i: usize = 0;
    while i < n
        invariant
            n == issues@.len(),
            i <= n,
            recovery_issue_views(out@) == scan_recovery_views(issue_views(issues@.take(i as int))),
        decreases n - i,
    {
        let it = &issues[i];
        assert(issue_views(issues@.take(i + 1)).drop_last() =~= issue_views(issues@.take(i as int)));
        assert(issue_views(issues@.take(i + 1)).last() == issue_views(seq![*it])[0]);
        let cls = chars_of(it.classification.as_str());
        if eq_str(cls.as_slice(), "recovery_issue") {
            let ghost b = out@;
            let ri = RecoveryIssue {
                code: it.code.clone(),
                message: it.message.clone(),
                document_id: copy_opt(&it.document_id),
                markdown_relative_path: copy_opt(&it.markdown_relative_path),
                action: action_for_issue(it.code.as_str()),
            };
            out.push(ri);
            assert(recovery_issue_views(out@) =~= recovery_issue_views(b).push(recovery_issue_view(ri)));
        }
        i = i + 1;
    }
    assert(issues@.take(n as int) =~= issues@);
    out
}


/// The id under which metadata is recovered: the id of the Markdown's
/// identity comment, which must be valid.
pub open spec fn recovery_identity(markdown: Seq<char>, missing: Seq<char>) -> Result<Seq<char>, Seq<char>> {
    match identity_comment(markdown) {
        None => Err(missing),
        Some(c) => match document_id_check(c.0) {
            Err(e) => Err(e),
            Ok(_) => Ok(c.0),
        },
    }
}

/// The id of a Markdown file whose metadata is to be recovered; refused
/// without an identity comment or with an invalid id.
pub fn identity_for_recovery(markdown: &str) -> (r: Result<String, String>)
    ensures
        match r {
            Ok(id) => recovery_identity(
                markdown@,
                "Cannot recover document metadata without a BentoLife document ID comment."@,
            ) == Ok::<Seq<char>, Seq<char>>(id@),
            Err(e) => recovery_identity(
                markdown@,
                "Cannot recover document metadata without a BentoLife document ID comment."@,
            ) == Err::<Seq<char>, Seq<char>>(e@),
        },
{
    match DocumentIdentityService::find_identity_comment(markdown) {
        None => Err(owned("Cannot recover document metadata without a BentoLife document ID comment.")),
        Some(c) => match DocumentMetadataService::validate_document_id(c.document_id.as_str()) {
            Err(e) => Err(e),
            Ok(_) => Ok(c.document_id),
        },
    }
}


/// The changed paths, as views.
pub open spec fn changed_views(r: RecoveryResult) -> Seq<Seq<char>> {
    string_views(r.changed_paths@)
}

/// What recovering document metadata did.
pub fn metadata_recovered_result(
    metadata: &DocumentMetadata,
    markdown_relative_path: &str,
    scan: Option<WorkspaceScanResult>,
) -> (r: RecoveryResult)
    ensures
        r.action@ == "recover_document_metadata"@,
        opt_string_view(r.document_id) == Some(metadata.document_id@),
        opt_string_view(r.markdown_relative_path) == Some(normalized_path(markdown_relative_path@)),
        changed_views(r) == seq![metadata.frontmatter_contract.required_value@],
        r.message@ == "Document metadata was rebuilt from the Markdown identity comment."@,
        r.scan == scan,
{
    let c = chars_of(markdown_relative_path);
    let p = crate::text::replace_char_exec(c.as_slice(), '\\', '/');
    let mut changed: Vec<String> = Vec::new();
    changed.push(metadata.frontmatter_contract.required_value.clone());
    assert(string_views(changed@) =~= seq![metadata.frontmatter_contract.required_value@]);
    RecoveryResult {
        action: owned("recover_document_metadata"),
        document_id: Some(metadata.document_id.clone()),
        markdown_relative_path: Some(string_of(p.as_slice())),
        changed_paths: changed,
        message: owned("Document metadata was rebuilt from the Markdown identity comment."),
        scan,
    }
}

/// What regenerating layout metadata did.
pub fn layout_recovered_result(document_id: &str, current_path: &str, scan: Option<WorkspaceScanResult>) -> (r:
    RecoveryResult)
    ensures
        r.action@ == "recover_layout_metadata"@,
        opt_string_view(r.document_id) == Some(document_id@),
        opt_string_view(r.markdown_relative_path) == Some(current_path@),
        changed_views(r) == seq![crate::document_metadata::layout_relative(document_id@)],
        r.message@ == "Layout metadata was regenerated from Markdown headings."@,
        r.scan == scan,
{
    let mut changed: Vec<String> = Vec::new();
    changed.push(crate::layout_metadata::LayoutMetadataService::layout_relative_path(document_id));
    assert(string_views(changed@) =~= seq![crate::document_metadata::layout_relative(document_id@)]);
    RecoveryResult {
        action: owned("recover_layout_metadata"),
        document_id: Some(owned(document_id)),
        markdown_relative_path: Some(owned(current_path)),
        changed_paths: changed,
        message: owned("Layout metadata was regenerated from Markdown headings."),
        scan,
    }
}

/// Metadata `n` is `m` with only its recovery status and time stamp
/// changed.
pub open spec fn restamped(n: DocumentMetadata, m: DocumentMetadata, status: Seq<char>) -> bool {
    &&& n.recovery_status@ == status
    &&& exists|s: u64| n.updated_at@ == crate::storage::timestamp_label(s as nat)
    &&& n.schema_version == m.schema_version
    &&& n.document_id == m.document_id
    &&& n.document_type == m.document_type
    &&& n.vault_relative == m.vault_relative
    &&& n.current_path == m.current_path
    &&& n.previous_paths == m.previous_paths
    &&& n.layout_path == m.layout_path
    &&& n.identity == m.identity
    &&& n.frontmatter_contract == m.frontmatter_contract
    &&& n.content_policy == m.content_policy
    &&& n.content_hash == m.content_hash
    &&& n.created_at == m.created_at
}


/// What setting metadata aside as an orphan did: the orphan record and
/// manifest were written, and the layout moved when it existed.
pub fn orphaned_result(
    document_id: &str,
    last_known_markdown_path: &str,
    layout_moved: bool,
    scan: Option<WorkspaceScanResult>,
) -> (r: RecoveryResult)
    ensures
        r.action@ == "orphan_missing_document_metadata"@,
        opt_string_view(r.document_id) == Some(document_id@),
        opt_string_view(r.markdown_relative_path) == Some(last_known_markdown_path@),
        changed_views(r) == seq![orphan_document_relative(document_id@), orphan_manifest_relative(document_id@)]
            + if layout_moved {
            seq![orphan_layout_relative(document_id@)]
        } else {
            seq![]
        },
        r.message@
            == "Missing-file metadata was moved into orphan storage and preserved for explicit restore or cleanup."@,
        r.scan == scan,
{
    let mut changed: Vec<String> = Vec::new();
    changed.push(orphan_document_relative_path(document_id));
    changed.push(orphan_manifest_relative_path(document_id));
    if layout_moved {
        changed.push(orphan_layout_relative_path(document_id));
    }
    assert(string_views(changed@) =~= seq![orphan_document_relative(document_id@), orphan_manifest_relative(document_id@)]
        + if layout_moved {
        seq![orphan_layout_relative(document_id@)]
    } else {
        seq![]
    });
    RecoveryResult {
        action: owned("orphan_missing_document_metadata"),
        document_id: Some(owned(document_id)),
        markdown_relative_path: Some(owned(last_known_markdown_path)),
        changed_paths: changed,
        message: owned(
            "Missing-file metadata was moved into orphan storage and preserved for explicit restore or cleanup.",
        ),
        scan,
    }
}

/// Metadata `n` is orphaned metadata `m` brought back for the Markdown
/// found at `path`.
pub open spec fn restored_fields(n: DocumentMetadata, m: DocumentMetadata, path: Seq<char>) -> bool {
    &&& n.current_path@ == normalized_path(path)
    &&& n.recovery_status@ == "managed"@
    &&& crate::storage::is_hash_label(n.content_hash@)
    &&& exists|s: u64| n.updated_at@ == crate::storage::timestamp_label(s as nat)
    &&& n.schema_version == m.schema_version
    &&& n.document_id == m.document_id
    &&& n.document_type == m.document_type
    &&& n.vault_relative == m.vault_relative
    &&& n.previous_paths == m.previous_paths
    &&& n.layout_path == m.layout_path
    &&& n.identity == m.identity
    &&& n.frontmatter_contract == m.frontmatter_contract
    &&& n.content_policy == m.content_policy
    &&& n.created_at == m.created_at
}


/// What restoring orphaned metadata did: the manifest's original paths are
/// the ones changed.
pub fn restored_result(
    manifest: &OrphanManifest,
    document_id: &str,
    markdown_relative_path: &str,
    scan: Option<WorkspaceScanResult>,
) -> (r: RecoveryResult)
    ensures
        r.action@ == "restore_orphaned_document_metadata"@,
        opt_string_view(r.document_id) == Some(document_id@),
        opt_string_view(r.markdown_relative_path) == Some(normalized_path(markdown_relative_path@)),
        changed_views(r) == seq![manifest.original_metadata_path@, manifest.original_layout_path@],
        r.message@ == "Orphaned metadata was restored after matching the Markdown identity comment."@,
        r.scan == scan,
{
    let c = chars_of(markdown_relative_path);
    let p = crate::text::replace_char_exec(c.as_slice(), '\\', '/');
    let mut changed: Vec<String> = Vec::new();
    changed.push(manifest.original_metadata_path.clone());
    changed.push(manifest.original_layout_path.clone());
    assert(string_views(changed@) =~= seq![manifest.original_metadata_path@, manifest.original_layout_path@]);
    RecoveryResult {
        action: owned("restore_orphaned_document_metadata"),
        document_id: Some(owned(document_id)),
        markdown_relative_path: Some(string_of(p.as_slice())),
        changed_paths: changed,
        message: owned("Orphaned metadata was restored after matching the Markdown identity comment."),
        scan,
    }
}


/// What repointing the frontmatter did.
pub fn frontmatter_repaired_result(document_id: &str, current_path: &str, scan: Option<WorkspaceScanResult>) -> (r:
    RecoveryResult)
    ensures
        r.action@ == "repair_document_frontmatter_reference"@,
        opt_string_view(r.document_id) == Some(document_id@),
        opt_string_view(r.markdown_relative_path) == Some(current_path@),
        changed_views(r) == seq![current_path@],
        r.message@
            == "Markdown frontmatter now points to the document metadata path for this document ID."@,
        r.scan == scan,
{
    let mut changed: Vec<String> = Vec::new();
    changed.push(owned(current_path));
    assert(string_views(changed@) =~= seq![current_path@]);
    RecoveryResult {
        action: owned("repair_document_frontmatter_reference"),
        document_id: Some(owned(document_id)),
        markdown_relative_path: Some(owned(current_path)),
        changed_paths: changed,
        message: owned("Markdown frontmatter now points to the document metadata path for this document ID."),
        scan,
    }
}

} // verus!
