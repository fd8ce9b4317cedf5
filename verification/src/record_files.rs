//! The Markdown record files of the notes and todos modules: where a record
//! lives, how a new one is made, and what updating, renaming and reading
//! one does.  The two modules differ only in their names and defaults.
use vstd::prelude::*;
use crate::document_identity::without_identity_comments;
use crate::document_metadata::{
    default_metadata_error, default_metadata_fields, metadata_check, DocumentMetadata, DocumentMetadataService,
};
use crate::layout_metadata::{LayoutMetadata, LayoutMetadataService};
use crate::markdown_document::{managed_markdown, MarkdownDocumentService};
use crate::markdown_parser::{MarkdownParser, ParsedEntityContract};
use crate::module_schema::ModuleSchema;
use crate::records::{body_with_title, cleaned_title, new_record_body, record_title, retitled, slug_of};
use crate::text::{append_str, chars_of, has_prefix, has_suffix, owned, string_of, string_views};

verus! {

/// Which module's records.
#[derive(Debug, Clone, Copy, PartialEq, Eq, Structural)]
pub enum RecordKind {
    Note,
    Todo,
}

/// The module folder of a kind of record.
pub open spec fn module_folder(k: RecordKind) -> Seq<char> {
    match k {
        RecordKind::Note => "notes"@,
        RecordKind::Todo => "todos"@,
    }
}

/// The document type recorded in a record's metadata.
pub open spec fn record_type(k: RecordKind) -> Seq<char> {
    match k {
        RecordKind::Note => "note"@,
        RecordKind::Todo => "todos"@,
    }
}

/// The title of a record whose title is blank.
pub open spec fn default_title(k: RecordKind) -> Seq<char> {
    match k {
        RecordKind::Note => "Untitled Note"@,
        RecordKind::Todo => "Untitled task"@,
    }
}

/// The slug of a record whose title has none.
pub open spec fn default_slug(k: RecordKind) -> Seq<char> {
    match k {
        RecordKind::Note => "untitled-note"@,
        RecordKind::Todo => "untitled-task"@,
    }
}

/// What follows the title line of a new record with a blank body.
pub open spec fn empty_tail(k: RecordKind) -> Seq<char> {
    match k {
        RecordKind::Note => ""@,
        RecordKind::Todo => "\nStatus: Not started\nPriority: Medium\n"@,
    }
}

/// The name of a record in messages.
pub open spec fn record_noun(k: RecordKind) -> Seq<char> {
    match k {
        RecordKind::Note => "note"@,
        RecordKind::Todo => "todos"@,
    }
}

/// The folder that holds a kind of record, relative to the vault.
pub open spec fn data_folder(k: RecordKind) -> Seq<char> {
    "modules/"@ + module_folder(k) + "/data/"@
}

fn kind_text(k: RecordKind, note: &'static str, todo: &'static str) -> (r: &'static str)
    ensures
        r@ == match k {
            RecordKind::Note => note@,
            RecordKind::Todo => todo@,
        },
{
    match k {
        RecordKind::Note => note,
        RecordKind::Todo => todo,
    }
}

fn folder_of(k: RecordKind) -> (r: &'static str)
    ensures
        r@ == data_folder(k),
{
    proof {
        reveal_strlit("modules/notes/data/");
        reveal_strlit("modules/todos/data/");
        reveal_strlit("notes");
        reveal_strlit("todos");
        reveal_strlit("modules/");
        reveal_strlit("/data/");
    }
    kind_text(k, "modules/notes/data/", "modules/todos/data/")
}

/// The path of a record with the given title.
pub open spec fn path_for_title(k: RecordKind, title: Seq<char>) -> Seq<char> {
    data_folder(k) + slug_of(title, default_slug(k)) + ".md"@
}

/// The path of a record with the given title.
pub fn record_path_for_title(kind: RecordKind, title: &str) -> (r: String)
    ensures
        r@ == path_for_title(kind, title@),
{
    let slug = crate::records::slugify(title, kind_text(kind, "untitled-note", "untitled-task"));
    proof {
        reveal_strlit("untitled-note");
        reveal_strlit("untitled-task");
    }
    let mut v = chars_of(folder_of(kind));
    append_str(&mut v, slug.as_str());
    append_str(&mut v, ".md");
    string_of(v.as_slice())
}

/// The refusal of a path outside a module's records.
pub open spec fn content_path_error(k: RecordKind) -> Seq<char> {
    match k {
        RecordKind::Note => "V3 notes must live under modules/notes/data/ as Markdown files."@,
        RecordKind::Todo => "V3 todos must live under modules/todos/data/ as Markdown files."@,
    }
}

/// A record lives under its module's data folder, as a Markdown file,
/// with no layout folder in its path.
pub open spec fn valid_content_path(k: RecordKind, path: Seq<char>) -> bool {
    has_prefix(path, data_folder(k)) && has_suffix(path, ".md"@) && !crate::text::contains(path, ".bentolifelayout"@)
}

/// Checks that a path is one a record may live at.
pub fn validate_record_content_path(kind: RecordKind, path: &str) -> (r: Result<(), String>)
    ensures
        match r {
            Ok(_) => valid_content_path(kind, path@),
            Err(e) => !valid_content_path(kind, path@) && e@ == content_path_error(kind),
        },
{
    let p = chars_of(path);
    proof {
        reveal_strlit("V3 notes must live under modules/notes/data/ as Markdown files.");
        reveal_strlit("V3 todos must live under modules/todos/data/ as Markdown files.");
    }
    if crate::text::starts_with_str(p.as_slice(), folder_of(kind)) && crate::text::ends_with_str(p.as_slice(), ".md")
        && !crate::text::contains_str(p.as_slice(), ".bentolifelayout") {
        Ok(())
    } else {
        Err(
            owned(
                kind_text(
                    kind,
                    "V3 notes must live under modules/notes/data/ as Markdown files.",
                    "V3 todos must live under modules/todos/data/ as Markdown files.",
                ),
            ),
        )
    }
}

/// The candidate paths of a new record: the slug, then the slug with `-1`,
/// `-2` and so on.
pub open spec fn candidate_path(k: RecordKind, slug: Seq<char>, index: nat) -> Seq<char> {
    if index == 0 {
        data_folder(k) + slug + ".md"@
    } else {
        data_folder(k) + slug + "-"@ + crate::storage::decimal(index) + ".md"@
    }
}

fn candidate_path_exec(kind: RecordKind, slug: &str, index: u64) -> (r: String)
    ensures
        r@ == candidate_path(kind, slug@, index as nat),
{
    let mut v = chars_of(folder_of(kind));
    append_str(&mut v, slug);
    if index > 0 {
        append_str(&mut v, "-");
        let d = crate::storage::decimal_exec(index);
        crate::text::append(&mut v, d.as_slice());
    }
    append_str(&mut v, ".md");
    string_of(v.as_slice())
}

/// The refusal when every candidate path is taken.
pub open spec fn no_filename_error(k: RecordKind) -> Seq<char> {
    match k {
        RecordKind::Note => "Unable to find an available note filename."@,
        RecordKind::Todo => "Unable to find an available todos filename."@,
    }
}

/// The first of the hundred candidate paths for a title that is not among
/// the existing paths.
pub fn unique_record_path(kind: RecordKind, title: &str, existing_paths: &Vec<String>) -> (r: Result<String, String>)
    ensures
        match r {
            Ok(p) => exists|i: nat|
                #![trigger candidate_path(kind, slug_of(title@, default_slug(kind)), i)]
                i < 100 && p@ == candidate_path(kind, slug_of(title@, default_slug(kind)), i) && !string_views(
                    existing_paths@,
                ).contains(p@) && forall|j: nat|
                    j < i ==> string_views(existing_paths@).contains(
                        #[trigger] candidate_path(kind, slug_of(title@, default_slug(kind)), j),
                    ),
            Err(e) => e@ == no_filename_error(kind) && forall|j: nat|
                j < 100 ==> string_views(existing_paths@).contains(
                    #[trigger] candidate_path(kind, slug_of(title@, default_slug(kind)), j),
                ),
        },
{
    let slug = crate::records::slugify(title, kind_text(kind, "untitled-note", "untitled-task"));
    proof {
        reveal_strlit("untitled-note");
        reveal_strlit("untitled-task");
        reveal_strlit("Unable to find an available note filename.");
        reveal_strlit("Unable to find an available todos filename.");
    }
    let ghost sl = slug_of(title@, default_slug(kind));
    let mut index: u64 = 0;
    while index < 100
        invariant
            index <= 100,
            slug@ == sl,
            sl == slug_of(title@, default_slug(kind)),
            forall|j: nat| j < index ==> string_views(existing_paths@).contains(#[trigger] candidate_path(kind, sl, j)),
        decreases 100 - index,
    {
        let candidate = candidate_path_exec(kind, slug.as_str(), index);
        if !crate::module_schema::contains_text(existing_paths, &candidate) {
            assert(candidate@ == candidate_path(kind, sl, index as nat));
            assert(sl == slug_of(title@, default_slug(kind)));
            let ghost w: nat = index as nat;
            assert(w < 100 && candidate@ == candidate_path(kind, slug_of(title@, default_slug(kind)), w) && !string_views(
                existing_paths@,
            ).contains(candidate@) && forall|j: nat|
                j < w ==> string_views(existing_paths@).contains(
                    #[trigger] candidate_path(kind, slug_of(title@, default_slug(kind)), j),
                ));
            return Ok(candidate);
        }
        index = index + 1;
    }
    Err(owned(kind_text(kind, "Unable to find an available note filename.", "Unable to find an available todos filename.")))
}

/// The refusal of a write over a record changed outside the app.
pub open spec fn stale_write_error(k: RecordKind) -> Seq<char> {
    match k {
        RecordKind::Note => "Note was changed outside BentoLife. Reload latest, save as copy, or choose overwrite before saving."@,
        RecordKind::Todo => "Todos was changed outside BentoLife. Rescan or reopen the task before saving so external Markdown edits are preserved."@,
    }
}

/// Refuses a write when the hash of the record's current Markdown differs
/// from the hash the write expects, unless the conflict is to be
/// overwritten.
pub fn stale_write_decision(kind: RecordKind, current_hash: &str, expected_hash: &str, overwrite_conflict: bool) -> (r:
    Result<(), String>)
    ensures
        r is Ok <==> (overwrite_conflict || current_hash@ == expected_hash@),
        r matches Err(e) ==> e@ == stale_write_error(kind),
{
    if overwrite_conflict {
        return Ok(());
    }
    let a = chars_of(current_hash);
    let b = chars_of(expected_hash);
    if crate::text::seq_eq(a.as_slice(), b.as_slice()) {
        Ok(())
    } else {
        proof {
            reveal_strlit(
                "Note was changed outside BentoLife. Reload latest, save as copy, or choose overwrite before saving.",
            );
            reveal_strlit(
                "Todos was changed outside BentoLife. Rescan or reopen the task before saving so external Markdown edits are preserved.",
            );
        }
        Err(
            owned(
                kind_text(
                    kind,
                    "Note was changed outside BentoLife. Reload latest, save as copy, or choose overwrite before saving.",
                    "Todos was changed outside BentoLife. Rescan or reopen the task before saving so external Markdown edits are preserved.",
                ),
            ),
        )
    }
}

/// Refuses a write over a record whose current Markdown was changed since
/// the expected hash was taken, unless the conflict is to be overwritten:
/// the hash of the current Markdown is taken and compared.  Overwriting
/// always passes; what else passes rests on the hash.
pub fn reject_stale_write(kind: RecordKind, current_markdown: &str, expected_hash: &str, overwrite_conflict: bool) -> (r:
    Result<(), String>)
    ensures
        r is Ok <==> (overwrite_conflict || crate::storage::text_hash(current_markdown@) == expected_hash@),
        r matches Err(e) ==> e@ == stale_write_error(kind),
{
    if overwrite_conflict {
        return Ok(());
    }
    let current = crate::storage::content_hash(current_markdown);
    stale_write_decision(kind, current.as_str(), expected_hash, false)
}

/// A new record, ready to be written: its path, id, managed Markdown, and
/// its document and layout metadata.
#[derive(Debug)]
pub struct NewRecord {
    pub markdown_relative_path: String,
    pub document_id: String,
    pub markdown: String,
    pub document_metadata: DocumentMetadata,
    pub layout_metadata: LayoutMetadata,
}

/// What a new record holds, given the title, body, path and id it was made
/// with.
pub open spec fn new_record_fields(
    r: NewRecord,
    k: RecordKind,
    title: Seq<char>,
    body: Seq<char>,
) -> bool {
    let t = cleaned_title(title, default_title(k));
    let b = new_record_body(t, body, empty_tail(k));
    let id = r.document_id@;
    &&& crate::storage::is_document_id(id)
    &&& valid_content_path(k, r.markdown_relative_path@)
    &&& r.markdown@ == managed_markdown(b, id, crate::document_metadata::metadata_relative(id))
    &&& default_metadata_fields(
        DocumentMetadata { content_hash: r.document_metadata.content_hash, ..r.document_metadata },
        id,
        r.markdown_relative_path@,
        record_type(k),
    )
    &&& crate::storage::is_hash_label(r.document_metadata.content_hash@)
    &&& crate::layout_metadata::default_layout_fields(r.layout_metadata, id)
    &&& r.layout_metadata.cards@.len() == 0
}

/// The candidate at `i` is the first one that is not among the existing
/// paths.
pub open spec fn first_free_candidate(k: RecordKind, slug: Seq<char>, existing: Seq<Seq<char>>, i: nat) -> bool {
    &&& i < 100
    &&& !existing.contains(candidate_path(k, slug, i))
    &&& forall|j: nat| j < i ==> existing.contains(#[trigger] candidate_path(k, slug, j))
}

/// Why a new record with this title is refused, if it is: every candidate
/// path taken, or the first free one refused as a record path or as a
/// vault-relative path.
pub open spec fn new_record_error(k: RecordKind, title: Seq<char>, existing: Seq<Seq<char>>) -> Option<Seq<char>> {
    let slug = slug_of(cleaned_title(title, default_title(k)), default_slug(k));
    if !exists|i: nat| first_free_candidate(k, slug, existing, i) {
        Some(no_filename_error(k))
    } else {
        let p = candidate_path(k, slug, choose|i: nat| first_free_candidate(k, slug, existing, i));
        if !valid_content_path(k, p) {
            Some(content_path_error(k))
        } else {
            match crate::storage::vault_relative_check(p) {
                Err(e) => Some(e),
                Ok(_) => None,
            }
        }
    }
}

/// Makes a new record: the title cleaned, the first free candidate path,
/// the body normalised, a new id, default metadata of the module's type and
/// a default layout, and the Markdown placed under management (its hash
/// recorded).  Refused when every candidate path is taken, or when the id
/// or path is refused by the metadata checks.
pub fn new_record(
    kind: RecordKind,
    title: &str,
    markdown_body: Option<&str>,
    existing_paths: &Vec<String>,
    process_id: u32,
) -> (r: Result<NewRecord, String>)
    ensures
        match r {
            Ok(rec) => new_record_fields(
                rec,
                kind,
                title@,
                match markdown_body {
                    Some(b) => b@,
                    None => ""@,
                },
            ) && !string_views(existing_paths@).contains(rec.markdown_relative_path@)
                && new_record_error(kind, title@, string_views(existing_paths@)) is None
                && rec.markdown_relative_path@ == candidate_path(
                kind,
                slug_of(cleaned_title(title@, default_title(kind)), default_slug(kind)),
                choose|i: nat|
                    first_free_candidate(
                        kind,
                        slug_of(cleaned_title(title@, default_title(kind)), default_slug(kind)),
                        string_views(existing_paths@),
                        i,
                    ),
            ),
            Err(e) => new_record_error(kind, title@, string_views(existing_paths@)) == Some(e@),
        },
{
    proof {
        reveal_strlit("Untitled Note");
        reveal_strlit("Untitled task");
        reveal_strlit("");
        reveal_strlit("\nStatus: Not started\nPriority: Medium\n");
        reveal_strlit("note");
        reveal_strlit("todos");
    }
    let ghost title_in = title@;
    let title = crate::records::clean_title(title, kind_text(kind, "Untitled Note", "Untitled task"));
    let ghost ex = string_views(existing_paths@);
    let ghost slug = slug_of(cleaned_title(title_in, default_title(kind)), default_slug(kind));
    assert(title@ == cleaned_title(title_in, default_title(kind)));
    let path = match unique_record_path(kind, title.as_str(), existing_paths) {
        Ok(p) => p,
        Err(e) => {
            proof {
                if exists|i: nat| first_free_candidate(kind, slug, ex, i) {
                    let i = choose|i: nat| first_free_candidate(kind, slug, ex, i);
                    assert(ex.contains(candidate_path(kind, slug, i)));
                }
            }
            return Err(e);
        },
    };
    proof {
        let w = choose|w: nat|
            #![trigger candidate_path(kind, slug, w)]
            w < 100 && path@ == candidate_path(kind, slug, w) && !ex.contains(path@) && forall|j: nat|
                j < w ==> ex.contains(#[trigger] candidate_path(kind, slug, j));
        assert(first_free_candidate(kind, slug, ex, w));
        let i = choose|i: nat| first_free_candidate(kind, slug, ex, i);
        if i < w {
            assert(ex.contains(candidate_path(kind, slug, i)));
        }
        if w < i {
            assert(ex.contains(candidate_path(kind, slug, w)));
        }
        assert(i == w);
    }
    match validate_record_content_path(kind, path.as_str()) {
        Ok(_) => {},
        Err(e) => {
            return Err(e);
        },
    }
    let body_in = match markdown_body {
        Some(b) => b,
        None => "",
    };
    let body = crate::records::normalize_record_body(
        title.as_str(),
        body_in,
        kind_text(kind, "", "\nStatus: Not started\nPriority: Medium\n"),
    );
    let document_id = crate::storage::generate_document_id(path.as_str(), process_id);
    proof {
        crate::storage::lemma_generated_id_valid(document_id@);
    }
    let metadata = match DocumentMetadataService::create_default_with_type(
        document_id.as_str(),
        path.as_str(),
        body.as_str(),
        kind_text(kind, "note", "todos"),
    ) {
        Ok(m) => m,
        Err(e) => {
            return Err(e);
        },
    };
    let layout = match LayoutMetadataService::create_default(document_id.as_str()) {
        Ok(l) => l,
        Err(e) => {
            return Err(e);
        },
    };
    let managed = MarkdownDocumentService::prepare_managed_markdown(
        body.as_str(),
        document_id.as_str(),
        metadata.frontmatter_contract.required_value.as_str(),
    );
    let mut metadata = metadata;
    let ghost before = metadata;
    metadata.content_hash = crate::storage::content_hash(managed.as_str());
    assert(DocumentMetadata { content_hash: metadata.content_hash, ..metadata } == DocumentMetadata {
        content_hash: metadata.content_hash,
        ..before
    });
    Ok(NewRecord {
        markdown_relative_path: path,
        document_id,
        markdown: managed,
        document_metadata: metadata,
        layout_metadata: layout,
    })
}

/// A record's metadata and Markdown after its body was updated: the
/// module's type is recorded, the body gets a title where it is blank and
/// is placed under management, and the hash and time are renewed.  Refused
/// for a record path outside the module's data folder.
pub fn update_record(kind: RecordKind, metadata: DocumentMetadata, markdown_body: &str) -> (r: Result<
    (DocumentMetadata, String),
    String,
>)
    ensures
        match r {
            Ok(p) => {
                &&& valid_content_path(kind, metadata.current_path@)
                &&& p.1@ == managed_markdown(
                    body_with_title(markdown_body@, metadata.current_path@, default_title(kind)),
                    metadata.document_id@,
                    metadata.frontmatter_contract.required_value@,
                )
                &&& p.0.document_type@ == record_type(kind)
                &&& p.0.content_hash@ == crate::storage::text_hash(p.1@)
                &&& exists|s: u64| p.0.updated_at@ == crate::storage::timestamp_label(s as nat)
                &&& p.0 == (DocumentMetadata {
                    document_type: p.0.document_type,
                    content_hash: p.0.content_hash,
                    updated_at: p.0.updated_at,
                    ..metadata
                })
            },
            Err(e) => !valid_content_path(kind, metadata.current_path@) && e@ == content_path_error(kind),
        },
{
    proof {
        reveal_strlit("Untitled Note");
        reveal_strlit("Untitled task");
        reveal_strlit("note");
        reveal_strlit("todos");
    }
    let mut metadata = metadata;
    metadata.document_type = owned(kind_text(kind, "note", "todos"));
    match validate_record_content_path(kind, metadata.current_path.as_str()) {
        Ok(_) => {},
        Err(e) => {
            return Err(e);
        },
    }
    let body = crate::records::ensure_title_fallback(
        markdown_body,
        metadata.current_path.as_str(),
        kind_text(kind, "Untitled Note", "Untitled task"),
    );
    let managed = MarkdownDocumentService::prepare_managed_markdown(
        body.as_str(),
        metadata.document_id.as_str(),
        metadata.frontmatter_contract.required_value.as_str(),
    );
    metadata.content_hash = crate::storage::content_hash(managed.as_str());
    metadata.updated_at = crate::storage::current_timestamp_label();
    Ok((metadata, managed))
}

/// The refusal of a rename onto a path that is taken.
pub open spec fn rename_collision_error(k: RecordKind, path: Seq<char>) -> Seq<char> {
    "A "@ + record_noun(k) + " already exists at "@ + path + "."@
}

/// What renaming a record does to its metadata and Markdown, and whether
/// the file moves.
#[derive(Debug)]
pub struct RenamedRecord {
    pub document_metadata: DocumentMetadata,
    pub markdown: String,
    pub markdown_body: String,
    pub moved_from: Option<String>,
}

/// Renames a record: the title cleaned, the path that title gives, the
/// body's `# ` heading replaced (or inserted), and, where the path changes,
/// the old path recorded among the previous ones.  Refused for paths
/// outside the module's data folder, or when the new path is taken by
/// another file (`new_path_exists`).
pub fn rename_record(
    kind: RecordKind,
    metadata: DocumentMetadata,
    markdown_body: &str,
    new_title: &str,
    new_path_exists: bool,
) -> (r: Result<RenamedRecord, String>)
    ensures
        ({
            let t = cleaned_title(new_title@, default_title(kind));
            let np = path_for_title(kind, t);
            let cp = metadata.current_path@;
            match r {
                Ok(rr) => {
                    &&& valid_content_path(kind, cp)
                    &&& valid_content_path(kind, np)
                    &&& !(np != cp && new_path_exists)
                    &&& rr.markdown_body@ == retitled(markdown_body@, t)
                    &&& rr.markdown@ == managed_markdown(
                        retitled(markdown_body@, t),
                        metadata.document_id@,
                        metadata.frontmatter_contract.required_value@,
                    )
                    &&& rr.document_metadata.document_type@ == record_type(kind)
                    &&& rr.document_metadata.current_path@ == np
                    &&& string_views(rr.document_metadata.previous_paths@) == if np != cp {
                        crate::workspace_scanner::moved_previous_paths(string_views(metadata.previous_paths@), cp)
                    } else {
                        string_views(metadata.previous_paths@)
                    }
                    &&& crate::theme::opt_string_view(rr.moved_from) == if np != cp {
                        Some(cp)
                    } else {
                        None
                    }
                    &&& crate::storage::is_hash_label(rr.document_metadata.content_hash@)
                    &&& exists|s: u64| rr.document_metadata.updated_at@ == crate::storage::timestamp_label(s as nat)
                    &&& rr.document_metadata == (DocumentMetadata {
                        document_type: rr.document_metadata.document_type,
                        current_path: rr.document_metadata.current_path,
                        previous_paths: rr.document_metadata.previous_paths,
                        content_hash: rr.document_metadata.content_hash,
                        updated_at: rr.document_metadata.updated_at,
                        ..metadata
                    })
                },
                Err(e) => if !valid_content_path(kind, cp) {
                    e@ == content_path_error(kind)
                } else if !valid_content_path(kind, np) {
                    e@ == content_path_error(kind)
                } else {
                    np != cp && new_path_exists && e@ == rename_collision_error(kind, np)
                },
            }
        }),
{
    proof {
        reveal_strlit("Untitled Note");
        reveal_strlit("Untitled task");
        reveal_strlit("note");
        reveal_strlit("todos");
    }
    let mut metadata = metadata;
    metadata.document_type = owned(kind_text(kind, "note", "todos"));
    let title = crate::records::clean_title(new_title, kind_text(kind, "Untitled Note", "Untitled task"));
    let new_path = record_path_for_title(kind, title.as_str());
    let current = metadata.current_path.clone();
    match validate_record_content_path(kind, current.as_str()) {
        Ok(_) => {},
        Err(e) => {
            return Err(e);
        },
    }
    match validate_record_content_path(kind, new_path.as_str()) {
        Ok(_) => {},
        Err(e) => {
            return Err(e);
        },
    }
    let same = crate::text::eq_str_string(&new_path, &current);
    if !same && new_path_exists {
        let mut v = chars_of("A ");
        append_str(&mut v, kind_text(kind, "note", "todos"));
        append_str(&mut v, " already exists at ");
        append_str(&mut v, new_path.as_str());
        append_str(&mut v, ".");
        return Err(string_of(v.as_slice()));
    }
    let body = crate::records::replace_or_insert_h1(markdown_body, title.as_str());
    let managed = MarkdownDocumentService::prepare_managed_markdown(
        body.as_str(),
        metadata.document_id.as_str(),
        metadata.frontmatter_contract.required_value.as_str(),
    );
    let mut moved_from: Option<String> = None;
    if !same {
        let ghost before = string_views(metadata.previous_paths@);
        if !crate::module_schema::contains_text(&metadata.previous_paths, &current) {
            metadata.previous_paths.push(current.clone());
            assert(string_views(metadata.previous_paths@) =~= before.push(current@));
        }
        moved_from = Some(current);
        metadata.current_path = new_path;
    }
    metadata.content_hash = crate::storage::content_hash(managed.as_str());
    metadata.updated_at = crate::storage::current_timestamp_label();
    Ok(RenamedRecord { document_metadata: metadata, markdown: managed, markdown_body: body, moved_from })
}

/// What reading a record gives: its title, body, parsed entity and schema
/// warnings.
pub struct ReadRecord {
    pub title: String,
    pub markdown_body: String,
    pub parsed_entity: ParsedEntityContract,
    pub schema_warnings: Vec<String>,
}

/// The body of a record's Markdown: its frontmatter and identity comments
/// removed, trimmed.
pub open spec fn record_body(markdown: Seq<char>) -> Seq<char> {
    crate::text::trim(without_identity_comments(crate::markdown_document::parsed_frontmatter(markdown).1))
}

/// Reads a record from its metadata and Markdown: the body parsed as an
/// entity of the module, with the field descriptors and warnings of the
/// module's schema (`schema` is the outcome of loading it).  Refused for a
/// record path outside the module's data folder.
pub fn read_record(
    kind: RecordKind,
    metadata: &DocumentMetadata,
    markdown: &str,
    schema: Result<ModuleSchema, String>,
) -> (r: Result<ReadRecord, String>)
    ensures
        match r {
            Ok(rr) => {
                &&& valid_content_path(kind, metadata.current_path@)
                &&& rr.markdown_body@ == record_body(markdown@)
                &&& rr.title@ == record_title(record_body(markdown@), metadata.current_path@, default_title(kind))
                &&& crate::theme::opt_string_view(rr.parsed_entity.module_id) == Some(module_folder(kind))
                &&& crate::theme::opt_string_view(rr.parsed_entity.entity_type) == Some(record_type(kind))
                &&& rr.parsed_entity.path@ == metadata.current_path@
                &&& rr.parsed_entity.content_hash@ == metadata.content_hash@
                &&& crate::keyed::text_map(rr.parsed_entity.fields@) == crate::markdown_parser::parsed_fields(
                    record_body(markdown@),
                )
            },
            Err(e) => !valid_content_path(kind, metadata.current_path@) && e@ == content_path_error(kind),
        },
{
    proof {
        reveal_strlit("Untitled Note");
        reveal_strlit("Untitled task");
        reveal_strlit("note");
        reveal_strlit("todos");
        reveal_strlit("notes");
    }
    match validate_record_content_path(kind, metadata.current_path.as_str()) {
        Ok(_) => {},
        Err(e) => {
            return Err(e);
        },
    }
    let parsed = MarkdownDocumentService::parse_frontmatter(markdown);
    let without = crate::document_identity::DocumentIdentityService::remove_identity_comments(parsed.body.as_str());
    let trimmed = crate::text::trim_str(without.as_str());
    let body = string_of(trimmed.as_slice());
    let mut entity = MarkdownParser::parse(body.as_str());
    entity.module_id = Some(owned(kind_text(kind, "notes", "todos")));
    entity.entity_type = Some(owned(kind_text(kind, "note", "todos")));
    entity.path = metadata.current_path.clone();
    entity.content_hash = metadata.content_hash.clone();
    let ghost fields = entity.fields;
    let warnings = match crate::module_schema::apply_schema_descriptors(schema, &mut entity) {
        Ok(w) => w,
        Err(e) => {
            return Err(e);
        },
    };
    let title = crate::records::markdown_title(
        body.as_str(),
        metadata.current_path.as_str(),
        kind_text(kind, "Untitled Note", "Untitled task"),
    );
    Ok(ReadRecord { title, markdown_body: body, parsed_entity: entity, schema_warnings: warnings })
}

} // verus!
