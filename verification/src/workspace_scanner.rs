//! Scanning a vault's Markdown: which files are scanned, how each is
//! classified against its metadata, and the issues a scan reports.
use vstd::prelude::*;
use crate::document_metadata::DocumentMetadata;
use crate::layout_metadata::LayoutMetadata;
use crate::module_schema::ModuleSchema;
use crate::text::{chars_of, eq_str, owned, string_of, string_views};
use crate::workspace_metadata::{DocumentIndexEntry, WorkspaceIndex};

verus! {

/// How a scanned Markdown file stands.
#[derive(Debug, Clone, Copy, PartialEq, Eq, Structural)]
pub enum ScannedDocumentStatus {
    Managed,
    PlainMarkdown,
    MetadataMissing,
    LayoutMissing,
    MetadataPathMismatch,
    DuplicateIdentity,
}

/// A Markdown file found by a scan.
pub struct ScannedDocument {
    pub document_id: Option<String>,
    pub title: String,
    pub markdown_relative_path: String,
    pub metadata_path: Option<String>,
    pub layout_path: Option<String>,
    pub document_type: String,
    pub status: ScannedDocumentStatus,
    pub markdown: String,
    pub markdown_body: String,
    pub layout_metadata: Option<LayoutMetadata>,
    pub stale_layout_references: Vec<String>,
}

/// An issue a scan reports.
pub struct ScanIssue {
    pub code: String,
    pub message: String,
    pub document_id: Option<String>,
    pub markdown_relative_path: Option<String>,
    pub classification: String,
    pub suggested_action: Option<String>,
}

/// What a scan found.
pub struct WorkspaceScanResult {
    pub vault_path: String,
    pub documents: Vec<ScannedDocument>,
    pub issues: Vec<ScanIssue>,
    pub index: WorkspaceIndex,
}

/// A Markdown file read by a scan, before it is classified.
pub struct ScanCandidate {
    pub document_id: Option<String>,
    pub frontmatter_reference: Option<String>,
    pub markdown: String,
    pub markdown_body: String,
    pub markdown_relative_path: String,
}

/// Scans vaults.
pub struct WorkspaceScanner;

impl WorkspaceScanner {
    /// The service's name.
    pub fn service_name() -> (r: &'static str)
        ensures
            r@ == "WorkspaceScanner"@,
    {
        "WorkspaceScanner"
    }
}

/// A path with `\` read as `/`.
pub open spec fn normalized_path(p: Seq<char>) -> Seq<char> {
    crate::text::replace_char(p, '\\', '/')
}

/// A folder a scan does not enter: the layout folder, the trash and the
/// archive.
pub open spec fn skipped_folder(rel: Seq<char>) -> bool {
    let n = normalized_path(rel);
    n == ".bentolifelayout"@ || crate::text::has_prefix(n, ".bentolifelayout/"@) || n == "modules/trash"@
        || crate::text::has_prefix(n, "modules/trash/"@) || n == "modules/archive"@ || crate::text::has_prefix(
        n,
        "modules/archive/"@,
    )
}

/// Whether a scan skips a folder, given its path relative to the vault
/// (none for a folder outside it).
pub fn should_skip_active_scan_folder(relative: Option<&str>) -> (r: bool)
    ensures
        r == match relative {
            Some(p) => skipped_folder(p@),
            None => false,
        },
{
    match relative {
        None => false,
        Some(p) => {
            let c = chars_of(p);
            let n = crate::text::replace_char_exec(c.as_slice(), '\\', '/');
            eq_str(n.as_slice(), ".bentolifelayout") || crate::text::starts_with_str(n.as_slice(), ".bentolifelayout/")
                || eq_str(n.as_slice(), "modules/trash") || crate::text::starts_with_str(n.as_slice(), "modules/trash/")
                || eq_str(n.as_slice(), "modules/archive") || crate::text::starts_with_str(
                n.as_slice(),
                "modules/archive/",
            )
        },
    }
}

/// A Markdown file the app owns: the navigator's and the trash's and
/// archive's indexes, and each module's `MODULE.md`.
pub open spec fn app_owned_markdown(p: Seq<char>) -> bool {
    p == "modules/navigator/INDEX.md"@ || p == "modules/navigator/NAVIGATOR.md"@ || p == "modules/trash/INDEX.md"@
        || p == "modules/archive/INDEX.md"@ || (crate::text::has_prefix(p, "modules/"@) && crate::text::has_suffix(
        p,
        "/MODULE.md"@,
    ))
}

/// Whether the app owns a Markdown file.
pub fn is_app_owned_system_markdown_path(relative_path: &str) -> (r: bool)
    ensures
        r == app_owned_markdown(relative_path@),
{
    let p = chars_of(relative_path);
    eq_str(p.as_slice(), "modules/navigator/INDEX.md") || eq_str(p.as_slice(), "modules/navigator/NAVIGATOR.md")
        || eq_str(p.as_slice(), "modules/trash/INDEX.md") || eq_str(p.as_slice(), "modules/archive/INDEX.md") || (
    crate::text::starts_with_str(p.as_slice(), "modules/") && crate::text::ends_with_str(p.as_slice(), "/MODULE.md"))
}

/// Whether a scan skips a Markdown file, given its path relative to the
/// vault (none for a file outside it).
pub fn should_skip_active_scan_markdown_file(relative: Option<&str>) -> (r: bool)
    ensures
        r == match relative {
            Some(p) => app_owned_markdown(normalized_path(p@)),
            None => false,
        },
{
    match relative {
        None => false,
        Some(p) => {
            let c = chars_of(p);
            let n = crate::text::replace_char_exec(c.as_slice(), '\\', '/');
            let s = string_of(n.as_slice());
            is_app_owned_system_markdown_path(s.as_str())
        },
    }
}

/// The title of a scanned document: its first `# ` heading, or its file
/// stem, or `Untitled`.
pub fn markdown_title(markdown_body: &str, markdown_relative_path: &str) -> (r: String)
    ensures
        r@ == crate::records::record_title(markdown_body@, markdown_relative_path@, "Untitled"@),
{
    crate::records::markdown_title(markdown_body, markdown_relative_path, "Untitled")
}

/// The parts of a scan issue.
pub open spec fn issue_is(
    i: ScanIssue,
    code: Seq<char>,
    message: Seq<char>,
    document_id: Option<Seq<char>>,
    path: Option<Seq<char>>,
    classification: Seq<char>,
    action: Option<Seq<char>>,
) -> bool {
    &&& i.code@ == code
    &&& i.message@ == message
    &&& crate::theme::opt_string_view(i.document_id) == document_id
    &&& crate::theme::opt_string_view(i.markdown_relative_path) == path
    &&& i.classification@ == classification
    &&& crate::theme::opt_string_view(i.suggested_action) == action
}

fn opt_copy(o: &Option<String>) -> (r: Option<String>)
    ensures
        crate::theme::opt_string_view(r) == crate::theme::opt_string_view(*o),
{
    match o {
        Some(s) => Some(s.clone()),
        None => None,
    }
}

fn issue(
    code: &str,
    message: String,
    document_id: &Option<String>,
    path: Option<&str>,
    classification: &str,
    action: Option<&str>,
) -> (r: ScanIssue)
    ensures
        issue_is(
            r,
            code@,
            message@,
            crate::theme::opt_string_view(*document_id),
            match path {
                Some(p) => Some(p@),
                None => None,
            },
            classification@,
            match action {
                Some(a) => Some(a@),
                None => None,
            },
        ),
{
    ScanIssue {
        code: owned(code),
        message,
        document_id: opt_copy(document_id),
        markdown_relative_path: match path {
            Some(p) => Some(owned(p)),
            None => None,
        },
        classification: owned(classification),
        suggested_action: match action {
            Some(a) => Some(owned(a)),
            None => None,
        },
    }
}

/// The views of scan issues: code, message, document ID, path,
/// classification and action.
pub open spec fn issue_views(v: Seq<ScanIssue>) -> Seq<(Seq<char>, Seq<char>, Option<Seq<char>>, Option<Seq<char>>, Seq<char>, Option<Seq<char>>)> {
    v.map_values(
        |i: ScanIssue|
            (
                i.code@,
                i.message@,
                crate::theme::opt_string_view(i.document_id),
                crate::theme::opt_string_view(i.markdown_relative_path),
                i.classification@,
                crate::theme::opt_string_view(i.suggested_action),
            ),
    )
}

/// The schema issues of a module record: the schema could not be loaded;
/// or each field the schema does not allow; and the unknown Markdown
/// blocks, counted.
pub open spec fn schema_issue_views(
    label: Seq<char>,
    parsed: crate::markdown_parser::ParsedEntityContract,
    document_id: Option<Seq<char>>,
    path: Seq<char>,
    schema: Result<ModuleSchema, String>,
) -> Seq<(Seq<char>, Seq<char>, Option<Seq<char>>, Option<Seq<char>>, Seq<char>, Option<Seq<char>>)> {
    match schema {
        Err(e) => seq![
            ("module_schema_missing"@, label + " module schema could not be loaded: "@ + e@, document_id, Some(path),
                "schema_warning"@, None),
        ],
        Ok(s) => unknown_field_issues(label, parsed.fields@, crate::module_schema::allowed_names(s.fields@), document_id, path)
            + if parsed.unknown_blocks@.len() > 0 {
            seq![
                ("unknown_markdown_block"@, label + " contains "@ + crate::storage::decimal(parsed.unknown_blocks@.len())
                    + " unknown Markdown block(s), preserved for fallback rendering."@, document_id, Some(path),
                    "preserved_unknown_content"@, None),
            ]
        } else {
            seq![]
        },
    }
}

/// The issues of fields a schema does not allow, in order.
pub open spec fn unknown_field_issues(
    label: Seq<char>,
    fields: Seq<(String, String)>,
    allowed: Seq<Seq<char>>,
    document_id: Option<Seq<char>>,
    path: Seq<char>,
) -> Seq<(Seq<char>, Seq<char>, Option<Seq<char>>, Option<Seq<char>>, Seq<char>, Option<Seq<char>>)>
    decreases fields.len(),
{
    if fields.len() == 0 {
        seq![]
    } else {
        let rest = unknown_field_issues(label, fields.drop_last(), allowed, document_id, path);
        let k = fields.last().0@;
        if allowed.contains(crate::module_schema::normalized_field(k)) {
            rest
        } else {
            rest.push(
                ("unknown_schema_field"@, label + " contains unknown schema field '"@ + k
                    + "', which will be safely preserved."@, document_id, Some(path), "schema_warning"@, None),
            )
        }
    }
}

fn text3(a: &str, b: &str, c: &str) -> (r: String)
    ensures
        r@ == a@ + b@ + c@,
{
    let mut v = chars_of(a);
    crate::text::append_str(&mut v, b);
    crate::text::append_str(&mut v, c);
    string_of(v.as_slice())
}

/// The schema issues of a module record, parsed (see
/// `schema_issue_views`); `schema` is the outcome of loading its module's
/// schema.
pub fn schema_issues(
    label: &str,
    parsed: &crate::markdown_parser::ParsedEntityContract,
    document_id: &Option<String>,
    markdown_relative_path: &str,
    schema: Result<ModuleSchema, String>,
) -> (r: Vec<ScanIssue>)
    ensures
        issue_views(r@) == schema_issue_views(
            label@,
            *parsed,
            crate::theme::opt_string_view(*document_id),
            markdown_relative_path@,
            schema,
        ),
{
    let mut out: Vec<ScanIssue> = Vec::new();
    match schema {
        Err(e) => {
            out.push(issue(
                "module_schema_missing",
                text3(label, " module schema could not be loaded: ", e.as_str()),
                document_id,
                Some(markdown_relative_path),
                "schema_warning",
                None,
            ));
            assert(issue_views(out@) =~= schema_issue_views(
                label@,
                *parsed,
                crate::theme::opt_string_view(*document_id),
                markdown_relative_path@,
                schema,
            ));
            out
        },
        Ok(s) => {
            let allowed = s.allowed_field_names();
            let ghost al = crate::module_schema::allowed_names(s.fields@);
            let ghost did = crate::theme::opt_string_view(*document_id);
            let n = parsed.fields.len();
            let mut i: usize = 0;
            assert(parsed.fields@.take(0) =~= Seq::<(String, String)>::empty());
            while i < n
                invariant
                    n == parsed.fields@.len(),
                    i <= n,
                    al == crate::module_schema::allowed_names(s.fields@),
                    string_views(allowed@).to_set() == al.to_set(),
                    did == crate::theme::opt_string_view(*document_id),
                    issue_views(out@) == unknown_field_issues(label@, parsed.fields@.take(i as int), al, did, markdown_relative_path@),
                decreases n - i,
            {
                assert(parsed.fields@.take(i + 1).drop_last() =~= parsed.fields@.take(i as int));
                assert(parsed.fields@.take(i + 1).last() == parsed.fields@[i as int]);
                let k = &parsed.fields[i].0;
                let nk = crate::module_schema::normalize_field(k.as_str());
                let found = crate::module_schema::contains_text(&allowed, &nk);
                assert(string_views(allowed@).to_set().contains(nk@) == string_views(allowed@).contains(nk@));
                assert(al.to_set().contains(nk@) == al.contains(nk@));
                if !found {
                    let ghost b = issue_views(out@);
                    let mut m = chars_of(label);
                    crate::text::append_str(&mut m, " contains unknown schema field '");
                    crate::text::append_str(&mut m, k.as_str());
                    crate::text::append_str(&mut m, "', which will be safely preserved.");
                    out.push(issue(
                        "unknown_schema_field",
                        string_of(m.as_slice()),
                        document_id,
                        Some(markdown_relative_path),
                        "schema_warning",
                        None,
                    ));
                    assert(issue_views(out@) =~= b.push(issue_views(out@).last()));
                }
                i = i + 1;
            }
            assert(parsed.fields@.take(n as int) =~= parsed.fields@);
            let ghost mid = issue_views(out@);
            if parsed.unknown_blocks.len() > 0 {
                let d = crate::storage::decimal_exec(parsed.unknown_blocks.len() as u64);
                let mut m = chars_of(label);
                crate::text::append_str(&mut m, " contains ");
                crate::text::append(&mut m, d.as_slice());
                crate::text::append_str(&mut m, " unknown Markdown block(s), preserved for fallback rendering.");
                out.push(issue(
                    "unknown_markdown_block",
                    string_of(m.as_slice()),
                    document_id,
                    Some(markdown_relative_path),
                    "preserved_unknown_content",
                    None,
                ));
                assert(issue_views(out@) =~= mid.push(issue_views(out@).last()));
            }
            assert(issue_views(out@) =~= schema_issue_views(
                label@,
                *parsed,
                crate::theme::opt_string_view(*document_id),
                markdown_relative_path@,
                schema,
            ));
            out
        },
    }
}


/// The view of a scan issue that asks for recovery.
pub open spec fn recovery_issue_view(
    code: Seq<char>,
    message: Seq<char>,
    document_id: Option<Seq<char>>,
    path: Option<Seq<char>>,
) -> (Seq<char>, Seq<char>, Option<Seq<char>>, Option<Seq<char>>, Seq<char>, Option<Seq<char>>) {
    (code, message, document_id, path, "recovery_issue"@, Some("Open Recovery"@))
}

fn recovery_issue(code: &str, message: &str, document_id: &Option<String>, path: Option<&str>) -> (r: ScanIssue)
    ensures
        issue_views(seq![r])[0] == recovery_issue_view(
            code@,
            message@,
            crate::theme::opt_string_view(*document_id),
            match path {
                Some(p) => Some(p@),
                None => None,
            },
        ),
{
    issue(code, owned(message), document_id, path, "recovery_issue", Some("Open Recovery"))
}

/// The candidate read from a Markdown file at a vault-relative path: its
/// identity comment's id, its frontmatter's metadata reference and its body.
pub open spec fn candidate_fields(c: ScanCandidate, markdown: Seq<char>, path: Seq<char>) -> bool {
    let parsed = crate::markdown_document::parsed_frontmatter(markdown);
    &&& crate::theme::opt_string_view(c.document_id) == match crate::document_identity::identity_comment(markdown) {
        Some(p) => Some(p.0),
        None => None::<Seq<char>>,
    }
    &&& crate::theme::opt_string_view(c.frontmatter_reference) == parsed.0
    &&& c.markdown@ == markdown
    &&& c.markdown_body@ == parsed.1
    &&& c.markdown_relative_path@ == path
}

/// Reads a Markdown file's text into a scan candidate.
pub fn scan_candidate(markdown: String, markdown_relative_path: String) -> (r: ScanCandidate)
    ensures
        candidate_fields(r, markdown@, markdown_relative_path@),
{
    let parsed = crate::markdown_document::MarkdownDocumentService::parse_frontmatter(markdown.as_str());
    let identity = crate::document_identity::DocumentIdentityService::find_identity_comment(markdown.as_str());
    let document_id = match identity {
        Some(c) => Some(c.document_id),
        None => None,
    };
    ScanCandidate {
        document_id,
        frontmatter_reference: parsed.metadata_reference,
        markdown,
        markdown_body: parsed.body,
        markdown_relative_path,
    }
}

/// The paths a moved document was known under: the old current path is
/// added unless it is there already.
pub open spec fn moved_previous_paths(previous: Seq<Seq<char>>, current: Seq<char>) -> Seq<Seq<char>> {
    if previous.contains(current) {
        previous
    } else {
        previous.push(current)
    }
}

/// Metadata whose Markdown file was found at another path is reconnected
/// to it: the old path joins the previous paths, the hash is taken of the
/// Markdown found and the time is stamped.  The flag tells whether it
/// changed (and so must be written back).
pub fn reconnect_metadata(metadata: DocumentMetadata, markdown_relative_path: &str, markdown: &str) -> (r: (
    DocumentMetadata,
    bool,
))
    ensures
        r.1 == (metadata.current_path@ != markdown_relative_path@),
        !r.1 ==> r.0 == metadata,
        r.1 ==> {
            &&& r.0.current_path@ == markdown_relative_path@
            &&& string_views(r.0.previous_paths@) == moved_previous_paths(
                string_views(metadata.previous_paths@),
                metadata.current_path@,
            )
            &&& crate::storage::is_hash_label(r.0.content_hash@)
            &&& exists|s: u64| r.0.updated_at@ == crate::storage::timestamp_label(s as nat)
            &&& r.0.schema_version == metadata.schema_version
            &&& r.0.document_id == metadata.document_id
            &&& r.0.document_type == metadata.document_type
            &&& r.0.vault_relative == metadata.vault_relative
            &&& r.0.layout_path == metadata.layout_path
            &&& r.0.identity == metadata.identity
            &&& r.0.frontmatter_contract == metadata.frontmatter_contract
            &&& r.0.content_policy == metadata.content_policy
            &&& r.0.recovery_status == metadata.recovery_status
            &&& r.0.created_at == metadata.created_at
        },
{
    let mut metadata = metadata;
    let path = owned(markdown_relative_path);
    if crate::text::eq_str_string(&metadata.current_path, &path) {
        return (metadata, false);
    }
    let ghost before = string_views(metadata.previous_paths@);
    let old_current = metadata.current_path.clone();
    if !crate::module_schema::contains_text(&metadata.previous_paths, &old_current) {
        metadata.previous_paths.push(old_current);
        assert(string_views(metadata.previous_paths@) =~= before.push(metadata.current_path@));
    }
    metadata.current_path = path;
    metadata.content_hash = crate::storage::content_hash(markdown);
    metadata.updated_at = crate::storage::current_timestamp_label();
    (metadata, true)
}

/// The status of a scanned document: plain without an id; a duplicate
/// identity; metadata missing; else managed, unless the frontmatter points
/// elsewhere or the layout could not be read (the latter wins).
pub open spec fn expected_status(
    c: ScanCandidate,
    duplicate: bool,
    metadata: Option<DocumentMetadata>,
    layout_ok: bool,
) -> ScannedDocumentStatus {
    match c.document_id {
        None => ScannedDocumentStatus::PlainMarkdown,
        Some(_) => if duplicate {
            ScannedDocumentStatus::DuplicateIdentity
        } else {
            match metadata {
                None => ScannedDocumentStatus::MetadataMissing,
                Some(m) => if !layout_ok {
                    ScannedDocumentStatus::LayoutMissing
                } else if crate::theme::opt_string_view(c.frontmatter_reference) != Some(
                    m.frontmatter_contract.required_value@,
                ) {
                    ScannedDocumentStatus::MetadataPathMismatch
                } else {
                    ScannedDocumentStatus::Managed
                },
            }
        },
    }
}

/// The issues a scanned document raises (before its schema's): a stale
/// frontmatter reference, then one per stale layout reference or the
/// missing layout; or the missing metadata.
pub open spec fn classification_issues(
    c: ScanCandidate,
    duplicate: bool,
    metadata: Option<DocumentMetadata>,
    layout: Result<LayoutMetadata, String>,
) -> Seq<(Seq<char>, Seq<char>, Option<Seq<char>>, Option<Seq<char>>, Seq<char>, Option<Seq<char>>)> {
    match c.document_id {
        None => seq![],
        Some(id) => if duplicate {
            seq![]
        } else {
            let path = Some(c.markdown_relative_path@);
            match metadata {
                None => seq![
                    recovery_issue_view(
                        "metadata_missing"@,
                        "Document identity exists, but document metadata is missing."@,
                        Some(id@),
                        path,
                    ),
                ],
                Some(m) => {
                    let mismatch = if crate::theme::opt_string_view(c.frontmatter_reference) != Some(
                        m.frontmatter_contract.required_value@,
                    ) {
                        seq![
                            recovery_issue_view(
                                "metadata_path_mismatch"@,
                                "Markdown frontmatter points to stale or mismatched metadata."@,
                                Some(id@),
                                path,
                            ),
                        ]
                    } else {
                        seq![]
                    };
                    mismatch + match layout {
                        Ok(l) => Seq::new(
                            crate::layout_metadata::stale_sections(
                                l.cards@,
                                crate::layout_metadata::heading_matches(c.markdown_body@),
                            ).len(),
                            |i: int|
                                recovery_issue_view(
                                    "layout_reference_stale"@,
                                    "Layout metadata references a Markdown heading that no longer exists."@,
                                    Some(id@),
                                    path,
                                ),
                        ),
                        Err(_) => seq![
                            recovery_issue_view(
                                "layout_missing"@,
                                "Layout metadata is missing; a generated dashboard fallback will be used."@,
                                Some(id@),
                                path,
                            ),
                        ],
                    }
                },
            }
        },
    }
}

/// What a scan makes of one Markdown file: the document, its issues (before
/// its schema's), and the index entry of a document with metadata.
pub struct CandidateClassification {
    pub document: ScannedDocument,
    pub issues: Vec<ScanIssue>,
    pub index_entry: Option<(String, DocumentIndexEntry)>,
}

/// The document a classification records, apart from its status and
/// issues.
pub open spec fn classified_document(
    d: ScannedDocument,
    c: ScanCandidate,
    duplicate: bool,
    metadata: Option<DocumentMetadata>,
    layout: Result<LayoutMetadata, String>,
) -> bool {
    let with_metadata = c.document_id is Some && !duplicate && metadata is Some;
    &&& crate::theme::opt_string_view(d.document_id) == crate::theme::opt_string_view(c.document_id)
    &&& d.title@ == crate::records::record_title(c.markdown_body@, c.markdown_relative_path@, "Untitled"@)
    &&& d.markdown_relative_path@ == c.markdown_relative_path@
    &&& d.markdown@ == c.markdown@
    &&& d.markdown_body@ == c.markdown_body@
    &&& crate::theme::opt_string_view(d.metadata_path) == match (c.document_id, duplicate, metadata) {
        (Some(_), false, Some(m)) => Some(m.frontmatter_contract.required_value@),
        (Some(id), false, None) => Some(crate::document_metadata::metadata_relative(id@)),
        _ => crate::theme::opt_string_view(c.frontmatter_reference),
    }
    &&& crate::theme::opt_string_view(d.layout_path) == match (c.document_id, duplicate, metadata) {
        (Some(_), false, Some(m)) => Some(m.layout_path@),
        (Some(id), false, None) => Some(crate::document_metadata::layout_relative(id@)),
        _ => None,
    }
    &&& d.document_type@ == match (c.document_id, duplicate, metadata) {
        (Some(_), false, Some(m)) => m.document_type@,
        _ => "markdown_document"@,
    }
    &&& d.layout_metadata == if with_metadata {
        match layout {
            Ok(l) => Some(l),
            Err(_) => None,
        }
    } else {
        None
    }
    &&& string_views(d.stale_layout_references@) == if with_metadata {
        match layout {
            Ok(l) => crate::layout_metadata::stale_sections(
                l.cards@,
                crate::layout_metadata::heading_matches(c.markdown_body@),
            ),
            Err(_) => seq![],
        }
    } else {
        seq![]
    }
}

fn no_stale() -> (r: Vec<String>)
    ensures
        string_views(r@) == Seq::<Seq<char>>::empty(),
{
    let r: Vec<String> = Vec::new();
    assert(string_views(r@) =~= Seq::<Seq<char>>::empty());
    r
}

fn same_opt_text(a: &Option<String>, b: &String) -> (r: bool)
    ensures
        r == (crate::theme::opt_string_view(*a) == Some(b@)),
{
    match a {
        Some(x) => crate::text::eq_str_string(x, b),
        None => false,
    }
}

/// Classifies one Markdown file read by a scan.  `duplicate` tells whether
/// its id is carried by another file too; `metadata` is the document
/// metadata recorded for its id (reconnected to its path); `layout` is the
/// outcome of reading its layout metadata, consulted only for a document
/// with metadata.
pub fn classify_candidate(
    candidate: ScanCandidate,
    duplicate: bool,
    metadata: Option<DocumentMetadata>,
    layout: Result<LayoutMetadata, String>,
) -> (r: CandidateClassification)
    ensures
        r.document.status == expected_status(candidate, duplicate, metadata, layout is Ok),
        classified_document(r.document, candidate, duplicate, metadata, layout),
        issue_views(r.issues@) == classification_issues(candidate, duplicate, metadata, layout),
        match r.index_entry {
            Some(e) => candidate.document_id is Some && !duplicate && metadata is Some && e.0@
                == candidate.document_id->0@ && e.1.current_path@ == candidate.markdown_relative_path@
                && e.1.metadata_path@ == metadata->0.frontmatter_contract.required_value@
                && e.1.layout_path@ == metadata->0.layout_path@,
            None => !(candidate.document_id is Some && !duplicate && metadata is Some),
        },
{
    let title = markdown_title(candidate.markdown_body.as_str(), candidate.markdown_relative_path.as_str());
    let mut issues: Vec<ScanIssue> = Vec::new();
    let ghost c = candidate;
    match &candidate.document_id {
        None => {
            assert(issue_views(issues@) =~= classification_issues(c, duplicate, metadata, layout));
            CandidateClassification {
                document: ScannedDocument {
                    document_id: None,
                    title,
                    markdown_relative_path: candidate.markdown_relative_path,
                    metadata_path: candidate.frontmatter_reference,
                    layout_path: None,
                    document_type: owned("markdown_document"),
                    status: ScannedDocumentStatus::PlainMarkdown,
                    markdown: candidate.markdown,
                    markdown_body: candidate.markdown_body,
                    layout_metadata: None,
                    stale_layout_references: no_stale(),
                },
                issues,
                index_entry: None,
            }
        },
        Some(id) => {
            let id = id.clone();
            if duplicate {
                assert(issue_views(issues@) =~= classification_issues(c, duplicate, metadata, layout));
                return CandidateClassification {
                    document: ScannedDocument {
                        document_id: Some(id),
                        title,
                        markdown_relative_path: candidate.markdown_relative_path,
                        metadata_path: candidate.frontmatter_reference,
                        layout_path: None,
                        document_type: owned("markdown_document"),
                        status: ScannedDocumentStatus::DuplicateIdentity,
                        markdown: candidate.markdown,
                        markdown_body: candidate.markdown_body,
                        layout_metadata: None,
                        stale_layout_references: no_stale(),
                    },
                    issues,
                    index_entry: None,
                };
            }
            let some_id = Some(id.clone());
            match metadata {
                None => {
                    issues.push(recovery_issue(
                        "metadata_missing",
                        "Document identity exists, but document metadata is missing.",
                        &some_id,
                        Some(candidate.markdown_relative_path.as_str()),
                    ));
                    assert(issue_views(issues@) =~= classification_issues(c, duplicate, metadata, layout));
                    let mp = crate::document_metadata::DocumentMetadataService::metadata_relative_path(id.as_str());
                    let lp = crate::layout_metadata::LayoutMetadataService::layout_relative_path(id.as_str());
                    CandidateClassification {
                        document: ScannedDocument {
                            document_id: some_id,
                            title,
                            markdown_relative_path: candidate.markdown_relative_path,
                            metadata_path: Some(mp),
                            layout_path: Some(lp),
                            document_type: owned("markdown_document"),
                            status: ScannedDocumentStatus::MetadataMissing,
                            markdown: candidate.markdown,
                            markdown_body: candidate.markdown_body,
                            layout_metadata: None,
                            stale_layout_references: no_stale(),
                        },
                        issues,
                        index_entry: None,
                    }
                },
                Some(m) => {
                    let ghost mm = m;
                    let path = candidate.markdown_relative_path.as_str();
                    let mismatch = !same_opt_text(&candidate.frontmatter_reference, &m.frontmatter_contract.required_value);
                    let mut status = ScannedDocumentStatus::Managed;
                    if mismatch {
                        status = ScannedDocumentStatus::MetadataPathMismatch;
                        issues.push(recovery_issue(
                            "metadata_path_mismatch",
                            "Markdown frontmatter points to stale or mismatched metadata.",
                            &some_id,
                            Some(path),
                        ));
                    }
                    let ghost first = issue_views(issues@);
                    let mut stale: Vec<String> = no_stale();
                    let mut layout_metadata: Option<LayoutMetadata> = None;
                    match layout {
                        Ok(l) => {
                            stale = crate::layout_metadata::LayoutMetadataService::stale_section_matches(
                                &l,
                                candidate.markdown_body.as_str(),
                            );
                            let k = stale.len();
                            let mut j: usize = 0;
                            while j < k
                                invariant
                                    j <= k,
                                    issue_views(issues@).len() == first.len() + j,
                                    issue_views(issues@).take(first.len() as int) == first,
                                    forall|q: int| first.len() <= q < issue_views(issues@).len() ==>
                                        #[trigger] issue_views(issues@)[q] == recovery_issue_view(
                                            "layout_reference_stale"@,
                                            "Layout metadata references a Markdown heading that no longer exists."@,
                                            Some(id@),
                                            Some(path@),
                                        ),
                                    crate::theme::opt_string_view(some_id) == Some(id@),
                                decreases k - j,
                            {
                                let ghost b = issues@;
                                let iss = recovery_issue(
                                    "layout_reference_stale",
                                    "Layout metadata references a Markdown heading that no longer exists.",
                                    &some_id,
                                    Some(path),
                                );
                                issues.push(iss);
                                assert(issues@ == b.push(iss));
                                assert(issue_views(issues@) =~= issue_views(b).push(issue_views(seq![iss])[0]));
                                j = j + 1;
                            }
                            layout_metadata = Some(l);
                        },
                        Err(_) => {
                            status = ScannedDocumentStatus::LayoutMissing;
                            issues.push(recovery_issue(
                                "layout_missing",
                                "Layout metadata is missing; a generated dashboard fallback will be used.",
                                &some_id,
                                Some(path),
                            ));
                        },
                    }
                    assert(issue_views(issues@) =~= classification_issues(c, duplicate, metadata, layout));
                    let entry = DocumentIndexEntry {
                        current_path: candidate.markdown_relative_path.clone(),
                        metadata_path: m.frontmatter_contract.required_value.clone(),
                        layout_path: m.layout_path.clone(),
                    };
                    CandidateClassification {
                        document: ScannedDocument {
                            document_id: some_id,
                            title,
                            markdown_relative_path: candidate.markdown_relative_path,
                            metadata_path: Some(m.frontmatter_contract.required_value),
                            layout_path: Some(m.layout_path),
                            document_type: m.document_type,
                            status,
                            markdown: candidate.markdown,
                            markdown_body: candidate.markdown_body,
                            layout_metadata,
                            stale_layout_references: stale,
                        },
                        issues,
                        index_entry: Some((id, entry)),
                    }
                },
            }
        },
    }
}


/// The view of a candidate's document id.
pub open spec fn candidate_id(c: ScanCandidate) -> Option<Seq<char>> {
    crate::theme::opt_string_view(c.document_id)
}

/// Two of the files carry the id.
pub open spec fn is_duplicate_id(cs: Seq<ScanCandidate>, id: Seq<char>) -> bool {
    exists|i: int, j: int|
        0 <= i < j < cs.len() && #[trigger] candidate_id(cs[i]) == Some(id) && #[trigger] candidate_id(cs[j])
            == Some(id)
}

fn id_elsewhere(cs: &Vec<ScanCandidate>, i: usize, id: &String) -> (r: bool)
    requires
        i < cs@.len(),
    ensures
        r == exists|j: int| 0 <= j < cs@.len() && j != i && #[trigger] candidate_id(cs@[j]) == Some(id@),
{
    let n = cs.len();
    let mut j: usize = 0;
    while j < n
        invariant
            n == cs@.len(),
            j <= n,
            forall|q: int| 0 <= q < j && q != i ==> #[trigger] candidate_id(cs@[q]) != Some(id@),
        decreases n - j,
    {
        if j != i {
            match &cs[j].document_id {
                Some(x) => {
                    if crate::text::eq_str_string(x, id) {
                        assert(candidate_id(cs@[j as int]) == Some(id@));
                        return true;
                    }
                },
                None => {},
            }
        }
        j = j + 1;
    }
    false
}

/// The ids that more than one scanned file carries, sorted, each once.
pub fn duplicate_identities(candidates: &Vec<ScanCandidate>) -> (r: Vec<String>)
    ensures
        crate::habits::sorted_texts(string_views(r@)),
        forall|id: Seq<char>| #[trigger] string_views(r@).contains(id) <==> is_duplicate_id(candidates@, id),
{
    let ghost cs = candidates@;
    let n = candidates.len();
    let mut dups: Vec<String> = Vec::new();
    let mut i: usize = 0;
    while i < n
        invariant
            n == cs.len(),
            cs == candidates@,
            i <= n,
            forall|k: int| 0 <= k < dups@.len() ==> is_duplicate_id(cs, #[trigger] dups@[k]@),
            forall|q: int| #![trigger candidate_id(cs[q])]
                0 <= q < i && candidate_id(cs[q]) is Some && is_duplicate_id(cs, candidate_id(cs[q])->0)
                    ==> string_views(dups@).contains(candidate_id(cs[q])->0),
        decreases n - i,
    {
        match &candidates[i].document_id {
            Some(x) => {
                let ghost b = dups@;
                if id_elsewhere(candidates, i, x) {
                    proof {
                        let j = choose|j: int| 0 <= j < cs.len() && j != i && #[trigger] candidate_id(cs[j]) == Some(x@);
                        if j < i {
                            assert(candidate_id(cs[j]) == Some(x@) && candidate_id(cs[i as int]) == Some(x@));
                        } else {
                            assert(candidate_id(cs[i as int]) == Some(x@) && candidate_id(cs[j]) == Some(x@));
                        }
                    }
                    dups.push(x.clone());
                    assert(string_views(dups@) =~= string_views(b).push(x@));
                    assert(string_views(dups@)[b.len() as int] == x@);
                } else {
                    assert forall|a: int, c: int|
                        0 <= a < c < cs.len() && #[trigger] candidate_id(cs[a]) == Some(x@) && #[trigger] candidate_id(
                            cs[c],
                        ) == Some(x@) implies false by {
                        if a != i {
                            assert(candidate_id(cs[a]) == Some(x@));
                        } else {
                            assert(candidate_id(cs[c]) == Some(x@));
                        }
                    }
                }
                assert forall|q: int| #![trigger candidate_id(cs[q])]
                    0 <= q < i + 1 && candidate_id(cs[q]) is Some && is_duplicate_id(cs, candidate_id(cs[q])->0)
                        implies string_views(dups@).contains(candidate_id(cs[q])->0) by {
                    if q < i {
                        let w = choose|w: int| 0 <= w < b.len() && string_views(b)[w] == candidate_id(cs[q])->0;
                        assert(string_views(dups@)[w] == string_views(b)[w]);
                    }
                }
            },
            None => {},
        }
        i = i + 1;
    }
    let r = crate::habits::sorted_unique(&dups);
    assert forall|id: Seq<char>| #[trigger] string_views(r@).contains(id) <==> is_duplicate_id(candidates@, id) by {
        if string_views(r@).contains(id) {
            assert(string_views(r@).to_set().contains(id));
            assert(string_views(dups@).to_set().contains(id));
            let k = choose|k: int| 0 <= k < string_views(dups@).len() && string_views(dups@)[k] == id;
            assert(dups@[k]@ == id);
        }
        if is_duplicate_id(cs, id) {
            let (a, c) = choose|a: int, c: int|
                0 <= a < c < cs.len() && #[trigger] candidate_id(cs[a]) == Some(id) && #[trigger] candidate_id(cs[c])
                    == Some(id);
            assert(candidate_id(cs[a]) is Some);
            assert(string_views(dups@).contains(id));
            assert(string_views(dups@).to_set().contains(id));
            assert(string_views(r@).to_set().contains(id));
        }
    }
    r
}

/// The issue of an id carried by more than one file.
pub open spec fn duplicate_issue_view(id: Seq<char>) -> (Seq<char>, Seq<char>, Option<Seq<char>>, Option<Seq<char>>, Seq<char>, Option<Seq<char>>) {
    recovery_issue_view(
        "duplicate_identity"@,
        "More than one Markdown file contains the same BentoLife document ID."@,
        Some(id),
        None,
    )
}

/// One issue per duplicated id, in order.
pub fn duplicate_issues(duplicates: &Vec<String>) -> (r: Vec<ScanIssue>)
    ensures
        issue_views(r@) == string_views(duplicates@).map_values(|id: Seq<char>| duplicate_issue_view(id)),
{
    let mut out: Vec<ScanIssue> = Vec::new();
    let n = duplicates.len();
    let mut i: usize = 0;
    while i < n
        invariant
            n == duplicates@.len(),
            i <= n,
            issue_views(out@) == string_views(duplicates@).take(i as int).map_values(|id: Seq<char>| duplicate_issue_view(id)),
        decreases n - i,
    {
        let ghost b = out@;
        let iss = recovery_issue(
            "duplicate_identity",
            "More than one Markdown file contains the same BentoLife document ID.",
            &Some(duplicates[i].clone()),
            None,
        );
        out.push(iss);
        assert(out@ == b.push(iss));
        assert(issue_views(out@) =~= issue_views(b).push(issue_views(seq![iss])[0]));
        assert(string_views(duplicates@).take(i + 1) =~= string_views(duplicates@).take(i as int).push(duplicates@[i as int]@));
        assert(issue_views(out@) =~= string_views(duplicates@).take(i + 1).map_values(|id: Seq<char>| duplicate_issue_view(id)));
        i = i + 1;
    }
    assert(string_views(duplicates@).take(n as int) =~= string_views(duplicates@));
    out
}

/// The metadata records whose Markdown file a scan did not find, in order;
/// those of app-owned files are left out.
pub open spec fn missing_markdown_of(ms: Seq<DocumentMetadata>, seen: Seq<Seq<char>>) -> Seq<DocumentMetadata>
    decreases ms.len(),
{
    if ms.len() == 0 {
        seq![]
    } else {
        let rest = missing_markdown_of(ms.drop_last(), seen);
        let m = ms.last();
        if app_owned_markdown(m.current_path@) || seen.contains(m.current_path@) {
            rest
        } else {
            rest.push(m)
        }
    }
}

/// The issue of metadata whose Markdown file is missing.
pub open spec fn missing_issue_view(m: DocumentMetadata) -> (Seq<char>, Seq<char>, Option<Seq<char>>, Option<Seq<char>>, Seq<char>, Option<Seq<char>>) {
    recovery_issue_view(
        "markdown_missing"@,
        "Document metadata exists, but the Markdown file is missing."@,
        Some(m.document_id@),
        Some(m.current_path@),
    )
}

/// For the metadata records whose Markdown file was not among the scanned
/// paths (app-owned files aside): their ids, as orphans, and their issues.
pub fn missing_markdown(metadata: &Vec<DocumentMetadata>, seen_paths: &Vec<String>) -> (r: (Vec<String>, Vec<ScanIssue>))
    ensures
        string_views(r.0@) == missing_markdown_of(metadata@, string_views(seen_paths@)).map_values(
            |m: DocumentMetadata| m.document_id@,
        ),
        issue_views(r.1@) == missing_markdown_of(metadata@, string_views(seen_paths@)).map_values(
            |m: DocumentMetadata| missing_issue_view(m),
        ),
{
    let ghost seen = string_views(seen_paths@);
    let mut ids: Vec<String> = Vec::new();
    let mut issues: Vec<ScanIssue> = Vec::new();
    let n = metadata.len();
    let mut i: usize = 0;
    while i < n
        invariant
            n == metadata@.len(),
            i <= n,
            seen == string_views(seen_paths@),
            string_views(ids@) == missing_markdown_of(metadata@.take(i as int), seen).map_values(
                |m: DocumentMetadata| m.document_id@,
            ),
            issue_views(issues@) == missing_markdown_of(metadata@.take(i as int), seen).map_values(
                |m: DocumentMetadata| missing_issue_view(m),
            ),
        decreases n - i,
    {
        let m = &metadata[i];
        assert(metadata@.take(i + 1).drop_last() =~= metadata@.take(i as int));
        assert(metadata@.take(i + 1).last() == metadata@[i as int]);
        let owned_file = is_app_owned_system_markdown_path(m.current_path.as_str());
        let found = crate::module_schema::contains_text(seen_paths, &m.current_path);
        if !owned_file && !found {
            let ghost bi = ids@;
            let ghost bs = issues@;
            let ghost before = missing_markdown_of(metadata@.take(i as int), seen);
            ids.push(m.document_id.clone());
            let iss = recovery_issue(
                "markdown_missing",
                "Document metadata exists, but the Markdown file is missing.",
                &Some(m.document_id.clone()),
                Some(m.current_path.as_str()),
            );
            issues.push(iss);
            assert(issues@ == bs.push(iss));
            assert(issue_views(issues@) =~= issue_views(bs).push(issue_views(seq![iss])[0]));
            assert(string_views(ids@) =~= string_views(bi).push(m.document_id@));
            assert(missing_markdown_of(metadata@.take(i + 1), seen) == before.push(*m));
            assert(string_views(ids@) =~= missing_markdown_of(metadata@.take(i + 1), seen).map_values(
                |m: DocumentMetadata| m.document_id@,
            ));
            assert(issue_views(issues@) =~= missing_markdown_of(metadata@.take(i + 1), seen).map_values(
                |m: DocumentMetadata| missing_issue_view(m),
            ));
        }
        i = i + 1;
    }
    assert(metadata@.take(n as int) =~= metadata@);
    (ids, issues)
}

/// The metadata records keyed by document id; a later record overrides an
/// earlier one with the same id.
pub fn metadata_by_id(metadata: Vec<DocumentMetadata>) -> (r: crate::ordered::OrderedMap<DocumentMetadata>)
    ensures
        r.wf(),
        r@ == crate::keyed::keyed(metadata@.map_values(|m: DocumentMetadata| (m.document_id, m))),
{
    let ghost all = metadata@;
    let ghost pairs = all.map_values(|m: DocumentMetadata| (m.document_id, m));
    let mut r: crate::ordered::OrderedMap<DocumentMetadata> = crate::ordered::OrderedMap::new();
    let mut rest = metadata;
    let n = rest.len();
    let mut i: usize = 0;
    assert(pairs.take(0) =~= Seq::<(String, DocumentMetadata)>::empty());
    while rest.len() > 0
        invariant
            n == all.len(),
            i + rest@.len() == n,
            rest@ == all.skip(i as int),
            pairs == all.map_values(|m: DocumentMetadata| (m.document_id, m)),
            r.wf(),
            r@ == crate::keyed::keyed(pairs.take(i as int)),
        decreases rest@.len(),
    {
        let m = rest.remove(0);
        assert(m == all[i as int]);
        assert(rest@ =~= all.skip(i + 1));
        assert(pairs.take(i + 1).drop_last() =~= pairs.take(i as int));
        assert(pairs.take(i + 1).last() == (m.document_id, m));
        let id = m.document_id.clone();
        r.insert(id, m);
        i = i + 1;
    }
    assert(pairs.take(n as int) =~= pairs);
    r
}

/// The index a scan records: entries and path ids set in order, the
/// orphaned ids and the duplicated ids.
pub open spec fn scan_index_fields(
    i: WorkspaceIndex,
    entries: Seq<(String, DocumentIndexEntry)>,
    orphaned: Seq<Seq<char>>,
    duplicates: Seq<Seq<char>>,
) -> bool {
    &&& i.schema_version == crate::workspace_metadata::WORKSPACE_SCHEMA_VERSION
    &&& i.path_policy@ == "vault_relative"@
    &&& crate::workspace_metadata::entries_view(i.documents_by_id@) == crate::workspace_metadata::entries_view(entries)
    &&& crate::keyed::text_map(i.document_ids_by_path@) == crate::keyed::keyed(
        entries.map_values(|e: (String, DocumentIndexEntry)| (e.1.current_path, e.0)),
    ).map_values(|s: String| s@)
    &&& string_views(i.orphaned_document_ids@) == orphaned
    &&& string_views(i.duplicate_identity_conflicts@) == duplicates
    &&& i.rebuild_policy.rebuild_from_documents_folder
    &&& i.rebuild_policy.rebuild_from_markdown_uuid_comments
    &&& i.rebuild_policy.treat_index_as_cache
    &&& exists|t: u64| i.updated_at@ == crate::storage::timestamp_label(t as nat)
}

/// The index of a scan, built from the index entries of the classified
/// documents, the orphaned ids and the duplicated ids; it passes the
/// index's checks.
pub fn scan_index(entries: Vec<(String, DocumentIndexEntry)>, orphaned: Vec<String>, duplicates: Vec<String>) -> (r:
    WorkspaceIndex)
    ensures
        scan_index_fields(r, entries@, string_views(orphaned@), string_views(duplicates@)),
        crate::workspace_metadata::index_check(r) is Ok,
{
    let mut index = crate::workspace_metadata::WorkspaceMetadataService::default_index();
    let ghost all = entries@;
    let ghost paths = all.map_values(|e: (String, DocumentIndexEntry)| (e.1.current_path, e.0));
    let mut by_id: Vec<(String, DocumentIndexEntry)> = Vec::new();
    let mut by_path: Vec<(String, String)> = Vec::new();
    let n = entries.len();
    let mut i: usize = 0;
    assert(all.take(0) =~= Seq::<(String, DocumentIndexEntry)>::empty());
    assert(paths.take(0) =~= Seq::<(String, String)>::empty());
    while i < n
        invariant
            n == all.len(),
            all == entries@,
            paths == all.map_values(|e: (String, DocumentIndexEntry)| (e.1.current_path, e.0)),
            i <= n,
            crate::workspace_metadata::entries_view(by_id@) == crate::workspace_metadata::entries_view(all.take(i as int)),
            crate::keyed::text_map(by_path@) == crate::keyed::keyed(paths.take(i as int)).map_values(|s: String| s@),
        decreases n - i,
    {
        let e = &entries[i];
        assert(all.take(i + 1).drop_last() =~= all.take(i as int));
        assert(all.take(i + 1).last() == all[i as int]);
        assert(paths.take(i + 1).drop_last() =~= paths.take(i as int));
        assert(paths.take(i + 1).last() == (e.1.current_path, e.0));
        let ghost bid = by_id@;
        let copy = DocumentIndexEntry {
            current_path: e.1.current_path.clone(),
            metadata_path: e.1.metadata_path.clone(),
            layout_path: e.1.layout_path.clone(),
        };
        assert(crate::workspace_metadata::entry_view(copy) == crate::workspace_metadata::entry_view(e.1));
        by_id = crate::keyed::upsert(by_id, e.0.clone(), copy);
        proof {
            let ka = crate::keyed::keyed(bid);
            let kb = crate::keyed::keyed(all.take(i as int));
            assert(crate::keyed::keyed(all.take(i + 1)) == kb.insert(e.0@, e.1));
            assert(ka.dom() =~= kb.dom()) by {
                assert(ka.map_values(|x: DocumentIndexEntry| crate::workspace_metadata::entry_view(x)).dom() == ka.dom());
                assert(kb.map_values(|x: DocumentIndexEntry| crate::workspace_metadata::entry_view(x)).dom() == kb.dom());
            }
            assert forall|k: Seq<char>| #[trigger] ka.dom().contains(k) implies crate::workspace_metadata::entry_view(ka[k])
                == crate::workspace_metadata::entry_view(kb[k]) by {
                assert(crate::workspace_metadata::entries_view(bid)[k] == crate::workspace_metadata::entry_view(ka[k]));
                assert(crate::workspace_metadata::entries_view(all.take(i as int))[k] == crate::workspace_metadata::entry_view(kb[k]));
            }
            assert(crate::workspace_metadata::entries_view(by_id@) =~= crate::workspace_metadata::entries_view(all.take(i + 1)));
        }
        by_path = crate::keyed::upsert_text(by_path, e.1.current_path.clone(), e.0.clone());
        assert(crate::keyed::text_map(by_path@) =~= crate::keyed::keyed(paths.take(i + 1)).map_values(|s: String| s@));
        i = i + 1;
    }
    assert(all.take(n as int) =~= all);
    assert(paths.take(n as int) =~= paths);
    index.documents_by_id = by_id;
    index.document_ids_by_path = by_path;
    index.orphaned_document_ids = orphaned;
    index.duplicate_identity_conflicts = duplicates;
    index
}


/// The scanned documents are in order of their Markdown paths.
pub open spec fn sorted_by_path(d: Seq<ScannedDocument>) -> bool {
    forall|a: int, b: int|
        0 <= a < b < d.len() ==> !crate::ordered::text_lt(
            #[trigger] d[b].markdown_relative_path@,
            #[trigger] d[a].markdown_relative_path@,
        )
}

fn path_less(a: &ScannedDocument, b: &ScannedDocument) -> (r: bool)
    ensures
        r == crate::ordered::text_lt(a.markdown_relative_path@, b.markdown_relative_path@),
{
    let x = chars_of(a.markdown_relative_path.as_str());
    let y = chars_of(b.markdown_relative_path.as_str());
    crate::ordered::text_less(x.as_slice(), y.as_slice())
}

fn first_after(out: &Vec<ScannedDocument>, x: &ScannedDocument) -> (p: usize)
    ensures
        p <= out@.len(),
        forall|q: int| 0 <= q < p ==> !crate::ordered::text_lt(x.markdown_relative_path@, #[trigger] out@[q].markdown_relative_path@),
        p < out@.len() ==> crate::ordered::text_lt(x.markdown_relative_path@, out@[p as int].markdown_relative_path@),
{
    let mut p: usize = 0;
    while p < out.len()
        invariant
            p <= out@.len(),
            forall|q: int| 0 <= q < p ==> !crate::ordered::text_lt(x.markdown_relative_path@, #[trigger] out@[q].markdown_relative_path@),
        decreases out@.len() - p,
    {
        if path_less(x, &out[p]) {
            return p;
        }
        p = p + 1;
    }
    p
}

/// The scanned documents sorted by their Markdown paths, documents with
/// equal paths keeping their order.
pub fn sort_documents_by_path(documents: Vec<ScannedDocument>) -> (r: Vec<ScannedDocument>)
    ensures
        sorted_by_path(r@),
        r@.to_multiset() == documents@.to_multiset(),
{
    let ghost all = documents@;
    let mut rest = documents;
    let mut out: Vec<ScannedDocument> = Vec::new();
    let n = rest.len();
    let mut i: usize = 0;
    proof {
        broadcast use vstd::seq_lib::group_to_multiset_ensures;

        assert(out@ =~= all.take(0));
        assert(rest@ =~= all.skip(0));
    }
    while rest.len() > 0
        invariant
            n == all.len(),
            i + rest@.len() == n,
            rest@ == all.skip(i as int),
            sorted_by_path(out@),
            out@.to_multiset() == all.take(i as int).to_multiset(),
        decreases rest@.len(),
    {
        let x = rest.remove(0);
        assert(x == all[i as int]);
        assert(rest@ =~= all.skip(i + 1));
        let ghost xp = x.markdown_relative_path@;
        let p = first_after(&out, &x);
        let ghost b = out@;
        out.insert(p, x);
        proof {
            assert(out@ == b.insert(p as int, x));
            assert forall|a: int, c: int| 0 <= a < c < out@.len() implies !crate::ordered::text_lt(
                #[trigger] out@[c].markdown_relative_path@,
                #[trigger] out@[a].markdown_relative_path@,
            ) by {
                let pa = out@[a].markdown_relative_path@;
                let pc = out@[c].markdown_relative_path@;
                if crate::ordered::text_lt(pc, pa) {
                    if a < p && c == p {
                        assert(out@[a] == b[a]);
                    } else if a == p {
                        // x comes before the old entry at p, which comes no later than the one at c
                        assert(out@[c] == b[c - 1]);
                        assert(crate::ordered::text_lt(xp, b[p as int].markdown_relative_path@));
                        if c - 1 > p {
                            assert(!crate::ordered::text_lt(b[c - 1].markdown_relative_path@, b[p as int].markdown_relative_path@));
                            if b[c - 1].markdown_relative_path@ != b[p as int].markdown_relative_path@ {
                                crate::ordered::lemma_text_lt_total(
                                    b[c - 1].markdown_relative_path@,
                                    b[p as int].markdown_relative_path@,
                                );
                                crate::ordered::lemma_text_lt_transitive(xp, b[p as int].markdown_relative_path@, b[c - 1].markdown_relative_path@);
                            }
                        }
                        crate::ordered::lemma_text_lt_transitive(xp, pc, xp);
                        crate::ordered::lemma_text_lt_irreflexive(xp);
                    } else {
                        let oa = if a < p { a } else { a - 1 };
                        let oc = if c < p { c } else { c - 1 };
                        assert(out@[a] == b[oa]);
                        assert(out@[c] == b[oc]);
                    }
                }
            }
            broadcast use vstd::seq_lib::group_to_multiset_ensures;

            assert(b.insert(p as int, x) =~= b.take(p as int).push(x) + b.skip(p as int));
            vstd::seq_lib::lemma_multiset_commutative(b.take(p as int).push(x), b.skip(p as int));
            vstd::seq_lib::lemma_multiset_commutative(b.take(p as int), b.skip(p as int));
            assert(b =~= b.take(p as int) + b.skip(p as int));
            assert(all.take(i + 1) =~= all.take(i as int).push(x));
            assert(out@.to_multiset() =~= all.take(i + 1).to_multiset());
        }
        i = i + 1;
    }
    assert(all.take(n as int) =~= all);
    out
}


/// The refusal to scan a vault of the older layout.
pub open spec fn older_vault_message() -> Seq<char> {
    "Older BentoLife vault structure detected. Scan will not convert it; back up or snapshot the folder and import copied data into a fresh V3 vault."@
}

/// A Markdown file directly in a module folder that is not its index or
/// module document: a record of the older layout.
pub open spec fn older_module_file(name: Seq<char>) -> bool {
    name != "INDEX.md"@ && name != "MODULE.md"@
}

/// Refuses to scan a vault of the older layout.  `is_dir` tells whether the
/// vault is a folder; `legacy_paths_present` whether `notes/` or one of the
/// old single-file modules exists; `module_markdown_names` holds the names
/// of the `.md` files directly in the notes, todos, contacts and habits
/// module folders.
pub fn reject_older_vault_scan(is_dir: bool, legacy_paths_present: bool, module_markdown_names: &Vec<String>) -> (r:
    Result<(), String>)
    ensures
        match r {
            Ok(_) => !is_dir || (!legacy_paths_present && forall|i: int|
                0 <= i < module_markdown_names@.len() ==> !older_module_file(#[trigger] module_markdown_names@[i]@)),
            Err(e) => e@ == older_vault_message() && is_dir && (legacy_paths_present || exists|i: int|
                0 <= i < module_markdown_names@.len() && older_module_file(#[trigger] module_markdown_names@[i]@)),
        },
{
    let message = owned(
        "Older BentoLife vault structure detected. Scan will not convert it; back up or snapshot the folder and import copied data into a fresh V3 vault.",
    );
    proof {
        reveal_strlit(
            "Older BentoLife vault structure detected. Scan will not convert it; back up or snapshot the folder and import copied data into a fresh V3 vault.",
        );
    }
    if !is_dir {
        return Ok(());
    }
    if legacy_paths_present {
        return Err(message);
    }
    let n = module_markdown_names.len();
    let mut i: usize = 0;
    while i < n
        invariant
            n == module_markdown_names@.len(),
            i <= n,
            forall|q: int| 0 <= q < i ==> !older_module_file(#[trigger] module_markdown_names@[q]@),
            message@ == older_vault_message(),
            is_dir,
        decreases n - i,
    {
        let c = chars_of(module_markdown_names[i].as_str());
        if !eq_str(c.as_slice(), "INDEX.md") && !eq_str(c.as_slice(), "MODULE.md") {
            assert(older_module_file(module_markdown_names@[i as int]@));
            return Err(message);
        }
        i = i + 1;
    }
    Ok(())
}

} // verus!

verus! {

/// What a scan has read for one Markdown file: the file as a candidate, the
/// outcome of reading the layout metadata of its id (consulted only for a
/// document with metadata), and the outcome of loading its module's schema
/// (consulted only for notes and todos).
pub struct ScanInput {
    pub candidate: ScanCandidate,
    pub layout: Result<LayoutMetadata, String>,
    pub schema: Result<ModuleSchema, String>,
}

/// A path a scan leaves out: inside a folder it does not enter, or a
/// Markdown file the app owns.
pub open spec fn excluded_scan_path(p: Seq<char>) -> bool {
    skipped_folder(p) || app_owned_markdown(normalized_path(p))
}

/// The inputs a scan keeps, in order.
pub open spec fn active_inputs(inputs: Seq<ScanInput>) -> Seq<ScanInput> {
    inputs.filter(|x: ScanInput| !excluded_scan_path(x.candidate.markdown_relative_path@))
}

/// The candidates a scan keeps, in order.
pub open spec fn active_candidates(inputs: Seq<ScanInput>) -> Seq<ScanCandidate> {
    active_inputs(inputs).map_values(|x: ScanInput| x.candidate)
}

/// The metadata recorded for an id: the last record with that id.
pub open spec fn recorded_metadata(ms: Seq<DocumentMetadata>, id: Option<Seq<char>>) -> Option<DocumentMetadata> {
    let m = crate::keyed::keyed(ms.map_values(|x: DocumentMetadata| (x.document_id, x)));
    match id {
        Some(k) => if m.dom().contains(k) {
            Some(m[k])
        } else {
            None
        },
        None => None,
    }
}

/// The id of a candidate is carried by another kept file too.
pub open spec fn duplicate_in(cs: Seq<ScanCandidate>, c: ScanCandidate) -> bool {
    match candidate_id(c) {
        Some(k) => is_duplicate_id(cs, k),
        None => false,
    }
}

/// A scanned document is the classification of candidate `c`: same path,
/// id and Markdown, and the status its duplicate flag, its recorded
/// metadata and its layout outcome give.
pub open spec fn scanned_from(
    d: ScannedDocument,
    c: ScanCandidate,
    cs: Seq<ScanCandidate>,
    ms: Seq<DocumentMetadata>,
    layout_ok: bool,
) -> bool {
    let dup = duplicate_in(cs, c);
    &&& d.markdown_relative_path@ == c.markdown_relative_path@
    &&& crate::theme::opt_string_view(d.document_id) == candidate_id(c)
    &&& d.markdown@ == c.markdown@
    &&& d.status == expected_status(
        c,
        dup,
        if dup {
            None
        } else {
            recorded_metadata(ms, candidate_id(c))
        },
        layout_ok,
    )
}

fn is_excluded_scan_path(p: &str) -> (r: bool)
    ensures
        r == excluded_scan_path(p@),
{
    should_skip_active_scan_folder(Some(p)) || should_skip_active_scan_markdown_file(Some(p))
}

/// The inputs a scan keeps: those whose path is not left out, in order.
pub fn keep_active_inputs(inputs: Vec<ScanInput>) -> (r: Vec<ScanInput>)
    ensures
        r@ == active_inputs(inputs@),
{
    let ghost all = inputs@;
    let mut rest = inputs;
    let mut out: Vec<ScanInput> = Vec::new();
    let n = rest.len();
    let mut i: usize = 0;
    assert(all.take(0).filter(|x: ScanInput| !excluded_scan_path(x.candidate.markdown_relative_path@))
        =~= Seq::<ScanInput>::empty()) by {
        reveal(Seq::filter);
    }
    while rest.len() > 0
        invariant
            n == all.len(),
            i + rest@.len() == n,
            rest@ == all.skip(i as int),
            out@ == all.take(i as int).filter(|x: ScanInput| !excluded_scan_path(x.candidate.markdown_relative_path@)),
        decreases rest@.len(),
    {
        let x = rest.remove(0);
        assert(x == all[i as int]);
        assert(rest@ =~= all.skip(i + 1));
        let ex = is_excluded_scan_path(x.candidate.markdown_relative_path.as_str());
        proof {
            reveal(Seq::filter);
            assert(all.take(i + 1).drop_last() =~= all.take(i as int));
            assert(all.take(i + 1).last() == x);
        }
        if !ex {
            out.push(x);
        }
        i = i + 1;
    }
    assert(all.take(n as int) =~= all);
    out
}

} // verus!

verus! {

/// A scanned document is the classification of one of the kept inputs.
pub open spec fn document_from(
    d: ScannedDocument,
    act: Seq<ScanInput>,
    cs: Seq<ScanCandidate>,
    ms: Seq<DocumentMetadata>,
) -> bool {
    exists|i: int| 0 <= i < act.len() && #[trigger] scanned_from(d, act[i].candidate, cs, ms, act[i].layout is Ok)
}

/// Each scanned document is the classification of a kept input.
pub open spec fn documents_scanned_from(
    docs: Seq<ScannedDocument>,
    inputs: Seq<ScanInput>,
    ms: Seq<DocumentMetadata>,
) -> bool {
    forall|q: int|
        0 <= q < docs.len() ==> #[trigger] document_from(docs[q], active_inputs(inputs), active_candidates(inputs), ms)
}

/// A metadata record to write back belongs to a kept file with its id, at
/// that file's path.
pub open spec fn written_for(w: DocumentMetadata, act: Seq<ScanInput>) -> bool {
    exists|i: int|
        0 <= i < act.len() && #[trigger] candidate_id(act[i].candidate) == Some(w.document_id@) && w.current_path@
            == act[i].candidate.markdown_relative_path@
}

/// Each metadata record to write back belongs to a kept file.
pub open spec fn written_back_for(ws: Seq<DocumentMetadata>, inputs: Seq<ScanInput>) -> bool {
    forall|w: int| 0 <= w < ws.len() ==> #[trigger] written_for(ws[w], active_inputs(inputs))
}

fn module_data_markdown(p: &str, folder: &str) -> (r: bool)
    ensures
        r == (crate::text::has_prefix(p@, folder@) && crate::text::has_suffix(p@, ".md"@)),
{
    let c = chars_of(p);
    crate::text::starts_with_str(c.as_slice(), folder) && crate::text::ends_with_str(c.as_slice(), ".md")
}

/// Puts a scan together from what was read: the files kept (those not left
/// out), each classified with its recorded metadata (reconnected to its
/// path where it moved) and its layout outcome, with the schema issues of
/// notes and todos; the duplicate issues first and the missing-Markdown
/// issues last; the index; the documents in path order.  Also returns the
/// metadata records that moved, to be written back.
pub fn assemble_scan(vault_path: &str, inputs: Vec<ScanInput>, metadata: Vec<DocumentMetadata>) -> (r: (
    WorkspaceScanResult,
    Vec<DocumentMetadata>,
))
    ensures
        r.0.vault_path@ == vault_path@,
        sorted_by_path(r.0.documents@),
        r.0.documents@.len() == active_inputs(inputs@).len(),
        documents_scanned_from(r.0.documents@, inputs@, metadata@),
        forall|q: int|
            0 <= q < r.0.documents@.len() ==> ((#[trigger] r.0.documents@[q]).status
                == ScannedDocumentStatus::DuplicateIdentity <==> (crate::theme::opt_string_view(
                r.0.documents@[q].document_id,
            ) matches Some(k) && is_duplicate_id(active_candidates(inputs@), k))),
        crate::habits::sorted_texts(string_views(r.0.index.duplicate_identity_conflicts@)),
        forall|id: Seq<char>|
            #[trigger] string_views(r.0.index.duplicate_identity_conflicts@).contains(id) <==> is_duplicate_id(
                active_candidates(inputs@),
                id,
            ),
        string_views(r.0.index.orphaned_document_ids@) == missing_markdown_of(
            metadata@,
            active_candidates(inputs@).map_values(|c: ScanCandidate| c.markdown_relative_path@),
        ).map_values(|m: DocumentMetadata| m.document_id@),
        crate::workspace_metadata::index_check(r.0.index) is Ok,
        issue_views(r.0.issues@).take(r.0.index.duplicate_identity_conflicts@.len() as int) == string_views(
            r.0.index.duplicate_identity_conflicts@,
        ).map_values(|id: Seq<char>| duplicate_issue_view(id)),
        issue_views(r.0.issues@).skip(
            r.0.issues@.len() - missing_markdown_of(
                metadata@,
                active_candidates(inputs@).map_values(|c: ScanCandidate| c.markdown_relative_path@),
            ).len(),
        ) == missing_markdown_of(
            metadata@,
            active_candidates(inputs@).map_values(|c: ScanCandidate| c.markdown_relative_path@),
        ).map_values(|m: DocumentMetadata| missing_issue_view(m)),
        written_back_for(r.1@, inputs@),
{
    let active = keep_active_inputs(inputs);
    let ghost act = active@;
    let ghost cs = act.map_values(|x: ScanInput| x.candidate);
    let ghost ms = metadata@;
    // Split the kept inputs.
    let mut rest = active;
    let mut cands: Vec<ScanCandidate> = Vec::new();
    let mut layouts: Vec<Result<LayoutMetadata, String>> = Vec::new();
    let mut schemas: Vec<Result<ModuleSchema, String>> = Vec::new();
    let mut seen: Vec<String> = Vec::new();
    let n = rest.len();
    let mut i: usize = 0;
    while rest.len() > 0
        invariant
            n == act.len(),
            i + rest@.len() == n,
            rest@ == act.skip(i as int),
            cs == act.map_values(|x: ScanInput| x.candidate),
            cands@ == cs.take(i as int),
            layouts@.len() == i,
            schemas@.len() == i,
            forall|q: int| 0 <= q < i ==> (#[trigger] layouts@[q] is Ok) == (act[q].layout is Ok),
            string_views(seen@) == cs.take(i as int).map_values(|c: ScanCandidate| c.markdown_relative_path@),
        decreases rest@.len(),
    {
        let x = rest.remove(0);
        assert(x == act[i as int]);
        assert(rest@ =~= act.skip(i + 1));
        let ghost sb = string_views(seen@);
        seen.push(x.candidate.markdown_relative_path.clone());
        assert(string_views(seen@) =~= sb.push(x.candidate.markdown_relative_path@));
        assert(cs.take(i + 1).map_values(|c: ScanCandidate| c.markdown_relative_path@) =~= cs.take(i as int).map_values(
            |c: ScanCandidate| c.markdown_relative_path@,
        ).push(x.candidate.markdown_relative_path@));
        let ScanInput { candidate, layout, schema } = x;
        cands.push(candidate);
        layouts.push(layout);
        schemas.push(schema);
        assert(cands@ =~= cs.take(i + 1));
        i = i + 1;
    }
    assert(cs.take(n as int) =~= cs);
    let dups = duplicate_identities(&cands);
    let (orphans, missing_issues) = missing_markdown(&metadata, &seen);
    let map = metadata_by_id(metadata);
    let mut mid: Vec<ScanIssue> = Vec::new();
    let mut docs: Vec<ScannedDocument> = Vec::new();
    let mut entries: Vec<(String, DocumentIndexEntry)> = Vec::new();
    let mut writes: Vec<DocumentMetadata> = Vec::new();
    let mut k: usize = 0;
    proof {
        reveal_strlit("modules/notes/data/");
        reveal_strlit("modules/todos/data/");
    }
    while cands.len() > 0
        invariant
            n == cs.len(),
            n == act.len(),
            k + cands@.len() == n,
            cands@ == cs.skip(k as int),
            layouts@.len() == n - k,
            schemas@.len() == n - k,
            forall|q: int| 0 <= q < n - k ==> (#[trigger] layouts@[q] is Ok) == (act[k + q].layout is Ok),
            forall|id: Seq<char>| #[trigger] string_views(dups@).contains(id) <==> is_duplicate_id(cs, id),
            map.wf(),
            map@ == crate::keyed::keyed(ms.map_values(|x: DocumentMetadata| (x.document_id, x))),
            cs == act.map_values(|x: ScanInput| x.candidate),
            docs@.len() == k,
            forall|q: int| 0 <= q < k ==> #[trigger] scanned_from(docs@[q], cs[q], cs, ms, act[q].layout is Ok),
            forall|w: int|
                #![trigger writes@[w]]
                0 <= w < writes@.len() ==> exists|q: int|
                    0 <= q < k && #[trigger] candidate_id(cs[q]) == Some(writes@[w].document_id@)
                        && writes@[w].current_path@ == cs[q].markdown_relative_path@,
        decreases cands@.len(),
    {
        let ghost lv = layouts@;
        let c = cands.remove(0);
        let layout = layouts.remove(0);
        let schema = schemas.remove(0);
        assert(c == cs[k as int]);
        assert(cands@ =~= cs.skip(k + 1));
        assert(layout == lv[0]);
        assert(layouts@ =~= lv.skip(1));
        assert(layout is Ok == act[k as int].layout is Ok);
        assert forall|q: int| 0 <= q < n - (k + 1) implies (#[trigger] layouts@[q] is Ok) == (act[k + 1 + q].layout is Ok) by {
            assert(layouts@[q] == lv[q + 1]);
        }
        let ghost cg = c;
        let dup = match &c.document_id {
            Some(id) => crate::module_schema::contains_text(&dups, id),
            None => false,
        };
        assert(dup == duplicate_in(cs, cg));
        let ghost wlen = writes@.len();
        let md: Option<DocumentMetadata> = if dup {
            None
        } else {
            match &c.document_id {
                Some(id) => match map.get(id.as_str()) {
                    Some(m) => {
                        proof {
                            lemma_recorded_id(ms, id@);
                        }
                        let mc = crate::document_metadata::copy_metadata(m);
                        let (m2, moved) = reconnect_metadata(mc, c.markdown_relative_path.as_str(), c.markdown.as_str());
                        if moved {
                            writes.push(crate::document_metadata::copy_metadata(&m2));
                            assert(candidate_id(cs[k as int]) == Some(writes@[wlen as int].document_id@));
                        }
                        assert(m2.frontmatter_contract.required_value == m.frontmatter_contract.required_value);
                        Some(m2)
                    },
                    None => None,
                },
                None => None,
            }
        };
        assert(forall|w: int| #![trigger writes@[w]] 0 <= w < writes@.len() ==> exists|q: int|
            0 <= q < k + 1 && #[trigger] candidate_id(cs[q]) == Some(writes@[w].document_id@)
                && writes@[w].current_path@ == cs[q].markdown_relative_path@) by {
            assert forall|w: int| #![trigger writes@[w]] 0 <= w < writes@.len() implies exists|q: int|
                0 <= q < k + 1 && #[trigger] candidate_id(cs[q]) == Some(writes@[w].document_id@)
                    && writes@[w].current_path@ == cs[q].markdown_relative_path@ by {
                if w == wlen {
                    assert(candidate_id(cs[k as int]) == Some(writes@[w].document_id@));
                }
            }
        }
        let is_note = module_data_markdown(c.markdown_relative_path.as_str(), "modules/notes/data/");
        let is_todo = module_data_markdown(c.markdown_relative_path.as_str(), "modules/todos/data/");
        let parsed = crate::markdown_parser::MarkdownParser::parse(c.markdown_body.as_str());
        let doc_id = crate::contacts::copy_opt(&c.document_id);
        let path = c.markdown_relative_path.clone();
        let cl = classify_candidate(c, dup, md, layout);
        let mut ci = cl.issues;
        mid.append(&mut ci);
        if is_note {
            let mut si = schema_issues("Note", &parsed, &doc_id, path.as_str(), schema);
            mid.append(&mut si);
        } else if is_todo {
            let mut si = schema_issues("Todos", &parsed, &doc_id, path.as_str(), schema);
            mid.append(&mut si);
        }
        let ghost dk = cl.document;
        docs.push(cl.document);
        assert(scanned_from(dk, cs[k as int], cs, ms, act[k as int].layout is Ok));
        match cl.index_entry {
            Some(e) => {
                entries.push(e);
            },
            None => {},
        }
        k = k + 1;
    }
    let di = duplicate_issues(&dups);
    let ghost div = issue_views(di@);
    let ghost midv = issue_views(mid@);
    let ghost miv = issue_views(missing_issues@);
    let mut issues = di;
    issues.append(&mut mid);
    let mut mi = missing_issues;
    issues.append(&mut mi);
    assert(issue_views(issues@) =~= div + midv + miv);
    let index = scan_index(entries, orphans, dups);
    let ghost unsorted = docs@;
    let documents = sort_documents_by_path(docs);
    proof {
        broadcast use vstd::seq_lib::group_to_multiset_ensures;

        assert(act == active_inputs(inputs@));
        assert(cs == active_candidates(inputs@));
        assert forall|w: int| 0 <= w < writes@.len() implies #[trigger] written_for(writes@[w], act) by {
            let q = choose|q: int|
                0 <= q < k && #[trigger] candidate_id(cs[q]) == Some(writes@[w].document_id@)
                    && writes@[w].current_path@ == cs[q].markdown_relative_path@;
            assert(act[q].candidate == cs[q]);
        }
        assert(documents@.len() == unsorted.len()) by {
            assert(documents@.to_multiset().len() == unsorted.to_multiset().len());
        }
        assert forall|q: int| 0 <= q < documents@.len() implies #[trigger] document_from(documents@[q], act, cs, ms) by {
            assert(documents@.contains(documents@[q]));
            assert(documents@.to_multiset().count(documents@[q]) > 0);
            assert(unsorted.to_multiset().count(documents@[q]) > 0);
            assert(unsorted.contains(documents@[q]));
            let w = choose|w: int| 0 <= w < unsorted.len() && unsorted[w] == documents@[q];
            assert(scanned_from(unsorted[w], cs[w], cs, ms, act[w].layout is Ok));
            assert(act[w].candidate == cs[w]);
            assert(scanned_from(documents@[q], act[w].candidate, cs, ms, act[w].layout is Ok));
        }
        assert forall|q: int| 0 <= q < documents@.len() implies ((#[trigger] documents@[q]).status
            == ScannedDocumentStatus::DuplicateIdentity <==> (crate::theme::opt_string_view(documents@[q].document_id) matches Some(
            id,
        ) && is_duplicate_id(cs, id))) by {
            assert(document_from(documents@[q], act, cs, ms));
            let i = choose|i: int|
                0 <= i < act.len() && #[trigger] scanned_from(documents@[q], act[i].candidate, cs, ms, act[i].layout is Ok);
        }
    }
    let ghost dv = documents@;
    let res = WorkspaceScanResult { vault_path: owned(vault_path), documents, issues, index };
    assert(res.documents@ == dv);
    (res, writes)
}

proof fn lemma_recorded_id(ms: Seq<DocumentMetadata>, k: Seq<char>)
    ensures
        crate::keyed::keyed(ms.map_values(|x: DocumentMetadata| (x.document_id, x))).dom().contains(k) ==> crate::keyed::keyed(
            ms.map_values(|x: DocumentMetadata| (x.document_id, x)),
        )[k].document_id@ == k,
    decreases ms.len(),
{
    if ms.len() > 0 {
        let v = ms.map_values(|x: DocumentMetadata| (x.document_id, x));
        assert(v.drop_last() =~= ms.drop_last().map_values(|x: DocumentMetadata| (x.document_id, x)));
        lemma_recorded_id(ms.drop_last(), k);
    }
}

} // verus!
