//! Frontmatter handling and the managed form of a Markdown document.
use vstd::prelude::*;
use crate::document_identity::{with_identity_at_end, DocumentIdentityService};
use crate::document_metadata::{
    default_metadata_error, default_metadata_fields, document_id_check, metadata_check,
    DocumentMetadata, DocumentMetadataService,
};
use crate::layout_metadata::{default_layout_fields, LayoutMetadata, LayoutMetadataService};
use crate::paths::{normalize_slashes, normalize_slashes_exec};
use crate::text::{
    append, append_str, chars_of, find, find_str, has_prefix, join, join_exec, lines, lines_exec,
    owned, seq_eq, slice_vec, split_once_char, split_once_exec, starts_with_str, string_of, trim,
    trim_by, trim_by_exec, trim_exec, trim_start, trim_start_exec, views, Strip,
};

verus! {

/// The frontmatter key that references the metadata record.
pub const FRONTMATTER_REFERENCE_KEY: &'static str = "bentolife_metadata";

/// Markdown split into its frontmatter and body.
#[derive(Debug, Clone, PartialEq, Eq)]
pub struct ParsedFrontmatter {
    pub metadata_reference: Option<String>,
    pub body: String,
    pub raw_frontmatter: Option<String>,
}

/// A Markdown document placed under BentoLife management, with the records
/// that go with it.
#[derive(Debug, Clone, PartialEq, Eq)]
pub struct ManagedMarkdownDocument {
    pub document_id: String,
    pub markdown_relative_path: String,
    pub metadata_path: String,
    pub layout_path: String,
    pub markdown: String,
    pub document_metadata: DocumentMetadata,
    pub layout_metadata: LayoutMetadata,
}

/// Parses frontmatter and prepares managed Markdown.
pub struct MarkdownDocumentService;

/// The offset where the first frontmatter line starts, when the Markdown
/// opens with a `---` line.
pub open spec fn frontmatter_open(md: Seq<char>) -> Option<int> {
    if !has_prefix(md, "---"@) {
        None
    } else if has_prefix(md.skip(3), "\r\n"@) {
        Some(5)
    } else if has_prefix(md.skip(3), "\n"@) {
        Some(4)
    } else {
        None
    }
}

/// The raw frontmatter (with carriage returns trimmed at its ends) and the
/// body after the closing `---` line; `None` when there is no frontmatter
/// block.
pub open spec fn frontmatter_parts(md: Seq<char>) -> Option<(Seq<char>, Seq<char>)> {
    match frontmatter_open(md) {
        None => None,
        Some(ls) => {
            let content = md.skip(ls);
            match find(content, "\n---"@) {
                None => None,
                Some(off) => {
                    let raw = trim_by(content.take(off), Strip::Char('\r'));
                    let cs = ls + off;
                    let line_end = match find(md.skip(cs + 1), "\n"@) {
                        Some(o) => cs + 1 + o + 1,
                        None => md.len() as int,
                    };
                    Some((raw, md.skip(line_end)))
                },
            }
        },
    }
}

/// The Markdown without its frontmatter block.
pub open spec fn without_frontmatter(md: Seq<char>) -> Seq<char> {
    match frontmatter_parts(md) {
        None => md,
        Some((_, body)) => body,
    }
}

/// The value of the first frontmatter line `key: value`, with quotes trimmed.
pub open spec fn frontmatter_value(lines: Seq<Seq<char>>, key: Seq<char>) -> Option<Seq<char>>
    decreases lines.len(),
{
    if lines.len() == 0 {
        None
    } else {
        match split_once_char(trim(lines[0]), ':') {
            Some((k, v)) => if trim(k) == key {
                Some(trim_by(trim(v), Strip::Char('"')))
            } else {
                frontmatter_value(lines.drop_first(), key)
            },
            None => frontmatter_value(lines.drop_first(), key),
        }
    }
}

/// The parsed view: metadata reference, body, raw frontmatter.
pub open spec fn parsed_frontmatter(md: Seq<char>) -> (Option<Seq<char>>, Seq<char>, Option<
    Seq<char>,
>) {
    match frontmatter_parts(md) {
        None => (None, md, None),
        Some((raw, body)) => (
            frontmatter_value(lines(raw), FRONTMATTER_REFERENCE_KEY@),
            body,
            Some(raw),
        ),
    }
}

/// The view of a parsed frontmatter value.
pub open spec fn parsed_view(p: ParsedFrontmatter) -> (Option<Seq<char>>, Seq<char>, Option<
    Seq<char>,
>) {
    (
        match p.metadata_reference {
            Some(s) => Some(s@),
            None => None,
        },
        p.body@,
        match p.raw_frontmatter {
            Some(s) => Some(s@),
            None => None,
        },
    )
}

/// Whether a frontmatter line sets `key`: its text before the first `:`,
/// trimmed, is the key.
pub open spec fn line_sets_key(line: Seq<char>, key: Seq<char>) -> bool {
    match split_once_char(line, ':') {
        Some((k, _)) => trim(k) == key,
        None => false,
    }
}

/// The line `key: value`.
pub open spec fn key_line(key: Seq<char>, value: Seq<char>) -> Seq<char> {
    key + ": "@ + value
}

/// The non-blank frontmatter lines, each line that sets `key` replaced by
/// `key: value`.
pub open spec fn upserted_lines(ls: Seq<Seq<char>>, key: Seq<char>, value: Seq<char>) -> Seq<
    Seq<char>,
>
    decreases ls.len(),
{
    if ls.len() == 0 {
        seq![]
    } else {
        let rest = upserted_lines(ls.drop_first(), key, value);
        if trim(ls[0]).len() == 0 {
            rest
        } else if line_sets_key(ls[0], key) {
            seq![key_line(key, value)] + rest
        } else {
            seq![ls[0]] + rest
        }
    }
}

/// Some non-blank line sets `key`.
pub open spec fn some_line_sets_key(ls: Seq<Seq<char>>, key: Seq<char>) -> bool
    decreases ls.len(),
{
    if ls.len() == 0 {
        false
    } else {
        (trim(ls[0]).len() != 0 && line_sets_key(ls[0], key)) || some_line_sets_key(
            ls.drop_first(),
            key,
        )
    }
}

/// The frontmatter with `key` set to `value`: every line that sets it is
/// replaced, blank lines are dropped, and the line is added first when no
/// line set it.
pub open spec fn upserted_frontmatter(fm: Seq<char>, key: Seq<char>, value: Seq<char>) -> Seq<
    char,
> {
    let ls = lines(fm);
    let mapped = upserted_lines(ls, key, value);
    if some_line_sets_key(ls, key) {
        join(mapped, "\n"@)
    } else {
        join(seq![key_line(key, value)] + mapped, "\n"@)
    }
}

/// The managed form of Markdown: frontmatter referencing the metadata path,
/// then the body, then the identity comment at the end.
pub open spec fn managed_markdown(md: Seq<char>, id: Seq<char>, metadata_path: Seq<char>) -> Seq<
    char,
> {
    let fm_raw = match frontmatter_parts(md) {
        Some((raw, _)) => raw,
        None => seq![],
    };
    let fm = upserted_frontmatter(fm_raw, FRONTMATTER_REFERENCE_KEY@, metadata_path);
    let content = "---\n"@ + fm + "\n---\n\n"@ + trim_start(parsed_frontmatter(md).1);
    with_identity_at_end(content, id)
}

fn frontmatter_parts_exec(md: &[char]) -> (r: Option<(Vec<char>, Vec<char>)>)
    ensures
        match r {
            None => frontmatter_parts(md@) is None,
            Some((raw, body)) => frontmatter_parts(md@) == Some((raw@, body@)),
        },
{
    let n = md.len();
    if !starts_with_str(md, "---") {
        return None;
    }
    proof {
        reveal_strlit("---");
        reveal_strlit("\n---");
        reveal_strlit("\n");
    }
    let after = slice_vec(md, 3, n);
    let ls: usize = if starts_with_str(after.as_slice(), "\r\n") {
        5
    } else if starts_with_str(after.as_slice(), "\n") {
        4
    } else {
        return None;
    };
    proof {
        reveal_strlit("\r\n");
    }
    let content = slice_vec(md, ls, n);
    let off = match find_str(content.as_slice(), "\n---") {
        None => {
            return None;
        },
        Some(off) => off,
    };
    proof {
        crate::text::lemma_find_from(content@, "\n---"@, 0);
    }
    let head = slice_vec(content.as_slice(), 0, off);
    let raw = trim_by_exec(head.as_slice(), Strip::Char('\r'));
    let cs = ls + off;
    let tail = slice_vec(md, cs + 1, n);
    let line_end = match find_str(tail.as_slice(), "\n") {
        Some(o) => {
            proof {
                crate::text::lemma_find_from(tail@, "\n"@, 0);
            }
            cs + 1 + o + 1
        },
        None => n,
    };
    assert(content@.take(off as int) == head@);
    let body = slice_vec(md, line_end, n);
    Some((raw, body))
}

fn frontmatter_value_exec(ls: &Vec<Vec<char>>, key: &[char]) -> (r: Option<Vec<char>>)
    ensures
        match r {
            None => frontmatter_value(views(ls@), key@) is None,
            Some(v) => frontmatter_value(views(ls@), key@) == Some(v@),
        },
{
    let mut i: usize = 0;
    assert(views(ls@).skip(0) =~= views(ls@));
    while i < ls.len()
        invariant
            i <= ls@.len(),
            frontmatter_value(views(ls@), key@) == frontmatter_value(views(ls@).skip(i as int), key@),
        decreases ls@.len() - i,
    {
        let ghost rest = views(ls@).skip(i as int);
        assert(rest[0] == ls@[i as int]@);
        assert(rest.drop_first() =~= views(ls@).skip(i + 1));
        let t = trim_exec(ls[i].as_slice());
        match split_once_exec(t.as_slice(), ':') {
            Some((k, v)) => {
                let tk = trim_exec(k.as_slice());
                if seq_eq(tk.as_slice(), key) {
                    let tv = trim_exec(v.as_slice());
                    return Some(trim_by_exec(tv.as_slice(), Strip::Char('"')));
                }
            },
            None => {},
        }
        i = i + 1;
    }
    None
}

fn line_sets_key_exec(line: &[char], key: &[char]) -> (r: bool)
    ensures
        r == line_sets_key(line@, key@),
{
    match split_once_exec(line, ':') {
        Some((k, _)) => {
            let tk = trim_exec(k.as_slice());
            seq_eq(tk.as_slice(), key)
        },
        None => false,
    }
}

fn upserted_frontmatter_exec(fm: &[char], key: &[char], value: &[char]) -> (r: Vec<char>)
    ensures
        r@ == upserted_frontmatter(fm@, key@, value@),
{
    let ls = lines_exec(fm);
    let mut kv = slice_vec(key, 0, key.len());
    append_str(&mut kv, ": ");
    append(&mut kv, value);
    let n = ls.len();
    let mut mapped: Vec<Vec<char>> = Vec::new();
    let mut found = false;
    let mut i = n;
    // Build from the end so that each step prepends one line.
    assert(views(ls@).skip(n as int) =~= seq![]);
    while i > 0
        invariant
            i <= n,
            n == ls@.len(),
            kv@ == key_line(key@, value@),
            views(mapped@) == upserted_lines(views(ls@).skip(i as int), key@, value@),
            found == some_line_sets_key(views(ls@).skip(i as int), key@),
        decreases i,
    {
        let ghost rest = views(ls@).skip(i - 1);
        assert(rest[0] == ls@[i - 1]@);
        assert(rest.drop_first() =~= views(ls@).skip(i as int));
        let line = ls[i - 1].as_slice();
        let t = trim_exec(line);
        let ghost before = views(mapped@);
        if t.len() == 0 {
        } else if line_sets_key_exec(line, key) {
            found = true;
            let copy = slice_vec(kv.as_slice(), 0, kv.len());
            assert(copy@ =~= kv@);
            mapped.insert(0, copy);
            assert(views(mapped@) =~= seq![kv@] + before);
        } else {
            let copy = slice_vec(line, 0, line.len());
            assert(copy@ =~= line@);
            mapped.insert(0, copy);
            assert(views(mapped@) =~= seq![line@] + before);
        }
        i = i - 1;
    }
    assert(views(ls@).skip(0) =~= views(ls@));
    if !found {
        let ghost before = views(mapped@);
        mapped.insert(0, kv);
        assert(views(mapped@) =~= seq![key_line(key@, value@)] + before);
    }
    let nl = chars_of("\n");
    join_exec(&mapped, nl.as_slice())
}

impl MarkdownDocumentService {
    /// The name of this service.
    pub fn service_name() -> (r: &'static str)
        ensures
            r@ == "MarkdownDocumentService"@,
    {
        "MarkdownDocumentService"
    }

    /// Splits Markdown into frontmatter and body, reading the metadata
    /// reference from the frontmatter.
    pub fn parse_frontmatter(markdown: &str) -> (r: ParsedFrontmatter)
        ensures
            parsed_view(r) == parsed_frontmatter(markdown@),
    {
        let md = chars_of(markdown);
        match frontmatter_parts_exec(md.as_slice()) {
            None => ParsedFrontmatter {
                metadata_reference: None,
                body: owned(markdown),
                raw_frontmatter: None,
            },
            Some((raw, body)) => {
                let ls = lines_exec(raw.as_slice());
                let key = chars_of(FRONTMATTER_REFERENCE_KEY);
                let reference = match frontmatter_value_exec(&ls, key.as_slice()) {
                    Some(v) => Some(string_of(v.as_slice())),
                    None => None,
                };
                ParsedFrontmatter {
                    metadata_reference: reference,
                    body: string_of(body.as_slice()),
                    raw_frontmatter: Some(string_of(raw.as_slice())),
                }
            },
        }
    }

    /// The managed form of Markdown: the frontmatter references the metadata
    /// path, the body follows, and the identity comment closes the document.
    pub fn prepare_managed_markdown(markdown: &str, document_id: &str, metadata_path: &str) -> (r:
        String)
        ensures
            r@ == managed_markdown(markdown@, document_id@, metadata_path@),
    {
        let parsed = Self::parse_frontmatter(markdown);
        let fm_raw = match &parsed.raw_frontmatter {
            Some(raw) => chars_of(raw.as_str()),
            None => Vec::new(),
        };
        let key = chars_of(FRONTMATTER_REFERENCE_KEY);
        let value = chars_of(metadata_path);
        let fm = upserted_frontmatter_exec(fm_raw.as_slice(), key.as_slice(), value.as_slice());
        let body = chars_of(parsed.body.as_str());
        let trimmed = trim_start_exec(body.as_slice(), Strip::Whitespace);
        let mut content = chars_of("---\n");
        append(&mut content, fm.as_slice());
        append_str(&mut content, "\n---\n\n");
        append(&mut content, trimmed.as_slice());
        let content_s = string_of(content.as_slice());
        DocumentIdentityService::ensure_identity_comment_at_end(content_s.as_str(), document_id)
    }
}


impl MarkdownDocumentService {
    /// Places Markdown at a vault-relative path under management: the id of
    /// its identity comment, or a new one; default document metadata and
    /// layout for it; and the managed Markdown.  Refused for an invalid id
    /// in the identity comment or a path that is not vault-relative.
    pub fn manage_document(markdown_relative_path: &str, markdown: &str, process_id: u32) -> (r: Result<
        ManagedMarkdownDocument,
        String,
    >)
        ensures
            match r {
                Ok(d) => {
                    &&& match crate::document_identity::identity_comment(markdown@) {
                        Some(c) => d.document_id@ == c.0,
                        None => crate::storage::is_document_id(d.document_id@),
                    }
                    &&& d.markdown_relative_path@ == normalize_slashes(markdown_relative_path@)
                    &&& default_metadata_fields(
                        d.document_metadata,
                        d.document_id@,
                        markdown_relative_path@,
                        "markdown_document"@,
                    )
                    &&& default_layout_fields(d.layout_metadata, d.document_id@)
                    &&& d.metadata_path@ == d.document_metadata.frontmatter_contract.required_value@
                    &&& d.layout_path@ == d.document_metadata.layout_path@
                    &&& d.markdown@ == managed_markdown(markdown@, d.document_id@, d.metadata_path@)
                },
                Err(e) => match crate::document_identity::identity_comment(markdown@) {
                    Some(c) => default_metadata_error(c.0, markdown_relative_path@) == Some(e@),
                    None => crate::storage::vault_relative_check(markdown_relative_path@) == Err::<(), Seq<char>>(e@),
                },
            },
    {
        let document_id = match DocumentIdentityService::find_identity_comment(markdown) {
            Some(c) => c.document_id,
            None => {
                let id = crate::storage::generate_document_id(markdown_relative_path, process_id);
                proof {
                    crate::storage::lemma_generated_id_valid(id@);
                }
                id
            },
        };
        match DocumentMetadataService::validate_document_id(document_id.as_str()) {
            Ok(_) => {},
            Err(e) => {
                return Err(e);
            },
        }
        let document_metadata = match DocumentMetadataService::create_default(
            document_id.as_str(),
            markdown_relative_path,
            markdown,
        ) {
            Ok(m) => m,
            Err(e) => {
                return Err(e);
            },
        };
        let layout_metadata = match LayoutMetadataService::create_default(document_id.as_str()) {
            Ok(l) => l,
            Err(e) => {
                return Err(e);
            },
        };
        let metadata_path = document_metadata.frontmatter_contract.required_value.clone();
        let layout_path = document_metadata.layout_path.clone();
        let managed = Self::prepare_managed_markdown(markdown, document_id.as_str(), metadata_path.as_str());
        let p = chars_of(markdown_relative_path);
        let normalized = normalize_slashes_exec(p.as_slice());
        Ok(ManagedMarkdownDocument {
            document_id,
            markdown_relative_path: string_of(normalized.as_slice()),
            metadata_path,
            layout_path,
            markdown: managed,
            document_metadata,
            layout_metadata,
        })
    }
}

} // verus!
