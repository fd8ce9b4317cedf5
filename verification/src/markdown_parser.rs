//! The Markdown block parser.
//!
//! The parser reads a Markdown body line by line and turns it into blocks,
//! collecting strict `Label: value` field lines, tags and relationships on
//! the way.  `parse_spec` states what it computes.
use vstd::prelude::*;
use crate::keyed::{keyed, upsert};
use crate::text::{
    append, ascii_lowercase, ascii_lowercase_exec, chars_of, contains, contains_str,
    count_char, count_char_exec, ends_with_str, eq_str, find, find_str, has_prefix, has_suffix,
    is_ascii_digit, join, join_exec, leading, lines, lines_exec, lowercase_chars, owned, seq_eq,
    slice_vec, split_char, split_exec, split_once_pat, split_once_str, starts_with_str,
    string_of, string_views, strings_of, trim, trim_by, trim_by_exec, trim_exec, trim_start,
    trim_start_by, trim_start_exec, unicode_alphanumeric, unicode_lowercase, views, Strip,
};

verus! {

// ---------------------------------------------------------------------------
// Line classifiers
// ---------------------------------------------------------------------------

/// A table row: starts and ends with `|`, with at least two `|`.
pub open spec fn is_table_row(t: Seq<char>) -> bool {
    has_prefix(t, "|"@) && has_suffix(t, "|"@) && count_char(t, '|') >= 2
}

/// The cells of a table line, trimmed.
pub open spec fn table_cells(t: Seq<char>) -> Seq<Seq<char>> {
    split_char(trim_by(t, Strip::Char('|')), '|').map_values(|c: Seq<char>| trim(c))
}

/// A cell of a separator row: only `-` and `:` once trimmed.
pub open spec fn is_separator_cell(c: Seq<char>) -> bool {
    forall|i: int| 0 <= i < c.len() ==> (#[trigger] c[i] == '-' || c[i] == ':')
}

/// A table separator row such as `| --- | :-: |`.
pub open spec fn is_table_separator(t: Seq<char>) -> bool {
    is_table_row(t) && forall|i: int|
        0 <= i < table_cells(t).len() ==> is_separator_cell(#[trigger] table_cells(t)[i])
}

/// A horizontal rule line.
pub open spec fn is_horizontal_rule(t: Seq<char>) -> bool {
    t == "---"@ || t == "***"@ || t == "___"@
}

/// A Markdown image line: `![` ... `](` ... `)`.
pub open spec fn is_markdown_image(t: Seq<char>) -> bool {
    has_prefix(t, "!["@) && has_suffix(t, ")"@) && contains(t, "]("@)
}

/// An image source that is remote, absolute, scriptable, or SVG.
pub open spec fn is_unsafe_image_source(source: Seq<char>) -> bool {
    let lowered = ascii_lowercase(trim(source));
    ||| has_prefix(lowered, "http://"@)
    ||| has_prefix(lowered, "https://"@)
    ||| has_prefix(lowered, "data:"@)
    ||| has_prefix(lowered, "javascript:"@)
    ||| has_prefix(lowered, "file:"@)
    ||| has_prefix(lowered, "/"@)
    ||| contains(lowered, "\\"@)
    ||| has_suffix(lowered, ".svg"@)
}

/// The alt text and source of a safe Markdown image line.
pub open spec fn safe_image(t: Seq<char>) -> Option<(Seq<char>, Seq<char>)> {
    if !is_markdown_image(t) {
        None
    } else {
        match split_once_pat(t.skip(2), "]("@) {
            None => None,
            Some((alt, after_alt)) => if !has_suffix(after_alt, ")"@) {
                None
            } else {
                let source = trim(after_alt.drop_last());
                if source.len() == 0 || is_unsafe_image_source(source) {
                    None
                } else {
                    Some((alt, source))
                }
            },
        }
    }
}

/// The source of a safe Obsidian image embed `![[...]]`.
pub open spec fn obsidian_image(t: Seq<char>) -> Option<Seq<char>> {
    if !has_prefix(t, "![["@) || !has_suffix(t.skip(3), "]]"@) {
        None
    } else {
        let source = trim(t.skip(3).take(t.len() - 5));
        if source.len() == 0 || is_unsafe_image_source(source) {
            None
        } else {
            Some(source)
        }
    }
}

/// A checklist item line.
pub open spec fn is_checklist_line(t: Seq<char>) -> bool {
    ||| has_prefix(t, "- [ ]"@)
    ||| has_prefix(t, "- [x]"@)
    ||| has_prefix(t, "- [X]"@)
    ||| has_prefix(t, "* [ ]"@)
    ||| has_prefix(t, "* [x]"@)
    ||| has_prefix(t, "* [X]"@)
}

/// The text and checked state of a checklist line.
pub open spec fn checklist_item(t: Seq<char>) -> (Seq<char>, bool) {
    (trim(t.skip(5)), t[3] == 'x' || t[3] == 'X')
}

/// A bullet line: starts with `- ` or `* `.
pub open spec fn is_bullet_line(t: Seq<char>) -> bool {
    has_prefix(t, "- "@) || has_prefix(t, "* "@)
}

/// A bullet line that continues a list: not a checklist-like `- [`.
pub open spec fn continues_bullet_list(t: Seq<char>) -> bool {
    is_bullet_line(t) && !has_prefix(t, "- ["@) && !has_prefix(t, "* ["@)
}

/// The text of an ordered list line `<digits>. text`.
pub open spec fn ordered_item(t: Seq<char>) -> Option<Seq<char>> {
    match split_once_pat(t, ". "@) {
        None => None,
        Some((prefix, text)) => if prefix.len() == 0 || !(forall|i: int|
            0 <= i < prefix.len() ==> is_ascii_digit(#[trigger] prefix[i])) {
            None
        } else {
            Some(trim(text))
        },
    }
}

/// A character a field label may hold.
pub open spec fn is_label_char(c: char) -> bool {
    unicode_alphanumeric(c) || c == ' ' || c == '_' || c == '-' || c == '/'
}

/// A strict top-level field line `Label: value`, as (lowercased label,
/// value).  Lines that look like list items, quotes, headings, tables or
/// fences, and labels with emphasis markers or other punctuation, are not
/// fields.
pub open spec fn strict_field(t: Seq<char>) -> Option<(Seq<char>, Seq<char>)> {
    if has_prefix(t, "-"@) || has_prefix(t, "*"@) || has_prefix(t, "+"@) || has_prefix(t, ">"@)
        || has_prefix(t, "#"@) || has_prefix(t, "|"@) || has_prefix(t, "```"@) {
        None
    } else {
        match split_once_pat(t, ":"@) {
            None => None,
            Some((l, v)) => {
                let label = trim(l);
                let value = trim(v);
                if label.len() == 0 || value.len() == 0 || has_prefix(label, "**"@) || has_suffix(
                    label,
                    "**"@,
                ) || has_prefix(label, "*"@) || has_suffix(label, "*"@) || has_prefix(
                    label,
                    "_"@,
                ) || has_suffix(label, "_"@) {
                    None
                } else if !(forall|i: int| 0 <= i < label.len() ==> is_label_char(#[trigger] label[i])) {
                    None
                } else {
                    Some((unicode_lowercase(label), value))
                }
            },
        }
    }
}

/// The name in `name="..."` of a managed block start line.
pub open spec fn managed_block_name(t: Seq<char>) -> Option<Seq<char>> {
    match find(t, "name=\""@) {
        None => None,
        Some(start) => {
            let after = t.skip(start + 6);
            match find(after, "\""@) {
                None => None,
                Some(end) => Some(after.take(end)),
            }
        },
    }
}

/// The non-empty trimmed comma-separated values.
pub open spec fn comma_values(v: Seq<Seq<char>>) -> Seq<Seq<char>>
    decreases v.len(),
{
    if v.len() == 0 {
        seq![]
    } else {
        let rest = comma_values(v.drop_last());
        if trim(v.last()).len() == 0 {
            rest
        } else {
            rest.push(trim(v.last()))
        }
    }
}

/// The non-empty trimmed values of a comma-separated list.
pub open spec fn split_values(value: Seq<char>) -> Seq<Seq<char>> {
    comma_values(split_char(value, ','))
}

fn is_table_row_exec(t: &[char]) -> (r: bool)
    ensures
        r == is_table_row(t@),
{
    starts_with_str(t, "|") && ends_with_str(t, "|") && count_char_exec(t, '|') >= 2
}

fn table_cells_exec(t: &[char]) -> (r: Vec<Vec<char>>)
    ensures
        views(r@) == table_cells(t@),
{
    let inner = trim_by_exec(t, Strip::Char('|'));
    let parts = split_exec(inner.as_slice(), '|');
    let mut r: Vec<Vec<char>> = Vec::new();
    let mut i: usize = 0;
    while i < parts.len()
        invariant
            i <= parts@.len(),
            views(parts@) == split_char(trim_by(t@, Strip::Char('|')), '|'),
            views(r@) == views(parts@).take(i as int).map_values(|c: Seq<char>| trim(c)),
        decreases parts@.len() - i,
    {
        let c = trim_exec(parts[i].as_slice());
        assert(views(parts@)[i as int] == parts@[i as int]@);
        let ghost before = views(r@);
        r.push(c);
        assert(views(r@) =~= before.push(c@));
        assert(views(r@) =~= views(parts@).take(i + 1).map_values(|c: Seq<char>| trim(c)));
        i = i + 1;
    }
    assert(views(parts@).take(parts@.len() as int) =~= views(parts@));
    r
}

fn is_separator_cell_exec(c: &[char]) -> (r: bool)
    ensures
        r == is_separator_cell(c@),
{
    let n = c.len();
    let mut i: usize = 0;
    while i < n
        invariant
            n == c@.len(),
            i <= n,
            forall|j: int| 0 <= j < i ==> (#[trigger] c@[j] == '-' || c@[j] == ':'),
        decreases n - i,
    {
        if !(c[i] == '-' || c[i] == ':') {
            return false;
        }
        i = i + 1;
    }
    true
}

fn is_table_separator_exec(t: &[char]) -> (r: bool)
    ensures
        r == is_table_separator(t@),
{
    if !is_table_row_exec(t) {
        return false;
    }
    let cells = table_cells_exec(t);
    let mut i: usize = 0;
    while i < cells.len()
        invariant
            i <= cells@.len(),
            views(cells@) == table_cells(t@),
            forall|j: int| 0 <= j < i ==> is_separator_cell(#[trigger] views(cells@)[j]),
        decreases cells@.len() - i,
    {
        assert(views(cells@)[i as int] == cells@[i as int]@);
        if !is_separator_cell_exec(cells[i].as_slice()) {
            return false;
        }
        i = i + 1;
    }
    true
}

fn is_horizontal_rule_exec(t: &[char]) -> (r: bool)
    ensures
        r == is_horizontal_rule(t@),
{
    eq_str(t, "---") || eq_str(t, "***") || eq_str(t, "___")
}

fn is_markdown_image_exec(t: &[char]) -> (r: bool)
    ensures
        r == is_markdown_image(t@),
{
    starts_with_str(t, "![") && ends_with_str(t, ")") && contains_str(t, "](")
}

fn is_unsafe_image_source_exec(source: &[char]) -> (r: bool)
    ensures
        r == is_unsafe_image_source(source@),
{
    let t = trim_exec(source);
    let l = ascii_lowercase_exec(t.as_slice());
    let s = l.as_slice();
    starts_with_str(s, "http://") || starts_with_str(s, "https://") || starts_with_str(s, "data:")
        || starts_with_str(s, "javascript:") || starts_with_str(s, "file:") || starts_with_str(
        s,
        "/",
    ) || contains_str(s, "\\") || ends_with_str(s, ".svg")
}

fn safe_image_exec(t: &[char]) -> (r: Option<(Vec<char>, Vec<char>)>)
    ensures
        match r {
            None => safe_image(t@) is None,
            Some((a, s)) => safe_image(t@) == Some((a@, s@)),
        },
{
    if !is_markdown_image_exec(t) {
        return None;
    }
    proof {
        reveal_strlit("![");
    }
    let rest = slice_vec(t, 2, t.len());
    match split_once_str(rest.as_slice(), "](") {
        None => None,
        Some((alt, after_alt)) => {
            if !ends_with_str(after_alt.as_slice(), ")") {
                return None;
            }
            proof {
                reveal_strlit(")");
            }
            let body = slice_vec(after_alt.as_slice(), 0, after_alt.len() - 1);
            assert(body@ =~= after_alt@.drop_last());
            let source = trim_exec(body.as_slice());
            if source.len() == 0 || is_unsafe_image_source_exec(source.as_slice()) {
                None
            } else {
                Some((alt, source))
            }
        },
    }
}

fn obsidian_image_exec(t: &[char]) -> (r: Option<Vec<char>>)
    ensures
        match r {
            None => obsidian_image(t@) is None,
            Some(s) => obsidian_image(t@) == Some(s@),
        },
{
    if !starts_with_str(t, "![[") {
        return None;
    }
    proof {
        reveal_strlit("![[");
        reveal_strlit("]]");
    }
    let n = t.len();
    let rest = slice_vec(t, 3, n);
    if !ends_with_str(rest.as_slice(), "]]") {
        return None;
    }
    let inner = slice_vec(t, 3, n - 2);
    assert(inner@ =~= t@.skip(3).take(t@.len() - 5));
    let source = trim_exec(inner.as_slice());
    if source.len() == 0 || is_unsafe_image_source_exec(source.as_slice()) {
        None
    } else {
        Some(source)
    }
}

fn is_checklist_line_exec(t: &[char]) -> (r: bool)
    ensures
        r == is_checklist_line(t@),
{
    starts_with_str(t, "- [ ]") || starts_with_str(t, "- [x]") || starts_with_str(t, "- [X]")
        || starts_with_str(t, "* [ ]") || starts_with_str(t, "* [x]") || starts_with_str(
        t,
        "* [X]",
    )
}

fn checklist_item_exec(t: &[char]) -> (r: (Vec<char>, bool))
    requires
        is_checklist_line(t@),
    ensures
        (r.0@, r.1) == checklist_item(t@),
{
    proof {
        reveal_strlit("- [ ]");
        reveal_strlit("- [x]");
        reveal_strlit("- [X]");
        reveal_strlit("* [ ]");
        reveal_strlit("* [x]");
        reveal_strlit("* [X]");
    }
    let n = t.len();
    let rest = slice_vec(t, 5, n);
    let text = trim_exec(rest.as_slice());
    (text, t[3] == 'x' || t[3] == 'X')
}

fn is_bullet_line_exec(t: &[char]) -> (r: bool)
    ensures
        r == is_bullet_line(t@),
{
    starts_with_str(t, "- ") || starts_with_str(t, "* ")
}

fn continues_bullet_list_exec(t: &[char]) -> (r: bool)
    ensures
        r == continues_bullet_list(t@),
{
    is_bullet_line_exec(t) && !starts_with_str(t, "- [") && !starts_with_str(t, "* [")
}

fn all_ascii_digits(p: &[char]) -> (r: bool)
    ensures
        r == forall|i: int| 0 <= i < p@.len() ==> is_ascii_digit(#[trigger] p@[i]),
{
    let n = p.len();
    let mut i: usize = 0;
    while i < n
        invariant
            n == p@.len(),
            i <= n,
            forall|j: int| 0 <= j < i ==> is_ascii_digit(#[trigger] p@[j]),
        decreases n - i,
    {
        if !('0' <= p[i] && p[i] <= '9') {
            assert(!is_ascii_digit(p@[i as int]));
            return false;
        }
        i = i + 1;
    }
    true
}

fn ordered_item_exec(t: &[char]) -> (r: Option<Vec<char>>)
    ensures
        match r {
            None => ordered_item(t@) is None,
            Some(s) => ordered_item(t@) == Some(s@),
        },
{
    match split_once_str(t, ". ") {
        None => None,
        Some((prefix, text)) => {
            if prefix.len() == 0 || !all_ascii_digits(prefix.as_slice()) {
                None
            } else {
                Some(trim_exec(text.as_slice()))
            }
        },
    }
}

fn label_chars_ok(label: &[char]) -> (r: bool)
    ensures
        r == forall|i: int| 0 <= i < label@.len() ==> is_label_char(#[trigger] label@[i]),
{
    let n = label.len();
    let mut i: usize = 0;
    while i < n
        invariant
            n == label@.len(),
            i <= n,
            forall|j: int| 0 <= j < i ==> is_label_char(#[trigger] label@[j]),
        decreases n - i,
    {
        let c = label[i];
        if !(crate::text::is_alphanumeric(c) || c == ' ' || c == '_' || c == '-' || c == '/') {
            assert(!is_label_char(label@[i as int]));
            return false;
        }
        i = i + 1;
    }
    true
}

fn strict_field_exec(t: &[char]) -> (r: Option<(Vec<char>, Vec<char>)>)
    ensures
        match r {
            None => strict_field(t@) is None,
            Some((k, v)) => strict_field(t@) == Some((k@, v@)),
        },
{
    if starts_with_str(t, "-") || starts_with_str(t, "*") || starts_with_str(t, "+")
        || starts_with_str(t, ">") || starts_with_str(t, "#") || starts_with_str(t, "|")
        || starts_with_str(t, "```") {
        return None;
    }
    match split_once_str(t, ":") {
        None => None,
        Some((l, v)) => {
            let label = trim_exec(l.as_slice());
            let value = trim_exec(v.as_slice());
            let ls = label.as_slice();
            if label.len() == 0 || value.len() == 0 || starts_with_str(ls, "**") || ends_with_str(
                ls,
                "**",
            ) || starts_with_str(ls, "*") || ends_with_str(ls, "*") || starts_with_str(ls, "_")
                || ends_with_str(ls, "_") {
                return None;
            }
            if !label_chars_ok(ls) {
                return None;
            }
            Some((lowercase_chars(ls), value))
        },
    }
}

fn managed_block_name_exec(t: &[char]) -> (r: Option<Vec<char>>)
    ensures
        match r {
            None => managed_block_name(t@) is None,
            Some(s) => managed_block_name(t@) == Some(s@),
        },
{
    let n = t.len();
    match find_str(t, "name=\"") {
        None => None,
        Some(start) => {
            proof {
                crate::text::lemma_find_from(t@, "name=\""@, 0);
                reveal_strlit("name=\"");
            }
            let after = slice_vec(t, start + 6, n);
            match find_str(after.as_slice(), "\"") {
                None => None,
                Some(end) => {
                    proof {
                        crate::text::lemma_find_from(after@, "\""@, 0);
                    }
                    Some(slice_vec(after.as_slice(), 0, end))
                },
            }
        },
    }
}

fn split_values_exec(value: &[char]) -> (r: Vec<Vec<char>>)
    ensures
        views(r@) == split_values(value@),
{
    let parts = split_exec(value, ',');
    let mut r: Vec<Vec<char>> = Vec::new();
    let mut i: usize = 0;
    while i < parts.len()
        invariant
            i <= parts@.len(),
            views(r@) == comma_values(views(parts@).take(i as int)),
        decreases parts@.len() - i,
    {
        let ghost t = views(parts@).take(i + 1);
        assert(t.drop_last() =~= views(parts@).take(i as int));
        assert(t.last() == parts@[i as int]@);
        let c = trim_exec(parts[i].as_slice());
        if c.len() > 0 {
            let ghost before = views(r@);
            r.push(c);
            assert(views(r@) =~= before.push(c@));
        }
        i = i + 1;
    }
    assert(views(parts@).take(parts@.len() as int) =~= views(parts@));
    r
}

} // verus!

verus! {

// ---------------------------------------------------------------------------
// Blocks
// ---------------------------------------------------------------------------

/// One item of a checklist.
#[derive(Debug, Clone, PartialEq, Eq)]
pub struct ChecklistItem {
    pub text: String,
    pub checked: bool,
}

/// A block of a Markdown body.
#[derive(Debug, PartialEq, Eq)]
pub enum MarkdownBlock {
    Heading { level: usize, text: String },
    Paragraph { text: String },
    Blockquote { children: Vec<MarkdownBlock> },
    HorizontalRule,
    List { items: Vec<String> },
    OrderedList { items: Vec<String> },
    Checklist { items: Vec<ChecklistItem> },
    Code { language: String, content: String },
    Image { alt: String, source: String, raw: String },
    Table { rows: Vec<Vec<String>> },
    Tags { tags: Vec<String> },
    Relationships { links: Vec<String> },
    Managed { name: String, content: String },
    Unknown { raw: String },
}

/// The mathematical form of a block.
pub enum BlockView {
    Heading { level: nat, text: Seq<char> },
    Paragraph { text: Seq<char> },
    Blockquote { children: Seq<BlockView> },
    HorizontalRule,
    List { items: Seq<Seq<char>> },
    OrderedList { items: Seq<Seq<char>> },
    Checklist { items: Seq<(Seq<char>, bool)> },
    Code { language: Seq<char>, content: Seq<char> },
    Image { alt: Seq<char>, source: Seq<char>, raw: Seq<char> },
    Table { rows: Seq<Seq<Seq<char>>> },
    Tags { tags: Seq<Seq<char>> },
    Relationships { links: Seq<Seq<char>> },
    Managed { name: Seq<char>, content: Seq<char> },
    Unknown { raw: Seq<char> },
}

/// The views of checklist items.
pub open spec fn checklist_views(items: Seq<ChecklistItem>) -> Seq<(Seq<char>, bool)> {
    items.map_values(|it: ChecklistItem| (it.text@, it.checked))
}

/// The views of table rows.
pub open spec fn row_views(rows: Seq<Vec<String>>) -> Seq<Seq<Seq<char>>> {
    rows.map_values(|r: Vec<String>| string_views(r@))
}

/// The block `b` has the mathematical form `v`.
pub open spec fn block_matches(b: MarkdownBlock, v: BlockView) -> bool
    decreases v,
{
    match v {
        BlockView::Heading { level, text } => b matches MarkdownBlock::Heading { level: l, text: t }
            && l == level && t@ == text,
        BlockView::Paragraph { text } => b matches MarkdownBlock::Paragraph { text: t } && t@ == text,
        BlockView::Blockquote { children } => b matches MarkdownBlock::Blockquote { children: c }
            && c@.len() == children.len() && forall|i: int|
            0 <= i < children.len() ==> block_matches(#[trigger] c@[i], children[i]),
        BlockView::HorizontalRule => b is HorizontalRule,
        BlockView::List { items } => b matches MarkdownBlock::List { items: it } && string_views(
            it@,
        ) == items,
        BlockView::OrderedList { items } => b matches MarkdownBlock::OrderedList { items: it }
            && string_views(it@) == items,
        BlockView::Checklist { items } => b matches MarkdownBlock::Checklist { items: it }
            && checklist_views(it@) == items,
        BlockView::Code { language, content } => b matches MarkdownBlock::Code {
            language: l,
            content: c,
        } && l@ == language && c@ == content,
        BlockView::Image { alt, source, raw } => b matches MarkdownBlock::Image {
            alt: a,
            source: s,
            raw: r,
        } && a@ == alt && s@ == source && r@ == raw,
        BlockView::Table { rows } => b matches MarkdownBlock::Table { rows: r } && row_views(r@)
            == rows,
        BlockView::Tags { tags } => b matches MarkdownBlock::Tags { tags: t } && string_views(t@)
            == tags,
        BlockView::Relationships { links } => b matches MarkdownBlock::Relationships { links: l }
            && string_views(l@) == links,
        BlockView::Managed { name, content } => b matches MarkdownBlock::Managed {
            name: n,
            content: c,
        } && n@ == name && c@ == content,
        BlockView::Unknown { raw } => b matches MarkdownBlock::Unknown { raw: r } && r@ == raw,
    }
}

/// Each block has the form at the same position.
pub open spec fn blocks_match(bs: Seq<MarkdownBlock>, vs: Seq<BlockView>) -> bool {
    bs.len() == vs.len() && forall|i: int| 0 <= i < bs.len() ==> block_matches(#[trigger] bs[i], vs[i])
}

// ---------------------------------------------------------------------------
// The parser as a state machine over lines
// ---------------------------------------------------------------------------

/// What the parser has gathered so far.
pub struct ParseState {
    pub blocks: Seq<BlockView>,
    pub unknown: Seq<BlockView>,
    pub tags: Seq<Seq<char>>,
    pub relationships: Seq<Seq<char>>,
    pub fields: Map<Seq<char>, Seq<char>>,
    pub paragraph: Seq<Seq<char>>,
}

/// Nothing gathered yet.
pub open spec fn empty_state() -> ParseState {
    ParseState {
        blocks: seq![],
        unknown: seq![],
        tags: seq![],
        relationships: seq![],
        fields: Map::empty(),
        paragraph: seq![],
    }
}

/// The pending paragraph lines, if any, become a paragraph block.
pub open spec fn flush(st: ParseState) -> ParseState {
    if st.paragraph.len() > 0 {
        ParseState {
            blocks: st.blocks.push(BlockView::Paragraph { text: join(st.paragraph, "\n"@) }),
            paragraph: seq![],
            ..st
        }
    } else {
        st
    }
}

/// Adds a block.
pub open spec fn with_block(st: ParseState, b: BlockView) -> ParseState {
    ParseState { blocks: st.blocks.push(b), ..st }
}

/// Adds an unknown block, to the blocks and to the unknown blocks.
pub open spec fn with_unknown(st: ParseState, raw: Seq<char>) -> ParseState {
    ParseState {
        blocks: st.blocks.push(BlockView::Unknown { raw }),
        unknown: st.unknown.push(BlockView::Unknown { raw }),
        ..st
    }
}

/// Kinds of runs of lines that one block takes up.
#[derive(Clone, Copy)]
pub enum RunKind {
    Fence,
    Table,
    Checklist,
    Quote,
    Bullet,
    Ordered,
    Managed,
}

/// Whether a trimmed line continues a run of the kind.
pub open spec fn continues_run(kind: RunKind, t: Seq<char>) -> bool {
    match kind {
        RunKind::Fence => !has_prefix(t, "```"@),
        RunKind::Table => is_table_row(t) || is_table_separator(t),
        RunKind::Checklist => is_checklist_line(t),
        RunKind::Quote => has_prefix(t, ">"@),
        RunKind::Bullet => continues_bullet_list(t),
        RunKind::Ordered => ordered_item(t) is Some,
        RunKind::Managed => !has_prefix(t, "<!-- bentolife:managed-block end"@),
    }
}

/// The end of the run that starts at `k`: the first line from `k` on that
/// does not continue it, or the end.
pub open spec fn run_end(ls: Seq<Seq<char>>, k: int, kind: RunKind) -> int
    decreases ls.len() - k,
{
    if k < 0 || k >= ls.len() || !continues_run(kind, trim(ls[k])) {
        k
    } else {
        run_end(ls, k + 1, kind)
    }
}

/// The lines, trimmed.
pub open spec fn trims(ls: Seq<Seq<char>>) -> Seq<Seq<char>> {
    ls.map_values(|l: Seq<char>| trim(l))
}

/// The rows of table lines: the non-separator lines, split into cells.
pub open spec fn table_rows(tl: Seq<Seq<char>>) -> Seq<Seq<Seq<char>>>
    decreases tl.len(),
{
    if tl.len() == 0 {
        seq![]
    } else {
        let rest = table_rows(tl.drop_last());
        if is_table_separator(tl.last()) || table_cells(tl.last()).len() == 0 {
            rest
        } else {
            rest.push(table_cells(tl.last()))
        }
    }
}

/// The text of a quote line: without leading `>` and the blanks after them.
pub open spec fn quote_text(t: Seq<char>) -> Seq<char> {
    trim_start(trim_start_by(t, Strip::Char('>')))
}

/// The characters of the lines plus one per line: an upper bound for the
/// text they came from.
pub open spec fn line_measure(ls: Seq<Seq<char>>) -> nat {
    total_len(ls) + ls.len()
}

/// What the fields become once the first level-one heading names the title.
pub open spec fn first_title(blocks: Seq<BlockView>) -> Option<Seq<char>>
    decreases blocks.len(),
{
    if blocks.len() == 0 {
        None
    } else {
        match blocks[0] {
            BlockView::Heading { level, text } => if level == 1 {
                Some(text)
            } else {
                first_title(blocks.drop_first())
            },
            _ => first_title(blocks.drop_first()),
        }
    }
}

use crate::text::total_len;

/// The state after the parser handled line `i`, and the next line to read.
pub open spec fn step(ls: Seq<Seq<char>>, i: int, st: ParseState) -> (int, ParseState)
    decreases line_measure(ls), 0nat, 0nat,
{
    if i < 0 || i >= ls.len() {
        (ls.len() as int, st)
    } else {
        let line = ls[i];
        let t = trim(line);
        if t.len() == 0 {
            (i + 1, flush(st))
        } else if has_prefix(t, "#"@) {
            let s = flush(st);
            let level = leading(t, Strip::Char('#'));
            if 1 <= level <= 6 && level < t.len() && t[level as int] == ' ' {
                (i + 1, with_block(s, BlockView::Heading { level, text: trim(t.skip(level as int + 1)) }))
            } else {
                (i + 1, with_unknown(s, line))
            }
        } else if is_horizontal_rule(t) {
            (i + 1, with_block(flush(st), BlockView::HorizontalRule))
        } else if has_prefix(t, "```"@) {
            let e = run_end(ls, i + 1, RunKind::Fence);
            let content = join(ls.subrange(i + 1, e), "\n"@);
            (
                if e < ls.len() {
                    e + 1
                } else {
                    e
                },
                with_block(flush(st), BlockView::Code { language: trim(t.skip(3)), content }),
            )
        } else if safe_image(t) is Some {
            let (alt, source) = safe_image(t)->0;
            (i + 1, with_block(flush(st), BlockView::Image { alt, source, raw: line }))
        } else if obsidian_image(t) is Some {
            let source = obsidian_image(t)->0;
            (i + 1, with_block(flush(st), BlockView::Image { alt: source, source, raw: line }))
        } else if is_markdown_image(t) {
            (i + 1, with_unknown(flush(st), line))
        } else if is_table_separator(t) && st.blocks.len() > 0 {
            (i + 1, with_unknown(st, line))
        } else if is_table_row(t) {
            let e = run_end(ls, i + 1, RunKind::Table);
            let rows = table_rows(seq![t] + trims(ls.subrange(i + 1, e)));
            if rows.len() == 0 {
                (e, with_unknown(flush(st), line))
            } else {
                (e, with_block(flush(st), BlockView::Table { rows }))
            }
        } else if is_checklist_line(t) {
            let e = run_end(ls, i + 1, RunKind::Checklist);
            let items = (seq![t] + trims(ls.subrange(i + 1, e))).map_values(
                |x: Seq<char>| checklist_item(x),
            );
            (e, with_block(flush(st), BlockView::Checklist { items }))
        } else if has_prefix(t, ">"@) {
            let e = run_end(ls, i + 1, RunKind::Quote);
            let qlines = (seq![t] + trims(ls.subrange(i + 1, e))).map_values(
                |x: Seq<char>| quote_text(x),
            );
            let q = join(qlines, "\n"@);
            proof {
                lemma_quote_shorter(ls, i);
            }
            (e, with_block(flush(st), BlockView::Blockquote { children: parse_spec(q).blocks }))
        } else if strict_field(t) is Some {
            let (key, value) = strict_field(t)->0;
            let s = flush(st);
            let s2 = if key == "tags"@ {
                let vals = split_values(value);
                ParseState {
                    tags: s.tags + vals,
                    blocks: s.blocks.push(BlockView::Tags { tags: vals }),
                    ..s
                }
            } else if key == "relationships"@ || key == "related"@ {
                let vals = split_values(value);
                ParseState {
                    relationships: s.relationships + vals,
                    blocks: s.blocks.push(BlockView::Relationships { links: vals }),
                    ..s
                }
            } else {
                s
            };
            (i + 1, ParseState { fields: s2.fields.insert(key, value), ..s2 })
        } else if is_bullet_line(t) {
            let e = run_end(ls, i + 1, RunKind::Bullet);
            let items = (seq![t] + trims(ls.subrange(i + 1, e))).map_values(
                |x: Seq<char>| trim(x.skip(2)),
            );
            (e, with_block(flush(st), BlockView::List { items }))
        } else if ordered_item(t) is Some {
            let e = run_end(ls, i + 1, RunKind::Ordered);
            let items = (seq![t] + trims(ls.subrange(i + 1, e))).map_values(
                |x: Seq<char>| ordered_item(x)->0,
            );
            (e, with_block(flush(st), BlockView::OrderedList { items }))
        } else if has_prefix(t, "<!-- bentolife:managed-block start"@) {
            let e = run_end(ls, i + 1, RunKind::Managed);
            let name = match managed_block_name(t) {
                Some(n) => n,
                None => "unknown"@,
            };
            let content = join(ls.subrange(i + 1, e), "\n"@);
            (
                if e < ls.len() {
                    e + 1
                } else {
                    e
                },
                with_block(flush(st), BlockView::Managed { name, content }),
            )
        } else if has_prefix(t, "<!-- bentolife:document_id="@) || has_prefix(
            t,
            "<!-- bentolife:import_context"@,
        ) {
            (i + 1, st)
        } else {
            (i + 1, ParseState { paragraph: st.paragraph.push(line), ..st })
        }
    }
}

/// The state after the parser handled every line from `i` on.
pub open spec fn run(ls: Seq<Seq<char>>, i: int, st: ParseState) -> ParseState
    decreases line_measure(ls), 1nat, ls.len() - i,
{
    if i < 0 || i >= ls.len() {
        st
    } else {
        let (j, s2) = step(ls, i, st);
        if i < j <= ls.len() {
            run(ls, j, s2)
        } else {
            s2
        }
    }
}

/// What the parser gathers from a Markdown body: its blocks, the unknown
/// blocks, tags, relationships and fields (before the title field is added).
pub open spec fn parse_spec(md: Seq<char>) -> ParseState
    decreases md.len() + 1, 2nat, 0nat,
{
    proof {
        lemma_lines_measure(md);
    }
    flush(run(lines(md), 0, empty_state()))
}

/// The fields of a parse, with the first level-one heading as the title.
pub open spec fn parsed_fields(md: Seq<char>) -> Map<Seq<char>, Seq<char>> {
    let st = parse_spec(md);
    match first_title(st.blocks) {
        Some(t) => st.fields.insert("title"@, t),
        None => st.fields,
    }
}

/// The lines of a text take up no more than the text and one more character.
pub proof fn lemma_lines_measure(s: Seq<char>)
    ensures
        line_measure(lines(s)) <= s.len() + 1,
    decreases s.len(),
{
    if s.len() > 0 {
        crate::text::lemma_find_char(s, '\n');
        match find(s, seq!['\n']) {
            None => {
                assert(lines(s) == seq![s]);
                assert(seq![s].drop_last() =~= Seq::<Seq<char>>::empty());
                assert(seq![s].last() == s);
                assert(total_len(Seq::<Seq<char>>::empty()) == 0);
                assert(total_len(seq![s]) == s.len());
            },
            Some(i) => {
                let rest = s.skip(i + 1);
                lemma_lines_measure(rest);
                let head = crate::text::strip_cr(s.take(i));
                assert(lines(s) == seq![head] + lines(rest));
                lemma_total_len_prepend(head, lines(rest));
            },
        }
    }
}

/// The total length of one more part in front.
pub proof fn lemma_total_len_prepend(a: Seq<char>, ls: Seq<Seq<char>>)
    ensures
        total_len(seq![a] + ls) == a.len() + total_len(ls),
    decreases ls.len(),
{
    if ls.len() == 0 {
        assert(seq![a] + ls =~= seq![a]);
        assert(seq![a].drop_last() =~= Seq::<Seq<char>>::empty());
        assert(seq![a].last() == a);
        assert(total_len(Seq::<Seq<char>>::empty()) == 0);
    } else {
        assert((seq![a] + ls).drop_last() =~= seq![a] + ls.drop_last());
        assert((seq![a] + ls).last() == ls.last());
        lemma_total_len_prepend(a, ls.drop_last());
    }
}

} // verus!

verus! {

/// Total length distributes over concatenation.
pub proof fn lemma_total_concat(a: Seq<Seq<char>>, b: Seq<Seq<char>>)
    ensures
        total_len(a + b) == total_len(a) + total_len(b),
    decreases b.len(),
{
    if b.len() == 0 {
        assert(a + b =~= a);
    } else {
        assert((a + b).drop_last() =~= a + b.drop_last());
        assert((a + b).last() == b.last());
        lemma_total_concat(a, b.drop_last());
    }
}

proof fn lemma_total_trims(y: Seq<Seq<char>>)
    ensures
        total_len(trims(y)) <= total_len(y),
    decreases y.len(),
{
    if y.len() > 0 {
        lemma_total_trims(y.drop_last());
        assert(trims(y).drop_last() =~= trims(y.drop_last()));
        crate::text::lemma_leading_bound(y.last(), Strip::Whitespace);
        let a = trim_start_by(y.last(), Strip::Whitespace);
        crate::text::lemma_trailing_bound(a, Strip::Whitespace);
    }
}

proof fn lemma_quote_text_shorter(x: Seq<char>)
    requires
        has_prefix(x, ">"@),
    ensures
        quote_text(x).len() + 1 <= x.len(),
{
    reveal_strlit(">");
    assert(x.subrange(0, 1)[0] == x[0]);
    assert(x[0] == '>');
    crate::text::lemma_leading_bound(x, Strip::Char('>'));
    let a = trim_start_by(x, Strip::Char('>'));
    crate::text::lemma_leading_bound(a, Strip::Whitespace);
}

proof fn lemma_total_quotes(x: Seq<Seq<char>>)
    requires
        forall|k: int| 0 <= k < x.len() ==> has_prefix(#[trigger] x[k], ">"@),
    ensures
        total_len(x.map_values(|y: Seq<char>| quote_text(y))) + x.len() <= total_len(x),
    decreases x.len(),
{
    if x.len() > 0 {
        lemma_total_quotes(x.drop_last());
        assert(x.map_values(|y: Seq<char>| quote_text(y)).drop_last() =~= x.drop_last().map_values(
            |y: Seq<char>| quote_text(y),
        ));
        lemma_quote_text_shorter(x.last());
    }
}

/// The length of lines joined by newlines.
pub proof fn lemma_join_len(ps: Seq<Seq<char>>)
    requires
        ps.len() >= 1,
    ensures
        join(ps, "\n"@).len() == total_len(ps) + ps.len() - 1,
    decreases ps.len(),
{
    reveal_strlit("\n");
    if ps.len() == 1 {
        assert(ps.drop_last() =~= Seq::<Seq<char>>::empty());
        assert(total_len(Seq::<Seq<char>>::empty()) == 0);
    } else {
        lemma_join_len(ps.drop_last());
    }
}

/// The lines inside a run continue it, and the run stays in bounds.
pub proof fn lemma_run_end(ls: Seq<Seq<char>>, k: int, kind: RunKind)
    requires
        0 <= k <= ls.len(),
    ensures
        k <= run_end(ls, k, kind) <= ls.len(),
        forall|j: int| k <= j < run_end(ls, k, kind) ==> continues_run(kind, trim(#[trigger] ls[j])),
        run_end(ls, k, kind) < ls.len() ==> !continues_run(kind, trim(ls[run_end(ls, k, kind)])),
    decreases ls.len() - k,
{
    if k < ls.len() && continues_run(kind, trim(ls[k])) {
        lemma_run_end(ls, k + 1, kind);
    }
}

/// The text of a blockquote is shorter than the lines it came from, so the
/// parser's recursion into blockquotes ends.
pub proof fn lemma_quote_shorter(ls: Seq<Seq<char>>, i: int)
    requires
        0 <= i < ls.len(),
        has_prefix(trim(ls[i]), ">"@),
    ensures
        ({
            let e = run_end(ls, i + 1, RunKind::Quote);
            let qlines = (seq![trim(ls[i])] + trims(ls.subrange(i + 1, e))).map_values(
                |x: Seq<char>| quote_text(x),
            );
            join(qlines, "\n"@).len() + 1 < line_measure(ls)
        }),
{
    let e = run_end(ls, i + 1, RunKind::Quote);
    lemma_run_end(ls, i + 1, RunKind::Quote);
    let sub = ls.subrange(i + 1, e);
    let t = trim(ls[i]);
    let x = seq![t] + trims(sub);
    assert forall|k: int| 0 <= k < x.len() implies has_prefix(#[trigger] x[k], ">"@) by {
        if k > 0 {
            assert(x[k] == trim(ls[i + k]));
        }
    }
    let qlines = x.map_values(|y: Seq<char>| quote_text(y));
    lemma_total_quotes(x);
    lemma_join_len(qlines);
    lemma_total_prepend_trims(t, sub);
    lemma_total_trims(sub);
    crate::text::lemma_leading_bound(ls[i], Strip::Whitespace);
    crate::text::lemma_trailing_bound(trim_start_by(ls[i], Strip::Whitespace), Strip::Whitespace);
    assert(ls =~= ls.take(i) + seq![ls[i]] + sub + ls.skip(e));
    lemma_total_concat(ls.take(i) + seq![ls[i]] + sub, ls.skip(e));
    lemma_total_concat(ls.take(i) + seq![ls[i]], sub);
    lemma_total_concat(ls.take(i), seq![ls[i]]);
    lemma_total_prepend(ls[i], Seq::<Seq<char>>::empty());
    assert(seq![ls[i]] + Seq::<Seq<char>>::empty() =~= seq![ls[i]]);
    assert(total_len(Seq::<Seq<char>>::empty()) == 0);
}

proof fn lemma_total_prepend_trims(t: Seq<char>, sub: Seq<Seq<char>>)
    ensures
        total_len(seq![t] + trims(sub)) == t.len() + total_len(trims(sub)),
{
    lemma_total_len_prepend(t, trims(sub));
}

proof fn lemma_total_prepend(a: Seq<char>, ls: Seq<Seq<char>>)
    ensures
        total_len(seq![a] + ls) == a.len() + total_len(ls),
{
    lemma_total_len_prepend(a, ls);
}

} // verus!

verus! {

/// A field descriptor of a parsed entity, filled in from the module schema.
#[derive(Debug, Clone, PartialEq, Eq)]
pub struct ParsedFieldDescriptor {
    pub id: String,
    pub label: String,
    pub field_type: String,
    pub renderer_id: String,
    pub value: String,
    pub editable: bool,
    pub aliases: Vec<String>,
    pub options: Vec<String>,
    pub default_value: Option<String>,
    pub warnings: Vec<String>,
}

/// The parsed form of a Markdown entity.  `fields` maps lowercased field
/// labels to values, as a table in which each label occurs once (a parse
/// gives it so, and `keyed::upsert_text` keeps it so).
#[derive(Debug, PartialEq, Eq)]
pub struct ParsedEntityContract {
    pub module_id: Option<String>,
    pub entity_type: Option<String>,
    pub fields: Vec<(String, String)>,
    pub field_descriptors: Vec<ParsedFieldDescriptor>,
    pub blocks: Vec<MarkdownBlock>,
    pub unknown_blocks: Vec<MarkdownBlock>,
    pub relationships: Vec<String>,
    pub tags: Vec<String>,
    pub path: String,
    pub content_hash: String,
}

/// Parses Markdown bodies into blocks and fields.
pub struct MarkdownParser;

struct Gathered {
    blocks: Vec<MarkdownBlock>,
    unknown: Vec<MarkdownBlock>,
    tags: Vec<String>,
    rels: Vec<String>,
    fields: Vec<(String, String)>,
    para: Vec<Vec<char>>,
}

spec fn gathered_matches(g: Gathered, st: ParseState) -> bool {
    &&& blocks_match(g.blocks@, st.blocks)
    &&& blocks_match(g.unknown@, st.unknown)
    &&& string_views(g.tags@) == st.tags
    &&& string_views(g.rels@) == st.relationships
    &&& crate::keyed::text_map(g.fields@) == st.fields
    &&& crate::keyed::distinct_keys(g.fields@)
    &&& views(g.para@) == st.paragraph
}

proof fn lemma_blocks_push(bs: Seq<MarkdownBlock>, vs: Seq<BlockView>, b: MarkdownBlock, v: BlockView)
    requires
        blocks_match(bs, vs),
        block_matches(b, v),
    ensures
        blocks_match(bs.push(b), vs.push(v)),
{
    assert forall|i: int| 0 <= i < bs.len() + 1 implies block_matches(#[trigger] bs.push(b)[i], vs.push(v)[i]) by {
        if i < bs.len() {
            assert(bs.push(b)[i] == bs[i]);
            assert(vs.push(v)[i] == vs[i]);
        }
    }
}

fn push_block(g: &mut Gathered, b: MarkdownBlock, Ghost(st): Ghost<ParseState>, Ghost(v): Ghost<BlockView>)
    requires
        gathered_matches(*old(g), st),
        block_matches(b, v),
    ensures
        gathered_matches(*final(g), with_block(st, v)),
{
    proof {
        lemma_blocks_push(g.blocks@, st.blocks, b, v);
    }
    g.blocks.push(b);
}

fn push_unknown(g: &mut Gathered, line: &[char], Ghost(st): Ghost<ParseState>)
    requires
        gathered_matches(*old(g), st),
    ensures
        gathered_matches(*final(g), with_unknown(st, line@)),
{
    let b1 = MarkdownBlock::Unknown { raw: string_of(line) };
    let b2 = MarkdownBlock::Unknown { raw: string_of(line) };
    proof {
        lemma_blocks_push(g.blocks@, st.blocks, b1, BlockView::Unknown { raw: line@ });
        lemma_blocks_push(g.unknown@, st.unknown, b2, BlockView::Unknown { raw: line@ });
    }
    g.blocks.push(b1);
    g.unknown.push(b2);
}

fn flush_exec(g: &mut Gathered, Ghost(st): Ghost<ParseState>)
    requires
        gathered_matches(*old(g), st),
    ensures
        gathered_matches(*final(g), flush(st)),
{
    if g.para.len() > 0 {
        let nl = chars_of("\n");
        let text = join_exec(&g.para, nl.as_slice());
        let b = MarkdownBlock::Paragraph { text: string_of(text.as_slice()) };
        proof {
            lemma_blocks_push(g.blocks@, st.blocks, b, BlockView::Paragraph { text: text@ });
        }
        g.blocks.push(b);
        g.para = Vec::new();
        assert(views(g.para@) =~= Seq::<Seq<char>>::empty());
    }
}

fn continues_run_exec(kind: RunKind, t: &[char]) -> (r: bool)
    ensures
        r == continues_run(kind, t@),
{
    match kind {
        RunKind::Fence => !starts_with_str(t, "```"),
        RunKind::Table => is_table_row_exec(t) || is_table_separator_exec(t),
        RunKind::Checklist => is_checklist_line_exec(t),
        RunKind::Quote => starts_with_str(t, ">"),
        RunKind::Bullet => continues_bullet_list_exec(t),
        RunKind::Ordered => ordered_item_exec(t).is_some(),
        RunKind::Managed => !starts_with_str(t, "<!-- bentolife:managed-block end"),
    }
}

fn run_end_exec(ls: &Vec<Vec<char>>, k: usize, kind: RunKind) -> (r: usize)
    requires
        k <= ls@.len(),
    ensures
        r == run_end(views(ls@), k as int, kind),
{
    let n = ls.len();
    let mut j = k;
    while j < n
        invariant
            n == ls@.len(),
            k <= j <= n,
            run_end(views(ls@), k as int, kind) == run_end(views(ls@), j as int, kind),
        decreases n - j,
    {
        assert(views(ls@)[j as int] == ls@[j as int]@);
        let t = trim_exec(ls[j].as_slice());
        if !continues_run_exec(kind, t.as_slice()) {
            return j;
        }
        j = j + 1;
    }
    j
}

fn head_and_trims(t: &[char], ls: &Vec<Vec<char>>, a: usize, b: usize) -> (r: Vec<Vec<char>>)
    requires
        a <= b <= ls@.len(),
    ensures
        views(r@) == seq![t@] + trims(views(ls@).subrange(a as int, b as int)),
{
    let mut r: Vec<Vec<char>> = Vec::new();
    let c = slice_vec(t, 0, t.len());
    assert(c@ =~= t@);
    r.push(c);
    assert(views(r@) =~= seq![t@]);
    assert(seq![t@] + trims(views(ls@).subrange(a as int, a as int)) =~= seq![t@]);
    let mut j = a;
    while j < b
        invariant
            a <= j <= b <= ls@.len(),
            views(r@) == seq![t@] + trims(views(ls@).subrange(a as int, j as int)),
        decreases b - j,
    {
        let x = trim_exec(ls[j].as_slice());
        assert(views(ls@)[j as int] == ls@[j as int]@);
        let ghost before = views(r@);
        r.push(x);
        assert(views(r@) =~= before.push(x@));
        assert(trims(views(ls@).subrange(a as int, j + 1)) =~= trims(
            views(ls@).subrange(a as int, j as int),
        ).push(trim(views(ls@)[j as int])));
        j = j + 1;
    }
    r
}

pub fn raw_lines(ls: &Vec<Vec<char>>, a: usize, b: usize) -> (r: Vec<Vec<char>>)
    requires
        a <= b <= ls@.len(),
    ensures
        views(r@) == views(ls@).subrange(a as int, b as int),
{
    let mut r: Vec<Vec<char>> = Vec::new();
    let mut j = a;
    while j < b
        invariant
            a <= j <= b <= ls@.len(),
            views(r@) == views(ls@).subrange(a as int, j as int),
        decreases b - j,
    {
        let x = slice_vec(ls[j].as_slice(), 0, ls[j].len());
        assert(x@ =~= ls@[j as int]@);
        let ghost before = views(r@);
        r.push(x);
        assert(views(r@) =~= before.push(x@));
        assert(views(ls@).subrange(a as int, j + 1) =~= views(ls@).subrange(a as int, j as int).push(
            ls@[j as int]@,
        ));
        j = j + 1;
    }
    r
}

fn table_rows_exec(tl: &Vec<Vec<char>>) -> (r: Vec<Vec<String>>)
    ensures
        row_views(r@) == table_rows(views(tl@)),
{
    let mut r: Vec<Vec<String>> = Vec::new();
    let mut i: usize = 0;
    while i < tl.len()
        invariant
            i <= tl@.len(),
            row_views(r@) == table_rows(views(tl@).take(i as int)),
        decreases tl@.len() - i,
    {
        let ghost t = views(tl@).take(i + 1);
        assert(t.drop_last() =~= views(tl@).take(i as int));
        assert(t.last() == tl@[i as int]@);
        let line = tl[i].as_slice();
        if !is_table_separator_exec(line) {
            let cells = table_cells_exec(line);
            if cells.len() > 0 {
                let row = strings_of(&cells);
                let ghost before = row_views(r@);
                r.push(row);
                assert(row_views(r@) =~= before.push(views(cells@)));
            }
        }
        i = i + 1;
    }
    assert(views(tl@).take(tl@.len() as int) =~= views(tl@));
    r
}

fn checklist_items_exec(x: &Vec<Vec<char>>) -> (r: Vec<ChecklistItem>)
    requires
        forall|k: int| 0 <= k < x@.len() ==> is_checklist_line(#[trigger] views(x@)[k]),
    ensures
        checklist_views(r@) == views(x@).map_values(|y: Seq<char>| checklist_item(y)),
{
    let mut r: Vec<ChecklistItem> = Vec::new();
    let mut i: usize = 0;
    while i < x.len()
        invariant
            i <= x@.len(),
            forall|k: int| 0 <= k < x@.len() ==> is_checklist_line(#[trigger] views(x@)[k]),
            checklist_views(r@) == views(x@).take(i as int).map_values(|y: Seq<char>| checklist_item(y)),
        decreases x@.len() - i,
    {
        assert(views(x@)[i as int] == x@[i as int]@);
        let (text, checked) = checklist_item_exec(x[i].as_slice());
        let item = ChecklistItem { text: string_of(text.as_slice()), checked };
        let ghost before = checklist_views(r@);
        r.push(item);
        assert(checklist_views(r@) =~= before.push((text@, checked)));
        assert(views(x@).take(i + 1).map_values(|y: Seq<char>| checklist_item(y)) =~= views(x@).take(
            i as int,
        ).map_values(|y: Seq<char>| checklist_item(y)).push(checklist_item(x@[i as int]@)));
        i = i + 1;
    }
    assert(views(x@).take(x@.len() as int) =~= views(x@));
    r
}

fn quote_lines_exec(x: &Vec<Vec<char>>) -> (r: Vec<Vec<char>>)
    ensures
        views(r@) == views(x@).map_values(|y: Seq<char>| quote_text(y)),
{
    let mut r: Vec<Vec<char>> = Vec::new();
    let mut i: usize = 0;
    while i < x.len()
        invariant
            i <= x@.len(),
            views(r@) == views(x@).take(i as int).map_values(|y: Seq<char>| quote_text(y)),
        decreases x@.len() - i,
    {
        let a = trim_start_exec(x[i].as_slice(), Strip::Char('>'));
        let q = trim_start_exec(a.as_slice(), Strip::Whitespace);
        let ghost before = views(r@);
        r.push(q);
        assert(views(r@) =~= before.push(q@));
        assert(views(x@).take(i + 1).map_values(|y: Seq<char>| quote_text(y)) =~= views(x@).take(
            i as int,
        ).map_values(|y: Seq<char>| quote_text(y)).push(quote_text(x@[i as int]@)));
        i = i + 1;
    }
    assert(views(x@).take(x@.len() as int) =~= views(x@));
    r
}

fn bullet_items_exec(x: &Vec<Vec<char>>) -> (r: Vec<String>)
    requires
        forall|k: int| 0 <= k < x@.len() ==> is_bullet_line(#[trigger] views(x@)[k]),
    ensures
        string_views(r@) == views(x@).map_values(|y: Seq<char>| trim(y.skip(2))),
{
    let mut r: Vec<String> = Vec::new();
    let mut i: usize = 0;
    while i < x.len()
        invariant
            i <= x@.len(),
            forall|k: int| 0 <= k < x@.len() ==> is_bullet_line(#[trigger] views(x@)[k]),
            string_views(r@) == views(x@).take(i as int).map_values(|y: Seq<char>| trim(y.skip(2))),
        decreases x@.len() - i,
    {
        assert(views(x@)[i as int] == x@[i as int]@);
        proof {
            reveal_strlit("- ");
            reveal_strlit("* ");
        }
        let line = x[i].as_slice();
        let rest = slice_vec(line, 2, line.len());
        let item = trim_exec(rest.as_slice());
        let s = string_of(item.as_slice());
        let ghost before = string_views(r@);
        r.push(s);
        assert(string_views(r@) =~= before.push(item@));
        assert(views(x@).take(i + 1).map_values(|y: Seq<char>| trim(y.skip(2))) =~= views(x@).take(
            i as int,
        ).map_values(|y: Seq<char>| trim(y.skip(2))).push(trim(x@[i as int]@.skip(2))));
        i = i + 1;
    }
    assert(views(x@).take(x@.len() as int) =~= views(x@));
    r
}

fn ordered_items_exec(x: &Vec<Vec<char>>) -> (r: Vec<String>)
    requires
        forall|k: int| 0 <= k < x@.len() ==> ordered_item(#[trigger] views(x@)[k]) is Some,
    ensures
        string_views(r@) == views(x@).map_values(|y: Seq<char>| ordered_item(y)->0),
{
    let mut r: Vec<String> = Vec::new();
    let mut i: usize = 0;
    while i < x.len()
        invariant
            i <= x@.len(),
            forall|k: int| 0 <= k < x@.len() ==> ordered_item(#[trigger] views(x@)[k]) is Some,
            string_views(r@) == views(x@).take(i as int).map_values(|y: Seq<char>| ordered_item(y)->0),
        decreases x@.len() - i,
    {
        assert(views(x@)[i as int] == x@[i as int]@);
        let item = match ordered_item_exec(x[i].as_slice()) {
            Some(it) => it,
            None => Vec::new(),
        };
        let s = string_of(item.as_slice());
        let ghost before = string_views(r@);
        r.push(s);
        assert(string_views(r@) =~= before.push(item@));
        assert(views(x@).take(i + 1).map_values(|y: Seq<char>| ordered_item(y)->0) =~= views(x@).take(
            i as int,
        ).map_values(|y: Seq<char>| ordered_item(y)->0).push(ordered_item(x@[i as int]@)->0));
        i = i + 1;
    }
    assert(views(x@).take(x@.len() as int) =~= views(x@));
    r
}

proof fn lemma_head_run(ls: Seq<Seq<char>>, i: int, e: int, kind: RunKind, x: Seq<Seq<char>>)
    requires
        0 <= i < ls.len(),
        e == run_end(ls, i + 1, kind),
        continues_run(kind, trim(ls[i])),
        x == seq![trim(ls[i])] + trims(ls.subrange(i + 1, e)),
    ensures
        forall|k: int| 0 <= k < x.len() ==> continues_run(kind, #[trigger] x[k]),
        i + 1 <= e <= ls.len(),
{
    lemma_run_end(ls, i + 1, kind);
    assert forall|k: int| 0 <= k < x.len() implies continues_run(kind, #[trigger] x[k]) by {
        if k > 0 {
            assert(x[k] == trim(ls[i + k]));
        }
    }
}

fn strings_from_views(v: &Vec<Vec<char>>) -> (r: Vec<String>)
    ensures
        string_views(r@) == views(v@),
{
    strings_of(v)
}

fn append_strings(a: &mut Vec<String>, b: &Vec<Vec<char>>)
    ensures
        string_views(final(a)@) == string_views(old(a)@) + views(b@),
{
    let mut i: usize = 0;
    while i < b.len()
        invariant
            i <= b@.len(),
            string_views(a@) == string_views(old(a)@) + views(b@).take(i as int),
        decreases b@.len() - i,
    {
        let s = string_of(b[i].as_slice());
        let ghost before = string_views(a@);
        a.push(s);
        assert(string_views(a@) =~= before.push(b@[i as int]@));
        assert(views(b@).take(i + 1) =~= views(b@).take(i as int).push(b@[i as int]@));
        i = i + 1;
    }
    assert(views(b@).take(b@.len() as int) =~= views(b@));
}

fn step_exec(ls: &Vec<Vec<char>>, i: usize, g: &mut Gathered, Ghost(st): Ghost<ParseState>) -> (j: usize)
    requires
        i < ls@.len(),
        gathered_matches(*old(g), st),
    ensures
        j == step(views(ls@), i as int, st).0,
        gathered_matches(*final(g), step(views(ls@), i as int, st).1),
    decreases line_measure(views(ls@)), 0nat, 0nat,
{
    let ghost lsv = views(ls@);
    let n = ls.len();
    let line = ls[i].as_slice();
    assert(lsv[i as int] == line@);
    let t = trim_exec(line);
    let ts = t.as_slice();
    if t.len() == 0 {
        flush_exec(g, Ghost(st));
        return i + 1;
    }
    if starts_with_str(ts, "#") {
        flush_exec(g, Ghost(st));
        let ghost s = flush(st);
        let mut level: usize = 0;
        while level < t.len() && t[level] == '#'
            invariant
                level <= t@.len(),
                forall|k: int| 0 <= k < level ==> #[trigger] t@[k] == '#',
            decreases t@.len() - level,
        {
            level = level + 1;
        }
        proof {
            crate::text::lemma_leading(t@, Strip::Char('#'), level as int);
        }
        if 1 <= level && level <= 6 && level < t.len() && t[level] == ' ' {
            let rest = slice_vec(ts, level + 1, t.len());
            let text = trim_exec(rest.as_slice());
            let b = MarkdownBlock::Heading { level, text: string_of(text.as_slice()) };
            push_block(g, b, Ghost(s), Ghost(BlockView::Heading { level: level as nat, text: text@ }));
        } else {
            push_unknown(g, line, Ghost(s));
        }
        return i + 1;
    }
    if is_horizontal_rule_exec(ts) {
        flush_exec(g, Ghost(st));
        push_block(g, MarkdownBlock::HorizontalRule, Ghost(flush(st)), Ghost(BlockView::HorizontalRule));
        return i + 1;
    }
    if starts_with_str(ts, "```") {
        flush_exec(g, Ghost(st));
        proof {
            lemma_run_end(lsv, i + 1, RunKind::Fence);
            reveal_strlit("```");
        }
        let e = run_end_exec(ls, i + 1, RunKind::Fence);
        let body = raw_lines(ls, i + 1, e);
        let nl = chars_of("\n");
        let content = join_exec(&body, nl.as_slice());
        let rest = slice_vec(ts, 3, t.len());
        let language = trim_exec(rest.as_slice());
        let b = MarkdownBlock::Code {
            language: string_of(language.as_slice()),
            content: string_of(content.as_slice()),
        };
        push_block(g, b, Ghost(flush(st)), Ghost(BlockView::Code { language: language@, content: content@ }));
        return if e < n {
            e + 1
        } else {
            e
        };
    }
    match safe_image_exec(ts) {
        Some((alt, source)) => {
            flush_exec(g, Ghost(st));
            let b = MarkdownBlock::Image {
                alt: string_of(alt.as_slice()),
                source: string_of(source.as_slice()),
                raw: string_of(line),
            };
            push_block(g, b, Ghost(flush(st)), Ghost(BlockView::Image { alt: alt@, source: source@, raw: line@ }));
            return i + 1;
        },
        None => {},
    }
    match obsidian_image_exec(ts) {
        Some(source) => {
            flush_exec(g, Ghost(st));
            let b = MarkdownBlock::Image {
                alt: string_of(source.as_slice()),
                source: string_of(source.as_slice()),
                raw: string_of(line),
            };
            push_block(g, b, Ghost(flush(st)), Ghost(BlockView::Image { alt: source@, source: source@, raw: line@ }));
            return i + 1;
        },
        None => {},
    }
    if is_markdown_image_exec(ts) {
        flush_exec(g, Ghost(st));
        push_unknown(g, line, Ghost(flush(st)));
        return i + 1;
    }
    if is_table_separator_exec(ts) && g.blocks.len() > 0 {
        push_unknown(g, line, Ghost(st));
        return i + 1;
    }
    if is_table_row_exec(ts) {
        flush_exec(g, Ghost(st));
        proof {
            lemma_run_end(lsv, i + 1, RunKind::Table);
        }
        let e = run_end_exec(ls, i + 1, RunKind::Table);
        let tl = head_and_trims(ts, ls, i + 1, e);
        let rows = table_rows_exec(&tl);
        if rows.len() == 0 {
            push_unknown(g, line, Ghost(flush(st)));
        } else {
            push_block(g, MarkdownBlock::Table { rows }, Ghost(flush(st)), Ghost(BlockView::Table { rows: table_rows(views(tl@)) }));
        }
        return e;
    }
    if is_checklist_line_exec(ts) {
        flush_exec(g, Ghost(st));
        proof {
            lemma_run_end(lsv, i + 1, RunKind::Checklist);
        }
        let e = run_end_exec(ls, i + 1, RunKind::Checklist);
        let x = head_and_trims(ts, ls, i + 1, e);
        proof {
            lemma_head_run(lsv, i as int, e as int, RunKind::Checklist, views(x@));
        }
        let items = checklist_items_exec(&x);
        push_block(g, MarkdownBlock::Checklist { items }, Ghost(flush(st)), Ghost(BlockView::Checklist { items: views(x@).map_values(|y: Seq<char>| checklist_item(y)) }));
        return e;
    }
    if starts_with_str(ts, ">") {
        flush_exec(g, Ghost(st));
        proof {
            lemma_run_end(lsv, i + 1, RunKind::Quote);
        }
        let e = run_end_exec(ls, i + 1, RunKind::Quote);
        let x = head_and_trims(ts, ls, i + 1, e);
        let ql = quote_lines_exec(&x);
        let nl = chars_of("\n");
        let q = join_exec(&ql, nl.as_slice());
        proof {
            lemma_quote_shorter(lsv, i as int);
            lemma_run_end(lsv, i + 1, RunKind::Quote);
        }
        let inner = parse_body(q.as_slice());
        let b = MarkdownBlock::Blockquote { children: inner.blocks };
        push_block(g, b, Ghost(flush(st)), Ghost(BlockView::Blockquote { children: parse_spec(q@).blocks }));
        return e;
    }
    match strict_field_exec(ts) {
        Some((key, value)) => {
            flush_exec(g, Ghost(st));
            let ghost s = flush(st);
            if eq_str(key.as_slice(), "tags") {
                let vals = split_values_exec(value.as_slice());
                append_strings(&mut g.tags, &vals);
                let b = MarkdownBlock::Tags { tags: strings_from_views(&vals) };
                proof {
                    lemma_blocks_push(g.blocks@, s.blocks, b, BlockView::Tags { tags: views(vals@) });
                }
                g.blocks.push(b);
            } else if eq_str(key.as_slice(), "relationships") || eq_str(key.as_slice(), "related") {
                let vals = split_values_exec(value.as_slice());
                append_strings(&mut g.rels, &vals);
                let b = MarkdownBlock::Relationships { links: strings_from_views(&vals) };
                proof {
                    lemma_blocks_push(g.blocks@, s.blocks, b, BlockView::Relationships { links: views(vals@) });
                }
                g.blocks.push(b);
            }
            let mut fields: Vec<(String, String)> = Vec::new();
            std::mem::swap(&mut fields, &mut g.fields);
            g.fields = crate::keyed::upsert_text(fields, string_of(key.as_slice()), string_of(value.as_slice()));
            return i + 1;
        },
        None => {},
    }
    if is_bullet_line_exec(ts) {
        flush_exec(g, Ghost(st));
        proof {
            lemma_run_end(lsv, i + 1, RunKind::Bullet);
        }
        let e = run_end_exec(ls, i + 1, RunKind::Bullet);
        let x = head_and_trims(ts, ls, i + 1, e);
        proof {
            lemma_run_end(lsv, i + 1, RunKind::Bullet);
            assert forall|k: int| 0 <= k < x@.len() implies is_bullet_line(#[trigger] views(x@)[k]) by {
                if k > 0 {
                    assert(views(x@)[k] == trim(lsv[i + k]));
                }
            }
        }
        let items = bullet_items_exec(&x);
        push_block(g, MarkdownBlock::List { items }, Ghost(flush(st)), Ghost(BlockView::List { items: views(x@).map_values(|y: Seq<char>| trim(y.skip(2))) }));
        return e;
    }
    if ordered_item_exec(ts).is_some() {
        flush_exec(g, Ghost(st));
        proof {
            lemma_run_end(lsv, i + 1, RunKind::Ordered);
        }
        let e = run_end_exec(ls, i + 1, RunKind::Ordered);
        let x = head_and_trims(ts, ls, i + 1, e);
        proof {
            lemma_head_run(lsv, i as int, e as int, RunKind::Ordered, views(x@));
        }
        let items = ordered_items_exec(&x);
        push_block(g, MarkdownBlock::OrderedList { items }, Ghost(flush(st)), Ghost(BlockView::OrderedList { items: views(x@).map_values(|y: Seq<char>| ordered_item(y)->0) }));
        return e;
    }
    if starts_with_str(ts, "<!-- bentolife:managed-block start") {
        flush_exec(g, Ghost(st));
        proof {
            lemma_run_end(lsv, i + 1, RunKind::Managed);
        }
        let e = run_end_exec(ls, i + 1, RunKind::Managed);
        let name = match managed_block_name_exec(ts) {
            Some(nm) => nm,
            None => chars_of("unknown"),
        };
        let body = raw_lines(ls, i + 1, e);
        let nl = chars_of("\n");
        let content = join_exec(&body, nl.as_slice());
        let b = MarkdownBlock::Managed {
            name: string_of(name.as_slice()),
            content: string_of(content.as_slice()),
        };
        push_block(g, b, Ghost(flush(st)), Ghost(BlockView::Managed { name: name@, content: content@ }));
        return if e < n {
            e + 1
        } else {
            e
        };
    }
    if starts_with_str(ts, "<!-- bentolife:document_id=") || starts_with_str(
        ts,
        "<!-- bentolife:import_context",
    ) {
        return i + 1;
    }
    let copy = slice_vec(line, 0, line.len());
    assert(copy@ =~= line@);
    let ghost before = views(g.para@);
    g.para.push(copy);
    assert(views(g.para@) =~= before.push(line@));
    i + 1
}

proof fn lemma_step_progress(ls: Seq<Seq<char>>, i: int, st: ParseState)
    requires
        0 <= i < ls.len(),
    ensures
        i < step(ls, i, st).0 <= ls.len(),
{
    lemma_run_end(ls, i + 1, RunKind::Fence);
    lemma_run_end(ls, i + 1, RunKind::Table);
    lemma_run_end(ls, i + 1, RunKind::Checklist);
    lemma_run_end(ls, i + 1, RunKind::Quote);
    lemma_run_end(ls, i + 1, RunKind::Bullet);
    lemma_run_end(ls, i + 1, RunKind::Ordered);
    lemma_run_end(ls, i + 1, RunKind::Managed);
}

fn parse_body(md: &[char]) -> (g: Gathered)
    ensures
        gathered_matches(g, parse_spec(md@)),
    decreases md@.len() + 1, 2nat, 0nat,
{
    let ls = lines_exec(md);
    proof {
        lemma_lines_measure(md@);
    }
    let mut g = Gathered {
        blocks: Vec::new(),
        unknown: Vec::new(),
        tags: Vec::new(),
        rels: Vec::new(),
        fields: Vec::new(),
        para: Vec::new(),
    };
    let ghost lsv = views(ls@);
    let ghost mut st = empty_state();
    assert(crate::keyed::text_map(g.fields@) =~= Map::<Seq<char>, Seq<char>>::empty());
    assert(views(g.para@) =~= Seq::<Seq<char>>::empty());
    assert(string_views(g.tags@) =~= Seq::<Seq<char>>::empty());
    assert(string_views(g.rels@) =~= Seq::<Seq<char>>::empty());
    let n = ls.len();
    let mut i: usize = 0;
    while i < n
        invariant
            n == ls@.len(),
            lsv == views(ls@),
            lsv == lines(md@),
            line_measure(lsv) <= md@.len() + 1,
            i <= n,
            gathered_matches(g, st),
            run(lsv, i as int, st) == run(lsv, 0, empty_state()),
        decreases n - i,
    {
        proof {
            lemma_step_progress(lsv, i as int, st);
        }
        let ghost prev = st;
        let j = step_exec(&ls, i, &mut g, Ghost(st));
        proof {
            st = step(lsv, i as int, prev).1;
        }
        i = j;
    }
    flush_exec(&mut g, Ghost(st));
    g
}

} // verus!

verus! {

/// The text of the first level-one heading among the blocks.
fn first_title_exec(blocks: &Vec<MarkdownBlock>, Ghost(vs): Ghost<Seq<BlockView>>) -> (r: Option<String>)
    requires
        blocks_match(blocks@, vs),
    ensures
        match first_title(vs) {
            Some(t) => r is Some && r->0@ == t,
            None => r is None,
        },
{
    let n = blocks.len();
    let mut i: usize = 0;
    assert(vs.skip(0) =~= vs);
    while i < n
        invariant
            n == blocks@.len(),
            blocks_match(blocks@, vs),
            i <= n,
            first_title(vs) == first_title(vs.skip(i as int)),
        decreases n - i,
    {
        let ghost rest = vs.skip(i as int);
        assert(rest[0] == vs[i as int]);
        assert(rest.drop_first() =~= vs.skip(i + 1));
        assert(block_matches(blocks@[i as int], vs[i as int]));
        match &blocks[i] {
            MarkdownBlock::Heading { level, text } => {
                if *level == 1 {
                    return Some(text.clone());
                }
            },
            _ => {},
        }
        i = i + 1;
    }
    assert(vs.skip(n as int) =~= Seq::<BlockView>::empty());
    None
}

impl MarkdownParser {
    /// Parses a Markdown body: its blocks in order, the blocks it could not
    /// read, the tags and relationships of `Tags:` and `Relationships:` lines,
    /// and the strict `Label: value` fields, with the first level-one heading
    /// as the `title` field.
    pub fn parse(markdown_body: &str) -> (r: ParsedEntityContract)
        ensures
            blocks_match(r.blocks@, parse_spec(markdown_body@).blocks),
            blocks_match(r.unknown_blocks@, parse_spec(markdown_body@).unknown),
            string_views(r.tags@) == parse_spec(markdown_body@).tags,
            string_views(r.relationships@) == parse_spec(markdown_body@).relationships,
            crate::keyed::text_map(r.fields@) == parsed_fields(markdown_body@),
            crate::keyed::distinct_keys(r.fields@),
            r.module_id is None,
            r.entity_type is None,
            r.field_descriptors@.len() == 0,
            r.path@.len() == 0,
            r.content_hash@.len() == 0,
    {
        let md = chars_of(markdown_body);
        let g = parse_body(md.as_slice());
        let ghost st = parse_spec(markdown_body@);
        let title = first_title_exec(&g.blocks, Ghost(st.blocks));
        let fields = match title {
            Some(t) => crate::keyed::upsert_text(g.fields, owned("title"), t),
            None => g.fields,
        };
        proof {
            reveal_strlit("title");
        }
        ParsedEntityContract {
            module_id: None,
            entity_type: None,
            fields,
            field_descriptors: Vec::new(),
            blocks: g.blocks,
            unknown_blocks: g.unknown,
            relationships: g.rels,
            tags: g.tags,
            path: String::new(),
            content_hash: String::new(),
        }
    }
}

impl ParsedEntityContract {
    /// The value of a field, by its lowercased label.
    pub fn field(&self, key: &str) -> (r: Option<String>)
        ensures
            match r {
                Some(s) => crate::keyed::text_map(self.fields@).dom().contains(key@)
                    && crate::keyed::text_map(self.fields@)[key@] == s@,
                None => !crate::keyed::text_map(self.fields@).dom().contains(key@),
            },
    {
        crate::keyed::lookup(&self.fields, key)
    }
}

} // verus!

verus! {

/// The unknown blocks among top-level blocks, in order.
pub open spec fn unknown_of(bs: Seq<BlockView>) -> Seq<BlockView>
    decreases bs.len(),
{
    if bs.len() == 0 {
        seq![]
    } else if bs.last() is Unknown {
        unknown_of(bs.drop_last()).push(bs.last())
    } else {
        unknown_of(bs.drop_last())
    }
}

/// The tags of the top-level tag blocks, in order.
pub open spec fn tags_of(bs: Seq<BlockView>) -> Seq<Seq<char>>
    decreases bs.len(),
{
    if bs.len() == 0 {
        seq![]
    } else {
        match bs.last() {
            BlockView::Tags { tags } => tags_of(bs.drop_last()) + tags,
            _ => tags_of(bs.drop_last()),
        }
    }
}

/// The links of the top-level relationship blocks, in order.
pub open spec fn links_of(bs: Seq<BlockView>) -> Seq<Seq<char>>
    decreases bs.len(),
{
    if bs.len() == 0 {
        seq![]
    } else {
        match bs.last() {
            BlockView::Relationships { links } => links_of(bs.drop_last()) + links,
            _ => links_of(bs.drop_last()),
        }
    }
}

/// The unknown blocks, tags and relationships of a state are those of its
/// blocks.
pub open spec fn gathered_from_blocks(st: ParseState) -> bool {
    &&& st.unknown == unknown_of(st.blocks)
    &&& st.tags == tags_of(st.blocks)
    &&& st.relationships == links_of(st.blocks)
}

proof fn lemma_of_push(bs: Seq<BlockView>, b: BlockView)
    ensures
        unknown_of(bs.push(b)) == if b is Unknown { unknown_of(bs).push(b) } else { unknown_of(bs) },
        tags_of(bs.push(b)) == match b {
            BlockView::Tags { tags } => tags_of(bs) + tags,
            _ => tags_of(bs),
        },
        links_of(bs.push(b)) == match b {
            BlockView::Relationships { links } => links_of(bs) + links,
            _ => links_of(bs),
        },
{
    assert(bs.push(b).drop_last() =~= bs);
}

proof fn lemma_flush_keeps(st: ParseState)
    requires
        gathered_from_blocks(st),
    ensures
        gathered_from_blocks(flush(st)),
{
    if st.paragraph.len() > 0 {
        lemma_of_push(st.blocks, BlockView::Paragraph { text: join(st.paragraph, "\n"@) });
    }
}

proof fn lemma_step_keeps(ls: Seq<Seq<char>>, i: int, st: ParseState)
    requires
        gathered_from_blocks(st),
    ensures
        gathered_from_blocks(step(ls, i, st).1),
{
    lemma_flush_keeps(st);
    let s = flush(st);
    assert forall|b: BlockView| !(b is Unknown) && !(b is Tags) && !(b is Relationships) implies gathered_from_blocks(
        #[trigger] with_block(s, b),
    ) by {
        lemma_of_push(s.blocks, b);
    }
    assert forall|raw: Seq<char>| gathered_from_blocks(#[trigger] with_unknown(s, raw)) by {
        lemma_of_push(s.blocks, BlockView::Unknown { raw });
    }
    assert forall|raw: Seq<char>| gathered_from_blocks(#[trigger] with_unknown(st, raw)) by {
        lemma_of_push(st.blocks, BlockView::Unknown { raw });
    }
    assert forall|vals: Seq<Seq<char>>| gathered_from_blocks(
        (ParseState { tags: #[trigger] (s.tags + vals), blocks: s.blocks.push(BlockView::Tags { tags: vals }), ..s }),
    ) by {
        lemma_of_push(s.blocks, BlockView::Tags { tags: vals });
    }
    assert forall|vals: Seq<Seq<char>>| gathered_from_blocks(
        (ParseState {
            relationships: #[trigger] (s.relationships + vals),
            blocks: s.blocks.push(BlockView::Relationships { links: vals }),
            ..s
        }),
    ) by {
        lemma_of_push(s.blocks, BlockView::Relationships { links: vals });
    }
}

proof fn lemma_run_keeps(ls: Seq<Seq<char>>, i: int, st: ParseState)
    requires
        gathered_from_blocks(st),
    ensures
        gathered_from_blocks(run(ls, i, st)),
    decreases ls.len() - i,
{
    if 0 <= i < ls.len() {
        lemma_step_keeps(ls, i, st);
        let (j, s2) = step(ls, i, st);
        if i < j <= ls.len() {
            lemma_run_keeps(ls, j, s2);
        }
    }
}

/// Law: of any Markdown body, the parse's unknown blocks are its top-level
/// unknown blocks, its tags those of its top-level tag blocks and its
/// relationships those of its top-level relationship blocks, each in order.
pub proof fn law_parse_gathers_from_blocks(md: Seq<char>)
    ensures
        parse_spec(md).unknown == unknown_of(parse_spec(md).blocks),
        parse_spec(md).tags == tags_of(parse_spec(md).blocks),
        parse_spec(md).relationships == links_of(parse_spec(md).blocks),
{
    assert(gathered_from_blocks(empty_state()));
    lemma_run_keeps(lines(md), 0, empty_state());
    lemma_flush_keeps(run(lines(md), 0, empty_state()));
}

} // verus!

verus! {

/// Law: a line that does not start with a digit is no ordered-list item.
pub proof fn law_ordered_item_needs_number(t: Seq<char>)
    requires
        t.len() == 0 || !is_ascii_digit(t[0]),
    ensures
        ordered_item(t) is None,
{
    crate::text::lemma_find_from(t, ". "@, 0);
    match find(t, ". "@) {
        Some(i) => {
            if i > 0 {
                assert(t.take(i)[0] == t[0]);
            }
        },
        None => {},
    }
}

/// Law: the item of an ordered-list line `<digits>. text` is the trimmed
/// text after the number and its `. `, without the number.
pub proof fn law_ordered_item_text(digits: Seq<char>, text: Seq<char>)
    requires
        digits.len() > 0,
        forall|i: int| 0 <= i < digits.len() ==> is_ascii_digit(#[trigger] digits[i]),
    ensures
        ordered_item(digits + ". "@ + text) == Some(trim(text)),
{
    reveal_strlit(". ");
    let t = digits + ". "@ + text;
    let n = digits.len() as int;
    crate::text::lemma_find_from(t, ". "@, 0);
    assert(t.subrange(n, n + 2) =~= ". "@);
    assert(crate::text::occurs_at(t, ". "@, n));
    assert forall|j: int| 0 <= j < n implies !crate::text::occurs_at(t, ". "@, j) by {
        if crate::text::occurs_at(t, ". "@, j) {
            assert(t.subrange(j, j + 2)[0] == t[j]);
            assert(t[j] == digits[j]);
            assert(is_ascii_digit(digits[j]));
        }
    }
    match find(t, ". "@) {
        Some(i) => {
            if i < n {
                assert(!crate::text::occurs_at(t, ". "@, i));
            }
            if i > n {
                assert(!crate::text::occurs_at(t, ". "@, n));
            }
        },
        None => {
            assert(!crate::text::occurs_at(t, ". "@, n));
        },
    }
    assert(t.take(n) =~= digits);
    assert(t.skip(n + 2) =~= text);
}

} // verus!
