//! Layout metadata: the cards of a document's dashboard layout.
use vstd::prelude::*;
use crate::document_identity::without_identity_comments;
use crate::document_metadata::{
    document_id_check, layout_relative, DocumentMetadataService, LAYOUTS_FOLDER,
};
use crate::markdown_document::without_frontmatter;
use crate::paths::path_join;
use crate::security::unit_view;
use crate::storage::{
    current_timestamp_label, decimal, decimal_exec, timestamp_label,
};
use crate::text::{
    append, append_str, chars_of, eq_str, is_ascii_alnum, is_ascii_alnum_exec, lines, lines_exec,
    lowercase_chars, owned, seq_eq, split_once_char, split_once_exec, string_of, string_views,
    trim, trim_by, trim_by_exec, trim_exec, trim_start_by, trim_start_exec, unicode_lowercase,
    views, Strip,
};
use crate::theme::DEFAULT_THEME;

verus! {

/// The version of the layout metadata format.
pub const LAYOUT_METADATA_VERSION: u32 = 1;

/// The layout mode of new layouts.
pub const DEFAULT_LAYOUT_MODE: &'static str = "bento-dashboard";

/// The width of new cards.
pub const DEFAULT_CARD_WIDTH: &'static str = "single";

/// The widget of new cards.
pub const DEFAULT_WIDGET: &'static str = "rich_text";

/// One card of a layout, matched to a Markdown section.
#[derive(Debug, Clone, PartialEq, Eq)]
pub struct LayoutCardMetadata {
    pub section_match: String,
    pub card_id: String,
    pub width: String,
    pub order: u32,
    pub widget: String,
}

/// How cards are generated when a layout has none.
#[derive(Debug, Clone, PartialEq, Eq)]
pub struct FallbackLayoutMetadata {
    pub strategy: String,
    pub default_width: String,
    pub preserve_markdown_order: bool,
}

/// The layout record of one document.
#[derive(Debug, Clone, PartialEq, Eq)]
pub struct LayoutMetadata {
    pub schema_version: u32,
    pub document_id: String,
    pub vault_relative: bool,
    pub layout_mode: String,
    pub theme: String,
    pub cards: Vec<LayoutCardMetadata>,
    pub fallback_layout: FallbackLayoutMetadata,
    pub updated_at: String,
}

/// Creates, generates and checks layout metadata.
pub struct LayoutMetadataService;

/// A width a card may have.
pub open spec fn is_card_width(w: Seq<char>) -> bool {
    w == "single"@ || w == "double"@ || w == "full"@
}

fn is_card_width_exec(w: &String) -> (r: bool)
    ensures
        r == is_card_width(w@),
{
    let v = chars_of(w.as_str());
    eq_str(v.as_slice(), "single") || eq_str(v.as_slice(), "double") || eq_str(v.as_slice(), "full")
}

/// The first problem with card `k` onwards, given the ids of earlier cards.
pub open spec fn cards_error(cards: Seq<LayoutCardMetadata>, k: int) -> Option<Seq<char>>
    decreases cards.len() - k,
{
    if k < 0 || k >= cards.len() {
        None
    } else {
        let card = cards[k];
        if trim(card.section_match@).len() == 0 {
            Some("Layout cards must include a section match."@)
        } else if trim(card.card_id@).len() == 0 {
            Some("Layout cards must include a card ID."@)
        } else if exists|j: int| 0 <= j < k && cards[j].card_id@ == card.card_id@ {
            Some("Layout card IDs must be unique."@)
        } else if !is_card_width(card.width@) {
            Some("Layout card width must be single, double, or full."@)
        } else if trim(card.widget@).len() == 0 {
            Some("Layout cards must include a widget type."@)
        } else {
            cards_error(cards, k + 1)
        }
    }
}

/// The checks a layout record must pass, in order.
pub open spec fn layout_check(m: LayoutMetadata) -> Result<(), Seq<char>> {
    if m.schema_version != LAYOUT_METADATA_VERSION {
        Err("Unsupported layout metadata version "@ + decimal(m.schema_version as nat) + "."@)
    } else if document_id_check(m.document_id@) is Err {
        document_id_check(m.document_id@)
    } else if !m.vault_relative {
        Err("Layout metadata must use vault-relative paths."@)
    } else if trim(m.theme@).len() == 0 {
        Err("Layout metadata must include a theme."@)
    } else if trim(m.layout_mode@).len() == 0 {
        Err("Layout metadata must include a layout mode."@)
    } else if !is_card_width(m.fallback_layout.default_width@) {
        Err("Fallback layout width must be single, double, or full."@)
    } else {
        match cards_error(m.cards@, 0) {
            Some(e) => Err(e),
            None => Ok(()),
        }
    }
}

/// The `# title` or `## title` heading of a line, normalized to one space.
pub open spec fn heading_of_line(line: Seq<char>) -> Option<Seq<char>> {
    match split_once_char(trim(line), ' ') {
        None => None,
        Some((marks, title)) => if (marks == "#"@ || marks == "##"@) && trim(title).len() > 0 {
            Some(marks + " "@ + trim(title))
        } else {
            None
        },
    }
}

/// The level-one and level-two headings among the lines, in order.
pub open spec fn headings_of(ls: Seq<Seq<char>>) -> Seq<Seq<char>>
    decreases ls.len(),
{
    if ls.len() == 0 {
        seq![]
    } else {
        match heading_of_line(ls.last()) {
            Some(h) => headings_of(ls.drop_last()).push(h),
            None => headings_of(ls.drop_last()),
        }
    }
}

/// The section headings of Markdown, outside frontmatter and identity comments.
pub open spec fn heading_matches(md: Seq<char>) -> Seq<Seq<char>> {
    headings_of(lines(without_identity_comments(without_frontmatter(md))))
}

/// One step of building a slug: keep ASCII letters and digits, turn any run
/// of other characters into one dash.
pub open spec fn slug_step(acc: Seq<char>, c: char) -> Seq<char> {
    if is_ascii_alnum(c) {
        acc.push(c)
    } else if acc.len() > 0 && acc.last() == '-' {
        acc
    } else {
        acc.push('-')
    }
}

/// The slug of a section match: without leading `#`, trimmed, lowercased,
/// non-alphanumerics collapsed to dashes, dashes trimmed.
pub open spec fn section_slug(section: Seq<char>) -> Seq<char> {
    let base = unicode_lowercase(trim(trim_start_by(section, Strip::Char('#'))));
    trim_by(slug_fold(base), Strip::Char('-'))
}

/// The slug steps applied to every character, from the left.
pub open spec fn slug_fold(s: Seq<char>) -> Seq<char> {
    s.fold_left(seq![], |acc: Seq<char>, c: char| slug_step(acc, c))
}

/// The id of the card for a section at a position: `card_<index>_<slug>`,
/// with `section` standing in for an empty slug.
pub open spec fn card_id_for(section: Seq<char>, index: nat) -> Seq<char> {
    let slug = section_slug(section);
    "card_"@ + decimal(index) + "_"@ + if slug.len() == 0 {
        "section"@
    } else {
        slug
    }
}

/// The cards generated from the headings, in order.
pub open spec fn generated_cards(cards: Seq<LayoutCardMetadata>, headings: Seq<Seq<char>>) -> bool {
    &&& cards.len() == headings.len()
    &&& forall|i: int|
        0 <= i < cards.len() ==> {
            &&& (#[trigger] cards[i]).section_match@ == headings[i]
            &&& cards[i].card_id@ == card_id_for(headings[i], i as nat)
            &&& cards[i].width@ == DEFAULT_CARD_WIDTH@
            &&& cards[i].order == i as u32
            &&& cards[i].widget@ == DEFAULT_WIDGET@
        }
}

/// What `create_default` records, apart from the timestamp.
pub open spec fn default_layout_fields(m: LayoutMetadata, id: Seq<char>) -> bool {
    &&& m.schema_version == LAYOUT_METADATA_VERSION
    &&& m.document_id@ == id
    &&& m.vault_relative
    &&& m.layout_mode@ == DEFAULT_LAYOUT_MODE@
    &&& m.theme@ == DEFAULT_THEME@
    &&& m.fallback_layout.strategy@ == "generate_cards_from_markdown_headings"@
    &&& m.fallback_layout.default_width@ == DEFAULT_CARD_WIDTH@
    &&& m.fallback_layout.preserve_markdown_order
    &&& exists|s: u64| m.updated_at@ == timestamp_label(s as nat)
}

/// The section matches of the cards whose section is not among the headings.
pub open spec fn stale_sections(cards: Seq<LayoutCardMetadata>, headings: Seq<Seq<char>>) -> Seq<
    Seq<char>,
>
    decreases cards.len(),
{
    if cards.len() == 0 {
        seq![]
    } else {
        let rest = stale_sections(cards.drop_last(), headings);
        if headings.contains(cards.last().section_match@) {
            rest
        } else {
            rest.push(cards.last().section_match@)
        }
    }
}

fn heading_of_line_exec(line: &[char]) -> (r: Option<Vec<char>>)
    ensures
        match r {
            None => heading_of_line(line@) is None,
            Some(h) => heading_of_line(line@) == Some(h@),
        },
{
    let t = trim_exec(line);
    match split_once_exec(t.as_slice(), ' ') {
        None => None,
        Some((marks, title)) => {
            let tt = trim_exec(title.as_slice());
            if (eq_str(marks.as_slice(), "#") || eq_str(marks.as_slice(), "##")) && tt.len() > 0 {
                let mut h = marks;
                append_str(&mut h, " ");
                append(&mut h, tt.as_slice());
                Some(h)
            } else {
                None
            }
        },
    }
}

fn heading_matches_exec(md: &[char]) -> (r: Vec<Vec<char>>)
    ensures
        views(r@) == heading_matches(md@),
{
    let s = string_of(md);
    let stripped = strip_frontmatter_chars(md);
    let body = crate::document_identity::remove_identity_chars(stripped.as_slice());
    let ls = lines_exec(body.as_slice());
    let mut r: Vec<Vec<char>> = Vec::new();
    let mut i: usize = 0;
    while i < ls.len()
        invariant
            i <= ls@.len(),
            views(r@) == headings_of(views(ls@).take(i as int)),
        decreases ls@.len() - i,
    {
        let ghost t = views(ls@).take(i + 1);
        assert(t.drop_last() =~= views(ls@).take(i as int));
        assert(t.last() == ls@[i as int]@);
        match heading_of_line_exec(ls[i].as_slice()) {
            Some(h) => {
                let ghost before = views(r@);
                r.push(h);
                assert(views(r@) =~= before.push(h@));
            },
            None => {},
        }
        i = i + 1;
    }
    assert(views(ls@).take(ls@.len() as int) =~= views(ls@));
    r
}

fn strip_frontmatter_chars(md: &[char]) -> (r: Vec<char>)
    ensures
        r@ == without_frontmatter(md@),
{
    let s = string_of(md);
    let parsed = crate::markdown_document::MarkdownDocumentService::parse_frontmatter(s.as_str());
    match parsed.raw_frontmatter {
        None => slice_all(md),
        Some(_) => chars_of(parsed.body.as_str()),
    }
}

fn slice_all(md: &[char]) -> (r: Vec<char>)
    ensures
        r@ == md@,
{
    let r = crate::text::slice_vec(md, 0, md.len());
    assert(r@ =~= md@);
    r
}

fn section_slug_exec(section: &[char]) -> (r: Vec<char>)
    ensures
        r@ == section_slug(section@),
{
    let a = trim_start_exec(section, Strip::Char('#'));
    let b = trim_exec(a.as_slice());
    let base = lowercase_chars(b.as_slice());
    let mut acc: Vec<char> = Vec::new();
    let mut i: usize = 0;
    while i < base.len()
        invariant
            i <= base@.len(),
            acc@ == slug_fold(base@.take(i as int)),
        decreases base@.len() - i,
    {
        let ghost t = base@.take(i + 1);
        assert(t.drop_last() =~= base@.take(i as int));
        assert(t.last() == base@[i as int]);
        let c = base[i];
        let n = acc.len();
        if is_ascii_alnum_exec(c) {
            acc.push(c);
        } else if n > 0 && acc[n - 1] == '-' {
        } else {
            acc.push('-');
        }
        i = i + 1;
    }
    assert(base@.take(base@.len() as int) =~= base@);
    trim_by_exec(acc.as_slice(), Strip::Char('-'))
}

fn card_id_exec(section: &[char], index: usize) -> (r: Vec<char>)
    ensures
        r@ == card_id_for(section@, index as nat),
{
    let slug = section_slug_exec(section);
    let mut r = chars_of("card_");
    let d = decimal_exec(index as u64);
    append(&mut r, d.as_slice());
    append_str(&mut r, "_");
    if slug.len() == 0 {
        append_str(&mut r, "section");
    } else {
        append(&mut r, slug.as_slice());
    }
    r
}

fn cards_error_exec(cards: &Vec<LayoutCardMetadata>) -> (r: Option<String>)
    ensures
        match r {
            None => cards_error(cards@, 0) is None,
            Some(e) => cards_error(cards@, 0) == Some(e@),
        },
{
    let mut k: usize = 0;
    while k < cards.len()
        invariant
            k <= cards@.len(),
            cards_error(cards@, 0) == cards_error(cards@, k as int),
        decreases cards@.len() - k,
    {
        let card = &cards[k];
        let sm = trim_str_of(&card.section_match);
        if sm == 0 {
            return Some(owned("Layout cards must include a section match."));
        }
        let ci = trim_str_of(&card.card_id);
        if ci == 0 {
            return Some(owned("Layout cards must include a card ID."));
        }
        let id = chars_of(card.card_id.as_str());
        let mut j: usize = 0;
        while j < k
            invariant
                j <= k < cards@.len(),
                id@ == cards@[k as int].card_id@,
                cards_error(cards@, 0) == cards_error(cards@, k as int),
                trim(cards@[k as int].section_match@).len() != 0,
                trim(cards@[k as int].card_id@).len() != 0,
                forall|m: int| 0 <= m < j ==> cards@[m].card_id@ != id@,
            decreases k - j,
        {
            let other = chars_of(cards[j].card_id.as_str());
            if seq_eq(other.as_slice(), id.as_slice()) {
                assert(cards@[j as int].card_id@ == cards@[k as int].card_id@);
                return Some(owned("Layout card IDs must be unique."));
            }
            j = j + 1;
        }
        if !is_card_width_exec(&card.width) {
            return Some(owned("Layout card width must be single, double, or full."));
        }
        if trim_str_of(&card.widget) == 0 {
            return Some(owned("Layout cards must include a widget type."));
        }
        k = k + 1;
    }
    None
}

fn trim_str_of(s: &String) -> (n: usize)
    ensures
        n == trim(s@).len(),
{
    let v = chars_of(s.as_str());
    let t = trim_exec(v.as_slice());
    t.len()
}

impl LayoutMetadataService {
    /// The name of this service.
    pub fn service_name() -> (r: &'static str)
        ensures
            r@ == "LayoutMetadataService"@,
    {
        "LayoutMetadataService"
    }

    /// The vault-relative path of a document's layout record.
    pub fn layout_relative_path(document_id: &str) -> (r: String)
        ensures
            r@ == layout_relative(document_id@),
    {
        let mut v = chars_of(LAYOUTS_FOLDER);
        append_str(&mut v, "/");
        append_str(&mut v, document_id);
        append_str(&mut v, ".layout.json");
        string_of(v.as_slice())
    }

    /// The path of a document's layout record inside the vault.
    pub fn layout_path(vault_path: &str, document_id: &str) -> (r: String)
        ensures
            r@ == path_join(vault_path@, layout_relative(document_id@)),
    {
        let rel = Self::layout_relative_path(document_id);
        crate::paths::join_path(vault_path, rel.as_str())
    }

    /// A layout record read from the vault, accepted only when it passes the
    /// layout checks.
    pub fn read(metadata: LayoutMetadata) -> (r: Result<LayoutMetadata, String>)
        ensures
            match r {
                Ok(m) => m == metadata && layout_check(metadata) is Ok,
                Err(e) => layout_check(metadata) == Err::<(), Seq<char>>(e@),
            },
    {
        match metadata.validate() {
            Ok(_) => Ok(metadata),
            Err(e) => Err(e),
        }
    }

    /// Where a layout record is written: its record path inside the vault,
    /// given only for a record that passes the checks.
    pub fn write(vault_path: &str, metadata: &LayoutMetadata) -> (r: Result<String, String>)
        ensures
            match r {
                Ok(p) => layout_check(*metadata) is Ok && p@ == path_join(
                    vault_path@,
                    layout_relative(metadata.document_id@),
                ),
                Err(e) => layout_check(*metadata) == Err::<(), Seq<char>>(e@),
            },
    {
        match metadata.validate() {
            Ok(_) => Ok(Self::layout_path(vault_path, metadata.document_id.as_str())),
            Err(e) => Err(e),
        }
    }

    /// A layout without cards that falls back to heading cards; refused
    /// exactly for an invalid document id.
    pub fn create_default(document_id: &str) -> (r: Result<LayoutMetadata, String>)
        ensures
            match r {
                Ok(m) => document_id_check(document_id@) is Ok && default_layout_fields(
                    m,
                    document_id@,
                ) && m.cards@.len() == 0 && layout_check(m) is Ok,
                Err(e) => document_id_check(document_id@) == Err::<(), Seq<char>>(e@),
            },
    {
        match DocumentMetadataService::validate_document_id(document_id) {
            Ok(_) => {},
            Err(e) => {
                return Err(e);
            },
        }
        let metadata = LayoutMetadata {
            schema_version: LAYOUT_METADATA_VERSION,
            document_id: owned(document_id),
            vault_relative: true,
            layout_mode: owned(DEFAULT_LAYOUT_MODE),
            theme: owned(DEFAULT_THEME),
            cards: Vec::new(),
            fallback_layout: FallbackLayoutMetadata {
                strategy: owned("generate_cards_from_markdown_headings"),
                default_width: owned(DEFAULT_CARD_WIDTH),
                preserve_markdown_order: true,
            },
            updated_at: current_timestamp_label(),
        };
        proof {
            reveal_strlit("clean-slate");
            reveal_strlit("bento-dashboard");
            reveal_strlit("single");
            assert(!crate::text::is_ws(DEFAULT_THEME@[0]));
            assert(!crate::text::is_ws(DEFAULT_LAYOUT_MODE@[0]));
            crate::text::lemma_leading(DEFAULT_THEME@, Strip::Whitespace, 0);
            crate::text::lemma_leading(DEFAULT_LAYOUT_MODE@, Strip::Whitespace, 0);
            crate::text::lemma_trailing_bound(DEFAULT_THEME@.skip(0), Strip::Whitespace);
            assert(DEFAULT_THEME@.skip(0) =~= DEFAULT_THEME@);
            assert(DEFAULT_LAYOUT_MODE@.skip(0) =~= DEFAULT_LAYOUT_MODE@);
            lemma_trim_nonempty(DEFAULT_THEME@);
            lemma_trim_nonempty(DEFAULT_LAYOUT_MODE@);
        }
        match metadata.validate() {
            Ok(_) => {},
            Err(e) => {
                return Err(e);
            },
        }
        Ok(metadata)
    }

    /// A layout with one card per level-one or level-two heading, in order.
    pub fn generate_from_markdown(document_id: &str, markdown: &str) -> (r: Result<
        LayoutMetadata,
        String,
    >)
        ensures
            match r {
                Ok(m) => document_id_check(document_id@) is Ok && default_layout_fields(
                    m,
                    document_id@,
                ) && generated_cards(m.cards@, heading_matches(markdown@)) && layout_check(m) is Ok,
                Err(e) => document_id_check(document_id@) == Err::<(), Seq<char>>(e@),
            },
    {
        let mut metadata = match Self::create_default(document_id) {
            Ok(m) => m,
            Err(e) => {
                return Err(e);
            },
        };
        let md = chars_of(markdown);
        let headings = heading_matches_exec(md.as_slice());
        let mut cards: Vec<LayoutCardMetadata> = Vec::new();
        let mut i: usize = 0;
        while i < headings.len()
            invariant
                i <= headings@.len(),
                generated_cards(cards@, views(headings@).take(i as int)),
            decreases headings@.len() - i,
        {
            let h = headings[i].as_slice();
            let card = LayoutCardMetadata {
                section_match: string_of(h),
                card_id: string_of(card_id_exec(h, i).as_slice()),
                width: owned(DEFAULT_CARD_WIDTH),
                order: i as u32,
                widget: owned(DEFAULT_WIDGET),
            };
            cards.push(card);
            assert(views(headings@).take(i + 1) =~= views(headings@).take(i as int).push(
                headings@[i as int]@,
            ));
            i = i + 1;
        }
        assert(views(headings@).take(headings@.len() as int) =~= views(headings@));
        proof {
            lemma_heading_matches_shape(markdown@);
            lemma_generated_cards_ok(cards@, heading_matches(markdown@), 0);
        }
        metadata.cards = cards;
        metadata.updated_at = current_timestamp_label();
        match metadata.validate() {
            Ok(_) => {},
            Err(e) => {
                return Err(e);
            },
        }
        Ok(metadata)
    }

    /// The section matches of the cards whose section no longer appears
    /// among the Markdown's headings, in card order.
    pub fn stale_section_matches(metadata: &LayoutMetadata, markdown: &str) -> (r: Vec<String>)
        ensures
            string_views(r@) == stale_sections(metadata.cards@, heading_matches(markdown@)),
    {
        let md = chars_of(markdown);
        let headings = heading_matches_exec(md.as_slice());
        let mut r: Vec<String> = Vec::new();
        let mut i: usize = 0;
        while i < metadata.cards.len()
            invariant
                i <= metadata.cards@.len(),
                views(headings@) == heading_matches(markdown@),
                string_views(r@) == stale_sections(
                    metadata.cards@.take(i as int),
                    heading_matches(markdown@),
                ),
            decreases metadata.cards@.len() - i,
        {
            let ghost t = metadata.cards@.take(i + 1);
            assert(t.drop_last() =~= metadata.cards@.take(i as int));
            let section = chars_of(metadata.cards[i].section_match.as_str());
            if !crate::paths::parts_contain_chars(&headings, section.as_slice()) {
                let ghost before = string_views(r@);
                r.push(metadata.cards[i].section_match.clone());
                assert(string_views(r@) =~= before.push(section@));
            }
            i = i + 1;
        }
        assert(metadata.cards@.take(metadata.cards@.len() as int) =~= metadata.cards@);
        r
    }
}

proof fn lemma_trim_nonempty(s: Seq<char>)
    requires
        s.len() > 0,
        !crate::text::is_ws(s[0]),
    ensures
        trim(s).len() > 0,
{
    crate::text::lemma_leading(s, Strip::Whitespace, 0);
    assert(s.skip(0) =~= s);
    let n = crate::text::trailing(s, Strip::Whitespace);
    crate::text::lemma_trailing_bound(s, Strip::Whitespace);
    if n == s.len() {
        lemma_trailing_all(s);
    }
}

proof fn lemma_trailing_all(s: Seq<char>)
    requires
        crate::text::trailing(s, Strip::Whitespace) == s.len(),
    ensures
        forall|j: int| 0 <= j < s.len() ==> crate::text::is_ws(s[j]),
    decreases s.len(),
{
    if s.len() > 0 {
        crate::text::lemma_trailing_bound(s.drop_last(), Strip::Whitespace);
        lemma_trailing_all(s.drop_last());
        assert forall|j: int| 0 <= j < s.len() implies crate::text::is_ws(s[j]) by {
            if j < s.len() - 1 {
                assert(s.drop_last()[j] == s[j]);
            }
        }
    }
}

impl LayoutMetadata {
    /// Checks version, id, theme, layout mode, widths, and that every card
    /// has a section, a unique id, a known width and a widget.
    pub fn validate(&self) -> (r: Result<(), String>)
        ensures
            unit_view(r) == layout_check(*self),
    {
        if self.schema_version != LAYOUT_METADATA_VERSION {
            let mut v = chars_of("Unsupported layout metadata version ");
            let d = decimal_exec(self.schema_version as u64);
            append(&mut v, d.as_slice());
            append_str(&mut v, ".");
            return Err(string_of(v.as_slice()));
        }
        match DocumentMetadataService::validate_document_id(self.document_id.as_str()) {
            Ok(_) => {},
            Err(e) => {
                return Err(e);
            },
        }
        if !self.vault_relative {
            return Err(owned("Layout metadata must use vault-relative paths."));
        }
        if trim_str_of(&self.theme) == 0 {
            return Err(owned("Layout metadata must include a theme."));
        }
        if trim_str_of(&self.layout_mode) == 0 {
            return Err(owned("Layout metadata must include a layout mode."));
        }
        if !is_card_width_exec(&self.fallback_layout.default_width) {
            return Err(owned("Fallback layout width must be single, double, or full."));
        }
        match cards_error_exec(&self.cards) {
            Some(e) => Err(e),
            None => Ok(()),
        }
    }
}

} // verus!

verus! {

/// A character a slug may hold.
pub open spec fn is_slug_char(c: char) -> bool {
    is_ascii_alnum(c) || c == '-'
}

proof fn lemma_fold_slug_chars(s: Seq<char>)
    ensures
        forall|i: int| 0 <= i < slug_fold(s).len() ==> is_slug_char(#[trigger] slug_fold(s)[i]),
    decreases s.len(),
{
    if s.len() > 0 {
        lemma_fold_slug_chars(s.drop_last());
        let prev = slug_fold(s.drop_last());
        assert(slug_fold(s) == slug_step(prev, s.last()));
        assert forall|i: int| 0 <= i < slug_fold(s).len() implies is_slug_char(slug_fold(s)[i]) by {
            if i < prev.len() {
                assert(slug_fold(s)[i] == prev[i]);
            }
        }
    }
}

proof fn lemma_slug_chars(section: Seq<char>)
    ensures
        forall|i: int| 0 <= i < section_slug(section).len() ==> is_slug_char(#[trigger] section_slug(section)[i]),
{
    let base = unicode_lowercase(trim(trim_start_by(section, Strip::Char('#'))));
    let f = slug_fold(base);
    lemma_fold_slug_chars(base);
    crate::text::lemma_leading_bound(f, Strip::Char('-'));
    let g = crate::text::trim_start_by(f, Strip::Char('-'));
    crate::text::lemma_trailing_bound(g, Strip::Char('-'));
    assert forall|i: int| 0 <= i < section_slug(section).len() implies is_slug_char(section_slug(section)[i]) by {
        let l = crate::text::leading(f, Strip::Char('-'));
        assert(section_slug(section)[i] == f[l + i]);
    }
}

proof fn lemma_decimal_shape(n: nat)
    ensures
        decimal(n).len() >= 1,
        n >= 10 ==> decimal(n).len() >= 2,
        forall|i: int| 0 <= i < decimal(n).len() ==> crate::text::is_ascii_digit(#[trigger] decimal(n)[i]),
    decreases n,
{
    if n >= 10 {
        lemma_decimal_shape(n / 10);
    }
}

proof fn lemma_decimal_injective(a: nat, b: nat)
    requires
        decimal(a) == decimal(b),
    ensures
        a == b,
    decreases a,
{
    lemma_decimal_shape(a);
    lemma_decimal_shape(b);
    if a < 10 {
        if b >= 10 {
            assert(decimal(a).len() == 1);
        } else {
            assert(decimal(a)[0] == decimal(b)[0]);
            assert(decimal(a)[0] == digit_char_of(a));
            assert(decimal(b)[0] == digit_char_of(b));
            lemma_digit_char_injective(a, b);
        }
    } else {
        if b < 10 {
            assert(decimal(b).len() == 1);
        } else {
            assert(decimal(a).drop_last() =~= decimal(a / 10));
            assert(decimal(b).drop_last() =~= decimal(b / 10));
            lemma_decimal_injective(a / 10, b / 10);
            assert(decimal(a).last() == digit_char_of(a % 10));
            assert(decimal(b).last() == digit_char_of(b % 10));
            lemma_digit_char_injective(a % 10, b % 10);
            assert(a == (a / 10) * 10 + a % 10);
            assert(b == (b / 10) * 10 + b % 10);
        }
    }
}

proof fn lemma_digit_char_injective(x: nat, y: nat)
    requires
        x < 10,
        y < 10,
        digit_char_of(x) == digit_char_of(y),
    ensures
        x == y,
{
}

spec fn digit_char_of(d: nat) -> char {
    crate::storage::digit_char(d)
}

proof fn lemma_card_ids_differ(s1: Seq<char>, s2: Seq<char>, a: nat, b: nat)
    requires
        a != b,
    ensures
        card_id_for(s1, a) != card_id_for(s2, b),
{
    reveal_strlit("card_");
    reveal_strlit("_");
    reveal_strlit("section");
    lemma_decimal_shape(a);
    lemma_decimal_shape(b);
    lemma_slug_chars(s1);
    lemma_slug_chars(s2);
    let da = decimal(a);
    let db = decimal(b);
    let x = card_id_for(s1, a);
    let y = card_id_for(s2, b);
    if x == y {
        assert(x[5 + da.len() as int] == '_');
        assert(y[5 + db.len() as int] == '_');
        if da.len() < db.len() {
            assert(y[5 + da.len() as int] == db[da.len() as int]);
        } else if db.len() < da.len() {
            assert(x[5 + db.len() as int] == da[db.len() as int]);
        } else {
            assert forall|i: int| 0 <= i < da.len() implies da[i] == db[i] by {
                assert(x[5 + i] == da[i]);
                assert(y[5 + i] == db[i]);
            }
            assert(da =~= db);
            lemma_decimal_injective(a, b);
        }
    }
}

proof fn lemma_headings_shape(ls: Seq<Seq<char>>)
    ensures
        forall|i: int| 0 <= i < headings_of(ls).len() ==> (#[trigger] headings_of(ls)[i]).len() > 0
            && headings_of(ls)[i][0] == '#',
    decreases ls.len(),
{
    reveal_strlit("#");
    reveal_strlit("##");
    reveal_strlit(" ");
    if ls.len() > 0 {
        lemma_headings_shape(ls.drop_last());
        let prev = headings_of(ls.drop_last());
        match heading_of_line(ls.last()) {
            Some(h) => {
                let (marks, title) = split_once_char(trim(ls.last()), ' ')->0;
                assert(h == marks + " "@ + trim(title));
                assert(h[0] == marks[0]);
                assert forall|i: int| 0 <= i < headings_of(ls).len() implies (#[trigger] headings_of(ls)[i]).len() > 0
                    && headings_of(ls)[i][0] == '#' by {
                    if i < prev.len() {
                        assert(headings_of(ls)[i] == prev[i]);
                    }
                }
            },
            None => {},
        }
    }
}

proof fn lemma_heading_matches_shape(md: Seq<char>)
    ensures
        forall|i: int| 0 <= i < heading_matches(md).len() ==> (#[trigger] heading_matches(md)[i]).len() > 0
            && heading_matches(md)[i][0] == '#',
{
    lemma_headings_shape(lines(without_identity_comments(without_frontmatter(md))));
}

proof fn lemma_generated_cards_ok(cards: Seq<LayoutCardMetadata>, headings: Seq<Seq<char>>, k: int)
    requires
        generated_cards(cards, headings),
        forall|i: int| 0 <= i < headings.len() ==> (#[trigger] headings[i]).len() > 0 && headings[i][0] == '#',
        0 <= k,
    ensures
        cards_error(cards, k) is None,
    decreases cards.len() - k,
{
    reveal_strlit("card_");
    reveal_strlit("single");
    reveal_strlit("rich_text");
    if k < cards.len() {
        let card = cards[k];
        lemma_trim_nonempty(card.section_match@);
        lemma_trim_nonempty(card.card_id@);
        lemma_trim_nonempty(card.widget@);
        assert forall|j: int| 0 <= j < k implies cards[j].card_id@ != card.card_id@ by {
            lemma_card_ids_differ(headings[j], headings[k], j as nat, k as nat);
        }
        lemma_generated_cards_ok(cards, headings, k + 1);
    }
}

} // verus!

verus! {

/// A card with a section match, an ID and a widget that are not blank, and
/// a width of single, double or full.
pub open spec fn card_ok(c: LayoutCardMetadata) -> bool {
    &&& trim(c.section_match@).len() > 0
    &&& trim(c.card_id@).len() > 0
    &&& is_card_width(c.width@)
    &&& trim(c.widget@).len() > 0
}

proof fn lemma_cards_error_none(cards: Seq<LayoutCardMetadata>, k: int)
    requires
        0 <= k <= cards.len(),
    ensures
        cards_error(cards, k) is None <==> forall|i: int|
            k <= i < cards.len() ==> card_ok(#[trigger] cards[i]) && forall|j: int|
                0 <= j < i ==> cards[j].card_id@ != cards[i].card_id@,
    decreases cards.len() - k,
{
    if k < cards.len() {
        lemma_cards_error_none(cards, k + 1);
        if cards_error(cards, k) is None {
            assert forall|i: int| k <= i < cards.len() implies card_ok(#[trigger] cards[i]) && forall|j: int|
                0 <= j < i ==> cards[j].card_id@ != cards[i].card_id@ by {
                if i > k {
                    assert(card_ok(cards[i]));
                }
            }
        } else {
            if forall|i: int| k <= i < cards.len() ==> card_ok(#[trigger] cards[i]) && forall|j: int|
                0 <= j < i ==> cards[j].card_id@ != cards[i].card_id@ {
                assert(card_ok(cards[k]));
                assert forall|i: int| k + 1 <= i < cards.len() implies card_ok(#[trigger] cards[i]) && forall|j: int|
                    0 <= j < i ==> cards[j].card_id@ != cards[i].card_id@ by {
                    assert(card_ok(cards[i]));
                }
            }
        }
    }
}

/// Law: a layout record passes its checks exactly when it has version 1, a
/// valid document ID, vault-relative paths, a theme and a layout mode that
/// are not blank, a fallback width of single, double or full, and cards
/// that each pass the card checks, with no card ID used twice.
pub proof fn law_layout_check_fields(m: LayoutMetadata)
    ensures
        layout_check(m) is Ok <==> {
            &&& m.schema_version == LAYOUT_METADATA_VERSION
            &&& document_id_check(m.document_id@) is Ok
            &&& m.vault_relative
            &&& trim(m.theme@).len() > 0
            &&& trim(m.layout_mode@).len() > 0
            &&& is_card_width(m.fallback_layout.default_width@)
            &&& forall|i: int| 0 <= i < m.cards@.len() ==> card_ok(#[trigger] m.cards@[i])
            &&& forall|i: int, j: int| 0 <= j < i < m.cards@.len() ==> m.cards@[j].card_id@ != m.cards@[i].card_id@
        },
{
    lemma_cards_error_none(m.cards@, 0);
    if forall|i: int| 0 <= i < m.cards@.len() ==> card_ok(#[trigger] m.cards@[i]) && forall|j: int|
        0 <= j < i ==> m.cards@[j].card_id@ != m.cards@[i].card_id@ {
        assert forall|i: int, j: int| 0 <= j < i < m.cards@.len() implies m.cards@[j].card_id@ != m.cards@[i].card_id@ by {
            assert(card_ok(m.cards@[i]));
        }
    }
    if (forall|i: int| 0 <= i < m.cards@.len() ==> card_ok(#[trigger] m.cards@[i])) && (forall|i: int, j: int|
        0 <= j < i < m.cards@.len() ==> m.cards@[j].card_id@ != m.cards@[i].card_id@) {
        assert forall|i: int| 0 <= i < m.cards@.len() implies card_ok(#[trigger] m.cards@[i]) && forall|j: int|
            0 <= j < i ==> m.cards@[j].card_id@ != m.cards@[i].card_id@ by {
            assert forall|j: int| 0 <= j < i implies m.cards@[j].card_id@ != m.cards@[i].card_id@ by {
            }
        }
    }
}

} // verus!
