//! Contacts: reading contact records and entities from their Markdown.
use vstd::prelude::*;
use crate::record_text::{
    clean_list, clean_list_exec, clean_optional_markdown, clean_optional_markdown_exec,
    clean_optional_string, clean_optional_string_exec, field_line, parse_field_line,
    section_body, section_body_exec,
};
use crate::text::{chars_of, has_prefix, lines, string_of, string_views, trim, trim_exec, unicode_lowercase, views};
use crate::theme::opt_string_view;

verus! {

/// What reading the lines of a contact has found so far.
pub struct ContactScan {
    pub relationship: Option<Seq<char>>,
    pub organization: Option<Seq<char>>,
    pub email: Option<Seq<char>>,
    pub phone: Option<Seq<char>>,
    pub tags: Seq<Seq<char>>,
    pub relationships: Seq<Seq<char>>,
    pub notes: Option<Seq<char>>,
    pub warnings: Seq<Seq<char>>,
}

/// Nothing found yet.
pub open spec fn empty_contact_scan() -> ContactScan {
    ContactScan {
        relationship: None,
        organization: None,
        email: None,
        phone: None,
        tags: seq![],
        relationships: seq![],
        notes: None,
        warnings: seq![],
    }
}

/// The warning for a field a contact does not have.
pub open spec fn unknown_contact_field_warning(source: Seq<char>, key: Seq<char>) -> Seq<char> {
    source + ": unknown contact field '"@ + key + "' remains visible in Markdown."@
}

/// What one more line adds.
pub open spec fn contact_step(st: ContactScan, line: Seq<char>, source: Seq<char>) -> ContactScan {
    match field_line(line) {
        None => st,
        Some((k, v)) => if k == "relationship"@ {
            ContactScan { relationship: clean_optional_string(v), ..st }
        } else if k == "organization"@ {
            ContactScan { organization: clean_optional_string(v), ..st }
        } else if k == "email"@ {
            ContactScan { email: clean_optional_string(v), ..st }
        } else if k == "phone"@ {
            ContactScan { phone: clean_optional_string(v), ..st }
        } else if k == "tags"@ {
            ContactScan { tags: clean_list(v), ..st }
        } else if k == "relationships"@ || k == "related"@ {
            ContactScan { relationships: clean_list(v), ..st }
        } else if k == "notes"@ {
            ContactScan { notes: clean_optional_markdown(v), ..st }
        } else if k == "attachments"@ {
            st
        } else {
            ContactScan { warnings: st.warnings.push(unknown_contact_field_warning(source, k)), ..st }
        },
    }
}

/// What the lines add up to.
pub open spec fn contact_scan(ls: Seq<Seq<char>>, source: Seq<char>) -> ContactScan
    decreases ls.len(),
{
    if ls.len() == 0 {
        empty_contact_scan()
    } else {
        contact_step(contact_scan(ls.drop_last(), source), ls.last(), source)
    }
}

/// The fields of a contact read from its lines.
pub struct ContactFields {
    pub name: String,
    pub relationship: Option<String>,
    pub organization: Option<String>,
    pub email: Option<String>,
    pub phone: Option<String>,
    pub tags: Vec<String>,
    pub relationships: Vec<String>,
    pub notes: Option<String>,
    pub warnings: Vec<String>,
}

/// The view of the fields found so far.
pub open spec fn contact_fields_view(f: ContactFields) -> ContactScan {
    ContactScan {
        relationship: opt_string_view(f.relationship),
        organization: opt_string_view(f.organization),
        email: opt_string_view(f.email),
        phone: opt_string_view(f.phone),
        tags: string_views(f.tags@),
        relationships: string_views(f.relationships@),
        notes: opt_string_view(f.notes),
        warnings: string_views(f.warnings@),
    }
}

/// The notes of a contact: its `notes` field, or else the cleaned body of its
/// notes section.
pub open spec fn contact_notes(st: ContactScan, body: Seq<Seq<char>>, heading: Seq<char>) -> Option<
    Seq<char>,
> {
    match st.notes {
        Some(n) => Some(n),
        None => match section_body(body, heading) {
            Some(b) => clean_optional_markdown(b),
            None => None,
        },
    }
}

/// The fields read are those the scan of the body found, with the notes
/// completed.
pub open spec fn contact_fields_match(
    f: ContactFields,
    name: Seq<char>,
    body: Seq<Seq<char>>,
    source: Seq<char>,
    notes_heading: Seq<char>,
) -> bool {
    let st = contact_scan(body, source);
    f.name@ == name && contact_fields_view(f) == ContactScan {
        notes: contact_notes(st, body, notes_heading),
        ..st
    }
}

fn warning_text(source: &str, x: &[char]) -> (r: String)
    ensures
        r@ == unknown_contact_field_warning(source@, x@),
{
    let mut m = chars_of(source);
    crate::text::append_str(&mut m, ": unknown contact field '");
    crate::text::append(&mut m, x);
    crate::text::append_str(&mut m, "' remains visible in Markdown.");
    string_of(m.as_slice())
}

#[verifier::rlimit(40)]
fn contact_step_exec(st: &mut ContactFields, line: &[char], source: &str)
    ensures
        final(st).name == old(st).name,
        contact_fields_view(*final(st)) == contact_step(contact_fields_view(*old(st)), line@, source@),
{
    match parse_field_line(line) {
        None => {},
        Some((k, v)) => {
            let kc = chars_of(k.as_str());
            let vc = chars_of(v.as_str());
            let ghost before = contact_fields_view(*st);
            if crate::text::eq_str(kc.as_slice(), "relationship") {
                st.relationship = clean_optional_string_exec(v.as_str());
            } else if crate::text::eq_str(kc.as_slice(), "organization") {
                st.organization = clean_optional_string_exec(v.as_str());
            } else if crate::text::eq_str(kc.as_slice(), "email") {
                st.email = clean_optional_string_exec(v.as_str());
            } else if crate::text::eq_str(kc.as_slice(), "phone") {
                st.phone = clean_optional_string_exec(v.as_str());
            } else if crate::text::eq_str(kc.as_slice(), "tags") {
                st.tags = clean_list_exec(v.as_str());
            } else if crate::text::eq_str(kc.as_slice(), "relationships") || crate::text::eq_str(
                kc.as_slice(),
                "related",
            ) {
                st.relationships = clean_list_exec(v.as_str());
            } else if crate::text::eq_str(kc.as_slice(), "notes") {
                st.notes = clean_optional_markdown_exec(vc.as_slice());
            } else if crate::text::eq_str(kc.as_slice(), "attachments") {
            } else {
                let w = warning_text(source, kc.as_slice());
                st.warnings.push(w);
                assert(string_views(st.warnings@) =~= before.warnings.push(w@));
            }
        },
    }
}

fn scan_contact(name: String, ls: &Vec<Vec<char>>, from: usize, to: usize, source: &str, notes_heading: &str) -> (r: ContactFields)
    requires
        from <= to <= ls@.len(),
    ensures
        contact_fields_match(r, name@, views(ls@).subrange(from as int, to as int), source@, notes_heading@),
{
    let mut st = ContactFields {
        name,
        relationship: None,
        organization: None,
        email: None,
        phone: None,
        tags: Vec::new(),
        relationships: Vec::new(),
        notes: None,
        warnings: Vec::new(),
    };
    assert(string_views(st.tags@) =~= Seq::<Seq<char>>::empty());
    assert(string_views(st.relationships@) =~= Seq::<Seq<char>>::empty());
    assert(string_views(st.warnings@) =~= Seq::<Seq<char>>::empty());
    assert(contact_fields_view(st) == empty_contact_scan());
    let mut i = from;
    while i < to
        invariant
            from <= i <= to <= ls@.len(),
            st.name == name,
            contact_fields_view(st) == contact_scan(views(ls@).subrange(from as int, i as int), source@),
        decreases to - i,
    {
        let ghost t = views(ls@).subrange(from as int, i + 1);
        assert(t.drop_last() =~= views(ls@).subrange(from as int, i as int));
        assert(t.last() == ls@[i as int]@);
        contact_step_exec(&mut st, ls[i].as_slice(), source);
        i = i + 1;
    }
    if st.notes.is_none() {
        let body = crate::markdown_parser::raw_lines(ls, from, to);
        st.notes = match section_body_exec(&body, notes_heading) {
            Some(b) => {
                let bc = chars_of(b.as_str());
                clean_optional_markdown_exec(bc.as_slice())
            },
            None => None,
        };
    }
    st
}

/// Reads the contact whose record spans lines `start` to `end` of a contacts
/// index: a `## Name` heading, then field lines and a notes section.
/// `None` where the first line is not such a heading.
pub fn contact_record_fields(ls: &Vec<Vec<char>>, start: usize, end: usize, source: &str) -> (r:
    Option<ContactFields>)
    requires
        start < end <= ls@.len(),
    ensures
        ({
            let t = trim(ls@[start as int]@);
            if has_prefix(t, "## "@) && trim(t.skip(3)).len() > 0 {
                r matches Some(f) && contact_fields_match(
                    f,
                    trim(t.skip(3)),
                    views(ls@).subrange(start + 1, end as int),
                    source@,
                    "### Notes"@,
                )
            } else {
                r is None
            }
        }),
{
    let t = trim_exec(ls[start].as_slice());
    if !crate::text::starts_with_str(t.as_slice(), "## ") {
        return None;
    }
    proof {
        reveal_strlit("## ");
    }
    let rest = crate::text::slice_vec(t.as_slice(), 3, t.len());
    assert(rest@ =~= t@.skip(3));
    let name = trim_exec(rest.as_slice());
    if name.len() == 0 {
        return None;
    }
    Some(scan_contact(string_of(name.as_slice()), ls, start + 1, end, source, "### Notes"))
}

/// Reads a contact entity: its name is the first `# ` heading; the lines
/// after the first hold its fields and notes.
pub fn contact_entity_fields(markdown_body: &str, source: &str) -> (r: Option<ContactFields>)
    ensures
        ({
            let ls = crate::text::lines(markdown_body@);
            match crate::habits::first_title_line(ls, 0) {
                None => r is None,
                Some(i) => r matches Some(f) && contact_fields_match(
                    f,
                    trim(trim(ls[i]).skip(2)),
                    ls.subrange(1, ls.len() as int),
                    source@,
                    "## Notes"@,
                ),
            }
        }),
{
    let md = chars_of(markdown_body);
    let ls = crate::text::lines_exec(md.as_slice());
    let ghost lv = views(ls@);
    let n = ls.len();
    let i = match crate::habits::find_title_line(&ls) {
        None => {
            return None;
        },
        Some(i) => i,
    };
    proof {
        crate::habits::lemma_first_title_line(lv, 0);
        reveal_strlit("# ");
    }
    let t = trim_exec(ls[i].as_slice());
    assert(lv[i as int] == ls@[i as int]@);
    let rest = crate::text::slice_vec(t.as_slice(), 2, t.len());
    assert(rest@ =~= t@.skip(2));
    let name = trim_exec(rest.as_slice());
    Some(scan_contact(string_of(name.as_slice()), &ls, 1, n, source, "## Notes"))
}


// ---------------------------------------------------------------------------
// Contact records and their summary
// ---------------------------------------------------------------------------

/// What a user enters for a contact.
#[derive(Debug, Clone, PartialEq, Eq)]
pub struct ContactInput {
    pub name: String,
    pub relationship: Option<String>,
    pub organization: Option<String>,
    pub email: Option<String>,
    pub phone: Option<String>,
    pub tags: Vec<String>,
    pub relationships: Vec<String>,
    pub notes: Option<String>,
}

/// How many contacts carry a tag.
#[derive(Debug, Clone, PartialEq, Eq)]
pub struct TagCount {
    pub tag: String,
    pub count: usize,
}

/// A contact as read.
pub struct ContactEntry {
    pub contact_id: String,
    pub name: String,
    pub relationship: Option<String>,
    pub organization: Option<String>,
    pub email: Option<String>,
    pub phone: Option<String>,
    pub tags: Vec<String>,
    pub relationships: Vec<String>,
    pub notes: Option<String>,
    pub line_index: usize,
    pub raw_markdown: String,
    pub parsed_entity: crate::markdown_parser::ParsedEntityContract,
    pub schema_warnings: Vec<String>,
}

/// The summary of the contacts: how many there are, how many have each
/// relationship (by relationship, in key order), the five most used tags,
/// and how many have an email and a phone.
pub struct ContactSummary {
    pub total: usize,
    pub relationship_counts: Vec<(String, usize)>,
    pub top_tags: Vec<TagCount>,
    pub contacts_with_email: usize,
    pub contacts_with_phone: usize,
}

/// The contacts module's document as read.
pub struct ContactDocument {
    pub document_id: String,
    pub markdown_relative_path: String,
    pub markdown_body: String,
    pub contacts: Vec<ContactEntry>,
    pub summary: ContactSummary,
    pub warnings: Vec<String>,
    pub document_metadata: crate::document_metadata::DocumentMetadata,
    pub layout_metadata: Option<crate::layout_metadata::LayoutMetadata>,
}

/// Reads, creates and updates contacts.
pub struct ContactsService;

/// The view of a contact input.
pub open spec fn contact_input_view(i: ContactInput) -> (
    Seq<char>,
    Option<Seq<char>>,
    Option<Seq<char>>,
    Option<Seq<char>>,
    Option<Seq<char>>,
    Seq<Seq<char>>,
    Seq<Seq<char>>,
    Option<Seq<char>>,
) {
    (
        i.name@,
        opt_string_view(i.relationship),
        opt_string_view(i.organization),
        opt_string_view(i.email),
        opt_string_view(i.phone),
        string_views(i.tags@),
        string_views(i.relationships@),
        opt_string_view(i.notes),
    )
}

/// A cleaned optional single-line value.
pub open spec fn clean_opt(o: Option<Seq<char>>) -> Option<Seq<char>> {
    match o {
        Some(v) => clean_optional_string(v),
        None => None,
    }
}

/// A cleaned optional Markdown value.
pub open spec fn clean_opt_markdown(o: Option<Seq<char>>) -> Option<Seq<char>> {
    match o {
        Some(v) => clean_optional_markdown(v),
        None => None,
    }
}

/// The cleaned values of each list item, in order.
pub open spec fn cleaned_items(items: Seq<Seq<char>>) -> Seq<Seq<char>>
    decreases items.len(),
{
    if items.len() == 0 {
        seq![]
    } else {
        cleaned_items(items.drop_last()) + clean_list(items.last())
    }
}

pub(crate) fn clean_opt_exec(o: Option<String>) -> (r: Option<String>)
    ensures
        opt_string_view(r) == clean_opt(opt_string_view(o)),
{
    match o {
        Some(v) => match clean_optional_string_exec(v.as_str()) {
            Some(x) => Some(x),
            None => None,
        },
        None => None,
    }
}

pub(crate) fn clean_opt_markdown_exec(o: Option<String>) -> (r: Option<String>)
    ensures
        opt_string_view(r) == clean_opt_markdown(opt_string_view(o)),
{
    match o {
        Some(v) => {
            let c = chars_of(v.as_str());
            match clean_optional_markdown_exec(c.as_slice()) {
                Some(x) => Some(x),
                None => None,
            }
        },
        None => None,
    }
}

pub(crate) fn cleaned_items_exec(items: &Vec<String>) -> (r: Vec<String>)
    ensures
        string_views(r@) == cleaned_items(string_views(items@)),
{
    let ghost iv = string_views(items@);
    let mut out: Vec<String> = Vec::new();
    let n = items.len();
    let mut i: usize = 0;
    while i < n
        invariant
            n == items@.len(),
            iv == string_views(items@),
            i <= n,
            string_views(out@) == cleaned_items(iv.take(i as int)),
        decreases n - i,
    {
        assert(iv.take(i + 1).drop_last() =~= iv.take(i as int));
        assert(iv.take(i + 1).last() == items@[i as int]@);
        let mut more = clean_list_exec(items[i].as_str());
        let ghost b = string_views(out@);
        let ghost m = string_views(more@);
        out.append(&mut more);
        assert(string_views(out@) =~= b + m);
        i = i + 1;
    }
    assert(iv.take(n as int) =~= iv);
    out
}

/// `c` is `input` cleaned: the name collapsed (and not blank), the optional
/// values cleaned, the tags and relationships cleaned, sorted and without
/// repeats.
pub open spec fn cleaned_contact(c: ContactInput, input: ContactInput) -> bool {
    &&& crate::record_text::collapse(input.name@).len() > 0
    &&& c.name@ == crate::record_text::collapse(input.name@)
    &&& opt_string_view(c.relationship) == clean_opt(opt_string_view(input.relationship))
    &&& opt_string_view(c.organization) == clean_opt(opt_string_view(input.organization))
    &&& opt_string_view(c.email) == clean_opt(opt_string_view(input.email))
    &&& opt_string_view(c.phone) == clean_opt(opt_string_view(input.phone))
    &&& opt_string_view(c.notes) == clean_opt_markdown(opt_string_view(input.notes))
    &&& crate::habits::sorted_texts(string_views(c.tags@))
    &&& string_views(c.tags@).to_set() == cleaned_items(string_views(input.tags@)).to_set()
    &&& crate::habits::sorted_texts(string_views(c.relationships@))
    &&& string_views(c.relationships@).to_set() == cleaned_items(string_views(input.relationships@)).to_set()
}

/// Cleans a contact input: the name's words joined by single spaces, and
/// required; optional values cleaned; the tags and relationships split on
/// commas, cleaned, sorted and without repeats.
pub fn clean_contact_input(input: ContactInput) -> (r: Result<ContactInput, String>)
    ensures
        match r {
            Ok(c) => cleaned_contact(c, input),
            Err(e) => crate::record_text::collapse(input.name@).len() == 0 && e@ == "Contact name is required."@,
        },
        match r {
            Ok(c) => {
                &&& crate::record_text::collapse(input.name@).len() > 0
                &&& c.name@ == crate::record_text::collapse(input.name@)
                &&& opt_string_view(c.relationship) == clean_opt(opt_string_view(input.relationship))
                &&& opt_string_view(c.organization) == clean_opt(opt_string_view(input.organization))
                &&& opt_string_view(c.email) == clean_opt(opt_string_view(input.email))
                &&& opt_string_view(c.phone) == clean_opt(opt_string_view(input.phone))
                &&& opt_string_view(c.notes) == clean_opt_markdown(opt_string_view(input.notes))
                &&& crate::habits::sorted_texts(string_views(c.tags@))
                &&& string_views(c.tags@).to_set() == cleaned_items(string_views(input.tags@)).to_set()
                &&& crate::habits::sorted_texts(string_views(c.relationships@))
                &&& string_views(c.relationships@).to_set() == cleaned_items(
                    string_views(input.relationships@),
                ).to_set()
            },
            Err(e) => crate::record_text::collapse(input.name@).len() == 0 && e@ == "Contact name is required."@,
        },
{
    let name = crate::record_text::collapse_inline_text(input.name.as_str());
    let nc = chars_of(name.as_str());
    if nc.len() == 0 {
        return Err(crate::text::owned("Contact name is required."));
    }
    let tags = cleaned_items_exec(&input.tags);
    let relationships = cleaned_items_exec(&input.relationships);
    Ok(ContactInput {
        name,
        relationship: clean_opt_exec(input.relationship),
        organization: clean_opt_exec(input.organization),
        email: clean_opt_exec(input.email),
        phone: clean_opt_exec(input.phone),
        tags: crate::habits::sorted_unique(&tags),
        relationships: crate::habits::sorted_unique(&relationships),
        notes: clean_opt_markdown_exec(input.notes),
    })
}

/// The `- Label: value` line of an optional value, when its cleaned form
/// is not blank.
pub open spec fn optional_field_lines(label: Seq<char>, value: Option<Seq<char>>) -> Seq<Seq<char>> {
    match clean_opt(value) {
        Some(v) => seq!["- "@ + label + ": "@ + v],
        None => seq![],
    }
}

/// The notes heading and notes, when the cleaned notes are not blank.
pub open spec fn notes_lines(heading: Seq<char>, value: Option<Seq<char>>) -> Seq<Seq<char>> {
    match clean_opt_markdown(value) {
        Some(v) => seq![heading, v],
        None => seq![],
    }
}

/// The lines a contact is written as, after its heading line.
pub open spec fn contact_lines(i: ContactInput, notes_heading: Seq<char>) -> Seq<Seq<char>> {
    optional_field_lines("Relationship"@, opt_string_view(i.relationship)) + optional_field_lines(
        "Organization"@,
        opt_string_view(i.organization),
    ) + optional_field_lines("Email"@, opt_string_view(i.email)) + optional_field_lines(
        "Phone"@,
        opt_string_view(i.phone),
    ) + if i.tags@.len() > 0 {
        seq!["- Tags: "@ + crate::text::join(string_views(i.tags@), ", "@)]
    } else {
        seq![]
    } + if i.relationships@.len() > 0 {
        seq!["- Relationships: "@ + crate::text::join(string_views(i.relationships@), ", "@)]
    } else {
        seq![]
    } + notes_lines(notes_heading, opt_string_view(i.notes))
}

/// A contact written as Markdown: a heading with its trimmed name, its
/// lines, each line ended by a newline.
pub open spec fn rendered_contact(i: ContactInput, heading: Seq<char>, notes_heading: Seq<char>) -> Seq<char> {
    crate::text::join(seq![heading + trim(i.name@)] + contact_lines(i, notes_heading), "\n"@) + "\n"@
}

pub(crate) fn push_line(lines: &mut Vec<Vec<char>>, l: Vec<char>)
    ensures
        views(final(lines)@) == views(old(lines)@).push(l@),
{
    let ghost b = views(lines@);
    lines.push(l);
    assert(views(lines@) =~= b.push(l@));
}

pub(crate) fn push_optional_field(lines: &mut Vec<Vec<char>>, label: &str, value: &Option<String>)
    ensures
        views(final(lines)@) == views(old(lines)@) + optional_field_lines(label@, opt_string_view(*value)),
{
    let ghost b = views(lines@);
    match value {
        Some(v) => match clean_optional_string_exec(v.as_str()) {
            Some(c) => {
                let mut l = chars_of("- ");
                crate::text::append_str(&mut l, label);
                crate::text::append_str(&mut l, ": ");
                crate::text::append_str(&mut l, c.as_str());
                push_line(lines, l);
                assert(views(lines@) =~= b + optional_field_lines(label@, opt_string_view(*value)));
            },
            None => {
                assert(views(lines@) =~= b + optional_field_lines(label@, opt_string_view(*value)));
            },
        },
        None => {
            assert(views(lines@) =~= b + optional_field_lines(label@, opt_string_view(*value)));
        },
    }
}

pub(crate) fn join_strings(v: &Vec<String>, sep: &str) -> (r: Vec<char>)
    ensures
        r@ == crate::text::join(string_views(v@), sep@),
{
    let mut parts: Vec<Vec<char>> = Vec::new();
    let n = v.len();
    let mut i: usize = 0;
    while i < n
        invariant
            n == v@.len(),
            i <= n,
            views(parts@) == string_views(v@).take(i as int),
        decreases n - i,
    {
        push_line(&mut parts, chars_of(v[i].as_str()));
        assert(string_views(v@).take(i + 1) =~= string_views(v@).take(i as int).push(v@[i as int]@));
        i = i + 1;
    }
    assert(string_views(v@).take(n as int) =~= string_views(v@));
    let s = chars_of(sep);
    crate::text::join_exec(&parts, s.as_slice())
}

/// A line listing the items after a label, when there are any.
pub open spec fn list_lines(label: Seq<char>, items: Seq<Seq<char>>) -> Seq<Seq<char>> {
    if items.len() > 0 {
        seq![label + crate::text::join(items, ", "@)]
    } else {
        seq![]
    }
}

pub(crate) fn push_list_line(lines: &mut Vec<Vec<char>>, label: &str, items: &Vec<String>)
    ensures
        views(final(lines)@) == views(old(lines)@) + list_lines(label@, string_views(items@)),
{
    let ghost b = views(lines@);
    if items.len() > 0 {
        let mut l = chars_of(label);
        let j = join_strings(items, ", ");
        crate::text::append(&mut l, j.as_slice());
        push_line(lines, l);
    }
    assert(views(lines@) =~= b + list_lines(label@, string_views(items@)));
}

pub(crate) fn push_notes(lines: &mut Vec<Vec<char>>, heading: &str, value: &Option<String>)
    ensures
        views(final(lines)@) == views(old(lines)@) + notes_lines(heading@, opt_string_view(*value)),
{
    let ghost b = views(lines@);
    match value {
        Some(v) => {
            let c = chars_of(v.as_str());
            match clean_optional_markdown_exec(c.as_slice()) {
                Some(x) => {
                    push_line(lines, chars_of(heading));
                    push_line(lines, chars_of(x.as_str()));
                },
                None => {},
            }
        },
        None => {},
    }
    assert(views(lines@) =~= b + notes_lines(heading@, opt_string_view(*value)));
}

fn contact_body_lines(input: &ContactInput, notes_heading: &str) -> (r: Vec<Vec<char>>)
    ensures
        views(r@) == contact_lines(*input, notes_heading@),
{
    let mut lines: Vec<Vec<char>> = Vec::new();
    assert(views(lines@) =~= Seq::<Seq<char>>::empty());
    push_optional_field(&mut lines, "Relationship", &input.relationship);
    push_optional_field(&mut lines, "Organization", &input.organization);
    push_optional_field(&mut lines, "Email", &input.email);
    push_optional_field(&mut lines, "Phone", &input.phone);
    push_list_line(&mut lines, "- Tags: ", &input.tags);
    push_list_line(&mut lines, "- Relationships: ", &input.relationships);
    push_notes(&mut lines, notes_heading, &input.notes);
    proof {
        reveal_strlit("- Tags: ");
        reveal_strlit("- Relationships: ");
    }
    assert(views(lines@) =~= contact_lines(*input, notes_heading@));
    lines
}

/// A contact written as Markdown under the given heading marker.
pub fn render_contact(input: &ContactInput, heading: &str, notes_heading: &str) -> (r: String)
    ensures
        r@ == rendered_contact(*input, heading@, notes_heading@),
{
    let mut lines: Vec<Vec<char>> = Vec::new();
    let mut first = chars_of(heading);
    let nm = crate::text::trim_str(input.name.as_str());
    crate::text::append(&mut first, nm.as_slice());
    push_line(&mut lines, first);
    let mut rest = contact_body_lines(input, notes_heading);
    let ghost h = views(lines@);
    let ghost t = views(rest@);
    lines.append(&mut rest);
    assert(views(lines@) =~= h + t);
    assert(h =~= seq![heading@ + trim(input.name@)]);
    let nl = chars_of("\n");
    let mut out = crate::text::join_exec(&lines, nl.as_slice());
    crate::text::append_str(&mut out, "\n");
    string_of(out.as_slice())
}

/// A contact record of the contacts index (a `## ` section).
pub fn render_contact_record(input: &ContactInput) -> (r: String)
    ensures
        r@ == rendered_contact(*input, "## "@, "### Notes"@),
{
    render_contact(input, "## ", "### Notes")
}

/// A contact entity file (a `# ` document).
pub fn render_contact_entity(input: &ContactInput) -> (r: String)
    ensures
        r@ == rendered_contact(*input, "# "@, "## Notes"@),
{
    render_contact(input, "# ", "## Notes")
}


/// The lines that start a contact record: those that, trimmed, start with
/// `## `, among the first `n` lines.
pub open spec fn record_starts(ls: Seq<Seq<char>>, n: int) -> Seq<int>
    decreases n,
{
    if n <= 0 {
        seq![]
    } else if has_prefix(trim(ls[n - 1]), "## "@) {
        record_starts(ls, n - 1).push(n - 1)
    } else {
        record_starts(ls, n - 1)
    }
}

/// The line ranges of the contact records of a body: from each start to
/// the next one, the last to the end.
pub open spec fn record_ranges(ls: Seq<Seq<char>>) -> Seq<(int, int)> {
    let st = record_starts(ls, ls.len() as int);
    Seq::new(st.len(), |k: int| (st[k], if k + 1 < st.len() { st[k + 1] } else { ls.len() as int }))
}

/// The line ranges of the contact records of a body.
pub fn contact_ranges(markdown_body: &str) -> (r: Vec<(usize, usize)>)
    ensures
        r@.len() == record_ranges(lines(markdown_body@)).len(),
        forall|k: int| 0 <= k < r@.len() ==> (#[trigger] r@[k]).0 as int == record_ranges(lines(markdown_body@))[k].0
            && r@[k].1 as int == record_ranges(lines(markdown_body@))[k].1,
{
    let c = chars_of(markdown_body);
    let ls = crate::text::lines_exec(c.as_slice());
    let ghost lv = lines(markdown_body@);
    let n = ls.len();
    let mut starts: Vec<usize> = Vec::new();
    let mut i: usize = 0;
    while i < n
        invariant
            n == ls@.len(),
            views(ls@) == lv,
            i <= n,
            starts@.len() == record_starts(lv, i as int).len(),
            forall|k: int| 0 <= k < starts@.len() ==> starts@[k] as int == #[trigger] record_starts(lv, i as int)[k],
            forall|k: int| 0 <= k < starts@.len() ==> starts@[k] < i,
        decreases n - i,
    {
        let t = trim_exec(ls[i].as_slice());
        assert(lv[i as int] == ls@[i as int]@);
        if crate::text::starts_with_str(t.as_slice(), "## ") {
            starts.push(i);
        }
        i = i + 1;
    }
    let ghost st = record_starts(lv, n as int);
    let mut out: Vec<(usize, usize)> = Vec::new();
    let m = starts.len();
    let mut k: usize = 0;
    while k < m
        invariant
            m == starts@.len(),
            m == st.len(),
            n == lv.len(),
            st == record_starts(lv, n as int),
            forall|q: int| 0 <= q < m ==> starts@[q] as int == #[trigger] st[q],
            k <= m,
            out@.len() == k,
            forall|q: int| 0 <= q < k ==> (#[trigger] out@[q]).0 as int == record_ranges(lv)[q].0 && out@[q].1 as int
                == record_ranges(lv)[q].1,
        decreases m - k,
    {
        let end = if k + 1 < m {
            starts[k + 1]
        } else {
            n
        };
        out.push((starts[k], end));
        k = k + 1;
    }
    out
}

/// The refusal when a record's lines cannot be replaced.
pub open spec fn block_not_found() -> Seq<char> {
    "Contact source block was not found."@
}

/// A body with the lines from `start` to `end` replaced by the lines of the
/// replacement (its trailing blanks removed), ending in one newline.
pub open spec fn replaced_lines(body: Seq<char>, start: int, end: int, replacement: Seq<char>) -> Seq<char> {
    let ls = lines(body);
    let spliced = ls.take(start) + lines(crate::text::trim_end(replacement)) + ls.skip(end);
    crate::text::trim_end(crate::text::join(spliced, "\n"@)) + "\n"@
}

/// Replaces the lines from `start` to `end` of a body; refused for an empty
/// or out-of-range span.
pub fn replace_line_range(markdown_body: &str, start: usize, end: usize, replacement: &str) -> (r: Result<String, String>)
    ensures
        match r {
            Ok(b) => start < end <= lines(markdown_body@).len() && b@ == replaced_lines(
                markdown_body@,
                start as int,
                end as int,
                replacement@,
            ),
            Err(e) => !(start < end <= lines(markdown_body@).len()) && e@ == block_not_found(),
        },
{
    replace_record_lines(markdown_body, start, end, replacement, "Contact source block was not found.")
}

/// Replaces the lines from `start` to `end` of a body; for an empty or
/// out-of-range span, the given refusal.
pub fn replace_record_lines(markdown_body: &str, start: usize, end: usize, replacement: &str, refusal: &str) -> (r:
    Result<String, String>)
    ensures
        match r {
            Ok(b) => start < end <= lines(markdown_body@).len() && b@ == replaced_lines(
                markdown_body@,
                start as int,
                end as int,
                replacement@,
            ),
            Err(e) => !(start < end <= lines(markdown_body@).len()) && e@ == refusal@,
        },
{
    let c = chars_of(markdown_body);
    let ls = crate::text::lines_exec(c.as_slice());
    if start >= end || end > ls.len() {
        return Err(crate::text::owned(refusal));
    }
    let rc = chars_of(replacement);
    let rt = crate::text::trim_end_exec(rc.as_slice(), crate::text::Strip::Whitespace);
    let rl = crate::text::lines_exec(rt.as_slice());
    let mut spliced: Vec<Vec<char>> = Vec::new();
    let mut i: usize = 0;
    while i < start
        invariant
            i <= start < end <= ls@.len(),
            views(spliced@) == views(ls@).take(i as int),
        decreases start - i,
    {
        push_line(&mut spliced, ls[i].clone());
        assert(views(ls@).take(i + 1) =~= views(ls@).take(i as int).push(ls@[i as int]@));
        i = i + 1;
    }
    let mut j: usize = 0;
    while j < rl.len()
        invariant
            j <= rl@.len(),
            views(spliced@) == views(ls@).take(start as int) + views(rl@).take(j as int),
        decreases rl@.len() - j,
    {
        push_line(&mut spliced, rl[j].clone());
        assert(views(rl@).take(j + 1) =~= views(rl@).take(j as int).push(rl@[j as int]@));
        j = j + 1;
    }
    assert(views(rl@).take(j as int) =~= views(rl@));
    let mut q: usize = end;
    while q < ls.len()
        invariant
            end <= q <= ls@.len(),
            views(spliced@) == views(ls@).take(start as int) + views(rl@) + views(ls@).subrange(end as int, q as int),
        decreases ls@.len() - q,
    {
        push_line(&mut spliced, ls[q].clone());
        assert(views(ls@).subrange(end as int, q + 1) =~= views(ls@).subrange(end as int, q as int).push(ls@[q as int]@));
        q = q + 1;
    }
    assert(views(ls@).subrange(end as int, q as int) =~= views(ls@).skip(end as int));
    let nl = chars_of("\n");
    let j = crate::text::join_exec(&spliced, nl.as_slice());
    let mut out = crate::text::trim_end_exec(j.as_slice(), crate::text::Strip::Whitespace);
    crate::text::append_str(&mut out, "\n");
    Ok(string_of(out.as_slice()))
}

/// An id of a contact record of the contacts index: its line and the hash of
/// its text.
pub open spec fn is_contact_record_id(id: Seq<char>, line_index: nat) -> bool {
    exists|h: Seq<char>| crate::storage::is_hash_label(h) && id == "contact_"@ + crate::storage::decimal(line_index) + "_"@ + h
}

/// The id of a contact record of the contacts index, from its line and the
/// hash of its text.
pub fn contact_id_for_record(line_index: usize, raw_markdown: &str) -> (r: String)
    ensures
        is_contact_record_id(r@, line_index as nat),
        r@ == "contact_"@ + crate::storage::decimal(line_index as nat) + "_"@ + crate::storage::text_hash(raw_markdown@),
{
    let h = crate::storage::content_hash(raw_markdown);
    let mut v = chars_of("contact_");
    let d = crate::storage::decimal_exec(line_index as u64);
    crate::text::append(&mut v, d.as_slice());
    crate::text::append_str(&mut v, "_");
    crate::text::append_str(&mut v, h.as_str());
    let r = string_of(v.as_slice());
    assert(r@ == "contact_"@ + crate::storage::decimal(line_index as nat) + "_"@ + h@);
    r
}

/// The id of a contact entity: its document id and the hash of its body.
pub fn record_id(document_id: &str, raw_markdown: &str) -> (r: String)
    ensures
        exists|h: Seq<char>| crate::storage::is_hash_label(h) && r@ == document_id@ + "::"@ + h,
        r@ == document_id@ + "::"@ + crate::storage::text_hash(raw_markdown@),
{
    let h = crate::storage::content_hash(raw_markdown);
    let mut v = chars_of(document_id);
    crate::text::append_str(&mut v, "::");
    crate::text::append_str(&mut v, h.as_str());
    let r = string_of(v.as_slice());
    assert(r@ == document_id@ + "::"@ + h@);
    r
}

/// The document id within an entity's record id: what comes before the
/// first `::`, or the whole id.
pub open spec fn record_document_id(id: Seq<char>) -> Seq<char> {
    match crate::text::find(id, "::"@) {
        Some(i) => id.take(i),
        None => id,
    }
}

/// The document id within an entity's record id.
pub fn document_id_from_record_id(record_id: &str) -> (r: String)
    ensures
        r@ == record_document_id(record_id@),
{
    let c = chars_of(record_id);
    match crate::text::find_str(c.as_slice(), "::") {
        Some(i) => {
            proof {
                reveal_strlit("::");
                crate::text::lemma_find_from(c@, "::"@, 0);
            }
            let v = crate::text::slice_vec(c.as_slice(), 0, i);
            assert(v@ =~= c@.take(i as int));
            string_of(v.as_slice())
        },
        None => crate::text::owned(record_id),
    }
}

/// A path of a contact entity file: under the contacts folder, a Markdown
/// file that is not its index or module document.
pub open spec fn contact_entity_path(p: Seq<char>) -> bool {
    (has_prefix(p, "modules/contacts/data"@) || has_prefix(p, "modules/contacts"@)) && crate::text::has_suffix(
        p,
        ".md"@,
    ) && p != "modules/contacts/INDEX.md"@ && !crate::text::has_suffix(p, "/MODULE.md"@)
}

/// Whether a path is a contact entity file.
pub fn is_contact_entity_path(path: &str) -> (r: bool)
    ensures
        r == contact_entity_path(path@),
{
    let p = chars_of(path);
    (crate::text::starts_with_str(p.as_slice(), "modules/contacts/data") || crate::text::starts_with_str(
        p.as_slice(),
        "modules/contacts",
    )) && crate::text::ends_with_str(p.as_slice(), ".md") && !crate::text::eq_str(
        p.as_slice(),
        "modules/contacts/INDEX.md",
    ) && !crate::text::ends_with_str(p.as_slice(), "/MODULE.md")
}

/// Each character of a lowercased name: ASCII letters and digits kept,
/// others made `-`.
pub open spec fn contact_slug_chars(s: Seq<char>) -> Seq<char> {
    s.map_values(|c: char| if crate::text::is_ascii_alnum(c) { c } else { '-' })
}

/// The file slug of an entity: its trimmed, lowercased name with other
/// characters made `-`, dashes at either end removed; a default when that
/// leaves nothing.
pub open spec fn entity_slug(name: Seq<char>, default: Seq<char>) -> Seq<char> {
    let s = crate::text::trim_by(
        contact_slug_chars(unicode_lowercase(trim(name))),
        crate::text::Strip::Char('-'),
    );
    if s.len() == 0 {
        default
    } else {
        s
    }
}

/// The file slug of a contact.
pub open spec fn contact_slug(name: Seq<char>) -> Seq<char> {
    entity_slug(name, "untitled-contact"@)
}

/// The file slug of an entity.
pub fn entity_slugify(name: &str, default: &str) -> (r: String)
    ensures
        r@ == entity_slug(name@, default@),
{
    let t = crate::text::trim_str(name);
    let ts = string_of(t.as_slice());
    let l = crate::text::to_lowercase(ts.as_str());
    let lc = chars_of(l.as_str());
    let mut m: Vec<char> = Vec::new();
    let n = lc.len();
    let mut i: usize = 0;
    while i < n
        invariant
            n == lc@.len(),
            i <= n,
            m@ == contact_slug_chars(lc@.take(i as int)),
        decreases n - i,
    {
        let ch = lc[i];
        m.push(if crate::text::is_ascii_alnum_exec(ch) { ch } else { '-' });
        assert(contact_slug_chars(lc@.take(i + 1)) =~= contact_slug_chars(lc@.take(i as int)).push(
            if crate::text::is_ascii_alnum(ch) { ch } else { '-' },
        ));
        i = i + 1;
    }
    assert(lc@.take(n as int) =~= lc@);
    let s = crate::text::trim_by_exec(m.as_slice(), crate::text::Strip::Char('-'));
    if s.len() == 0 {
        crate::text::owned(default)
    } else {
        string_of(s.as_slice())
    }
}

/// The file slug of a contact.
pub fn contact_slugify(name: &str) -> (r: String)
    ensures
        r@ == contact_slug(name@),
{
    entity_slugify(name, "untitled-contact")
}

/// The candidate paths of a new entity in a folder.
pub open spec fn entity_candidate(folder: Seq<char>, slug: Seq<char>, index: nat) -> Seq<char> {
    if index == 0 {
        folder + slug + ".md"@
    } else {
        folder + slug + "-"@ + crate::storage::decimal(index) + ".md"@
    }
}

/// The candidate paths of a new contact entity.
pub open spec fn contact_candidate(slug: Seq<char>, index: nat) -> Seq<char> {
    entity_candidate("modules/contacts/data/"@, slug, index)
}

/// The first of the hundred candidate paths in a folder for an entity's
/// name that is not among the existing paths; else the given refusal.
pub fn unique_entity_path(
    folder: &str,
    name: &str,
    default_slug: &str,
    refusal: &str,
    existing_paths: &Vec<String>,
) -> (r: Result<String, String>)
    ensures
        match r {
            Ok(p) => exists|i: nat|
                #![trigger entity_candidate(folder@, entity_slug(name@, default_slug@), i)]
                i < 100 && p@ == entity_candidate(folder@, entity_slug(name@, default_slug@), i) && !string_views(
                    existing_paths@,
                ).contains(p@) && forall|j: nat| j < i ==> string_views(existing_paths@).contains(
                    #[trigger] entity_candidate(folder@, entity_slug(name@, default_slug@), j),
                ),
            Err(e) => e@ == refusal@ && forall|j: nat|
                j < 100 ==> string_views(existing_paths@).contains(
                    #[trigger] entity_candidate(folder@, entity_slug(name@, default_slug@), j),
                ),
        },
{
    let slug = entity_slugify(name, default_slug);
    let ghost sl = entity_slug(name@, default_slug@);
    let mut index: u64 = 0;
    while index < 100
        invariant
            index <= 100,
            slug@ == sl,
            sl == entity_slug(name@, default_slug@),
            forall|j: nat| j < index ==> string_views(existing_paths@).contains(#[trigger] entity_candidate(folder@, sl, j)),
        decreases 100 - index,
    {
        let mut v = chars_of(folder);
        crate::text::append_str(&mut v, slug.as_str());
        if index > 0 {
            crate::text::append_str(&mut v, "-");
            let d = crate::storage::decimal_exec(index);
            crate::text::append(&mut v, d.as_slice());
        }
        crate::text::append_str(&mut v, ".md");
        let candidate = string_of(v.as_slice());
        assert(candidate@ == entity_candidate(folder@, sl, index as nat));
        if !crate::module_schema::contains_text(existing_paths, &candidate) {
            let ghost w: nat = index as nat;
            assert(w < 100 && candidate@ == entity_candidate(folder@, entity_slug(name@, default_slug@), w));
            return Ok(candidate);
        }
        index = index + 1;
    }
    Err(crate::text::owned(refusal))
}

/// The first of the hundred candidate paths for a contact's name that is
/// not among the existing paths.
pub fn unique_contact_entity_path(name: &str, existing_paths: &Vec<String>) -> (r: Result<String, String>)
    ensures
        match r {
            Ok(p) => exists|i: nat|
                #![trigger contact_candidate(contact_slug(name@), i)]
                i < 100 && p@ == contact_candidate(contact_slug(name@), i) && !string_views(existing_paths@).contains(
                    p@,
                ) && forall|j: nat| j < i ==> string_views(existing_paths@).contains(
                    #[trigger] contact_candidate(contact_slug(name@), j),
                ),
            Err(e) => e@ == "Unable to find an available Contact filename."@ && forall|j: nat|
                j < 100 ==> string_views(existing_paths@).contains(#[trigger] contact_candidate(contact_slug(name@), j)),
        },
{
    let r = unique_entity_path(
        "modules/contacts/data/",
        name,
        "untitled-contact",
        "Unable to find an available Contact filename.",
        existing_paths,
    );
    proof {
        reveal_strlit("modules/contacts/data/");
        reveal_strlit("untitled-contact");
        reveal_strlit("Unable to find an available Contact filename.");
        if r is Ok {
            let i = choose|i: nat|
                #![trigger entity_candidate("modules/contacts/data/"@, entity_slug(name@, "untitled-contact"@), i)]
                i < 100 && r->Ok_0@ == entity_candidate("modules/contacts/data/"@, entity_slug(name@, "untitled-contact"@), i)
                    && !string_views(existing_paths@).contains(r->Ok_0@) && forall|j: nat| j < i ==> string_views(
                    existing_paths@,
                ).contains(#[trigger] entity_candidate("modules/contacts/data/"@, entity_slug(name@, "untitled-contact"@), j));
            assert(contact_candidate(contact_slug(name@), i) == r->Ok_0@);
            assert forall|j: nat| j < i implies string_views(existing_paths@).contains(
                #[trigger] contact_candidate(contact_slug(name@), j),
            ) by {
                assert(contact_candidate(contact_slug(name@), j) == entity_candidate(
                    "modules/contacts/data/"@,
                    entity_slug(name@, "untitled-contact"@),
                    j,
                ));
            }
        } else {
            assert forall|j: nat| j < 100 implies string_views(existing_paths@).contains(
                #[trigger] contact_candidate(contact_slug(name@), j),
            ) by {
                assert(contact_candidate(contact_slug(name@), j) == entity_candidate(
                    "modules/contacts/data/"@,
                    entity_slug(name@, "untitled-contact"@),
                    j,
                ));
            }
        }
    }
    r
}

/// The body of the legacy contacts document: trimmed with one newline, or a
/// bare heading where it is blank.
pub open spec fn normalized_contacts_body(body: Seq<char>) -> Seq<char> {
    let b = trim(body);
    if b.len() == 0 {
        "# Contacts\n"@
    } else {
        b + "\n"@
    }
}

/// The body of the legacy contacts document, normalised.
pub fn normalize_contacts_body(body: &str) -> (r: String)
    ensures
        r@ == normalized_contacts_body(body@),
{
    let b = crate::text::trim_str(body);
    if b.len() == 0 {
        crate::text::owned("# Contacts\n")
    } else {
        let mut v = b;
        crate::text::append_str(&mut v, "\n");
        string_of(v.as_slice())
    }
}

/// The warnings about one source file: those that mention its path.
pub open spec fn warnings_for(warnings: Seq<Seq<char>>, source: Seq<char>) -> Seq<Seq<char>> {
    warnings.filter(|w: Seq<char>| crate::text::contains(w, source))
}

/// The warnings about one source file.
pub fn entry_warnings(warnings: &Vec<String>, source_path: &str) -> (r: Vec<String>)
    ensures
        string_views(r@) == warnings_for(string_views(warnings@), source_path@),
{
    let sp = chars_of(source_path);
    let ghost wv = string_views(warnings@);
    let mut out: Vec<String> = Vec::new();
    let n = warnings.len();
    let mut i: usize = 0;
    while i < n
        invariant
            n == warnings@.len(),
            wv == string_views(warnings@),
            sp@ == source_path@,
            i <= n,
            string_views(out@) == warnings_for(wv.take(i as int), source_path@),
        decreases n - i,
    {
        let w = chars_of(warnings[i].as_str());
        proof {
            wv.take(i as int).lemma_filter_push(wv[i as int], |w: Seq<char>| crate::text::contains(w, source_path@));
        }
        assert(wv.take(i + 1) =~= wv.take(i as int).push(wv[i as int]));
        if crate::text::contains_exec(w.as_slice(), sp.as_slice()) {
            let ghost b = string_views(out@);
            out.push(warnings[i].clone());
            assert(string_views(out@) =~= b.push(wv[i as int]));
        }
        i = i + 1;
    }
    assert(wv.take(n as int) =~= wv);
    out
}


/// How many contacts have the relationship.
pub open spec fn rel_count(cs: Seq<ContactEntry>, r: Seq<char>) -> nat
    decreases cs.len(),
{
    if cs.len() == 0 {
        0
    } else {
        rel_count(cs.drop_last(), r) + if opt_string_view(cs.last().relationship) == Some(r) {
            1nat
        } else {
            0nat
        }
    }
}

/// How often a text occurs in a sequence.
pub open spec fn count_in(s: Seq<Seq<char>>, t: Seq<char>) -> nat
    decreases s.len(),
{
    if s.len() == 0 {
        0
    } else {
        count_in(s.drop_last(), t) + if s.last() == t {
            1nat
        } else {
            0nat
        }
    }
}

/// How often a tag is given, over all contacts.
pub open spec fn tag_count(cs: Seq<ContactEntry>, t: Seq<char>) -> nat
    decreases cs.len(),
{
    if cs.len() == 0 {
        0
    } else {
        tag_count(cs.drop_last(), t) + count_in(string_views(cs.last().tags@), t)
    }
}

/// How many tags are given, over all contacts.
pub open spec fn total_tags(cs: Seq<ContactEntry>) -> nat
    decreases cs.len(),
{
    if cs.len() == 0 {
        0
    } else {
        total_tags(cs.drop_last()) + cs.last().tags@.len()
    }
}

/// How many contacts have an email (with `email` true) or a phone.
pub open spec fn reachable_count(cs: Seq<ContactEntry>, email: bool) -> nat
    decreases cs.len(),
{
    if cs.len() == 0 {
        0
    } else {
        reachable_count(cs.drop_last(), email) + if (if email {
            cs.last().email is Some
        } else {
            cs.last().phone is Some
        }) {
            1nat
        } else {
            0nat
        }
    }
}

/// The order of the top tags: more uses first, then by tag.
pub open spec fn tag_before(a: (Seq<char>, nat), b: (Seq<char>, nat)) -> bool {
    a.1 > b.1 || (a.1 == b.1 && crate::ordered::text_lt(a.0, b.0))
}

/// The view of a tag count.
pub open spec fn tag_count_view(t: TagCount) -> (Seq<char>, nat) {
    (t.tag@, t.count as nat)
}

proof fn lemma_total_tags_permutation(a: Seq<ContactEntry>, b: Seq<ContactEntry>)
    requires
        a.to_multiset() == b.to_multiset(),
    ensures
        total_tags(a) == total_tags(b),
    decreases a.len(),
{
    broadcast use vstd::seq_lib::group_to_multiset_ensures;

    if a.len() == 0 {
        assert(a.to_multiset().len() == 0);
        assert(b.to_multiset().len() == b.len());
        assert(b.len() == 0);
    } else {
        let x = a.last();
        let a1 = a.drop_last();
        assert(a =~= a1.push(x));
        assert(a.to_multiset().count(x) > 0);
        assert(b.contains(x));
        let j = choose|j: int| 0 <= j < b.len() && b[j] == x;
        let b1 = b.remove(j);
        assert(b1.to_multiset() =~= b.to_multiset().remove(x));
        assert(a1.to_multiset() =~= a.to_multiset().remove(x));
        lemma_total_tags_permutation(a1, b1);
        lemma_total_tags_remove(b, j);
    }
}

proof fn lemma_total_tags_remove(b: Seq<ContactEntry>, j: int)
    requires
        0 <= j < b.len(),
    ensures
        total_tags(b) == total_tags(b.remove(j)) + b[j].tags@.len(),
    decreases b.len(),
{
    if j == b.len() - 1 {
        assert(b.remove(j) =~= b.drop_last());
    } else {
        lemma_total_tags_remove(b.drop_last(), j);
        assert(b.remove(j).drop_last() =~= b.drop_last().remove(j));
        assert(b.remove(j).last() == b.last());
    }
}

proof fn lemma_rel_count_bound(cs: Seq<ContactEntry>, r: Seq<char>)
    ensures
        rel_count(cs, r) <= cs.len(),
    decreases cs.len(),
{
    if cs.len() > 0 {
        lemma_rel_count_bound(cs.drop_last(), r);
    }
}

proof fn lemma_count_in_bound(s: Seq<Seq<char>>, t: Seq<char>)
    ensures
        count_in(s, t) <= s.len(),
    decreases s.len(),
{
    if s.len() > 0 {
        lemma_count_in_bound(s.drop_last(), t);
    }
}

proof fn lemma_tag_count_bound(cs: Seq<ContactEntry>, t: Seq<char>)
    ensures
        tag_count(cs, t) <= total_tags(cs),
    decreases cs.len(),
{
    if cs.len() > 0 {
        lemma_tag_count_bound(cs.drop_last(), t);
        lemma_count_in_bound(string_views(cs.last().tags@), t);
    }
}

proof fn lemma_total_tags_prefix(cs: Seq<ContactEntry>, i: int)
    requires
        0 <= i <= cs.len(),
    ensures
        total_tags(cs.take(i)) <= total_tags(cs),
    decreases cs.len() - i,
{
    if i < cs.len() {
        lemma_total_tags_prefix(cs, i + 1);
        assert(cs.take(i + 1).drop_last() =~= cs.take(i));
    } else {
        assert(cs.take(i) =~= cs);
    }
}

fn relationship_counts(contacts: &Vec<ContactEntry>) -> (r: crate::ordered::OrderedMap<usize>)
    ensures
        r.wf(),
        forall|rel: Seq<char>| #[trigger] r@.dom().contains(rel) <==> rel_count(contacts@, rel) > 0,
        forall|rel: Seq<char>| r@.dom().contains(rel) ==> r@[rel] == #[trigger] rel_count(contacts@, rel),
{
    let ghost cs = contacts@;
    let mut m: crate::ordered::OrderedMap<usize> = crate::ordered::OrderedMap::new();
    let n = contacts.len();
    let mut i: usize = 0;
    while i < n
        invariant
            n == cs.len(),
            cs == contacts@,
            i <= n,
            m.wf(),
            forall|rel: Seq<char>| #[trigger] m@.dom().contains(rel) <==> rel_count(cs.take(i as int), rel) > 0,
            forall|rel: Seq<char>| m@.dom().contains(rel) ==> m@[rel] == #[trigger] rel_count(cs.take(i as int), rel),
        decreases n - i,
    {
        assert(cs.take(i + 1).drop_last() =~= cs.take(i as int));
        assert(cs.take(i + 1).last() == cs[i as int]);
        match &contacts[i].relationship {
            Some(rel) => {
                let cur: usize = match m.get(rel.as_str()) {
                    Some(c) => *c,
                    None => 0,
                };
                proof {
                    lemma_rel_count_bound(cs.take(i as int), rel@);
                }
                m.insert(rel.clone(), cur + 1);
            },
            None => {},
        }
        i = i + 1;
    }
    assert(cs.take(n as int) =~= cs);
    m
}

fn tag_counts(contacts: &Vec<ContactEntry>) -> (r: crate::ordered::OrderedMap<usize>)
    requires
        total_tags(contacts@) <= usize::MAX,
    ensures
        r.wf(),
        forall|t: Seq<char>| #[trigger] r@.dom().contains(t) <==> tag_count(contacts@, t) > 0,
        forall|t: Seq<char>| r@.dom().contains(t) ==> r@[t] == #[trigger] tag_count(contacts@, t),
{
    let ghost cs = contacts@;
    let mut m: crate::ordered::OrderedMap<usize> = crate::ordered::OrderedMap::new();
    let n = contacts.len();
    let mut i: usize = 0;
    while i < n
        invariant
            n == cs.len(),
            cs == contacts@,
            i <= n,
            total_tags(cs) <= usize::MAX,
            m.wf(),
            forall|t: Seq<char>| #[trigger] m@.dom().contains(t) <==> tag_count(cs.take(i as int), t) > 0,
            forall|t: Seq<char>| m@.dom().contains(t) ==> m@[t] == #[trigger] tag_count(cs.take(i as int), t),
        decreases n - i,
    {
        assert(cs.take(i + 1).drop_last() =~= cs.take(i as int));
        assert(cs.take(i + 1).last() == cs[i as int]);
        proof {
            lemma_total_tags_prefix(cs, i + 1);
        }
        let tags = &contacts[i].tags;
        let ghost tv = string_views(tags@);
        let k = tags.len();
        let mut j: usize = 0;
        while j < k
            invariant
                k == tags@.len(),
                tv == string_views(tags@),
                j <= k,
                i < n,
                n == cs.len(),
                tags@ == cs[i as int].tags@,
                total_tags(cs.take(i + 1)) <= usize::MAX,
                total_tags(cs.take(i + 1)) == total_tags(cs.take(i as int)) + k,
                m.wf(),
                forall|t: Seq<char>| #[trigger] m@.dom().contains(t) <==> tag_count(cs.take(i as int), t) + count_in(
                    tv.take(j as int),
                    t,
                ) > 0,
                forall|t: Seq<char>| m@.dom().contains(t) ==> m@[t] == #[trigger] tag_count(cs.take(i as int), t)
                    + count_in(tv.take(j as int), t),
            decreases k - j,
        {
            assert(tv.take(j + 1).drop_last() =~= tv.take(j as int));
            assert(tv.take(j + 1).last() == tags@[j as int]@);
            let tag = &tags[j];
            let cur: usize = match m.get(tag.as_str()) {
                Some(c) => *c,
                None => 0,
            };
            proof {
                lemma_tag_count_bound(cs.take(i as int), tag@);
                lemma_count_in_bound(tv.take(j as int), tag@);
            }
            m.insert(tag.clone(), cur + 1);
            j = j + 1;
        }
        assert(tv.take(k as int) =~= tv);
        i = i + 1;
    }
    assert(cs.take(n as int) =~= cs);
    m
}

fn reachable(contacts: &Vec<ContactEntry>, email: bool) -> (r: usize)
    ensures
        r == reachable_count(contacts@, email),
{
    let ghost cs = contacts@;
    let n = contacts.len();
    let mut c: usize = 0;
    let mut i: usize = 0;
    while i < n
        invariant
            n == cs.len(),
            cs == contacts@,
            i <= n,
            c == reachable_count(cs.take(i as int), email),
            c <= i,
        decreases n - i,
    {
        assert(cs.take(i + 1).drop_last() =~= cs.take(i as int));
        assert(cs.take(i + 1).last() == cs[i as int]);
        let has = if email {
            contacts[i].email.is_some()
        } else {
            contacts[i].phone.is_some()
        };
        if has {
            c = c + 1;
        }
        i = i + 1;
    }
    assert(cs.take(n as int) =~= cs);
    c
}

fn tag_less(a: &TagCount, b: &TagCount) -> (r: bool)
    ensures
        r == tag_before(tag_count_view(*a), tag_count_view(*b)),
{
    if a.count != b.count {
        a.count > b.count
    } else {
        let x = chars_of(a.tag.as_str());
        let y = chars_of(b.tag.as_str());
        crate::ordered::text_less(x.as_slice(), y.as_slice())
    }
}

proof fn lemma_tag_before_transitive(a: (Seq<char>, nat), b: (Seq<char>, nat), c: (Seq<char>, nat))
    requires
        tag_before(a, b),
        tag_before(b, c),
    ensures
        tag_before(a, c),
{
    if a.1 == b.1 && b.1 == c.1 {
        crate::ordered::lemma_text_lt_transitive(a.0, b.0, c.0);
    }
}

proof fn lemma_tag_before_total(a: (Seq<char>, nat), b: (Seq<char>, nat))
    requires
        a.0 != b.0,
    ensures
        tag_before(a, b) || tag_before(b, a),
{
    if a.1 == b.1 {
        crate::ordered::lemma_text_lt_total(a.0, b.0);
    }
}

proof fn lemma_tag_before_irreflexive(a: (Seq<char>, nat), b: (Seq<char>, nat))
    requires
        tag_before(a, b),
    ensures
        !tag_before(b, a),
{
    if a.1 == b.1 {
        if crate::ordered::text_lt(b.0, a.0) {
            crate::ordered::lemma_text_lt_transitive(a.0, b.0, a.0);
            crate::ordered::lemma_text_lt_irreflexive(a.0);
        }
    }
}

/// The tag counts are strictly in top-tag order.
pub open spec fn tag_ordered(v: Seq<(Seq<char>, nat)>) -> bool {
    forall|a: int, b: int| 0 <= a < b < v.len() ==> tag_before(#[trigger] v[a], #[trigger] v[b])
}

/// The tag is among the counted tags.
pub open spec fn tag_listed(v: Seq<TagCount>, t: Seq<char>) -> bool {
    exists|k: int| 0 <= k < v.len() && (#[trigger] v[k]).tag@ == t
}

fn first_tag_after(out: &Vec<TagCount>, x: &TagCount) -> (p: usize)
    ensures
        p <= out@.len(),
        forall|q: int| 0 <= q < p ==> !tag_before(tag_count_view(*x), #[trigger] tag_count_view(out@[q])),
        p < out@.len() ==> tag_before(tag_count_view(*x), tag_count_view(out@[p as int])),
{
    let mut p: usize = 0;
    while p < out.len()
        invariant
            p <= out@.len(),
            forall|q: int| 0 <= q < p ==> !tag_before(tag_count_view(*x), #[trigger] tag_count_view(out@[q])),
        decreases out@.len() - p,
    {
        if tag_less(x, &out[p]) {
            return p;
        }
        p = p + 1;
    }
    p
}

fn sort_tag_counts(counts: &crate::ordered::OrderedMap<usize>) -> (r: Vec<TagCount>)
    requires
        counts.wf(),
    ensures
        tag_ordered(r@.map_values(|t: TagCount| tag_count_view(t))),
        r@.len() == counts.entries@.len(),
        forall|k: int| 0 <= k < r@.len() ==> counts@.dom().contains((#[trigger] r@[k]).tag@) && r@[k].count
            == counts@[r@[k].tag@],
        forall|t: Seq<char>| counts@.dom().contains(t) ==> #[trigger] tag_listed(r@, t),
{
    let n = counts.entries.len();
    let mut out: Vec<TagCount> = Vec::new();
    let mut i: usize = 0;
    while i < n
        invariant
            n == counts.entries@.len(),
            counts.wf(),
            i <= n,
            out@.len() == i,
            tag_ordered(out@.map_values(|t: TagCount| tag_count_view(t))),
            forall|k: int| 0 <= k < out@.len() ==> counts@.dom().contains((#[trigger] out@[k]).tag@) && out@[k].count
                == counts@[out@[k].tag@],
            forall|q: int| #![trigger counts.entries@[q]] 0 <= q < i ==> tag_listed(out@, counts.entries@[q].0@),
            forall|k: int| 0 <= k < out@.len() ==> exists|q: int| 0 <= q < i && (#[trigger] out@[k]).tag@ == counts.entries@[q].0@,
        decreases n - i,
    {
        proof {
            counts.lemma_entry(i as int);
        }
        let x = TagCount { tag: counts.entries[i].0.clone(), count: counts.entries[i].1 };
        let ghost xv = tag_count_view(x);
        assert forall|k: int| 0 <= k < out@.len() implies (#[trigger] out@[k]).tag@ != x.tag@ by {
            let q = choose|q: int| 0 <= q < i && out@[k].tag@ == counts.entries@[q].0@;
            assert(crate::ordered::text_lt(counts.entries@[q].0@, counts.entries@[i as int].0@));
            crate::ordered::lemma_text_lt_differs(counts.entries@[q].0@, counts.entries@[i as int].0@);
        }
        let p = first_tag_after(&out, &x);
        let ghost b = out@;
        let ghost bv = b.map_values(|t: TagCount| tag_count_view(t));
        out.insert(p, x);
        proof {
            assert(out@ == b.insert(p as int, x));
            let ov = out@.map_values(|t: TagCount| tag_count_view(t));
            assert(ov =~= bv.insert(p as int, xv));
            assert forall|a: int, c: int| 0 <= a < c < ov.len() implies tag_before(#[trigger] ov[a], #[trigger] ov[c]) by {
                if c < p {
                    assert(ov[a] == bv[a] && ov[c] == bv[c]);
                } else if c == p {
                    assert(ov[a] == bv[a]);
                    assert(!tag_before(xv, bv[a]));
                    assert(b[a].tag@ != x.tag@);
                    lemma_tag_before_total(xv, bv[a]);
                } else if a == p {
                    assert(ov[c] == bv[c - 1]);
                    if c - 1 > p {
                        lemma_tag_before_transitive(xv, bv[p as int], bv[c - 1]);
                    }
                } else if a < p {
                    assert(ov[a] == bv[a] && ov[c] == bv[c - 1]);
                } else {
                    assert(ov[a] == bv[a - 1] && ov[c] == bv[c - 1]);
                }
            }
            assert forall|k: int| 0 <= k < out@.len() implies counts@.dom().contains((#[trigger] out@[k]).tag@)
                && out@[k].count == counts@[out@[k].tag@] by {
                if k < p {
                    assert(out@[k] == b[k]);
                } else if k > p {
                    assert(out@[k] == b[k - 1]);
                }
            }
            assert forall|q: int| #![trigger counts.entries@[q]] 0 <= q < i + 1 implies tag_listed(out@, counts.entries@[q].0@) by {
                if q == i {
                    assert(out@[p as int].tag@ == counts.entries@[q].0@);
                } else {
                    let k = choose|k: int| 0 <= k < b.len() && (#[trigger] b[k]).tag@ == counts.entries@[q].0@;
                    if k < p {
                        assert(out@[k] == b[k]);
                    } else {
                        assert(out@[k + 1] == b[k]);
                    }
                }
            }
            assert forall|k: int| 0 <= k < out@.len() implies exists|q: int| 0 <= q < i + 1 && (#[trigger] out@[k]).tag@
                == counts.entries@[q].0@ by {
                if k == p {
                    assert(out@[k].tag@ == counts.entries@[i as int].0@);
                } else if k < p {
                    assert(out@[k] == b[k]);
                } else {
                    assert(out@[k] == b[k - 1]);
                }
            }
        }
        i = i + 1;
    }
    assert forall|t: Seq<char>| counts@.dom().contains(t) implies tag_listed(out@, t) by {
        crate::ordered::lemma_keyed_dom(counts.entries@, t);
        let q = choose|q: int| 0 <= q < counts.entries@.len() && #[trigger] counts.entries@[q].0@ == t;
        assert(tag_listed(out@, counts.entries@[q].0@));
    }
    out
}


/// The summary of the contacts: their number; the number with each
/// relationship; the five tags given most often (ties by tag); and the
/// numbers with an email and with a phone.  `total_tags` bounds the tags
/// counted, as the machine does.
pub fn summarize_contacts(contacts: &Vec<ContactEntry>) -> (r: ContactSummary)
    requires
        total_tags(contacts@) <= usize::MAX,
    ensures
        r.total == contacts@.len(),
        crate::ordered::strictly_sorted(r.relationship_counts@),
        forall|rel: Seq<char>|
            #[trigger] crate::keyed::keyed(r.relationship_counts@).dom().contains(rel) <==> rel_count(contacts@, rel) > 0,
        forall|rel: Seq<char>|
            crate::keyed::keyed(r.relationship_counts@).dom().contains(rel) ==> crate::keyed::keyed(
                r.relationship_counts@,
            )[rel] == #[trigger] rel_count(contacts@, rel),
        tag_ordered(r.top_tags@.map_values(|t: TagCount| tag_count_view(t))),
        r.top_tags@.len() <= 5,
        forall|k: int|
            0 <= k < r.top_tags@.len() ==> (#[trigger] r.top_tags@[k]).count == tag_count(contacts@, r.top_tags@[k].tag@)
                && r.top_tags@[k].count > 0,
        forall|t: Seq<char>|
            #[trigger] tag_count(contacts@, t) > 0 ==> tag_listed(r.top_tags@, t) || (r.top_tags@.len() == 5 && tag_before(
                tag_count_view(r.top_tags@[4]),
                (t, tag_count(contacts@, t)),
            )),
        r.contacts_with_email == reachable_count(contacts@, true),
        r.contacts_with_phone == reachable_count(contacts@, false),
{
    let rels = relationship_counts(contacts);
    let tags = tag_counts(contacts);
    let sorted = sort_tag_counts(&tags);
    let ghost sv = sorted@.map_values(|t: TagCount| tag_count_view(t));
    let mut top: Vec<TagCount> = Vec::new();
    let mut k: usize = 0;
    while k < sorted.len() && k < 5
        invariant
            sv == sorted@.map_values(|t: TagCount| tag_count_view(t)),
            k <= sorted@.len(),
            k <= 5,
            top@.map_values(|t: TagCount| tag_count_view(t)) == sv.take(k as int),
        decreases 5 - k,
    {
        let ghost b = top@.map_values(|t: TagCount| tag_count_view(t));
        let x = TagCount { tag: sorted[k].tag.clone(), count: sorted[k].count };
        top.push(x);
        assert(top@.map_values(|t: TagCount| tag_count_view(t)) =~= b.push(tag_count_view(x)));
        assert(sv.take(k + 1) =~= sv.take(k as int).push(sv[k as int]));
        k = k + 1;
    }
    proof {
        let tv = top@.map_values(|t: TagCount| tag_count_view(t));
        assert forall|q: int| 0 <= q < top@.len() implies (#[trigger] top@[q]).count == tag_count(contacts@, top@[q].tag@)
            && top@[q].count > 0 by {
            assert(tv[q] == sv[q]);
            assert(tag_count_view(top@[q]) == tag_count_view(sorted@[q]));
        }
        assert forall|t: Seq<char>| #[trigger] tag_count(contacts@, t) > 0 implies tag_listed(top@, t) || (top@.len() == 5
            && tag_before(tag_count_view(top@[4]), (t, tag_count(contacts@, t)))) by {
            assert(tags@.dom().contains(t));
            assert(tag_listed(sorted@, t));
            let j = choose|j: int| 0 <= j < sorted@.len() && (#[trigger] sorted@[j]).tag@ == t;
            assert(sv[j] == tag_count_view(sorted@[j]));
            if j < top@.len() {
                assert(tv[j] == sv[j]);
                assert(top@[j].tag@ == t);
            } else {
                assert(top@.len() == 5);
                assert(tv[4] == sv[4]);
                assert(tag_before(sv[4], sv[j]));
            }
        }
    }
    ContactSummary {
        total: contacts.len(),
        relationship_counts: rels.entries,
        top_tags: top,
        contacts_with_email: reachable(contacts, true),
        contacts_with_phone: reachable(contacts, false),
    }
}


/// The input a contact is rewritten from.
pub open spec fn entry_input_view(c: ContactEntry) -> (
    Seq<char>,
    Option<Seq<char>>,
    Option<Seq<char>>,
    Option<Seq<char>>,
    Option<Seq<char>>,
    Seq<Seq<char>>,
    Seq<Seq<char>>,
    Option<Seq<char>>,
) {
    (
        c.name@,
        opt_string_view(c.relationship),
        opt_string_view(c.organization),
        opt_string_view(c.email),
        opt_string_view(c.phone),
        string_views(c.tags@),
        string_views(c.relationships@),
        opt_string_view(c.notes),
    )
}

/// The records of the contacts, each after a blank line.
pub open spec fn index_records(cs: Seq<ContactEntry>) -> Seq<char>
    decreases cs.len(),
{
    if cs.len() == 0 {
        seq![]
    } else {
        let c = cs.last();
        let i = ContactInput {
            name: c.name,
            relationship: c.relationship,
            organization: c.organization,
            email: c.email,
            phone: c.phone,
            tags: c.tags,
            relationships: c.relationships,
            notes: c.notes,
        };
        index_records(cs.drop_last()) + "\n"@ + rendered_contact(i, "## "@, "### Notes"@)
    }
}

/// The generated body of the contacts index: a heading, the records, and a
/// note while the legacy contacts document still holds content.
pub open spec fn contacts_index_body(cs: Seq<ContactEntry>, legacy_body: Seq<char>) -> Seq<char> {
    "# Contacts\n"@ + index_records(cs) + if trim(legacy_body).len() > 0 {
        "\n## Legacy compatibility\n- Unmigrated records from modules/contacts.md are included until explicit upgrade runs.\n"@
    } else {
        seq![]
    }
}

pub(crate) fn copy_opt(o: &Option<String>) -> (r: Option<String>)
    ensures
        opt_string_view(r) == opt_string_view(*o),
        r == *o,
{
    match o {
        Some(x) => Some(x.clone()),
        None => None,
    }
}

/// The generated body of the contacts index.
pub fn render_contacts_index_body(contacts: &Vec<ContactEntry>, legacy_body: &str) -> (r: String)
    ensures
        r@ == contacts_index_body(contacts@, legacy_body@),
{
    let mut body = chars_of("# Contacts\n");
    let ghost head = body@;
    let n = contacts.len();
    let mut i: usize = 0;
    while i < n
        invariant
            n == contacts@.len(),
            i <= n,
            head == "# Contacts\n"@,
            body@ == head + index_records(contacts@.take(i as int)),
        decreases n - i,
    {
        let c = &contacts[i];
        let input = ContactInput {
            name: c.name.clone(),
            relationship: copy_opt(&c.relationship),
            organization: copy_opt(&c.organization),
            email: copy_opt(&c.email),
            phone: copy_opt(&c.phone),
            tags: c.tags.clone(),
            relationships: c.relationships.clone(),
            notes: copy_opt(&c.notes),
        };
        let rec = render_contact_record(&input);
        assert(contacts@.take(i + 1).drop_last() =~= contacts@.take(i as int));
        assert(contacts@.take(i + 1).last() == *c);
        let ghost spec_input = ContactInput {
            name: c.name,
            relationship: c.relationship,
            organization: c.organization,
            email: c.email,
            phone: c.phone,
            tags: c.tags,
            relationships: c.relationships,
            notes: c.notes,
        };
        assert(rendered_contact(input, "## "@, "### Notes"@) == rendered_contact(spec_input, "## "@, "### Notes"@)) by {
            assert(string_views(input.tags@) =~= string_views(spec_input.tags@));
            assert(string_views(input.relationships@) =~= string_views(spec_input.relationships@));
            assert(contact_lines(input, "### Notes"@) =~= contact_lines(spec_input, "### Notes"@));
        }
        crate::text::append_str(&mut body, "\n");
        crate::text::append_str(&mut body, rec.as_str());
        i = i + 1;
    }
    assert(contacts@.take(n as int) =~= contacts@);
    let lb = crate::text::trim_str(legacy_body);
    if lb.len() > 0 {
        crate::text::append_str(
            &mut body,
            "\n## Legacy compatibility\n- Unmigrated records from modules/contacts.md are included until explicit upgrade runs.\n",
        );
    }
    string_of(body.as_slice())
}

/// The contacts whose lowercase name is `k`, in order.
pub open spec fn contacts_named(cs: Seq<ContactEntry>, k: Seq<char>) -> Seq<ContactEntry> {
    cs.filter(|c: ContactEntry| unicode_lowercase(c.name@) == k)
}

/// The contacts sorted by their lowercased names, entries with equal keys
/// keeping their order.
pub fn sort_contacts(contacts: Vec<ContactEntry>) -> (r: Vec<ContactEntry>)
    ensures
        r@.to_multiset() == contacts@.to_multiset(),
        forall|k: Seq<char>| #[trigger] contacts_named(r@, k) == contacts_named(contacts@, k),
        forall|a: int, b: int|
            0 <= a < b < r@.len() ==> !crate::ordered::text_lt(
                unicode_lowercase(#[trigger] r@[b].name@),
                unicode_lowercase(#[trigger] r@[a].name@),
            ),
{
    let ghost all = contacts@;
    let mut rest = contacts;
    let mut pairs: Vec<(String, ContactEntry)> = Vec::new();
    let n = rest.len();
    let mut i: usize = 0;
    while rest.len() > 0
        invariant
            n == all.len(),
            i + rest@.len() == n,
            rest@ == all.skip(i as int),
            pairs@.map_values(|p: (String, ContactEntry)| p.1) == all.take(i as int),
            forall|k: int| 0 <= k < pairs@.len() ==> (#[trigger] pairs@[k]).0@ == unicode_lowercase(pairs@[k].1.name@),
        decreases rest@.len(),
    {
        let c = rest.remove(0);
        assert(c == all[i as int]);
        assert(rest@ =~= all.skip(i + 1));
        let key = crate::text::to_lowercase(c.name.as_str());
        let ghost b = pairs@;
        let ghost cc = c;
        pairs.push((key, c));
        assert(pairs@.map_values(|p: (String, ContactEntry)| p.1) =~= b.map_values(|p: (String, ContactEntry)| p.1).push(cc));
        assert(all.take(i + 1) =~= all.take(i as int).push(cc));
        i = i + 1;
    }
    assert(all.take(n as int) =~= all);
    let ghost unsorted = pairs@;
    let mut sorted = crate::ordered::sort_by_key(pairs);
    let ghost sv = sorted@;
    proof {
        broadcast use vstd::seq_lib::group_to_multiset_ensures;

        crate::ordered::lemma_map_multiset(sv, unsorted, |p: (String, ContactEntry)| p.1);
        assert forall|k: int| 0 <= k < sv.len() implies (#[trigger] sv[k]).0@ == unicode_lowercase(sv[k].1.name@) by {
            assert(sv.contains(sv[k]));
            assert(sv.to_multiset().count(sv[k]) > 0);
            assert(unsorted.to_multiset().count(sv[k]) > 0);
            assert(unsorted.contains(sv[k]));
            let w = choose|w: int| 0 <= w < unsorted.len() && unsorted[w] == sv[k];
            assert(unsorted[w].0@ == unicode_lowercase(unsorted[w].1.name@));
        }
    }
    let mut out: Vec<ContactEntry> = Vec::new();
    let m = sorted.len();
    let mut j: usize = 0;
    while sorted.len() > 0
        invariant
            m == sv.len(),
            j + sorted@.len() == m,
            sorted@ == sv.skip(j as int),
            out@ == sv.take(j as int).map_values(|p: (String, ContactEntry)| p.1),
        decreases sorted@.len(),
    {
        let pair = sorted.remove(0);
        assert(pair == sv[j as int]);
        assert(sorted@ =~= sv.skip(j + 1));
        out.push(pair.1);
        assert(out@ =~= sv.take(j + 1).map_values(|p: (String, ContactEntry)| p.1));
        j = j + 1;
    }
    assert(sv.take(m as int) =~= sv);
    proof {
        assert(out@ =~= crate::ordered::pair_values(sv));
        assert(all =~= crate::ordered::pair_values(unsorted));
        assert forall|k: Seq<char>| #[trigger] contacts_named(out@, k) == contacts_named(all, k) by {
            let g2 = |c: ContactEntry| unicode_lowercase(c.name@) == k;
            crate::ordered::lemma_with_key_values(sv, g2, k);
            crate::ordered::lemma_with_key_values(unsorted, g2, k);
            assert(crate::ordered::with_key(sv, k) == crate::ordered::with_key(unsorted, k));
            assert(contacts_named(out@, k) == crate::ordered::pair_values(sv).filter(g2));
            assert(contacts_named(all, k) == crate::ordered::pair_values(unsorted).filter(g2));
        }
    }
    out
}

impl ContactsService {
    /// The contacts document: the contacts read from the entity files and the
    /// legacy document (`contacts`), sorted by lowercased name, their summary,
    /// and the index body generated from them; `legacy_body` is the legacy
    /// document's body (empty where there is none).
    pub fn read_contacts(
        index_metadata: crate::document_metadata::DocumentMetadata,
        contacts: Vec<ContactEntry>,
        legacy_body: &str,
        warnings: Vec<String>,
    ) -> (r: ContactDocument)
        requires
            total_tags(contacts@) <= usize::MAX,
        ensures
            r.document_id@ == index_metadata.document_id@,
            r.markdown_relative_path@ == index_metadata.current_path@,
            r.contacts@.to_multiset() == contacts@.to_multiset(),
            forall|k: Seq<char>| #[trigger] contacts_named(r.contacts@, k) == contacts_named(contacts@, k),
            forall|a: int, b: int|
                0 <= a < b < r.contacts@.len() ==> !crate::ordered::text_lt(
                    unicode_lowercase(#[trigger] r.contacts@[b].name@),
                    unicode_lowercase(#[trigger] r.contacts@[a].name@),
                ),
            r.markdown_body@ == contacts_index_body(r.contacts@, legacy_body@),
            r.summary.total == contacts@.len(),
            r.warnings == warnings,
            r.document_metadata == index_metadata,
            r.layout_metadata is None,
    {
        let ghost orig = contacts@;
        let sorted = sort_contacts(contacts);
        proof {
            lemma_total_tags_permutation(sorted@, orig);
        }
        let summary = summarize_contacts(&sorted);
        let body = render_contacts_index_body(&sorted, legacy_body);
        proof {
            broadcast use vstd::seq_lib::group_to_multiset_ensures;

            assert(sorted@.len() == orig.len()) by {
                assert(sorted@.to_multiset().len() == orig.to_multiset().len());
            }
        }
        ContactDocument {
            document_id: index_metadata.document_id.clone(),
            markdown_relative_path: index_metadata.current_path.clone(),
            markdown_body: body,
            contacts: sorted,
            summary,
            warnings,
            document_metadata: index_metadata,
            layout_metadata: None,
        }
    }
}


/// The candidate at `i` is the first contact path not among the existing
/// paths.
pub open spec fn first_free_contact(slug: Seq<char>, existing: Seq<Seq<char>>, i: nat) -> bool {
    &&& i < 100
    &&& !existing.contains(contact_candidate(slug, i))
    &&& forall|j: nat| j < i ==> existing.contains(#[trigger] contact_candidate(slug, j))
}

/// The path a new contact gets: the first free candidate for its cleaned
/// name.
pub open spec fn first_free_contact_path(input: ContactInput, existing: Seq<Seq<char>>) -> Seq<char> {
    let slug = contact_slug(crate::record_text::collapse(input.name@));
    contact_candidate(slug, choose|i: nat| first_free_contact(slug, existing, i))
}

/// Why creating a contact is refused, if it is: a blank name, every
/// candidate path taken, or a path that is not vault-relative.
pub open spec fn contact_create_error(input: ContactInput, existing: Seq<Seq<char>>) -> Option<Seq<char>> {
    let name = crate::record_text::collapse(input.name@);
    let slug = contact_slug(name);
    if name.len() == 0 {
        Some("Contact name is required."@)
    } else if !exists|i: nat| first_free_contact(slug, existing, i) {
        Some("Unable to find an available Contact filename."@)
    } else {
        match crate::storage::vault_relative_check(first_free_contact_path(input, existing)) {
            Err(e) => Some(e),
            Ok(_) => None,
        }
    }
}

/// The body of a contact entity file as stored: its frontmatter and
/// identity comments removed.
pub open spec fn stored_contact_body(markdown: Seq<char>) -> Seq<char> {
    crate::document_identity::without_identity_comments(crate::markdown_document::parsed_frontmatter(markdown).1)
}

/// The record at range `k` of a legacy contacts body has the given id.
pub open spec fn legacy_record_has_id(body: Seq<char>, k: int, id: Seq<char>) -> bool {
    let rg = record_ranges(lines(body))[k];
    &&& 0 <= k < record_ranges(lines(body)).len()
    &&& rg.0 < rg.1 <= lines(body).len()
    &&& id == "contact_"@ + crate::storage::decimal(rg.0 as nat) + "_"@ + crate::storage::text_hash(
        crate::text::join(lines(body).subrange(rg.0, rg.1), "\n"@),
    )
}

/// The legacy contacts body of a document, as an update reads it.
pub open spec fn legacy_contacts_body(markdown: Seq<char>) -> Seq<char> {
    normalized_contacts_body(stored_contact_body(markdown))
}

/// Why updating a contact entity is refused, if it is: its path is no
/// contact entity, the name is blank, the file holds no contact, or the id
/// no longer matches the file (it changed outside BentoLife).
pub open spec fn entity_update_error(
    contact_id: Seq<char>,
    input: ContactInput,
    path: Seq<char>,
    current_markdown: Seq<char>,
) -> Option<Seq<char>> {
    let body = stored_contact_body(current_markdown);
    if !contact_entity_path(path) {
        Some("Contact entity was not found."@)
    } else if crate::record_text::collapse(input.name@).len() == 0 {
        Some("Contact name is required."@)
    } else if crate::habits::first_title_line(lines(body), 0) is None {
        Some("Contact entity could not be parsed."@)
    } else if record_document_id(contact_id) + "::"@ + crate::storage::text_hash(body) != contact_id {
        Some("Contact was changed outside BentoLife."@)
    } else {
        None
    }
}

/// A new contact entity, ready to be written.
pub struct NewContact {
    pub markdown_relative_path: String,
    pub document_id: String,
    pub markdown: String,
    pub document_metadata: crate::document_metadata::DocumentMetadata,
    pub layout_metadata: crate::layout_metadata::LayoutMetadata,
}

/// Metadata `n` is `m` given the contact type, the path, and a new hash and
/// time.
pub open spec fn contact_persisted(
    n: crate::document_metadata::DocumentMetadata,
    m: crate::document_metadata::DocumentMetadata,
    path: Seq<char>,
) -> bool {
    &&& n.document_type@ == "contact"@
    &&& n.current_path@ == path
    &&& crate::storage::is_hash_label(n.content_hash@)
    &&& exists|t: u64| n.updated_at@ == crate::storage::timestamp_label(t as nat)
    &&& n == (crate::document_metadata::DocumentMetadata {
        document_type: n.document_type,
        current_path: n.current_path,
        content_hash: n.content_hash,
        updated_at: n.updated_at,
        ..m
    })
}

fn persist_contact(
    metadata: crate::document_metadata::DocumentMetadata,
    relative_path: &str,
    body: &str,
) -> (r: (crate::document_metadata::DocumentMetadata, String))
    ensures
        contact_persisted(r.0, metadata, relative_path@),
        r.0.content_hash@ == crate::storage::text_hash(r.1@),
        r.1@ == crate::markdown_document::managed_markdown(
            body@,
            metadata.document_id@,
            metadata.frontmatter_contract.required_value@,
        ),
{
    let mut metadata = metadata;
    metadata.document_type = crate::text::owned("contact");
    metadata.current_path = crate::text::owned(relative_path);
    let managed = crate::markdown_document::MarkdownDocumentService::prepare_managed_markdown(
        body,
        metadata.document_id.as_str(),
        metadata.frontmatter_contract.required_value.as_str(),
    );
    metadata.content_hash = crate::storage::content_hash(managed.as_str());
    metadata.updated_at = crate::storage::current_timestamp_label();
    (metadata, managed)
}

impl ContactsService {
    /// Makes a new contact entity: the input cleaned (a name is required),
    /// the first free path for its name, a new id, default metadata of type
    /// `contact`, the Markdown placed under management, and a layout
    /// generated from its headings.
    pub fn create_contact(input: ContactInput, existing_paths: &Vec<String>, process_id: u32) -> (r: Result<
        NewContact,
        String,
    >)
        ensures
            crate::record_text::collapse(input.name@).len() == 0 ==> (r matches Err(e) && e@
                == "Contact name is required."@),
            match r {
                Ok(c) => contact_create_error(input, string_views(existing_paths@)) is None
                    && c.markdown_relative_path@ == first_free_contact_path(input, string_views(existing_paths@))
                    && (exists|ci: ContactInput| #[trigger] cleaned_contact(ci, input) && c.markdown@
                    == crate::markdown_document::managed_markdown(
                    rendered_contact(ci, "# "@, "## Notes"@),
                    c.document_id@,
                    crate::document_metadata::metadata_relative(c.document_id@),
                )) && c.document_metadata.content_hash@ == crate::storage::text_hash(c.markdown@)
                    && crate::layout_metadata::generated_cards(
                    c.layout_metadata.cards@,
                    crate::layout_metadata::heading_matches(c.markdown@),
                ),
                Err(e) => contact_create_error(input, string_views(existing_paths@)) == Some(e@),
            },
            r matches Ok(c) ==> {
                &&& crate::storage::is_document_id(c.document_id@)
                &&& !string_views(existing_paths@).contains(c.markdown_relative_path@)
                &&& c.document_metadata.document_type@ == "contact"@
                &&& c.document_metadata.current_path@ == c.markdown_relative_path@
                &&& c.document_metadata.document_id@ == c.document_id@
                &&& crate::layout_metadata::default_layout_fields(c.layout_metadata, c.document_id@)
            },
    {
        let cleaned = match clean_contact_input(input) {
            Ok(c) => c,
            Err(e) => {
                return Err(e);
            },
        };
        let ghost ex = string_views(existing_paths@);
        let ghost slug = contact_slug(crate::record_text::collapse(input.name@));
        let path = match unique_contact_entity_path(cleaned.name.as_str(), existing_paths) {
            Ok(p) => p,
            Err(e) => {
                proof {
                    if exists|i: nat| first_free_contact(slug, ex, i) {
                        let i = choose|i: nat| first_free_contact(slug, ex, i);
                        assert(ex.contains(contact_candidate(slug, i)));
                    }
                }
                return Err(e);
            },
        };
        proof {
            let w = choose|w: nat|
                #![trigger contact_candidate(slug, w)]
                w < 100 && path@ == contact_candidate(slug, w) && !ex.contains(path@) && forall|j: nat|
                    j < w ==> ex.contains(#[trigger] contact_candidate(slug, j));
            assert(first_free_contact(slug, ex, w));
            let i = choose|i: nat| first_free_contact(slug, ex, i);
            if i < w {
                assert(ex.contains(contact_candidate(slug, i)));
            }
            if w < i {
                assert(ex.contains(contact_candidate(slug, w)));
            }
            assert(i == w);
            assert(path@ == first_free_contact_path(input, ex));
        }
        let document_id = crate::storage::generate_document_id(path.as_str(), process_id);
        proof {
            crate::storage::lemma_generated_id_valid(document_id@);
        }
        let body = render_contact_entity(&cleaned);
        let metadata = match crate::document_metadata::DocumentMetadataService::create_default_with_type(
            document_id.as_str(),
            path.as_str(),
            body.as_str(),
            "contact",
        ) {
            Ok(m) => m,
            Err(e) => {
                return Err(e);
            },
        };
        let (metadata, managed) = persist_contact(metadata, path.as_str(), body.as_str());
        let layout = match crate::layout_metadata::LayoutMetadataService::generate_from_markdown(
            document_id.as_str(),
            managed.as_str(),
        ) {
            Ok(l) => l,
            Err(e) => {
                return Err(e);
            },
        };
        Ok(NewContact {
            markdown_relative_path: path,
            document_id,
            markdown: managed,
            document_metadata: metadata,
            layout_metadata: layout,
        })
    }

    /// Updates a contact.  An entity id (`bl_doc_...`) names a contact
    /// entity file, whose metadata and current Markdown are given: refused
    /// when the metadata's path is no contact entity, when the name is
    /// blank, when the file no longer holds a contact, or when the file
    /// changed since the id was taken; else the file is rewritten from the
    /// cleaned input.  Any other id names a record of the legacy contacts
    /// document, whose metadata and Markdown are given: refused when no
    /// record has that id or the name is blank; else the record is
    /// replaced.  Returns the metadata and Markdown to write.
    pub fn update_contact(
        contact_id: &str,
        input: ContactInput,
        metadata: crate::document_metadata::DocumentMetadata,
        current_markdown: &str,
    ) -> (r: Result<(crate::document_metadata::DocumentMetadata, String), String>)
        ensures
            has_prefix(contact_id@, "bl_doc_"@) && !contact_entity_path(metadata.current_path@) ==> (r matches Err(e)
                && e@ == "Contact entity was not found."@),
            has_prefix(contact_id@, "bl_doc_"@) ==> match r {
                Ok(p) => entity_update_error(contact_id@, input, metadata.current_path@, current_markdown@) is None
                    && contact_persisted(p.0, metadata, metadata.current_path@) && (exists|ci: ContactInput|
                    #[trigger] cleaned_contact(ci, input) && p.1@ == crate::markdown_document::managed_markdown(
                    rendered_contact(ci, "# "@, "## Notes"@),
                    metadata.document_id@,
                    metadata.frontmatter_contract.required_value@,
                )) && p.0.content_hash@ == crate::storage::text_hash(p.1@),
                Err(e) => entity_update_error(contact_id@, input, metadata.current_path@, current_markdown@) == Some(
                    e@,
                ),
            },
            !has_prefix(contact_id@, "bl_doc_"@) && !(exists|k: int|
                legacy_record_has_id(legacy_contacts_body(current_markdown@), k, contact_id@)) ==> (r matches Err(e)
                && e@ == "Contact was not found or was changed outside BentoLife."@),
            !has_prefix(contact_id@, "bl_doc_"@) && (exists|k: int|
                legacy_record_has_id(legacy_contacts_body(current_markdown@), k, contact_id@))
                && crate::record_text::collapse(input.name@).len() > 0 ==> r is Ok,
            !has_prefix(contact_id@, "bl_doc_"@) ==> (r matches Ok(p) ==> contact_persisted(
                p.0,
                metadata,
                metadata.current_path@,
            ) && p.0.content_hash@ == crate::storage::text_hash(p.1@) && (exists|k: int, ci: ContactInput|
                #![trigger legacy_record_has_id(legacy_contacts_body(current_markdown@), k, contact_id@), cleaned_contact(ci, input)]
                legacy_record_has_id(legacy_contacts_body(current_markdown@), k, contact_id@) && cleaned_contact(ci, input)
                && p.1@ == crate::markdown_document::managed_markdown(
                normalized_contacts_body(
                    replaced_lines(
                        legacy_contacts_body(current_markdown@),
                        record_ranges(lines(legacy_contacts_body(current_markdown@)))[k].0,
                        record_ranges(lines(legacy_contacts_body(current_markdown@)))[k].1,
                        rendered_contact(ci, "## "@, "### Notes"@),
                    ),
                ),
                metadata.document_id@,
                metadata.frontmatter_contract.required_value@,
            ))),
            crate::record_text::collapse(input.name@).len() == 0 ==> r is Err,
            r matches Ok(p) ==> p.0.document_type@ == "contact"@ && p.0.document_id == metadata.document_id,
    {
        let cid = chars_of(contact_id);
        if crate::text::starts_with_str(cid.as_slice(), "bl_doc_") {
            if !is_contact_entity_path(metadata.current_path.as_str()) {
                return Err(crate::text::owned("Contact entity was not found."));
            }
            let cleaned = match clean_contact_input(input) {
                Ok(c) => c,
                Err(e) => {
                    return Err(e);
                },
            };
            let parsed = crate::markdown_document::MarkdownDocumentService::parse_frontmatter(current_markdown);
            let body = crate::document_identity::DocumentIdentityService::remove_identity_comments(
                parsed.body.as_str(),
            );
            if contact_entity_fields(body.as_str(), metadata.current_path.as_str()).is_none() {
                return Err(crate::text::owned("Contact entity could not be parsed."));
            }
            let document_id = document_id_from_record_id(contact_id);
            let existing = record_id(document_id.as_str(), body.as_str());
            let ec = chars_of(existing.as_str());
            if !crate::text::seq_eq(ec.as_slice(), cid.as_slice()) {
                return Err(crate::text::owned("Contact was changed outside BentoLife."));
            }
            let rendered = render_contact_entity(&cleaned);
            let path = metadata.current_path.clone();
            let (m, managed) = persist_contact(metadata, path.as_str(), rendered.as_str());
            return Ok((m, managed));
        }
        let parsed = crate::markdown_document::MarkdownDocumentService::parse_frontmatter(current_markdown);
        let without = crate::document_identity::DocumentIdentityService::remove_identity_comments(parsed.body.as_str());
        let body = normalize_contacts_body(without.as_str());
        let ranges = contact_ranges(body.as_str());
        let bc = chars_of(body.as_str());
        let ls = crate::text::lines_exec(bc.as_slice());
        let mut found: Option<(usize, usize)> = None;
        let mut k: usize = 0;
        let ghost bv = body@;
        proof {
            reveal_strlit("\n");
        }
        while k < ranges.len()
            invariant_except_break
                found is None,
            invariant
                k <= ranges@.len(),
                bv == body@,
                bv == legacy_contacts_body(current_markdown@),
                views(ls@) == lines(bv),
                ranges@.len() == record_ranges(lines(bv)).len(),
                forall|q: int| 0 <= q < ranges@.len() ==> (#[trigger] ranges@[q]).0 as int == record_ranges(lines(bv))[q].0
                    && ranges@[q].1 as int == record_ranges(lines(bv))[q].1,
                cid@ == contact_id@,
                forall|q: int| 0 <= q < k ==> !legacy_record_has_id(bv, q, contact_id@),
            ensures
                found is None ==> forall|q: int| 0 <= q < ranges@.len() ==> !legacy_record_has_id(bv, q, contact_id@),
                found matches Some(se) ==> se.0 < se.1 <= lines(bv).len(),
                found is Some ==> legacy_record_has_id(bv, k as int, contact_id@),
                found matches Some(se) ==> k < ranges@.len() && se.0 as int == record_ranges(lines(bv))[k as int].0
                    && se.1 as int == record_ranges(lines(bv))[k as int].1,
            decreases ranges@.len() - k,
        {
            let (start, end) = ranges[k];
            if start < end && end <= ls.len() {
                let raw_lines = crate::markdown_parser::raw_lines(&ls, start, end);
                let nl = chars_of("\n");
                let raw = crate::text::join_exec(&raw_lines, nl.as_slice());
                let rs = string_of(raw.as_slice());
                let id = contact_id_for_record(start, rs.as_str());
                let ic = chars_of(id.as_str());
                assert(rs@ == crate::text::join(lines(bv).subrange(start as int, end as int), "\n"@));
                if crate::text::seq_eq(ic.as_slice(), cid.as_slice()) {
                    assert(legacy_record_has_id(bv, k as int, contact_id@));
                    found = Some((start, end));
                    break;
                }
                assert(!legacy_record_has_id(bv, k as int, contact_id@));
            } else {
                let ghost _x = ranges@[k as int];
                assert(!legacy_record_has_id(bv, k as int, contact_id@));
            }
            k = k + 1;
        }
        proof {
            if found is Some {
                assert(legacy_record_has_id(bv, k as int, contact_id@));
            }
        }
        let (start, end) = match found {
            Some(r) => r,
            None => {
                proof {
                    if exists|q: int| legacy_record_has_id(bv, q, contact_id@) {
                        let q = choose|q: int| legacy_record_has_id(bv, q, contact_id@);
                        assert(0 <= q < ranges@.len());
                    }
                }
                return Err(crate::text::owned("Contact was not found or was changed outside BentoLife."));
            },
        };
        let cleaned = match clean_contact_input(input) {
            Ok(c) => c,
            Err(e) => {
                return Err(e);
            },
        };
        let replacement = render_contact_record(&cleaned);
        let new_body = match replace_line_range(body.as_str(), start, end, replacement.as_str()) {
            Ok(b) => b,
            Err(e) => {
                return Err(e);
            },
        };
        let written = normalize_contacts_body(new_body.as_str());
        let path = metadata.current_path.clone();
        let ghost md = metadata;
        let (m, managed) = persist_contact(metadata, path.as_str(), written.as_str());
        proof {
            assert(legacy_record_has_id(bv, k as int, contact_id@));
            assert(cleaned_contact(cleaned, input));
            assert(body@ == legacy_contacts_body(current_markdown@));
            assert(managed@ == crate::markdown_document::managed_markdown(
                normalized_contacts_body(
                    replaced_lines(
                        legacy_contacts_body(current_markdown@),
                        record_ranges(lines(legacy_contacts_body(current_markdown@)))[k as int].0,
                        record_ranges(lines(legacy_contacts_body(current_markdown@)))[k as int].1,
                        rendered_contact(cleaned, "## "@, "### Notes"@),
                    ),
                ),
                md.document_id@,
                md.frontmatter_contract.required_value@,
            ));
        }
        Ok((m, managed))
    }
}


/// A map with a key set where a value is present.
pub open spec fn insert_opt(m: Map<Seq<char>, Seq<char>>, k: Seq<char>, v: Option<Seq<char>>) -> Map<Seq<char>, Seq<char>> {
    match v {
        Some(x) => m.insert(k, x),
        None => m,
    }
}

/// The trimmed, non-blank parts of a comma-separated value.
pub open spec fn comma_values(v: Seq<char>) -> Seq<Seq<char>> {
    crate::record_text::non_empty(crate::text::split_char(v, ',').map_values(|p: Seq<char>| trim(p)))
}

/// The relationships named by a field map: its `relationships` value, or
/// else its `related` value, split on commas.
pub open spec fn relationship_values_of(m: Map<Seq<char>, Seq<char>>) -> Seq<Seq<char>> {
    if m.dom().contains("relationships"@) {
        comma_values(m["relationships"@])
    } else if m.dom().contains("related"@) {
        comma_values(m["related"@])
    } else {
        seq![]
    }
}

/// The field map of a contact's parsed entity: the fields parsed from its
/// Markdown, with its name (also as title) and its cleaned values set.
pub open spec fn contact_field_map(raw: Seq<char>, f: ContactFields) -> Map<Seq<char>, Seq<char>> {
    let base = crate::markdown_parser::parsed_fields(raw).insert("name"@, f.name@).insert("title"@, f.name@);
    let m = insert_opt(
        insert_opt(
            insert_opt(
                insert_opt(
                    insert_opt(base, "relationship"@, opt_string_view(f.relationship)),
                    "organization"@,
                    opt_string_view(f.organization),
                ),
                "email"@,
                opt_string_view(f.email),
            ),
            "phone"@,
            opt_string_view(f.phone),
        ),
        "notes"@,
        opt_string_view(f.notes),
    );
    if f.relationships@.len() > 0 {
        m.insert("relationships"@, crate::text::join(string_views(f.relationships@), ", "@))
    } else {
        m
    }
}

pub(crate) fn upsert_opt(v: Vec<(String, String)>, k: &str, x: &Option<String>) -> (r: Vec<(String, String)>)
    ensures
        crate::keyed::text_map(r@) == insert_opt(crate::keyed::text_map(v@), k@, opt_string_view(*x)),
{
    match x {
        Some(val) => crate::keyed::upsert_text(v, crate::text::owned(k), val.clone()),
        None => v,
    }
}

pub(crate) fn comma_values_exec(v: &str) -> (r: Vec<String>)
    ensures
        string_views(r@) == comma_values(v@),
{
    let c = chars_of(v);
    let parts = crate::text::split_exec(c.as_slice(), ',');
    let ghost cs = views(parts@).map_values(|p: Seq<char>| trim(p));
    let mut r: Vec<String> = Vec::new();
    let n = parts.len();
    let mut i: usize = 0;
    assert(cs.take(0) =~= Seq::<Seq<char>>::empty());
    while i < n
        invariant
            n == parts@.len(),
            cs == views(parts@).map_values(|p: Seq<char>| trim(p)),
            i <= n,
            string_views(r@) == crate::record_text::non_empty(cs.take(i as int)),
        decreases n - i,
    {
        let ghost t = cs.take(i + 1);
        assert(t.drop_last() =~= cs.take(i as int));
        assert(t.last() == trim(parts@[i as int]@));
        let x = trim_exec(parts[i].as_slice());
        if x.len() > 0 {
            let ghost before = string_views(r@);
            r.push(string_of(x.as_slice()));
            assert(string_views(r@) =~= before.push(t.last()));
        }
        i = i + 1;
    }
    assert(cs.take(n as int) =~= cs);
    r
}

/// The parsed entity of a contact: its Markdown parsed, as a `contact` of
/// the contacts module, with its path and hash, the contact's fields set,
/// its tags where the Markdown gave none, its relationships (or those its
/// fields name), and the descriptors and warnings of the contacts schema
/// (`schema` is the outcome of loading it).
pub fn contact_entity(
    raw_markdown: &str,
    source_path: &str,
    fields: &ContactFields,
    schema: Result<crate::module_schema::ModuleSchema, String>,
) -> (r: (crate::markdown_parser::ParsedEntityContract, Vec<String>))
    ensures
        opt_string_view(r.0.module_id) == Some("contacts"@),
        opt_string_view(r.0.entity_type) == Some("contact"@),
        r.0.path@ == source_path@,
        r.0.content_hash@ == crate::storage::text_hash(raw_markdown@),
        crate::keyed::text_map(r.0.fields@) == contact_field_map(raw_markdown@, *fields),
        crate::module_schema::descriptors_applied(r.0, schema),
        string_views(r.1@) == crate::module_schema::schema_warnings_for(r.0, schema, "contacts"@, "contact"@),
        string_views(r.0.tags@) == if crate::markdown_parser::parse_spec(raw_markdown@).tags.len() == 0 {
            string_views(fields.tags@)
        } else {
            crate::markdown_parser::parse_spec(raw_markdown@).tags
        },
        string_views(r.0.relationships@) == if fields.relationships@.len() > 0 {
            string_views(fields.relationships@)
        } else if crate::markdown_parser::parse_spec(raw_markdown@).relationships.len() > 0 {
            crate::markdown_parser::parse_spec(raw_markdown@).relationships
        } else {
            relationship_values_of(contact_field_map(raw_markdown@, *fields))
        },
{
    let mut entity = crate::markdown_parser::MarkdownParser::parse(raw_markdown);
    entity.module_id = Some(crate::text::owned("contacts"));
    entity.entity_type = Some(crate::text::owned("contact"));
    entity.path = crate::text::owned(source_path);
    entity.content_hash = crate::storage::content_hash(raw_markdown);
    let mut fs = entity.fields;
    fs = crate::keyed::upsert_text(fs, crate::text::owned("name"), fields.name.clone());
    fs = crate::keyed::upsert_text(fs, crate::text::owned("title"), fields.name.clone());
    fs = upsert_opt(fs, "relationship", &fields.relationship);
    fs = upsert_opt(fs, "organization", &fields.organization);
    fs = upsert_opt(fs, "email", &fields.email);
    fs = upsert_opt(fs, "phone", &fields.phone);
    fs = upsert_opt(fs, "notes", &fields.notes);
    if entity.tags.len() == 0 {
        entity.tags = fields.tags.clone();
        assert(string_views(entity.tags@) =~= string_views(fields.tags@));
    }
    if fields.relationships.len() > 0 {
        let j = join_strings(&fields.relationships, ", ");
        fs = crate::keyed::upsert_text(fs, crate::text::owned("relationships"), string_of(j.as_slice()));
        entity.relationships = fields.relationships.clone();
        assert(string_views(entity.relationships@) =~= string_views(fields.relationships@));
    }
    assert(crate::keyed::text_map(fs@) =~= contact_field_map(raw_markdown@, *fields));
    if entity.relationships.len() == 0 {
        let rel = match crate::keyed::lookup(&fs, "relationships") {
            Some(v) => Some(v),
            None => crate::keyed::lookup(&fs, "related"),
        };
        proof {
            reveal_strlit("relationships");
            reveal_strlit("related");
        }
        entity.relationships = match rel {
            Some(v) => comma_values_exec(v.as_str()),
            None => Vec::new(),
        };
        assert(string_views(entity.relationships@) =~= relationship_values_of(crate::keyed::text_map(fs@)));
    }
    entity.fields = fs;
    let ghost sch = schema;
    let ghost pre = entity;
    proof {
        reveal_strlit("contacts");
        reveal_strlit("contact");
    }
    let warnings = match crate::module_schema::apply_schema_descriptors(schema, &mut entity) {
        Ok(w) => w,
        Err(e) => {
            let mut v: Vec<String> = Vec::new();
            let mut m = chars_of("Contact schema could not be applied: ");
            crate::text::append_str(&mut m, e.as_str());
            v.push(string_of(m.as_slice()));
            v
        },
    };
    proof {
        if let Ok(sv) = sch {
            assert(forall|f: crate::module_schema::ModuleSchemaField|
                crate::module_schema::schema_descriptor(f, pre) == crate::module_schema::schema_descriptor(f, entity));
            assert(sv.fields@.map_values(|f: crate::module_schema::ModuleSchemaField| crate::module_schema::schema_descriptor(f, pre))
                =~= sv.fields@.map_values(|f: crate::module_schema::ModuleSchemaField| crate::module_schema::schema_descriptor(f, entity)));
        }
    }
    (entity, warnings)
}

/// The contact fields of an entry, as a scan gives them (the warnings are
/// not held by the entry).
pub open spec fn entry_scan_view(c: ContactEntry) -> ContactScan {
    ContactScan {
        relationship: opt_string_view(c.relationship),
        organization: opt_string_view(c.organization),
        email: opt_string_view(c.email),
        phone: opt_string_view(c.phone),
        tags: string_views(c.tags@),
        relationships: string_views(c.relationships@),
        notes: opt_string_view(c.notes),
        warnings: seq![],
    }
}

/// The fields map of an entry's parsed entity: the fields of its Markdown,
/// with the entry's own fields set over them.
pub open spec fn entry_field_map(c: ContactEntry) -> Map<Seq<char>, Seq<char>> {
    let base = crate::markdown_parser::parsed_fields(c.raw_markdown@).insert("name"@, c.name@).insert("title"@, c.name@);
    let m = insert_opt(
        insert_opt(
            insert_opt(
                insert_opt(
                    insert_opt(base, "relationship"@, opt_string_view(c.relationship)),
                    "organization"@,
                    opt_string_view(c.organization),
                ),
                "email"@,
                opt_string_view(c.email),
            ),
            "phone"@,
            opt_string_view(c.phone),
        ),
        "notes"@,
        opt_string_view(c.notes),
    );
    if c.relationships@.len() > 0 {
        m.insert("relationships"@, crate::text::join(string_views(c.relationships@), ", "@))
    } else {
        m
    }
}

/// What an entry's parsed entity holds: its Markdown parsed as a `contact`
/// of the contacts module at the source path, with the entry's fields, its
/// tags and relationships, and the schema's descriptors; and what its
/// schema warnings are, given the warnings about the source after reading.
pub open spec fn contact_entry_entity(
    c: ContactEntry,
    source: Seq<char>,
    schema: Result<crate::module_schema::ModuleSchema, String>,
    warnings_after: Seq<Seq<char>>,
) -> bool {
    let e = c.parsed_entity;
    let p = crate::markdown_parser::parse_spec(c.raw_markdown@);
    &&& opt_string_view(e.module_id) == Some("contacts"@)
    &&& opt_string_view(e.entity_type) == Some("contact"@)
    &&& e.path@ == source
    &&& e.content_hash@ == crate::storage::text_hash(c.raw_markdown@)
    &&& crate::keyed::text_map(e.fields@) == entry_field_map(c)
    &&& string_views(e.tags@) == if p.tags.len() == 0 {
        string_views(c.tags@)
    } else {
        p.tags
    }
    &&& string_views(e.relationships@) == if c.relationships@.len() > 0 {
        string_views(c.relationships@)
    } else if p.relationships.len() > 0 {
        p.relationships
    } else {
        relationship_values_of(entry_field_map(c))
    }
    &&& crate::module_schema::descriptors_applied(e, schema)
    &&& string_views(c.schema_warnings@) == crate::module_schema::schema_warnings_for(e, schema, "contacts"@, "contact"@)
        + warnings_for(warnings_after, source)
}

/// An entry read from lines: its name, its fields as the scan of its body
/// gives them (the notes completed from its notes section), and its parsed
/// entity.
pub open spec fn contact_entry_read(
    c: ContactEntry,
    name: Seq<char>,
    body: Seq<Seq<char>>,
    source: Seq<char>,
    notes_heading: Seq<char>,
    schema: Result<crate::module_schema::ModuleSchema, String>,
    warnings_after: Seq<Seq<char>>,
) -> bool {
    let st = contact_scan(body, source);
    &&& c.name@ == name
    &&& entry_scan_view(c) == ContactScan { notes: contact_notes(st, body, notes_heading), warnings: seq![], ..st }
    &&& contact_entry_entity(c, source, schema, warnings_after)
}

/// The warnings that reading an entry adds: those its scan found.
pub open spec fn contact_read_warnings(body: Seq<Seq<char>>, source: Seq<char>) -> Seq<Seq<char>> {
    contact_scan(body, source).warnings
}


fn entry_of(
    f: ContactFields,
    contact_id: String,
    line_index: usize,
    raw_markdown: String,
    source_path: &str,
    schema: Result<crate::module_schema::ModuleSchema, String>,
    warnings: &mut Vec<String>,
) -> (r: ContactEntry)
    ensures
        string_views(final(warnings)@) == string_views(old(warnings)@) + string_views(f.warnings@),
        r.contact_id == contact_id,
        r.name == f.name,
        r.relationship == f.relationship,
        r.organization == f.organization,
        r.email == f.email,
        r.phone == f.phone,
        r.tags == f.tags,
        r.relationships == f.relationships,
        r.notes == f.notes,
        r.line_index == line_index,
        r.raw_markdown == raw_markdown,
        crate::keyed::text_map(r.parsed_entity.fields@) == contact_field_map(raw_markdown@, f),
        opt_string_view(r.parsed_entity.module_id) == Some("contacts"@),
        r.parsed_entity.path@ == source_path@,
        entry_scan_view(r) == (ContactScan { warnings: seq![], ..contact_fields_view(f) }),
        contact_entry_entity(r, source_path@, schema, string_views(final(warnings)@)),
{
    let (entity, schema_warnings) = contact_entity(raw_markdown.as_str(), source_path, &f, schema);
    let ghost before = string_views(warnings@);
    let mut i: usize = 0;
    while i < f.warnings.len()
        invariant
            i <= f.warnings@.len(),
            string_views(warnings@) == before + string_views(f.warnings@).take(i as int),
        decreases f.warnings@.len() - i,
    {
        let ghost b = string_views(warnings@);
        warnings.push(f.warnings[i].clone());
        assert(string_views(warnings@) =~= b.push(f.warnings@[i as int]@));
        assert(string_views(f.warnings@).take(i + 1) =~= string_views(f.warnings@).take(i as int).push(f.warnings@[i as int]@));
        i = i + 1;
    }
    assert(string_views(f.warnings@).take(i as int) =~= string_views(f.warnings@));
    let mut sw = schema_warnings;
    let ghost sw0 = string_views(sw@);
    let mut mine = entry_warnings(warnings, source_path);
    let ghost mine0 = string_views(mine@);
    sw.append(&mut mine);
    assert(string_views(sw@) =~= sw0 + mine0);
    let ghost fg = f;
    let r = ContactEntry {
        contact_id,
        name: f.name,
        relationship: f.relationship,
        organization: f.organization,
        email: f.email,
        phone: f.phone,
        tags: f.tags,
        relationships: f.relationships,
        notes: f.notes,
        line_index,
        raw_markdown,
        parsed_entity: entity,
        schema_warnings: sw,
    };
    assert(entry_field_map(r) == contact_field_map(r.raw_markdown@, fg));
    r
}

impl ContactsService {
    /// The contact of an entity file's body: none without a `# ` name;
    /// its id is the document id and the hash of its body, its raw
    /// Markdown the trimmed body; the warnings about unknown fields are
    /// added to `warnings`.
    pub fn parse_contact_entity(
        markdown_body: &str,
        document_id: &str,
        source_path: &str,
        schema: Result<crate::module_schema::ModuleSchema, String>,
        warnings: &mut Vec<String>,
    ) -> (r: Option<ContactEntry>)
        ensures
            ({
                let ls = lines(markdown_body@);
                match crate::habits::first_title_line(ls, 0) {
                    None => r is None && final(warnings)@ == old(warnings)@,
                    Some(i) => r matches Some(c) && c.name@ == trim(trim(ls[i]).skip(2)) && c.raw_markdown@ == trim(
                        markdown_body@,
                    ) + "\n"@ && c.line_index == 0 && c.contact_id@ == document_id@ + "::"@
                        + crate::storage::text_hash(markdown_body@) && contact_entry_read(
                        c,
                        trim(trim(ls[i]).skip(2)),
                        ls.subrange(1, ls.len() as int),
                        source_path@,
                        "## Notes"@,
                        schema,
                        string_views(final(warnings)@),
                    ) && string_views(final(warnings)@) == string_views(old(warnings)@) + contact_read_warnings(
                        ls.subrange(1, ls.len() as int),
                        source_path@,
                    ),
                }
            }),
    {
        let f = match contact_entity_fields(markdown_body, source_path) {
            Some(f) => f,
            None => {
                return None;
            },
        };
        let t = crate::text::trim_str(markdown_body);
        let mut raw = t;
        crate::text::append_str(&mut raw, "\n");
        let id = record_id(document_id, markdown_body);
        Some(entry_of(f, id, 0, string_of(raw.as_slice()), source_path, schema, warnings))
    }

    /// The contact of the record spanning lines `start` to `end` of the
    /// legacy contacts document: none without a `## ` name; its id is its
    /// line and the hash of its lines; the warnings about unknown fields are
    /// added to `warnings`.
    pub fn parse_contact_record(
        markdown_body: &str,
        start: usize,
        end: usize,
        source_path: &str,
        schema: Result<crate::module_schema::ModuleSchema, String>,
        warnings: &mut Vec<String>,
    ) -> (r: Option<ContactEntry>)
        requires
            start < end <= lines(markdown_body@).len(),
        ensures
            ({
                let ls = lines(markdown_body@);
                let t = trim(ls[start as int]);
                if has_prefix(t, "## "@) && trim(t.skip(3)).len() > 0 {
                    r matches Some(c) && c.name@ == trim(t.skip(3)) && c.raw_markdown@ == crate::text::join(
                        ls.subrange(start as int, end as int),
                        "\n"@,
                    ) + "\n"@ && c.line_index == start && is_contact_record_id(c.contact_id@, start as nat)
                        && c.contact_id@ == "contact_"@ + crate::storage::decimal(start as nat) + "_"@
                        + crate::storage::text_hash(
                        crate::text::trim_end_by(
                            crate::text::join(ls.subrange(start as int, end as int), "\n"@),
                            crate::text::Strip::Whitespace,
                        ),
                    ) && contact_entry_read(
                        c,
                        trim(t.skip(3)),
                        ls.subrange(start + 1, end as int),
                        source_path@,
                        "### Notes"@,
                        schema,
                        string_views(final(warnings)@),
                    ) && string_views(final(warnings)@) == string_views(old(warnings)@) + contact_read_warnings(
                        ls.subrange(start + 1, end as int),
                        source_path@,
                    )
                } else {
                    r is None && final(warnings)@ == old(warnings)@
                }
            }),
    {
        let c = chars_of(markdown_body);
        let ls = crate::text::lines_exec(c.as_slice());
        let f = match contact_record_fields(&ls, start, end, source_path) {
            Some(f) => f,
            None => {
                return None;
            },
        };
        let raw_lines = crate::markdown_parser::raw_lines(&ls, start, end);
        let nl = chars_of("\n");
        let joined = crate::text::join_exec(&raw_lines, nl.as_slice());
        let trimmed = crate::text::trim_end_exec(joined.as_slice(), crate::text::Strip::Whitespace);
        let ts = string_of(trimmed.as_slice());
        let id = contact_id_for_record(start, ts.as_str());
        let mut raw = joined;
        crate::text::append_str(&mut raw, "\n");
        Some(entry_of(f, id, start, string_of(raw.as_slice()), source_path, schema, warnings))
    }
}

} // verus!

verus! {

/// Law: the contacts counted as having an email are exactly those whose
/// email is set, whatever their phone; the contacts counted as having a
/// phone are exactly those whose phone is set, whatever their email.
pub proof fn law_reachable_counts(cs: Seq<ContactEntry>)
    ensures
        reachable_count(cs, true) == cs.filter(|c: ContactEntry| c.email is Some).len(),
        reachable_count(cs, false) == cs.filter(|c: ContactEntry| c.phone is Some).len(),
    decreases cs.len(),
{
    reveal(Seq::filter);
    if cs.len() > 0 {
        law_reachable_counts(cs.drop_last());
    }
}

} // verus!

verus! {

/// Law: each known field line of a contact sets that field from its value
/// (single values cleaned, tags and relationships as cleaned comma-separated
/// items, notes as cleaned Markdown) and leaves the others; an
/// `Attachments` line changes nothing; any other field line adds one
/// warning naming the field; a line that is no field line changes nothing.
pub proof fn law_contact_field_lines(st: ContactScan, line: Seq<char>, source: Seq<char>, k: Seq<char>, v: Seq<char>)
    ensures
        field_line(line) is None ==> contact_step(st, line, source) == st,
        field_line(line) == Some((k, v)) ==> {
            &&& k == "relationship"@ ==> contact_step(st, line, source) == (ContactScan {
                relationship: clean_optional_string(v),
                ..st
            })
            &&& k == "organization"@ ==> contact_step(st, line, source) == (ContactScan {
                organization: clean_optional_string(v),
                ..st
            })
            &&& k == "email"@ ==> contact_step(st, line, source) == (ContactScan { email: clean_optional_string(v), ..st })
            &&& k == "phone"@ ==> contact_step(st, line, source) == (ContactScan { phone: clean_optional_string(v), ..st })
            &&& k == "tags"@ ==> contact_step(st, line, source) == (ContactScan { tags: clean_list(v), ..st })
            &&& (k == "relationships"@ || k == "related"@) ==> contact_step(st, line, source) == (ContactScan {
                relationships: clean_list(v),
                ..st
            })
            &&& k == "notes"@ ==> contact_step(st, line, source) == (ContactScan {
                notes: clean_optional_markdown(v),
                ..st
            })
            &&& k == "attachments"@ ==> contact_step(st, line, source) == st
            &&& (k != "relationship"@ && k != "organization"@ && k != "email"@ && k != "phone"@ && k != "tags"@ && k
                != "relationships"@ && k != "related"@ && k != "notes"@ && k != "attachments"@) ==> contact_step(
                st,
                line,
                source,
            ) == (ContactScan {
                warnings: st.warnings.push(source + ": unknown contact field '"@ + k + "' remains visible in Markdown."@),
                ..st
            })
        },
{
    reveal_strlit("relationship");
    reveal_strlit("organization");
    reveal_strlit("email");
    reveal_strlit("phone");
    reveal_strlit("tags");
    reveal_strlit("relationships");
    reveal_strlit("related");
    reveal_strlit("notes");
    reveal_strlit("attachments");
    assert(("email"@)[0] != ("phone"@)[0]);
    assert(("relationship"@).len() != ("relationships"@).len());
    assert(("tags"@).len() != ("email"@).len());
    assert(("notes"@)[0] != ("phone"@)[0]);
    assert(("notes"@)[0] != ("email"@)[0]);
    assert(("notes"@)[0] != ("related"@)[0]);
    assert(("phone"@).len() != ("related"@).len());
    assert(("email"@).len() != ("related"@).len());
    assert(("organization"@)[0] != ("relationship"@)[0]);
    assert(("organization"@).len() != ("attachments"@).len());
}

} // verus!
