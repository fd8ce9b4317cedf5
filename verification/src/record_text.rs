//! Text of Markdown records: words, field lines, sections and cleaned values.
use vstd::prelude::*;
use crate::text::{
    append, ascii_lowercase, ascii_lowercase_exec, chars_of, has_prefix, is_ws, is_ws_exec, join,
    join_exec, leading, lines, lines_exec, lowercase_chars, slice_vec, split_char, split_exec,
    split_once_char, split_once_exec, starts_with_str, string_of, string_views, trim, trim_end,
    trim_end_exec, trim_exec, trim_start, trim_start_exec, unicode_lowercase, views, Strip,
};

verus! {

/// The finished words of a text and the word being read at its end.
pub open spec fn words_scan(s: Seq<char>) -> (Seq<Seq<char>>, Seq<char>)
    decreases s.len(),
{
    if s.len() == 0 {
        (seq![], seq![])
    } else {
        let (ws, cur) = words_scan(s.drop_last());
        if is_ws(s.last()) {
            if cur.len() > 0 {
                (ws.push(cur), seq![])
            } else {
                (ws, seq![])
            }
        } else {
            (ws, cur.push(s.last()))
        }
    }
}

/// The words of a text: its maximal runs of non-blank characters
/// (`str::split_whitespace`).
pub open spec fn words(s: Seq<char>) -> Seq<Seq<char>> {
    let (ws, cur) = words_scan(s);
    if cur.len() > 0 {
        ws.push(cur)
    } else {
        ws
    }
}

/// The words of a text joined by single spaces.
pub open spec fn collapse(s: Seq<char>) -> Seq<char> {
    join(words(s), " "@)
}

/// The words of a text.
pub fn words_exec(s: &[char]) -> (r: Vec<Vec<char>>)
    ensures
        views(r@) == words(s@),
{
    let n = s.len();
    let mut ws: Vec<Vec<char>> = Vec::new();
    let mut cur: Vec<char> = Vec::new();
    let mut i: usize = 0;
    assert(s@.take(0) =~= Seq::<char>::empty());
    while i < n
        invariant
            n == s@.len(),
            i <= n,
            (views(ws@), cur@) == words_scan(s@.take(i as int)),
        decreases n - i,
    {
        let ghost t = s@.take(i + 1);
        assert(t.drop_last() =~= s@.take(i as int));
        assert(t.last() == s@[i as int]);
        let c = s[i];
        if is_ws_exec(c) {
            if cur.len() > 0 {
                let ghost before = views(ws@);
                let w = cur;
                ws.push(w);
                assert(views(ws@) =~= before.push(w@));
                cur = Vec::new();
            } else {
                cur = Vec::new();
            }
            assert(cur@ =~= Seq::<char>::empty());
        } else {
            cur.push(c);
        }
        i = i + 1;
    }
    assert(s@.take(n as int) =~= s@);
    if cur.len() > 0 {
        let ghost before = views(ws@);
        let w = cur;
        ws.push(w);
        assert(views(ws@) =~= before.push(w@));
    }
    ws
}

/// The words of a text joined by single spaces.
pub fn collapse_chars(s: &[char]) -> (r: Vec<char>)
    ensures
        r@ == collapse(s@),
{
    let ws = words_exec(s);
    let sep = chars_of(" ");
    join_exec(&ws, sep.as_slice())
}

/// The words of a text joined by single spaces.
pub fn collapse_inline_text(s: &str) -> (r: String)
    ensures
        r@ == collapse(s@),
{
    let v = chars_of(s);
    let j = collapse_chars(v.as_slice());
    string_of(j.as_slice())
}

/// A cleaned single-line value: its words joined by spaces, if any.
pub open spec fn clean_optional_string(s: Seq<char>) -> Option<Seq<char>> {
    if collapse(s).len() == 0 {
        None
    } else {
        Some(collapse(s))
    }
}

/// A cleaned single-line value.
pub fn clean_optional_string_exec(s: &str) -> (r: Option<String>)
    ensures
        match clean_optional_string(s@) {
            Some(c) => r matches Some(x) && x@ == c,
            None => r is None,
        },
{
    let v = chars_of(s);
    let c = collapse_chars(v.as_slice());
    if c.len() == 0 {
        None
    } else {
        Some(string_of(c.as_slice()))
    }
}

/// A cleaned Markdown value: its lines without trailing blanks, trimmed as a
/// whole, if anything is left.
pub open spec fn clean_optional_markdown(s: Seq<char>) -> Option<Seq<char>> {
    let c = trim(join(lines(s).map_values(|l: Seq<char>| trim_end(l)), "\n"@));
    if c.len() == 0 {
        None
    } else {
        Some(c)
    }
}

/// A cleaned Markdown value.
pub fn clean_optional_markdown_exec(s: &[char]) -> (r: Option<String>)
    ensures
        match clean_optional_markdown(s@) {
            Some(c) => r matches Some(x) && x@ == c,
            None => r is None,
        },
{
    let ls = lines_exec(s);
    let mut trimmed: Vec<Vec<char>> = Vec::new();
    let n = ls.len();
    let mut i: usize = 0;
    while i < n
        invariant
            n == ls@.len(),
            i <= n,
            views(trimmed@) == views(ls@).take(i as int).map_values(|l: Seq<char>| trim_end(l)),
        decreases n - i,
    {
        let t = trim_end_exec(ls[i].as_slice(), Strip::Whitespace);
        let ghost before = views(trimmed@);
        trimmed.push(t);
        assert(views(trimmed@) =~= before.push(t@));
        assert(views(ls@).take(i + 1).map_values(|l: Seq<char>| trim_end(l)) =~= views(ls@).take(
            i as int,
        ).map_values(|l: Seq<char>| trim_end(l)).push(trim_end(ls@[i as int]@)));
        i = i + 1;
    }
    assert(views(ls@).take(n as int) =~= views(ls@));
    let nl = chars_of("\n");
    let j = join_exec(&trimmed, nl.as_slice());
    let c = trim_exec(j.as_slice());
    if c.len() == 0 {
        None
    } else {
        Some(string_of(c.as_slice()))
    }
}

/// The non-empty texts, in order.
pub open spec fn non_empty(s: Seq<Seq<char>>) -> Seq<Seq<char>>
    decreases s.len(),
{
    if s.len() == 0 {
        seq![]
    } else if s.last().len() == 0 {
        non_empty(s.drop_last())
    } else {
        non_empty(s.drop_last()).push(s.last())
    }
}

/// The cleaned values of a comma-separated list, empty ones dropped.
pub open spec fn clean_list(s: Seq<char>) -> Seq<Seq<char>> {
    non_empty(split_char(s, ',').map_values(|p: Seq<char>| collapse(p)))
}

/// The cleaned values of a comma-separated list.
pub fn clean_list_exec(s: &str) -> (r: Vec<String>)
    ensures
        string_views(r@) == clean_list(s@),
{
    let v = chars_of(s);
    let parts = split_exec(v.as_slice(), ',');
    let ghost cs = views(parts@).map_values(|p: Seq<char>| collapse(p));
    let mut r: Vec<String> = Vec::new();
    let n = parts.len();
    let mut i: usize = 0;
    assert(cs.take(0) =~= Seq::<Seq<char>>::empty());
    while i < n
        invariant
            n == parts@.len(),
            cs == views(parts@).map_values(|p: Seq<char>| collapse(p)),
            i <= n,
            string_views(r@) == non_empty(cs.take(i as int)),
        decreases n - i,
    {
        let ghost t = cs.take(i + 1);
        assert(t.drop_last() =~= cs.take(i as int));
        assert(t.last() == collapse(parts@[i as int]@));
        let c = collapse_chars(parts[i].as_slice());
        if c.len() > 0 {
            let ghost before = string_views(r@);
            r.push(string_of(c.as_slice()));
            assert(string_views(r@) =~= before.push(t.last()));
        }
        i = i + 1;
    }
    assert(cs.take(n as int) =~= cs);
    r
}

/// A `- key: value` (or `* key: value`) line: its lowercased key and its
/// value, both trimmed.
pub open spec fn field_line(line: Seq<char>) -> Option<(Seq<char>, Seq<char>)> {
    let t = trim(line);
    if has_prefix(t, "- "@) || has_prefix(t, "* "@) {
        match split_once_char(t.skip(2), ':') {
            None => None,
            Some((k, v)) => Some((unicode_lowercase(trim(k)), trim(v))),
        }
    } else {
        None
    }
}

/// Reads a `- key: value` line.
pub fn parse_field_line(line: &[char]) -> (r: Option<(String, String)>)
    ensures
        match field_line(line@) {
            Some((k, v)) => r matches Some(p) && p.0@ == k && p.1@ == v,
            None => r is None,
        },
{
    let t = trim_exec(line);
    if !(starts_with_str(t.as_slice(), "- ") || starts_with_str(t.as_slice(), "* ")) {
        return None;
    }
    proof {
        reveal_strlit("- ");
        reveal_strlit("* ");
    }
    let rest = slice_vec(t.as_slice(), 2, t.len());
    assert(rest@ =~= t@.skip(2));
    match split_once_exec(rest.as_slice(), ':') {
        None => None,
        Some((k, v)) => {
            let kt = trim_exec(k.as_slice());
            let kl = lowercase_chars(kt.as_slice());
            let vt = trim_exec(v.as_slice());
            Some((string_of(kl.as_slice()), string_of(vt.as_slice())))
        },
    }
}

/// Whether a line, trimmed at its start, is a heading of at most `level`.
pub open spec fn heading_at_most(line: Seq<char>, level: nat) -> bool {
    let t = trim_start(line);
    let lv = leading(t, Strip::Char('#'));
    0 < lv <= level && lv < t.len() && t[lv as int] == ' '
}

/// The position of the first line that is the heading, case aside.
pub open spec fn heading_position(ls: Seq<Seq<char>>, heading: Seq<char>, k: int) -> Option<int>
    decreases ls.len() - k,
{
    if k < 0 || k >= ls.len() {
        None
    } else if ascii_lowercase(trim(ls[k])) == ascii_lowercase(heading) {
        Some(k)
    } else {
        heading_position(ls, heading, k + 1)
    }
}

/// How far the lines from `k` on run before a heading of at most `level`.
pub open spec fn section_end(ls: Seq<Seq<char>>, level: nat, k: int) -> int
    decreases ls.len() - k,
{
    if k < 0 || k >= ls.len() || heading_at_most(ls[k], level) {
        k
    } else {
        section_end(ls, level, k + 1)
    }
}

/// The body of the section under a heading: the lines after the first line
/// that is the heading (case aside), up to the next heading of the same or a
/// higher level.
pub open spec fn section_body(ls: Seq<Seq<char>>, heading: Seq<char>) -> Option<Seq<char>> {
    match heading_position(ls, heading, 0) {
        None => None,
        Some(start) => {
            let level = leading(heading, Strip::Char('#'));
            Some(join(ls.subrange(start + 1, section_end(ls, level, start + 1)), "\n"@))
        },
    }
}

proof fn lemma_section_end(ls: Seq<Seq<char>>, level: nat, k: int)
    requires
        0 <= k <= ls.len(),
    ensures
        k <= section_end(ls, level, k) <= ls.len(),
    decreases ls.len() - k,
{
    if k < ls.len() && !heading_at_most(ls[k], level) {
        lemma_section_end(ls, level, k + 1);
    }
}

fn leading_hashes(t: &[char]) -> (n: usize)
    ensures
        n == leading(t@, Strip::Char('#')),
{
    let len = t.len();
    let mut n: usize = 0;
    while n < len && t[n] == '#'
        invariant
            len == t@.len(),
            n <= len,
            forall|j: int| 0 <= j < n ==> #[trigger] t@[j] == '#',
        decreases len - n,
    {
        n = n + 1;
    }
    proof {
        crate::text::lemma_leading(t@, Strip::Char('#'), n as int);
    }
    n
}

fn heading_at_most_exec(line: &[char], level: usize) -> (r: bool)
    ensures
        r == heading_at_most(line@, level as nat),
{
    let t = trim_start_exec(line, Strip::Whitespace);
    let lv = leading_hashes(t.as_slice());
    0 < lv && lv <= level && lv < t.len() && t[lv] == ' '
}

fn find_heading(ls: &Vec<Vec<char>>, heading: &[char]) -> (r: Option<usize>)
    ensures
        match heading_position(views(ls@), heading@, 0) {
            Some(i) => r matches Some(x) && x == i,
            None => r is None,
        },
{
    let ghost lv = views(ls@);
    let hl = ascii_lowercase_exec(heading);
    let n = ls.len();
    let mut i: usize = 0;
    while i < n
        invariant
            n == ls@.len(),
            lv == views(ls@),
            hl@ == ascii_lowercase(heading@),
            i <= n,
            heading_position(lv, heading@, 0) == heading_position(lv, heading@, i as int),
        decreases n - i,
    {
        let t = trim_exec(ls[i].as_slice());
        let tl = ascii_lowercase_exec(t.as_slice());
        assert(lv[i as int] == ls@[i as int]@);
        if crate::text::seq_eq(tl.as_slice(), hl.as_slice()) {
            return Some(i);
        }
        i = i + 1;
    }
    None
}

fn find_section_end(ls: &Vec<Vec<char>>, level: usize, k: usize) -> (r: usize)
    requires
        k <= ls@.len(),
    ensures
        r == section_end(views(ls@), level as nat, k as int),
{
    let ghost lv = views(ls@);
    let n = ls.len();
    let mut e = k;
    while e < n
        invariant
            n == ls@.len(),
            lv == views(ls@),
            k <= e <= n,
            section_end(lv, level as nat, k as int) == section_end(lv, level as nat, e as int),
        decreases n - e,
    {
        assert(lv[e as int] == ls@[e as int]@);
        if heading_at_most_exec(ls[e].as_slice(), level) {
            return e;
        }
        e = e + 1;
    }
    e
}

/// The body of the section under a heading.
pub fn section_body_exec(ls: &Vec<Vec<char>>, heading: &str) -> (r: Option<String>)
    ensures
        match section_body(views(ls@), heading@) {
            Some(b) => r matches Some(x) && x@ == b,
            None => r is None,
        },
{
    let ghost lv = views(ls@);
    let h = chars_of(heading);
    let i = match find_heading(ls, h.as_slice()) {
        None => {
            return None;
        },
        Some(i) => i,
    };
    proof {
        lemma_heading_position(lv, heading@, 0);
    }
    let n = ls.len();
    assert(i < n);
    let level = leading_hashes(h.as_slice());
    proof {
        lemma_section_end(lv, level as nat, i + 1);
    }
    let e = find_section_end(ls, level, i + 1);
    let mut body: Vec<Vec<char>> = Vec::new();
    let mut k = i + 1;
    assert(lv.subrange(i + 1, i + 1) =~= Seq::<Seq<char>>::empty());
    while k < e
        invariant
            lv == views(ls@),
            i < k <= e <= ls@.len(),
            views(body@) == lv.subrange(i + 1, k as int),
        decreases e - k,
    {
        let c = slice_vec(ls[k].as_slice(), 0, ls[k].len());
        assert(c@ =~= ls@[k as int]@);
        let ghost before = views(body@);
        body.push(c);
        assert(views(body@) =~= before.push(c@));
        assert(lv.subrange(i + 1, k + 1) =~= lv.subrange(i + 1, k as int).push(lv[k as int]));
        k = k + 1;
    }
    let nl = chars_of("\n");
    let j = join_exec(&body, nl.as_slice());
    Some(string_of(j.as_slice()))
}

proof fn lemma_heading_position(ls: Seq<Seq<char>>, heading: Seq<char>, k: int)
    requires
        0 <= k,
    ensures
        heading_position(ls, heading, k) matches Some(i) ==> k <= i < ls.len(),
    decreases ls.len() - k,
{
    if k < ls.len() && ascii_lowercase(trim(ls[k])) != ascii_lowercase(heading) {
        lemma_heading_position(ls, heading, k + 1);
    }
}

} // verus!
