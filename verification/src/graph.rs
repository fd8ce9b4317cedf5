//! Links between Markdown documents: `[[target]]` and `[[type:target]]`
//! references, how a reference is resolved against known documents, and
//! the headings, tags and excerpt a document shows in the graph.
use vstd::prelude::*;
use crate::ordered::OrderedMap;
use crate::text::{
    append, append_str, chars_of, find_from, has_prefix, has_suffix, lines, owned, slice_vec, split_once_char,
    string_of, trim, unicode_lowercase,
};
use crate::theme::opt_string_view;

verus! {

/// A reference from one document to another.
pub struct GraphLink {
    pub source_path: String,
    pub target: String,
    pub link_type: String,
    pub raw: String,
    pub status: String,
    pub resolved_document_id: Option<String>,
    pub resolved_path: Option<String>,
}

/// The view of a link: source, target, type, raw text, status, and what it
/// resolved to.
pub open spec fn link_view(l: GraphLink) -> (Seq<char>, Seq<char>, Seq<char>, Seq<char>, Seq<char>, Option<Seq<char>>, Option<Seq<char>>) {
    (
        l.source_path@,
        l.target@,
        l.link_type@,
        l.raw@,
        l.status@,
        opt_string_view(l.resolved_document_id),
        opt_string_view(l.resolved_path),
    )
}

/// The views of links.
pub open spec fn link_views(v: Seq<GraphLink>) -> Seq<(Seq<char>, Seq<char>, Seq<char>, Seq<char>, Seq<char>, Option<Seq<char>>, Option<Seq<char>>)> {
    v.map_values(|l: GraphLink| link_view(l))
}

/// The unresolved link of a trimmed, non-empty reference text: `type:target`
/// gives the lowercased type and the target, anything else is a wiki link.
pub open spec fn new_link_view(source: Seq<char>, inner: Seq<char>) -> (Seq<char>, Seq<char>, Seq<char>, Seq<char>, Seq<char>, Option<Seq<char>>, Option<Seq<char>>) {
    let (link_type, target) = match split_once_char(inner, ':') {
        Some((kind, t)) => (unicode_lowercase(trim(kind)), trim(t)),
        None => ("wiki"@, inner),
    };
    (source, target, link_type, "[["@ + inner + "]]"@, "unresolved"@, None, None)
}

/// The links of a text from position `cursor` on: at each `[[` followed
/// later by `]]`, the trimmed text between them is a link when it is not
/// blank, and the scan goes on after the `]]`.
pub open spec fn links_from(s: Seq<char>, source: Seq<char>, cursor: int) -> Seq<
    (Seq<char>, Seq<char>, Seq<char>, Seq<char>, Seq<char>, Option<Seq<char>>, Option<Seq<char>>),
>
    decreases s.len() - cursor,
{
    if cursor < 0 || cursor + 3 >= s.len() {
        seq![]
    } else if s[cursor] == '[' && s[cursor + 1] == '[' && find_from(s, "]]"@, cursor + 2) is Some {
        let e = find_from(s, "]]"@, cursor + 2)->0;
        let inner = trim(s.subrange(cursor + 2, e));
        if e + 2 <= cursor || e + 2 > s.len() {
            seq![]
        } else if inner.len() == 0 {
            links_from(s, source, e + 2)
        } else {
            seq![new_link_view(source, inner)] + links_from(s, source, e + 2)
        }
    } else {
        links_from(s, source, cursor + 1)
    }
}

fn new_link(source_path: &str, inner: &[char]) -> (r: GraphLink)
    ensures
        link_view(r) == new_link_view(source_path@, inner@),
{
    let (link_type, target) = match crate::text::split_once_exec(inner, ':') {
        Some((kind, t)) => {
            let k = crate::text::trim_exec(kind.as_slice());
            let ks = string_of(k.as_slice());
            let tt = crate::text::trim_exec(t.as_slice());
            (crate::text::to_lowercase(ks.as_str()), string_of(tt.as_slice()))
        },
        None => (owned("wiki"), string_of(inner)),
    };
    let mut raw = chars_of("[[");
    append(&mut raw, inner);
    append_str(&mut raw, "]]");
    GraphLink {
        source_path: owned(source_path),
        target,
        link_type,
        raw: string_of(raw.as_slice()),
        status: owned("unresolved"),
        resolved_document_id: None,
        resolved_path: None,
    }
}

/// The `[[...]]` references of a Markdown text, in order, each unresolved.
pub fn extract_graph_links(markdown: &str, source_path: &str) -> (r: Vec<GraphLink>)
    ensures
        link_views(r@) == links_from(markdown@, source_path@, 0),
{
    let s = chars_of(markdown);
    let close = chars_of("]]");
    let mut links: Vec<GraphLink> = Vec::new();
    let mut cursor: usize = 0;
    let n = s.len();
    assert(link_views(links@) + links_from(s@, source_path@, 0) =~= links_from(s@, source_path@, 0));
    proof {
        reveal_strlit("]]");
    }
    while n - cursor > 3
        invariant
            n == s@.len(),
            s@ == markdown@,
            close@ == "]]"@,
            cursor <= n,
            link_views(links@) + links_from(s@, source_path@, cursor as int) == links_from(s@, source_path@, 0),
        decreases n - cursor,
    {
        let ghost before = link_views(links@);
        if s[cursor] == '[' && s[cursor + 1] == '[' {
            match crate::text::find_from_exec(s.as_slice(), close.as_slice(), cursor + 2) {
                Some(e) => {
                    proof {
                        reveal_strlit("]]");
                        crate::text::lemma_find_from(s@, close@, cursor + 2);
                        assert(e + 2 <= n);
                    }
                    let sub = slice_vec(s.as_slice(), cursor + 2, e);
                    let inner = crate::text::trim_exec(sub.as_slice());
                    if inner.len() > 0 {
                        let l = new_link(source_path, inner.as_slice());
                        links.push(l);
                        assert(link_views(links@) =~= before.push(link_view(l)));
                        assert(link_views(links@) + links_from(s@, source_path@, e + 2) =~= before + (seq![
                            link_view(l),
                        ] + links_from(s@, source_path@, e + 2)));
                    }
                    cursor = e + 2;
                    continue;
                },
                None => {},
            }
        }
        cursor = cursor + 1;
    }
    assert(links_from(s@, source_path@, cursor as int) =~= seq![]);
    assert(link_views(links@) =~= link_views(links@) + links_from(s@, source_path@, cursor as int));
    links
}

/// The text without every trailing `.md`.
pub open spec fn strip_md_suffixes(s: Seq<char>) -> Seq<char>
    decreases s.len(),
{
    if s.len() >= 3 && has_suffix(s, ".md"@) {
        strip_md_suffixes(s.subrange(0, s.len() - 3))
    } else {
        s
    }
}

/// The form in which link targets are compared: trimmed, without trailing
/// `.md`, with `\` read as `/`, lowercased.
pub open spec fn graph_target(value: Seq<char>) -> Seq<char> {
    unicode_lowercase(crate::text::replace_char(strip_md_suffixes(trim(value)), '\\', '/'))
}

/// The form in which link targets are compared.
pub fn normalize_graph_target(value: &str) -> (r: String)
    ensures
        r@ == graph_target(value@),
{
    let t = crate::text::trim_str(value);
    let mut end = t.len();
    let ghost full = t@;
    assert(full.subrange(0, end as int) =~= full);
    while end >= 3 && crate::text::ends_with_str(&t.as_slice()[0..end], ".md")
        invariant
            end <= full.len(),
            t@ == full,
            strip_md_suffixes(full) == strip_md_suffixes(full.subrange(0, end as int)),
        decreases end,
    {
        assert(full.subrange(0, end as int).subrange(0, end - 3) =~= full.subrange(0, end - 3));
        end = end - 3;
    }
    let kept = slice_vec(t.as_slice(), 0, end);
    let replaced = crate::text::replace_char_exec(kept.as_slice(), '\\', '/');
    let rs = string_of(replaced.as_slice());
    crate::text::to_lowercase(rs.as_str())
}

/// What a target key resolves to: a document id, a path and a type.
pub open spec fn target_entry(v: (Option<String>, String, String)) -> (Option<Seq<char>>, Seq<char>, Seq<char>) {
    (opt_string_view(v.0), v.1@, v.2@)
}

/// The first entry, in key order, whose key is the link target prefixed
/// with the entry's own type.
pub open spec fn typed_match(e: Seq<(String, (Option<String>, String, String))>, target: Seq<char>, k: int) -> Option<
    int,
>
    decreases e.len() - k,
{
    if k < 0 || k >= e.len() {
        None
    } else if e[k].0@ == graph_target(e[k].1.2@ + ":"@ + target) {
        Some(k)
    } else {
        typed_match(e, target, k + 1)
    }
}

/// What a link resolves to among the known targets: the target's own key,
/// or else the first key that is the target prefixed by that entry's type.
pub open spec fn resolution(targets: OrderedMap<(Option<String>, String, String)>, target: Seq<char>) -> Option<
    (Option<Seq<char>>, Seq<char>, Seq<char>),
> {
    let key = graph_target(target);
    if targets@.dom().contains(key) {
        Some(target_entry(targets@[key]))
    } else {
        match typed_match(targets.entries@, target, 0) {
            Some(i) => Some(target_entry(targets.entries@[i].1)),
            None => None,
        }
    }
}

fn copy_opt(o: &Option<String>) -> (r: Option<String>)
    ensures
        opt_string_view(r) == opt_string_view(*o),
{
    match o {
        Some(s) => Some(s.clone()),
        None => None,
    }
}

fn first_typed_match(targets: &OrderedMap<(Option<String>, String, String)>, target: &str) -> (r: Option<usize>)
    ensures
        match r {
            Some(i) => typed_match(targets.entries@, target@, 0) == Some(i as int) && i < targets.entries@.len(),
            None => typed_match(targets.entries@, target@, 0) is None,
        },
{
    let n = targets.entries.len();
    let mut k: usize = 0;
    while k < n
        invariant
            n == targets.entries@.len(),
            k <= n,
            typed_match(targets.entries@, target@, 0) == typed_match(targets.entries@, target@, k as int),
        decreases n - k,
    {
        let entry = &targets.entries[k];
        let mut prefixed = chars_of(entry.1.2.as_str());
        append_str(&mut prefixed, ":");
        append_str(&mut prefixed, target);
        let ps = string_of(prefixed.as_slice());
        let key = normalize_graph_target(ps.as_str());
        if crate::text::eq_str_string(&entry.0, &key) {
            return Some(k);
        }
        k = k + 1;
    }
    None
}

/// Resolves a link against the known targets: a resolved link records the
/// target's document id and path; a link that resolves to nothing is
/// broken.  Its other parts are kept.
pub fn resolve_graph_link(link: &mut GraphLink, targets: &OrderedMap<(Option<String>, String, String)>)
    requires
        targets.wf(),
    ensures
        final(link).source_path == old(link).source_path,
        final(link).target == old(link).target,
        final(link).link_type == old(link).link_type,
        final(link).raw == old(link).raw,
        match resolution(*targets, old(link).target@) {
            Some(t) => final(link).status@ == "resolved"@ && opt_string_view(final(link).resolved_document_id)
                == t.0 && opt_string_view(final(link).resolved_path) == Some(t.1),
            None => final(link).status@ == "broken"@ && final(link).resolved_document_id
                == old(link).resolved_document_id && final(link).resolved_path == old(link).resolved_path,
        },
{
    let key = normalize_graph_target(link.target.as_str());
    let found: Option<&(Option<String>, String, String)> = match targets.get(key.as_str()) {
        Some(v) => Some(v),
        None => match first_typed_match(targets, link.target.as_str()) {
            Some(i) => Some(&targets.entries[i].1),
            None => None,
        },
    };
    match found {
        Some(v) => {
            link.status = owned("resolved");
            link.resolved_document_id = copy_opt(&v.0);
            link.resolved_path = Some(v.1.clone());
        },
        None => {
            link.status = owned("broken");
        },
    }
}

/// The heading text of a line: after `# `, `## ` or `### ` once the line is
/// trimmed, itself trimmed.
pub open spec fn graph_heading(line: Seq<char>) -> Option<Seq<char>> {
    let t = trim(line);
    if has_prefix(t, "# "@) {
        Some(trim(t.skip(2)))
    } else if has_prefix(t, "## "@) {
        Some(trim(t.skip(3)))
    } else if has_prefix(t, "### "@) {
        Some(trim(t.skip(4)))
    } else {
        None
    }
}

/// The non-blank headings of levels one to three, in order.
pub open spec fn headings_in(ls: Seq<Seq<char>>) -> Seq<Seq<char>>
    decreases ls.len(),
{
    if ls.len() == 0 {
        seq![]
    } else {
        let rest = headings_in(ls.drop_last());
        match graph_heading(ls.last()) {
            Some(h) => if h.len() > 0 {
                rest.push(h)
            } else {
                rest
            },
            None => rest,
        }
    }
}

/// The non-blank headings of levels one to three of a body, in order.
pub fn markdown_headings(markdown_body: &str) -> (r: Vec<String>)
    ensures
        crate::text::string_views(r@) == headings_in(lines(markdown_body@)),
{
    let c = chars_of(markdown_body);
    let ls = crate::text::lines_exec(c.as_slice());
    let ghost lv = lines(markdown_body@);
    let mut out: Vec<String> = Vec::new();
    let n = ls.len();
    let mut i: usize = 0;
    while i < n
        invariant
            n == ls@.len(),
            crate::text::views(ls@) == lv,
            i <= n,
            crate::text::string_views(out@) == headings_in(lv.take(i as int)),
        decreases n - i,
    {
        assert(lv.take(i + 1).drop_last() =~= lv.take(i as int));
        assert(lv.take(i + 1).last() == ls@[i as int]@);
        let t = crate::text::trim_exec(ls[i].as_slice());
        proof {
            reveal_strlit("# ");
            reveal_strlit("## ");
            reveal_strlit("### ");
        }
        let h: Option<Vec<char>> = if crate::text::starts_with_str(t.as_slice(), "# ") {
            let rest = slice_vec(t.as_slice(), 2, t.len());
            assert(rest@ =~= t@.skip(2));
            Some(crate::text::trim_exec(rest.as_slice()))
        } else if crate::text::starts_with_str(t.as_slice(), "## ") {
            let rest = slice_vec(t.as_slice(), 3, t.len());
            assert(rest@ =~= t@.skip(3));
            Some(crate::text::trim_exec(rest.as_slice()))
        } else if crate::text::starts_with_str(t.as_slice(), "### ") {
            let rest = slice_vec(t.as_slice(), 4, t.len());
            assert(rest@ =~= t@.skip(4));
            Some(crate::text::trim_exec(rest.as_slice()))
        } else {
            None
        };
        match h {
            Some(hv) => {
                if hv.len() > 0 {
                    let ghost b = crate::text::string_views(out@);
                    out.push(string_of(hv.as_slice()));
                    assert(crate::text::string_views(out@) =~= b.push(hv@));
                }
            },
            None => {},
        }
        i = i + 1;
    }
    assert(lv.take(n as int) =~= lv);
    out
}

/// A line shown as the graph excerpt: not blank, not a heading, not a
/// comment and not a tags line.
pub open spec fn graph_excerpt_line(l: Seq<char>) -> bool {
    l.len() > 0 && !has_prefix(l, "#"@) && !has_prefix(l, "<!--"@) && !has_prefix(l, "- Tags:"@)
}

/// The first trimmed line shown as an excerpt.
pub open spec fn first_graph_excerpt(ls: Seq<Seq<char>>) -> Option<Seq<char>>
    decreases ls.len(),
{
    if ls.len() == 0 {
        None
    } else if graph_excerpt_line(trim(ls[0])) {
        Some(trim(ls[0]))
    } else {
        first_graph_excerpt(ls.drop_first())
    }
}

/// The graph excerpt of a body: its first shown line, or a placeholder, cut
/// to 160 characters.
pub open spec fn graph_excerpt(body: Seq<char>) -> Seq<char> {
    let l = match first_graph_excerpt(lines(body)) {
        Some(l) => l,
        None => "No preview yet."@,
    };
    if l.len() > 160 {
        l.take(160)
    } else {
        l
    }
}

fn first_graph_excerpt_exec(ls: &Vec<Vec<char>>) -> (r: Option<Vec<char>>)
    ensures
        match r {
            Some(t) => first_graph_excerpt(crate::text::views(ls@)) == Some(t@),
            None => first_graph_excerpt(crate::text::views(ls@)) is None,
        },
{
    let ghost lv = crate::text::views(ls@);
    let n = ls.len();
    let mut i: usize = 0;
    assert(lv.skip(0) =~= lv);
    while i < n
        invariant
            n == ls@.len(),
            crate::text::views(ls@) == lv,
            i <= n,
            first_graph_excerpt(lv) == first_graph_excerpt(lv.skip(i as int)),
        decreases n - i,
    {
        let t = crate::text::trim_exec(ls[i].as_slice());
        assert(lv.skip(i as int)[0] == ls@[i as int]@);
        assert(lv.skip(i as int).drop_first() =~= lv.skip(i + 1));
        if t.len() > 0 && !crate::text::starts_with_str(t.as_slice(), "#") && !crate::text::starts_with_str(
            t.as_slice(),
            "<!--",
        ) && !crate::text::starts_with_str(t.as_slice(), "- Tags:") {
            return Some(t);
        }
        i = i + 1;
    }
    assert(lv.skip(i as int).len() == 0);
    None
}

/// The graph excerpt of a body.
pub fn markdown_excerpt(markdown_body: &str) -> (r: String)
    ensures
        r@ == graph_excerpt(markdown_body@),
{
    let c = chars_of(markdown_body);
    let ls = crate::text::lines_exec(c.as_slice());
    let ghost lv = lines(markdown_body@);
    let found = first_graph_excerpt_exec(&ls);
    let l = match found {
        Some(t) => t,
        None => chars_of("No preview yet."),
    };
    if l.len() > 160 {
        let v = slice_vec(l.as_slice(), 0, 160);
        string_of(v.as_slice())
    } else {
        string_of(l.as_slice())
    }
}


/// The text without every leading `- `.
pub open spec fn strip_dash_prefixes(s: Seq<char>) -> Seq<char>
    decreases s.len(),
{
    if s.len() >= 2 && has_prefix(s, "- "@) {
        strip_dash_prefixes(s.skip(2))
    } else {
        s
    }
}

fn strip_dash_prefixes_exec(s: &[char]) -> (r: Vec<char>)
    ensures
        r@ == strip_dash_prefixes(s@),
{
    let mut start: usize = 0;
    let n = s.len();
    assert(s@.skip(0) =~= s@);
    proof {
        reveal_strlit("- ");
    }
    while n - start >= 2 && s[start] == '-' && s[start + 1] == ' '
        invariant
            start <= n,
            n == s@.len(),
            strip_dash_prefixes(s@) == strip_dash_prefixes(s@.skip(start as int)),
        decreases n - start,
    {
        proof {
            reveal_strlit("- ");
        }
        assert(s@.skip(start as int).subrange(0, 2) =~= "- "@);
        assert(s@.skip(start as int).skip(2) =~= s@.skip(start + 2));
        start = start + 2;
    }
    assert(!(s@.skip(start as int).len() >= 2 && has_prefix(s@.skip(start as int), "- "@))) by {
        if s@.skip(start as int).len() >= 2 && has_prefix(s@.skip(start as int), "- "@) {
            assert(s@.skip(start as int)[0] == s@[start as int]);
            assert(s@.skip(start as int).subrange(0, 2)[0] == '-');
            assert(s@.skip(start as int).subrange(0, 2)[1] == ' ');
        }
    }
    slice_vec(s, start, n)
}

/// A character that tag words are trimmed of: neither an ASCII letter or
/// digit nor `#`.
pub open spec fn tag_edge(c: char) -> bool {
    !crate::text::is_ascii_alnum(c) && c != '#'
}

/// The text without its leading tag-edge characters.
pub open spec fn trim_tag_start(s: Seq<char>) -> Seq<char>
    decreases s.len(),
{
    if s.len() > 0 && tag_edge(s[0]) {
        trim_tag_start(s.drop_first())
    } else {
        s
    }
}

/// The text without its trailing tag-edge characters.
pub open spec fn trim_tag_end(s: Seq<char>) -> Seq<char>
    decreases s.len(),
{
    if s.len() > 0 && tag_edge(s.last()) {
        trim_tag_end(s.drop_last())
    } else {
        s
    }
}

fn trim_tag_edges(s: &[char]) -> (r: Vec<char>)
    ensures
        r@ == trim_tag_end(trim_tag_start(s@)),
{
    let n = s.len();
    let mut a: usize = 0;
    assert(s@.skip(0) =~= s@);
    while a < n && !crate::text::is_ascii_alnum_exec(s[a]) && s[a] != '#'
        invariant
            a <= n,
            n == s@.len(),
            trim_tag_start(s@) == trim_tag_start(s@.skip(a as int)),
        decreases n - a,
    {
        assert(s@.skip(a as int)[0] == s@[a as int]);
        assert(s@.skip(a as int).drop_first() =~= s@.skip(a + 1));
        a = a + 1;
    }
    assert(trim_tag_start(s@) == s@.skip(a as int)) by {
        if a < n {
            assert(s@.skip(a as int)[0] == s@[a as int]);
        } else {
            assert(s@.skip(a as int).len() == 0);
        }
    }
    let ghost t = s@.skip(a as int);
    let mut b: usize = n;
    assert(t.subrange(0, (b - a) as int) =~= t);
    while b > a && !crate::text::is_ascii_alnum_exec(s[b - 1]) && s[b - 1] != '#'
        invariant
            a <= b <= n,
            n == s@.len(),
            t == s@.skip(a as int),
            trim_tag_end(t) == trim_tag_end(t.subrange(0, (b - a) as int)),
        decreases b,
    {
        let ghost u = t.subrange(0, (b - a) as int);
        assert(u.last() == s@[b - 1]);
        assert(u.drop_last() =~= t.subrange(0, (b - 1 - a) as int));
        b = b - 1;
    }
    let ghost u = t.subrange(0, (b - a) as int);
    assert(trim_tag_end(t) == u) by {
        if b > a {
            assert(u.last() == s@[b - 1]);
        } else {
            assert(u.len() == 0);
        }
    }
    let r = slice_vec(s, a, b);
    assert(r@ =~= u);
    r
}

/// The tags of a `tags:` field value: split on commas, each trimmed, its
/// leading `#` removed and lowercased, blank ones left out.
pub open spec fn field_tag_list(parts: Seq<Seq<char>>) -> Seq<Seq<char>>
    decreases parts.len(),
{
    if parts.len() == 0 {
        seq![]
    } else {
        let rest = field_tag_list(parts.drop_last());
        let t = unicode_lowercase(crate::text::trim_start_by(trim(parts.last()), crate::text::Strip::Char('#')));
        if t.len() > 0 {
            rest.push(t)
        } else {
            rest
        }
    }
}

/// The tags of a trimmed line's `tags:` field, if it is one (after any
/// leading `- `, the key compared without ASCII case).
pub open spec fn field_tags(trimmed: Seq<char>) -> Seq<Seq<char>> {
    match split_once_char(strip_dash_prefixes(trimmed), ':') {
        Some((k, v)) => if crate::text::ascii_lowercase(trim(k)) == "tags"@ {
            field_tag_list(crate::text::split_char(v, ','))
        } else {
            seq![]
        },
        None => seq![],
    }
}

/// The `#tags` among words: each word trimmed of tag-edge characters, and
/// kept, without its `#` and lowercased, when it then starts with `#` and
/// has more after it.
pub open spec fn word_tags(ws: Seq<Seq<char>>) -> Seq<Seq<char>>
    decreases ws.len(),
{
    if ws.len() == 0 {
        seq![]
    } else {
        let rest = word_tags(ws.drop_last());
        let t = trim_tag_end(trim_tag_start(ws.last()));
        if t.len() > 1 && t[0] == '#' {
            rest.push(unicode_lowercase(t.skip(1)))
        } else {
            rest
        }
    }
}

/// The tags of the lines, in the order found.
pub open spec fn line_tags(ls: Seq<Seq<char>>) -> Seq<Seq<char>>
    decreases ls.len(),
{
    if ls.len() == 0 {
        seq![]
    } else {
        let t = trim(ls.last());
        line_tags(ls.drop_last()) + field_tags(t) + word_tags(crate::record_text::words(t))
    }
}

fn field_tags_exec(trimmed: &[char]) -> (r: Vec<String>)
    ensures
        crate::text::string_views(r@) == field_tags(trimmed@),
{
    let mut out: Vec<String> = Vec::new();
    let d = strip_dash_prefixes_exec(trimmed);
    match crate::text::split_once_exec(d.as_slice(), ':') {
        Some((k, v)) => {
            let kt = crate::text::trim_exec(k.as_slice());
            let kl = crate::text::ascii_lowercase_exec(kt.as_slice());
            if crate::text::eq_str(kl.as_slice(), "tags") {
                let parts = crate::text::split_exec(v.as_slice(), ',');
                let ghost pv = crate::text::views(parts@);
                let n = parts.len();
                let mut i: usize = 0;
                while i < n
                    invariant
                        n == parts@.len(),
                        pv == crate::text::views(parts@),
                        i <= n,
                        crate::text::string_views(out@) == field_tag_list(pv.take(i as int)),
                    decreases n - i,
                {
                    assert(pv.take(i + 1).drop_last() =~= pv.take(i as int));
                    assert(pv.take(i + 1).last() == parts@[i as int]@);
                    let t = crate::text::trim_exec(parts[i].as_slice());
                    let u = crate::text::trim_start_exec(t.as_slice(), crate::text::Strip::Char('#'));
                    let us = string_of(u.as_slice());
                    let l = crate::text::to_lowercase(us.as_str());
                    let lc = chars_of(l.as_str());
                    if lc.len() > 0 {
                        let ghost b = crate::text::string_views(out@);
                        out.push(l);
                        assert(crate::text::string_views(out@) =~= b.push(out@.last()@));
                    }
                    i = i + 1;
                }
                assert(pv.take(n as int) =~= pv);
            }
        },
        None => {},
    }
    assert(crate::text::string_views(out@) =~= field_tags(trimmed@));
    out
}


fn word_tags_exec(ws: &Vec<Vec<char>>) -> (r: Vec<String>)
    ensures
        crate::text::string_views(r@) == word_tags(crate::text::views(ws@)),
{
    let ghost wv = crate::text::views(ws@);
    let mut out: Vec<String> = Vec::new();
    let n = ws.len();
    let mut i: usize = 0;
    while i < n
        invariant
            n == ws@.len(),
            wv == crate::text::views(ws@),
            i <= n,
            crate::text::string_views(out@) == word_tags(wv.take(i as int)),
        decreases n - i,
    {
        assert(wv.take(i + 1).drop_last() =~= wv.take(i as int));
        assert(wv.take(i + 1).last() == ws@[i as int]@);
        let t = trim_tag_edges(ws[i].as_slice());
        if t.len() > 1 && t[0] == '#' {
            let rest = slice_vec(t.as_slice(), 1, t.len());
            assert(rest@ =~= t@.skip(1));
            let rs = string_of(rest.as_slice());
            let ghost b = crate::text::string_views(out@);
            out.push(crate::text::to_lowercase(rs.as_str()));
            assert(crate::text::string_views(out@) =~= b.push(out@.last()@));
        }
        i = i + 1;
    }
    assert(wv.take(n as int) =~= wv);
    out
}

/// The tags of a body, sorted, each once: the values of its `tags:` fields
/// and its `#words`, lowercased.
pub fn extract_tags(markdown_body: &str) -> (r: Vec<String>)
    ensures
        crate::habits::sorted_texts(crate::text::string_views(r@)),
        crate::text::string_views(r@).to_set() == line_tags(lines(markdown_body@)).to_set(),
{
    let c = chars_of(markdown_body);
    let ls = crate::text::lines_exec(c.as_slice());
    let ghost lv = lines(markdown_body@);
    let mut all: Vec<String> = Vec::new();
    let n = ls.len();
    let mut i: usize = 0;
    while i < n
        invariant
            n == ls@.len(),
            crate::text::views(ls@) == lv,
            i <= n,
            crate::text::string_views(all@) == line_tags(lv.take(i as int)),
        decreases n - i,
    {
        assert(lv.take(i + 1).drop_last() =~= lv.take(i as int));
        assert(lv.take(i + 1).last() == ls@[i as int]@);
        let t = crate::text::trim_exec(ls[i].as_slice());
        let mut f = field_tags_exec(t.as_slice());
        let ws = crate::record_text::words_exec(t.as_slice());
        let mut w = word_tags_exec(&ws);
        let ghost b = crate::text::string_views(all@);
        let ghost fv = crate::text::string_views(f@);
        let ghost wv2 = crate::text::string_views(w@);
        all.append(&mut f);
        all.append(&mut w);
        assert(crate::text::string_views(all@) =~= b + fv + wv2);
        i = i + 1;
    }
    assert(lv.take(n as int) =~= lv);
    crate::habits::sorted_unique(&all)
}

} // verus!
