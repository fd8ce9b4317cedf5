//! The dashboard hub: the paths a V3 vault scaffold must hold, and the pinned
//! entities section of the hub's Markdown.
use vstd::prelude::*;
use crate::paths::{join_path, path_join};
use crate::text::{chars_of, owned, string_views};

verus! {

/// The hub's Markdown, relative to the vault.
pub const DASHBOARD_INDEX_PATH: &'static str = "INDEX.md";

/// The paths of one content module in a V3 vault.
pub open spec fn module_v3_paths(m: Seq<char>) -> Seq<Seq<char>> {
    let root = "modules/"@ + m;
    seq![
        root + "/INDEX.md"@, root + "/MODULE.md"@, root + "/module.schema.json"@, root + "/data"@,
        root + "/views"@, root + "/templates"@, root + "/theme/json"@, root + "/theme/css"@,
    ]
}

/// The paths a V3 vault scaffold holds, relative to the vault, in order.
pub open spec fn v3_relative_paths() -> Seq<Seq<char>> {
    module_v3_paths("notes"@) + module_v3_paths("todos"@) + module_v3_paths("contacts"@)
        + module_v3_paths("habits"@) + seq![
        "modules/trash/INDEX.md"@, "modules/archive/INDEX.md"@, ".bentolifelayout/trash"@,
        ".bentolifelayout/archive"@, ".bentolifelayout/imports/staged"@,
        ".bentolifelayout/backups"@,
    ]
}

fn push_text(r: &mut Vec<String>, s: &[char])
    ensures
        string_views(final(r)@) == string_views(old(r)@).push(s@),
{
    let ghost before = string_views(r@);
    r.push(crate::text::string_of(s));
    assert(string_views(r@) =~= before.push(s@));
}

fn push_module_paths(r: &mut Vec<String>, m: &str)
    ensures
        string_views(final(r)@) == string_views(old(r)@) + module_v3_paths(m@),
{
    let ghost before = string_views(r@);
    let mut root = crate::text::chars_of("modules/");
    crate::text::append_str(&mut root, m);
    let suffixes = vec![
        "/INDEX.md", "/MODULE.md", "/module.schema.json", "/data", "/views", "/templates",
        "/theme/json", "/theme/css",
    ];
    let ghost ss = suffixes@.map_values(|s: &str| s@);
    let n = suffixes.len();
    let mut i: usize = 0;
    while i < n
        invariant
            n == suffixes@.len(),
            ss == suffixes@.map_values(|s: &str| s@),
            i <= n,
            root@ == "modules/"@ + m@,
            string_views(r@) == before + ss.take(i as int).map_values(|x: Seq<char>| root@ + x),
        decreases n - i,
    {
        let mut p = crate::text::slice_vec(root.as_slice(), 0, root.len());
        assert(p@ =~= root@);
        crate::text::append_str(&mut p, suffixes[i]);
        push_text(r, p.as_slice());
        assert(ss.take(i + 1).map_values(|x: Seq<char>| root@ + x) =~= ss.take(i as int).map_values(
            |x: Seq<char>| root@ + x,
        ).push(root@ + ss[i as int]));
        i = i + 1;
    }
    assert(ss.take(n as int).map_values(|x: Seq<char>| root@ + x) =~= module_v3_paths(m@));
}

/// The paths a V3 vault scaffold holds, relative to the vault, in order.
pub fn v3_relative_paths_exec() -> (r: Vec<String>)
    ensures
        string_views(r@) == v3_relative_paths(),
{
    let mut r: Vec<String> = Vec::new();
    assert(string_views(r@) =~= Seq::<Seq<char>>::empty());
    push_module_paths(&mut r, "notes");
    push_module_paths(&mut r, "todos");
    push_module_paths(&mut r, "contacts");
    push_module_paths(&mut r, "habits");
    let ghost mods = string_views(r@);
    let tail = vec![
        "modules/trash/INDEX.md", "modules/archive/INDEX.md", ".bentolifelayout/trash",
        ".bentolifelayout/archive", ".bentolifelayout/imports/staged", ".bentolifelayout/backups",
    ];
    let ghost ts = tail@.map_values(|s: &str| s@);
    let n = tail.len();
    let mut i: usize = 0;
    while i < n
        invariant
            n == tail@.len(),
            ts == tail@.map_values(|s: &str| s@),
            i <= n,
            string_views(r@) == mods + ts.take(i as int),
        decreases n - i,
    {
        let ghost before = string_views(r@);
        r.push(owned(tail[i]));
        assert(string_views(r@) =~= before.push(tail@[i as int]@));
        assert(ts.take(i + 1) =~= ts.take(i as int).push(ts[i as int]));
        i = i + 1;
    }
    assert(ts.take(n as int) =~= ts);
    assert(mods + ts =~= v3_relative_paths());
    r
}

/// Dashboard paths and Markdown.
pub struct DashboardService;

impl DashboardService {
    /// The paths a V3 vault scaffold holds, under the vault, in order.
    pub fn required_v3_paths(vault_path: &str) -> (r: Vec<String>)
        ensures
            string_views(r@) == v3_relative_paths().map_values(
                |p: Seq<char>| path_join(vault_path@, p),
            ),
    {
        let rel = v3_relative_paths_exec();
        let mut r: Vec<String> = Vec::new();
        let n = rel.len();
        let mut i: usize = 0;
        while i < n
            invariant
                n == rel@.len(),
                string_views(rel@) == v3_relative_paths(),
                i <= n,
                string_views(r@) == string_views(rel@).take(i as int).map_values(
                    |p: Seq<char>| path_join(vault_path@, p),
                ),
            decreases n - i,
        {
            let p = join_path(vault_path, rel[i].as_str());
            let ghost before = string_views(r@);
            r.push(p);
            assert(string_views(r@) =~= before.push(p@));
            assert(string_views(rel@).take(i + 1).map_values(|p: Seq<char>| path_join(vault_path@, p))
                =~= string_views(rel@).take(i as int).map_values(
                |p: Seq<char>| path_join(vault_path@, p),
            ).push(path_join(vault_path@, rel@[i as int]@)));
            i = i + 1;
        }
        assert(string_views(rel@).take(n as int) =~= string_views(rel@));
        r
    }
}

// ---------------------------------------------------------------------------
// Pinned entities
// ---------------------------------------------------------------------------

/// A link to a pinned entity: its label and its target.
pub struct PinTarget {
    pub label: String,
    pub target: String,
}

/// The view of pin targets.
pub open spec fn pin_views(v: Seq<PinTarget>) -> Seq<(Seq<char>, Seq<char>)> {
    v.map_values(|p: PinTarget| (p.label@, p.target@))
}

/// A Markdown heading: its level (one to six `#`) and its trimmed text.
pub open spec fn heading_of(line: Seq<char>) -> Option<(nat, Seq<char>)> {
    let h = crate::text::leading(line, crate::text::Strip::Char('#'));
    if h == 0 || h > 6 {
        None
    } else {
        let rest = line.skip(h as int);
        if crate::text::has_prefix(rest, " "@) {
            Some((h, crate::text::trim(rest.skip(1))))
        } else {
            None
        }
    }
}

/// Reads a heading.
pub fn heading_of_exec(line: &[char]) -> (r: Option<(usize, Vec<char>)>)
    ensures
        match heading_of(line@) {
            Some((h, t)) => r matches Some(x) && x.0 == h && x.1@ == t,
            None => r is None,
        },
{
    let n = line.len();
    let mut h: usize = 0;
    while h < n && line[h] == '#'
        invariant
            n == line@.len(),
            h <= n,
            forall|j: int| 0 <= j < h ==> #[trigger] line@[j] == '#',
        decreases n - h,
    {
        h = h + 1;
    }
    proof {
        crate::text::lemma_leading(line@, crate::text::Strip::Char('#'), h as int);
        reveal_strlit(" ");
    }
    if h == 0 || h > 6 {
        return None;
    }
    if h < n && line[h] == ' ' {
        let rest = crate::text::slice_vec(line, h + 1, n);
        assert(rest@ =~= line@.skip(h as int).skip(1));
        assert(line@.skip(h as int).subrange(0, 1) =~= " "@);
        Some((h, crate::text::trim_exec(rest.as_slice())))
    } else {
        assert(!crate::text::has_prefix(line@.skip(h as int), " "@)) by {
            if h < n {
                assert(line@.skip(h as int).subrange(0, 1)[0] == line@[h as int]);
            }
        }
        None
    }
}

/// Whether a heading text names the pinned section.
pub open spec fn pinned_heading(h: Seq<char>) -> bool {
    let l = crate::text::unicode_lowercase(h);
    l == "pinned"@ || l == "pinned entities"@
}

fn pinned_heading_exec(h: &[char]) -> (r: bool)
    ensures
        r == pinned_heading(h@),
{
    let l = crate::text::lowercase_chars(h);
    crate::text::eq_str(l.as_slice(), "pinned") || crate::text::eq_str(l.as_slice(), "pinned entities")
}

/// The `[label](target)` links of a text, in order; links with an empty
/// label or target are skipped.
pub open spec fn md_links(rest: Seq<char>) -> Seq<(Seq<char>, Seq<char>)>
    decreases rest.len(),
{
    match crate::text::find(rest, "["@) {
        None => seq![],
        Some(ls) => {
            proof {
                reveal_strlit("[");
                crate::text::lemma_find_from(rest, "["@, 0);
            }
            let a = rest.skip(ls + 1);
            match crate::text::find(a, "]"@) {
                None => seq![],
                Some(le) => {
                    proof {
                        reveal_strlit("]");
                        crate::text::lemma_find_from(a, "]"@, 0);
                    }
                    let after = a.skip(le + 1);
                    if !crate::text::has_prefix(after, "("@) {
                        md_links(after)
                    } else {
                        match crate::text::find(after.skip(1), ")"@) {
                            None => seq![],
                            Some(te) => {
                                proof {
                                    reveal_strlit(")");
                                    reveal_strlit("(");
                                    crate::text::lemma_find_from(after.skip(1), ")"@, 0);
                                }
                                let label = crate::text::trim(a.take(le));
                                let target = crate::text::trim(after.subrange(1, te + 1));
                                let tail = md_links(after.skip(te + 2));
                                if label.len() > 0 && target.len() > 0 {
                                    seq![(label, target)] + tail
                                } else {
                                    tail
                                }
                            },
                        }
                    }
                },
            }
        },
    }
}

/// The `[[target]]` links of a text, in order; empty ones are skipped.
pub open spec fn wiki_links(rest: Seq<char>) -> Seq<(Seq<char>, Seq<char>)>
    decreases rest.len(),
{
    match crate::text::find(rest, "[["@) {
        None => seq![],
        Some(st) => {
            proof {
                reveal_strlit("[[");
                crate::text::lemma_find_from(rest, "[["@, 0);
            }
            let a = rest.skip(st + 2);
            match crate::text::find(a, "]]"@) {
                None => seq![],
                Some(e) => {
                    proof {
                        reveal_strlit("]]");
                        crate::text::lemma_find_from(a, "]]"@, 0);
                    }
                    let t = crate::text::trim(a.take(e));
                    let tail = wiki_links(a.skip(e + 2));
                    if t.len() > 0 {
                        seq![(t, t)] + tail
                    } else {
                        tail
                    }
                },
            }
        },
    }
}

fn push_pin(r: &mut Vec<PinTarget>, label: &[char], target: &[char])
    ensures
        pin_views(final(r)@) == pin_views(old(r)@).push((label@, target@)),
{
    let ghost before = pin_views(r@);
    r.push(PinTarget { label: crate::text::string_of(label), target: crate::text::string_of(target) });
    assert(pin_views(r@) =~= before.push((label@, target@)));
}

/// The `[label](target)` links of a text.
pub fn markdown_links(line: &[char]) -> (r: Vec<PinTarget>)
    ensures
        pin_views(r@) == md_links(line@),
{
    let n = line.len();
    let mut r: Vec<PinTarget> = Vec::new();
    let mut pos: usize = 0;
    assert(line@.skip(0) =~= line@);
    assert(pin_views(r@) =~= Seq::<(Seq<char>, Seq<char>)>::empty());
    proof {
        reveal_strlit("[");
        reveal_strlit("]");
        reveal_strlit("(");
        reveal_strlit(")");
    }
    loop
        invariant
            n == line@.len(),
            pos <= n,
            pin_views(r@) + md_links(line@.skip(pos as int)) == md_links(line@),
        decreases n - pos,
    {
        proof {
            reveal_strlit("[");
            reveal_strlit("]");
            reveal_strlit("(");
            reveal_strlit(")");
        }
        let rest = crate::text::slice_vec(line, pos, n);
        assert(rest@ =~= line@.skip(pos as int));
        let ls = match crate::text::find_str(rest.as_slice(), "[") {
            None => {
                assert(pin_views(r@) + Seq::<(Seq<char>, Seq<char>)>::empty() =~= pin_views(r@));
                return r;
            },
            Some(x) => x,
        };
        proof {
            crate::text::lemma_find_from(rest@, "["@, 0);
        }
        let a = crate::text::slice_vec(rest.as_slice(), ls + 1, rest.len());
        assert(a@ =~= rest@.skip(ls + 1));
        let le = match crate::text::find_str(a.as_slice(), "]") {
            None => {
                assert(pin_views(r@) + Seq::<(Seq<char>, Seq<char>)>::empty() =~= pin_views(r@));
                return r;
            },
            Some(x) => x,
        };
        proof {
            crate::text::lemma_find_from(a@, "]"@, 0);
        }
        let after = crate::text::slice_vec(a.as_slice(), le + 1, a.len());
        assert(after@ =~= a@.skip(le + 1));
        let consumed = pos + ls + 1 + le + 1;
        assert(line@.skip(consumed as int) =~= after@);
        if !crate::text::starts_with_str(after.as_slice(), "(") {
            pos = consumed;
            continue;
        }
        let inner = crate::text::slice_vec(after.as_slice(), 1, after.len());
        assert(inner@ =~= after@.skip(1));
        let te = match crate::text::find_str(inner.as_slice(), ")") {
            None => {
                assert(pin_views(r@) + Seq::<(Seq<char>, Seq<char>)>::empty() =~= pin_views(r@));
                return r;
            },
            Some(x) => x,
        };
        proof {
            crate::text::lemma_find_from(inner@, ")"@, 0);
        }
        let lab = crate::text::slice_vec(a.as_slice(), 0, le);
        assert(lab@ =~= a@.take(le as int));
        let label = crate::text::trim_exec(lab.as_slice());
        let tgt = crate::text::slice_vec(after.as_slice(), 1, te + 1);
        assert(tgt@ =~= after@.subrange(1, te + 1));
        let target = crate::text::trim_exec(tgt.as_slice());
        let next = consumed + te + 2;
        assert(line@.skip(next as int) =~= after@.skip(te + 2));
        if label.len() > 0 && target.len() > 0 {
            let ghost before = pin_views(r@);
            push_pin(&mut r, label.as_slice(), target.as_slice());
            assert(before + (seq![(label@, target@)] + md_links(after@.skip(te + 2))) =~= pin_views(r@)
                + md_links(after@.skip(te + 2)));
        }
        pos = next;
    }
}

/// The `[[target]]` links of a text.
pub fn wiki_links_exec(line: &[char]) -> (r: Vec<PinTarget>)
    ensures
        pin_views(r@) == wiki_links(line@),
{
    let n = line.len();
    let mut r: Vec<PinTarget> = Vec::new();
    let mut pos: usize = 0;
    assert(line@.skip(0) =~= line@);
    assert(pin_views(r@) =~= Seq::<(Seq<char>, Seq<char>)>::empty());
    proof {
        reveal_strlit("[[");
        reveal_strlit("]]");
    }
    loop
        invariant
            n == line@.len(),
            pos <= n,
            pin_views(r@) + wiki_links(line@.skip(pos as int)) == wiki_links(line@),
        decreases n - pos,
    {
        proof {
            reveal_strlit("[[");
            reveal_strlit("]]");
        }
        let rest = crate::text::slice_vec(line, pos, n);
        assert(rest@ =~= line@.skip(pos as int));
        let st = match crate::text::find_str(rest.as_slice(), "[[") {
            None => {
                assert(pin_views(r@) + Seq::<(Seq<char>, Seq<char>)>::empty() =~= pin_views(r@));
                return r;
            },
            Some(x) => x,
        };
        proof {
            crate::text::lemma_find_from(rest@, "[["@, 0);
        }
        let a = crate::text::slice_vec(rest.as_slice(), st + 2, rest.len());
        assert(a@ =~= rest@.skip(st + 2));
        let e = match crate::text::find_str(a.as_slice(), "]]") {
            None => {
                assert(pin_views(r@) + Seq::<(Seq<char>, Seq<char>)>::empty() =~= pin_views(r@));
                return r;
            },
            Some(x) => x,
        };
        proof {
            crate::text::lemma_find_from(a@, "]]"@, 0);
        }
        let tv = crate::text::slice_vec(a.as_slice(), 0, e);
        assert(tv@ =~= a@.take(e as int));
        let t = crate::text::trim_exec(tv.as_slice());
        let next = pos + st + 2 + e + 2;
        assert(line@.skip(next as int) =~= a@.skip(e + 2));
        if t.len() > 0 {
            let ghost before = pin_views(r@);
            push_pin(&mut r, t.as_slice(), t.as_slice());
            assert(before + (seq![(t@, t@)] + wiki_links(a@.skip(e + 2))) =~= pin_views(r@)
                + wiki_links(a@.skip(e + 2)));
        }
        pos = next;
    }
}

/// What reading the pinned section has found so far: whether a pinned
/// section is open, at which level, and the pins found.
pub struct PinScan {
    pub in_section: bool,
    pub level: nat,
    pub pins: Seq<(Seq<char>, Seq<char>)>,
}

/// The section state after a heading line.
pub open spec fn after_heading(in_section: bool, level: nat, lv: nat, h: Seq<char>) -> (bool, nat) {
    if pinned_heading(h) {
        (true, lv)
    } else if in_section && lv <= level {
        (false, level)
    } else {
        (in_section, level)
    }
}

/// What one more line adds.
pub open spec fn pin_step(st: PinScan, line: Seq<char>) -> PinScan {
    let t = crate::text::trim(line);
    match heading_of(t) {
        Some((lv, h)) => {
            let (i, l) = after_heading(st.in_section, st.level, lv, h);
            PinScan { in_section: i, level: l, pins: st.pins }
        },
        None => if !st.in_section {
            st
        } else {
            PinScan { pins: st.pins + md_links(t) + wiki_links(t), ..st }
        },
    }
}

/// What the lines add up to.
pub open spec fn pin_scan(ls: Seq<Seq<char>>) -> PinScan
    decreases ls.len(),
{
    if ls.len() == 0 {
        PinScan { in_section: false, level: 0, pins: seq![] }
    } else {
        pin_step(pin_scan(ls.drop_last()), ls.last())
    }
}

/// The links listed under the hub's pinned section(s), in order.
pub open spec fn pin_targets(body: Seq<char>) -> Seq<(Seq<char>, Seq<char>)> {
    pin_scan(crate::text::lines(body)).pins
}

fn append_pins(r: &mut Vec<PinTarget>, more: Vec<PinTarget>)
    ensures
        pin_views(final(r)@) == pin_views(old(r)@) + pin_views(more@),
{
    let ghost start = pin_views(r@);
    let n = more.len();
    let mut i: usize = 0;
    while i < n
        invariant
            n == more@.len(),
            i <= n,
            pin_views(r@) == start + pin_views(more@).take(i as int),
        decreases n - i,
    {
        let ghost before = pin_views(r@);
        r.push(PinTarget { label: more[i].label.clone(), target: more[i].target.clone() });
        assert(pin_views(r@) =~= before.push((more@[i as int].label@, more@[i as int].target@)));
        assert(pin_views(more@).take(i + 1) =~= pin_views(more@).take(i as int).push(
            pin_views(more@)[i as int],
        ));
        i = i + 1;
    }
    assert(pin_views(more@).take(n as int) =~= pin_views(more@));
}

/// The links listed under the hub's pinned section(s).
pub fn parse_pin_targets(markdown_body: &str) -> (r: Vec<PinTarget>)
    ensures
        pin_views(r@) == pin_targets(markdown_body@),
{
    let md = chars_of(markdown_body);
    let ls = crate::text::lines_exec(md.as_slice());
    let ghost lv = crate::text::views(ls@);
    let mut pins: Vec<PinTarget> = Vec::new();
    let mut in_section = false;
    let mut level: usize = 0;
    let n = ls.len();
    let mut i: usize = 0;
    assert(lv.take(0) =~= Seq::<Seq<char>>::empty());
    assert(pin_views(pins@) =~= Seq::<(Seq<char>, Seq<char>)>::empty());
    while i < n
        invariant
            n == ls@.len(),
            lv == crate::text::views(ls@),
            i <= n,
            pin_scan(lv.take(i as int)) == (PinScan {
                in_section,
                level: level as nat,
                pins: pin_views(pins@),
            }),
        decreases n - i,
    {
        let ghost t = lv.take(i + 1);
        assert(t.drop_last() =~= lv.take(i as int));
        assert(t.last() == ls@[i as int]@);
        let tr = crate::text::trim_exec(ls[i].as_slice());
        match heading_of_exec(tr.as_slice()) {
            Some((lvl, h)) => {
                if pinned_heading_exec(h.as_slice()) {
                    in_section = true;
                    level = lvl;
                } else if in_section && lvl <= level {
                    in_section = false;
                }
            },
            None => {
                if in_section {
                    let a = markdown_links(tr.as_slice());
                    let b = wiki_links_exec(tr.as_slice());
                    append_pins(&mut pins, a);
                    append_pins(&mut pins, b);
                }
            },
        }
        i = i + 1;
    }
    assert(lv.take(n as int) =~= lv);
    pins
}

/// `./` prefixes dropped.
pub open spec fn strip_dot_slash(t: Seq<char>) -> Seq<char>
    decreases t.len(),
{
    if crate::text::has_prefix(t, "./"@) && t.len() >= 2 {
        strip_dot_slash(t.skip(2))
    } else {
        t
    }
}

/// A pin target as it is compared: trimmed, without leading `./`, with `/`
/// separators, lowercased.
pub open spec fn normalize_target(v: Seq<char>) -> Seq<char> {
    crate::text::unicode_lowercase(
        crate::text::replace_char(strip_dot_slash(crate::text::trim(v)), '\\', '/'),
    )
}

/// Normalises a pin target.
pub fn normalize_target_exec(v: &[char]) -> (r: Vec<char>)
    ensures
        r@ == normalize_target(v@),
{
    let t = crate::text::trim_exec(v);
    let mut start: usize = 0;
    let n = t.len();
    assert(t@.skip(0) =~= t@);
    proof {
        reveal_strlit("./");
    }
    while start < n && n - start >= 2 && t[start] == '.' && t[start + 1] == '/'
        invariant
            n == t@.len(),
            start <= n,
            strip_dot_slash(t@) == strip_dot_slash(t@.skip(start as int)),
        decreases n - start,
    {
        proof {
            reveal_strlit("./");
        }
        let ghost s = t@.skip(start as int);
        assert(s[0] == t@[start as int] && s[1] == t@[start + 1]);
        assert(s.subrange(0, 2) =~= "./"@);
        assert(s.skip(2) =~= t@.skip(start + 2));
        start = start + 2;
    }
    let rest = crate::text::slice_vec(t.as_slice(), start, n);
    assert(rest@ =~= t@.skip(start as int));
    proof {
        let s = t@.skip(start as int);
        if crate::text::has_prefix(s, "./"@) && s.len() >= 2 {
            assert(s[0] == "./"@[0] && s[1] == "./"@[1]);
            assert(s[0] == t@[start as int] && s[1] == t@[start + 1]);
        }
    }
    let rep = crate::text::replace_char_exec(rest.as_slice(), '\\', '/');
    crate::text::lowercase_chars(rep.as_slice())
}

/// The name in an `Entity:Name` target, or the target itself.
pub open spec fn strip_entity_prefix(t: Seq<char>) -> Seq<char> {
    match crate::text::split_once_char(t, ':') {
        Some((_, v)) => crate::text::trim(v),
        None => t,
    }
}

fn strip_entity_prefix_exec(t: &[char]) -> (r: Vec<char>)
    ensures
        r@ == strip_entity_prefix(t@),
{
    match crate::text::split_once_exec(t, ':') {
        Some((_, v)) => crate::text::trim_exec(v.as_slice()),
        None => crate::text::slice_vec(t, 0, t.len()),
    }
}

/// A link of a line points at the entity: by path, by document ID, or by its
/// title after an entity prefix.
pub open spec fn targets_entity(line: Seq<char>, document_id: Seq<char>, title: Seq<char>, target: Seq<char>) -> bool {
    let pins = md_links(line) + wiki_links(line);
    exists|i: int| 0 <= i < pins.len() && pin_hits(#[trigger] pins[i].1, document_id, title, target)
}

/// A pin target points at the entity.
pub open spec fn pin_hits(p: Seq<char>, document_id: Seq<char>, title: Seq<char>, target: Seq<char>) -> bool {
    let n = normalize_target(p);
    n == normalize_target(target) || n == normalize_target(document_id) || normalize_target(
        strip_entity_prefix(p),
    ) == normalize_target(title)
}

fn line_targets_entity(line: &[char], document_id: &[char], title: &[char], target: &[char]) -> (r: bool)
    ensures
        r == targets_entity(line@, document_id@, title@, target@),
{
    let mut pins = markdown_links(line);
    let w = wiki_links_exec(line);
    append_pins(&mut pins, w);
    let ghost ps = md_links(line@) + wiki_links(line@);
    let nt = normalize_target_exec(target);
    let nd = normalize_target_exec(document_id);
    let ntitle = normalize_target_exec(title);
    let n = pins.len();
    let mut i: usize = 0;
    while i < n
        invariant
            n == pins@.len(),
            pin_views(pins@) == ps,
            ps == md_links(line@) + wiki_links(line@),
            nt@ == normalize_target(target@),
            nd@ == normalize_target(document_id@),
            ntitle@ == normalize_target(title@),
            i <= n,
            forall|j: int| 0 <= j < i ==> !pin_hits(#[trigger] ps[j].1, document_id@, title@, target@),
        decreases n - i,
    {
        let tc = chars_of(pins[i].target.as_str());
        assert(ps[i as int].1 == tc@);
        let p = normalize_target_exec(tc.as_slice());
        let sp = strip_entity_prefix_exec(tc.as_slice());
        let nsp = normalize_target_exec(sp.as_slice());
        if crate::text::seq_eq(p.as_slice(), nt.as_slice()) || crate::text::seq_eq(
            p.as_slice(),
            nd.as_slice(),
        ) || crate::text::seq_eq(nsp.as_slice(), ntitle.as_slice()) {
            assert(pin_hits(ps[i as int].1, document_id@, title@, target@));
            return true;
        }
        i = i + 1;
    }
    false
}

/// The text with its trailing blanks replaced by one newline.
pub open spec fn ensure_trailing_newline(m: Seq<char>) -> Seq<char> {
    crate::text::trim_end(m) + "\n"@
}

fn ensure_trailing_newline_exec(m: &[char]) -> (r: String)
    ensures
        r@ == ensure_trailing_newline(m@),
{
    let mut t = crate::text::trim_end_exec(m, crate::text::Strip::Whitespace);
    crate::text::append_str(&mut t, "\n");
    crate::text::string_of(t.as_slice())
}

/// The line that pins an entity.
pub open spec fn pin_line(title: Seq<char>, target: Seq<char>) -> Seq<char> {
    "- ["@ + title + "]("@ + target + ")"@
}

/// The first line, from `k` on, that opens a pinned section.
pub open spec fn pinned_heading_line(ls: Seq<Seq<char>>, k: int) -> Option<int>
    decreases ls.len() - k,
{
    if k < 0 || k >= ls.len() {
        None
    } else if heading_of(crate::text::trim(ls[k])) matches Some((_, h)) && pinned_heading(h) {
        Some(k)
    } else {
        pinned_heading_line(ls, k + 1)
    }
}

/// The first line, from `k` on, that holds the document's identity comment.
pub open spec fn identity_line(ls: Seq<Seq<char>>, k: int) -> Option<int>
    decreases ls.len() - k,
{
    if k < 0 || k >= ls.len() {
        None
    } else if crate::text::has_prefix(
        crate::text::trim_start(ls[k]),
        "<!-- bentolife:document_id="@,
    ) {
        Some(k)
    } else {
        identity_line(ls, k + 1)
    }
}

/// The first line, from `k` on, that is not blank, or the end.
pub open spec fn first_nonblank(ls: Seq<Seq<char>>, k: int) -> int
    decreases ls.len() - k,
{
    if k < 0 || k >= ls.len() || crate::text::trim(ls[k]).len() != 0 {
        k
    } else {
        first_nonblank(ls, k + 1)
    }
}

/// The hub's Markdown with an entity pinned: unchanged (but for its ending)
/// where a pin already points at the target; otherwise a pin line under the
/// first pinned heading, or a new `## Pinned Entities` section before the
/// identity comment (or at the end).
pub open spec fn pinned_markdown(markdown: Seq<char>, title: Seq<char>, target: Seq<char>) -> Seq<char> {
    let pins = pin_targets(markdown);
    if exists|i: int| 0 <= i < pins.len() && normalize_target(#[trigger] pins[i].1) == normalize_target(target) {
        ensure_trailing_newline(markdown)
    } else {
        let ls = crate::text::lines(markdown);
        let line = pin_line(title, target);
        match pinned_heading_line(ls, 0) {
            Some(hi) => {
                let ins = first_nonblank(ls, hi + 1);
                let ls2 = ls.insert(ins, line);
                let ls3 = if ins == hi + 1 {
                    ls2.insert(ins, seq![])
                } else {
                    ls2
                };
                ensure_trailing_newline(crate::text::join(ls3, "\n"@))
            },
            None => {
                let ins = match identity_line(ls, 0) {
                    Some(i) => i,
                    None => ls.len() as int,
                };
                ensure_trailing_newline(
                    crate::text::join(
                        ls.take(ins) + seq![seq![], "## Pinned Entities"@, seq![], line, seq![]]
                            + ls.skip(ins),
                        "\n"@,
                    ),
                )
            },
        }
    }
}

proof fn lemma_line_search_bounds(ls: Seq<Seq<char>>, k: int)
    requires
        0 <= k,
    ensures
        pinned_heading_line(ls, k) matches Some(i) ==> k <= i < ls.len(),
        identity_line(ls, k) matches Some(i) ==> k <= i < ls.len(),
        k <= ls.len() ==> k <= first_nonblank(ls, k) <= ls.len(),
    decreases ls.len() - k,
{
    if k < ls.len() {
        lemma_line_search_bounds(ls, k + 1);
    }
}

fn find_pinned_heading(ls: &Vec<Vec<char>>) -> (r: Option<usize>)
    ensures
        match pinned_heading_line(crate::text::views(ls@), 0) {
            Some(i) => r matches Some(x) && x == i,
            None => r is None,
        },
{
    let ghost lv = crate::text::views(ls@);
    let n = ls.len();
    let mut i: usize = 0;
    while i < n
        invariant
            n == ls@.len(),
            lv == crate::text::views(ls@),
            i <= n,
            pinned_heading_line(lv, 0) == pinned_heading_line(lv, i as int),
        decreases n - i,
    {
        assert(lv[i as int] == ls@[i as int]@);
        let t = crate::text::trim_exec(ls[i].as_slice());
        match heading_of_exec(t.as_slice()) {
            Some((_, h)) => {
                if pinned_heading_exec(h.as_slice()) {
                    return Some(i);
                }
            },
            None => {},
        }
        i = i + 1;
    }
    None
}

fn find_identity_line(ls: &Vec<Vec<char>>) -> (r: Option<usize>)
    ensures
        match identity_line(crate::text::views(ls@), 0) {
            Some(i) => r matches Some(x) && x == i,
            None => r is None,
        },
{
    let ghost lv = crate::text::views(ls@);
    let n = ls.len();
    let mut i: usize = 0;
    while i < n
        invariant
            n == ls@.len(),
            lv == crate::text::views(ls@),
            i <= n,
            identity_line(lv, 0) == identity_line(lv, i as int),
        decreases n - i,
    {
        assert(lv[i as int] == ls@[i as int]@);
        let t = crate::text::trim_start_exec(ls[i].as_slice(), crate::text::Strip::Whitespace);
        if crate::text::starts_with_str(t.as_slice(), "<!-- bentolife:document_id=") {
            return Some(i);
        }
        i = i + 1;
    }
    None
}

fn find_nonblank(ls: &Vec<Vec<char>>, k: usize) -> (r: usize)
    requires
        k <= ls@.len(),
    ensures
        r == first_nonblank(crate::text::views(ls@), k as int),
{
    let ghost lv = crate::text::views(ls@);
    let n = ls.len();
    let mut i = k;
    while i < n
        invariant
            n == ls@.len(),
            lv == crate::text::views(ls@),
            k <= i <= n,
            first_nonblank(lv, k as int) == first_nonblank(lv, i as int),
        decreases n - i,
    {
        assert(lv[i as int] == ls@[i as int]@);
        let t = crate::text::trim_exec(ls[i].as_slice());
        if t.len() != 0 {
            return i;
        }
        i = i + 1;
    }
    i
}

fn has_pin_to(pins: &Vec<PinTarget>, target: &[char]) -> (r: bool)
    ensures
        r == exists|i: int|
            0 <= i < pin_views(pins@).len() && normalize_target(#[trigger] pin_views(pins@)[i].1)
                == normalize_target(target@),
{
    let ghost ps = pin_views(pins@);
    let nt = normalize_target_exec(target);
    let n = pins.len();
    let mut i: usize = 0;
    while i < n
        invariant
            n == pins@.len(),
            ps == pin_views(pins@),
            nt@ == normalize_target(target@),
            i <= n,
            forall|j: int| 0 <= j < i ==> normalize_target(#[trigger] ps[j].1) != normalize_target(target@),
        decreases n - i,
    {
        let tc = chars_of(pins[i].target.as_str());
        assert(ps[i as int].1 == tc@);
        let p = normalize_target_exec(tc.as_slice());
        if crate::text::seq_eq(p.as_slice(), nt.as_slice()) {
            return true;
        }
        i = i + 1;
    }
    false
}

fn lines_join_newline(ls: &Vec<Vec<char>>) -> (r: String)
    ensures
        r@ == ensure_trailing_newline(crate::text::join(crate::text::views(ls@), "\n"@)),
{
    let nl = chars_of("\n");
    let j = crate::text::join_exec(ls, nl.as_slice());
    ensure_trailing_newline_exec(j.as_slice())
}

impl DashboardService {
    /// Pins an entity on the hub: adds a `- [title](target)` line to the
    /// pinned section unless a pin already points at the target.
    pub fn pin_dashboard_entity(markdown: &str, title: &str, target: &str) -> (r: String)
        ensures
            r@ == pinned_markdown(markdown@, title@, target@),
    {
        let pins = parse_pin_targets(markdown);
        let tc = chars_of(target);
        let md = chars_of(markdown);
        if has_pin_to(&pins, tc.as_slice()) {
            return ensure_trailing_newline_exec(md.as_slice());
        }
        let mut line = chars_of("- [");
        crate::text::append_str(&mut line, title);
        crate::text::append_str(&mut line, "](");
        crate::text::append_str(&mut line, target);
        crate::text::append_str(&mut line, ")");
        let mut ls = crate::text::lines_exec(md.as_slice());
        let ghost lv = crate::text::views(ls@);
        proof {
            lemma_line_search_bounds(lv, 0);
        }
        match find_pinned_heading(&ls) {
            Some(hi) => {
                let nl = ls.len();
                assert(hi < nl);
                proof {
                    lemma_line_search_bounds(lv, hi + 1);
                }
                let ins = find_nonblank(&ls, hi + 1);
                ls.insert(ins, line);
                let ghost lv2 = lv.insert(ins as int, line@);
                assert(crate::text::views(ls@) =~= lv2);
                if ins == hi + 1 {
                    ls.insert(ins, Vec::new());
                    assert(crate::text::views(ls@) =~= lv2.insert(ins as int, seq![]));
                }
                lines_join_newline(&ls)
            },
            None => {
                let ins = match find_identity_line(&ls) {
                    Some(i) => i,
                    None => ls.len(),
                };
                let mut out: Vec<Vec<char>> = Vec::new();
                let mut k: usize = 0;
                while k < ins
                    invariant
                        lv == crate::text::views(ls@),
                        ins <= ls@.len(),
                        k <= ins,
                        crate::text::views(out@) == lv.take(k as int),
                    decreases ins - k,
                {
                    let c = crate::text::slice_vec(ls[k].as_slice(), 0, ls[k].len());
                    assert(c@ =~= ls@[k as int]@);
                    let ghost before = crate::text::views(out@);
                    out.push(c);
                    assert(crate::text::views(out@) =~= before.push(c@));
                    assert(lv.take(k + 1) =~= lv.take(k as int).push(lv[k as int]));
                    k = k + 1;
                }
                let ghost head = crate::text::views(out@);
                out.push(Vec::new());
                out.push(chars_of("## Pinned Entities"));
                out.push(Vec::new());
                out.push(line);
                out.push(Vec::new());
                let ghost mid = head + seq![seq![], "## Pinned Entities"@, seq![], line@, seq![]];
                assert(crate::text::views(out@) =~= mid);
                let n = ls.len();
                let mut k = ins;
                while k < n
                    invariant
                        lv == crate::text::views(ls@),
                        n == ls@.len(),
                        ins <= k <= n,
                        crate::text::views(out@) == mid + lv.subrange(ins as int, k as int),
                    decreases n - k,
                {
                    let c = crate::text::slice_vec(ls[k].as_slice(), 0, ls[k].len());
                    assert(c@ =~= ls@[k as int]@);
                    let ghost before = crate::text::views(out@);
                    out.push(c);
                    assert(crate::text::views(out@) =~= before.push(c@));
                    assert(mid + lv.subrange(ins as int, k + 1) =~= (mid + lv.subrange(ins as int, k as int)).push(lv[k as int]));
                    k = k + 1;
                }
                assert(lv.subrange(ins as int, n as int) =~= lv.skip(ins as int));
                lines_join_newline(&out)
            },
        }
    }
}

/// What removing a pin has kept so far: whether a pinned section is open,
/// at which level, and the lines kept.
pub struct UnpinScan {
    pub in_section: bool,
    pub level: nat,
    pub kept: Seq<Seq<char>>,
}

/// What one more line does: headings are kept and move the section state;
/// a line of the pinned section that points at the entity is dropped.
pub open spec fn unpin_step(
    st: UnpinScan,
    line: Seq<char>,
    document_id: Seq<char>,
    title: Seq<char>,
    target: Seq<char>,
) -> UnpinScan {
    match heading_of(crate::text::trim(line)) {
        Some((lv, h)) => {
            let (i, l) = after_heading(st.in_section, st.level, lv, h);
            UnpinScan { in_section: i, level: l, kept: st.kept.push(line) }
        },
        None => if st.in_section && targets_entity(line, document_id, title, target) {
            st
        } else {
            UnpinScan { kept: st.kept.push(line), ..st }
        },
    }
}

/// What the lines add up to.
pub open spec fn unpin_scan(
    ls: Seq<Seq<char>>,
    document_id: Seq<char>,
    title: Seq<char>,
    target: Seq<char>,
) -> UnpinScan
    decreases ls.len(),
{
    if ls.len() == 0 {
        UnpinScan { in_section: false, level: 0, kept: seq![] }
    } else {
        unpin_step(unpin_scan(ls.drop_last(), document_id, title, target), ls.last(), document_id, title, target)
    }
}

/// The hub's Markdown without the pinned-section lines that point at the
/// entity.
pub open spec fn unpinned_markdown(
    markdown: Seq<char>,
    document_id: Seq<char>,
    title: Seq<char>,
    target: Seq<char>,
) -> Seq<char> {
    ensure_trailing_newline(
        crate::text::join(
            unpin_scan(crate::text::lines(markdown), document_id, title, target).kept,
            "\n"@,
        ),
    )
}

impl DashboardService {
    /// Unpins an entity: drops the lines of the pinned section whose links
    /// point at it by path, document ID or title.
    pub fn unpin_dashboard_entity(markdown: &str, document_id: &str, title: &str, target: &str) -> (r:
        String)
        ensures
            r@ == unpinned_markdown(markdown@, document_id@, title@, target@),
    {
        let md = chars_of(markdown);
        let ls = crate::text::lines_exec(md.as_slice());
        let ghost lv = crate::text::views(ls@);
        let id = chars_of(document_id);
        let ti = chars_of(title);
        let ta = chars_of(target);
        let mut kept: Vec<Vec<char>> = Vec::new();
        let mut in_section = false;
        let mut level: usize = 0;
        let n = ls.len();
        let mut i: usize = 0;
        assert(lv.take(0) =~= Seq::<Seq<char>>::empty());
        assert(crate::text::views(kept@) =~= Seq::<Seq<char>>::empty());
        while i < n
            invariant
                n == ls@.len(),
                lv == crate::text::views(ls@),
                id@ == document_id@,
                ti@ == title@,
                ta@ == target@,
                i <= n,
                unpin_scan(lv.take(i as int), document_id@, title@, target@) == (UnpinScan {
                    in_section,
                    level: level as nat,
                    kept: crate::text::views(kept@),
                }),
            decreases n - i,
        {
            let ghost t = lv.take(i + 1);
            assert(t.drop_last() =~= lv.take(i as int));
            assert(t.last() == ls@[i as int]@);
            let line = ls[i].as_slice();
            let tr = crate::text::trim_exec(line);
            let ghost before = crate::text::views(kept@);
            match heading_of_exec(tr.as_slice()) {
                Some((lvl, h)) => {
                    if pinned_heading_exec(h.as_slice()) {
                        in_section = true;
                        level = lvl;
                    } else if in_section && lvl <= level {
                        in_section = false;
                    }
                    let c = crate::text::slice_vec(line, 0, line.len());
                    assert(c@ =~= line@);
                    kept.push(c);
                    assert(crate::text::views(kept@) =~= before.push(line@));
                },
                None => {
                    if !(in_section && line_targets_entity(line, id.as_slice(), ti.as_slice(), ta.as_slice())) {
                        let c = crate::text::slice_vec(line, 0, line.len());
                        assert(c@ =~= line@);
                        kept.push(c);
                        assert(crate::text::views(kept@) =~= before.push(line@));
                    }
                },
            }
            i = i + 1;
        }
        assert(lv.take(n as int) =~= lv);
        lines_join_newline(&kept)
    }
}

/// The title of a Markdown body: the text of its first `# ` line, or the
/// fallback where that text is empty or there is no such line.
pub open spec fn markdown_title(body: Seq<char>, fallback: Seq<char>) -> Seq<char> {
    let ls = crate::text::lines(body);
    match crate::habits::first_title_line(ls, 0) {
        Some(i) => {
            let t = crate::text::trim(crate::text::trim(ls[i]).skip(2));
            if t.len() > 0 {
                t
            } else {
                fallback
            }
        },
        None => fallback,
    }
}

/// The title of a Markdown body.
pub fn markdown_title_exec(body: &str, fallback: &str) -> (r: String)
    ensures
        r@ == markdown_title(body@, fallback@),
{
    let md = chars_of(body);
    let ls = crate::text::lines_exec(md.as_slice());
    let ghost lv = crate::text::views(ls@);
    match crate::habits::find_title_line(&ls) {
        None => owned(fallback),
        Some(i) => {
            proof {
                crate::habits::lemma_first_title_line(lv, 0);
                reveal_strlit("# ");
            }
            let t = crate::text::trim_exec(ls[i].as_slice());
            assert(lv[i as int] == ls@[i as int]@);
            let rest = crate::text::slice_vec(t.as_slice(), 2, t.len());
            assert(rest@ =~= t@.skip(2));
            let title = crate::text::trim_exec(rest.as_slice());
            if title.len() > 0 {
                crate::text::string_of(title.as_slice())
            } else {
                owned(fallback)
            }
        },
    }
}


// ---------------------------------------------------------------------------
// The dashboard hub
// ---------------------------------------------------------------------------

/// A pinned entity of the dashboard, resolved to a scanned document.
pub struct DashboardPinnedEntity {
    pub label: String,
    pub target: String,
    pub document_id: String,
    pub title: String,
    pub markdown_relative_path: String,
    pub entity_type: String,
}

/// The entity count of a module, for the dashboard.
pub struct DashboardModuleSummary {
    pub module_id: String,
    pub display_name: String,
    pub status: String,
    pub entity_count: usize,
    pub index_path: String,
}

/// The dashboard hub as read.
pub struct DashboardHubDocument {
    pub document_id: Option<String>,
    pub markdown_relative_path: String,
    pub title: String,
    pub markdown_body: String,
    pub pinned_entities: Vec<DashboardPinnedEntity>,
    pub unresolved_pins: Vec<String>,
    pub module_summaries: Vec<DashboardModuleSummary>,
    pub warnings: Vec<String>,
}

/// A pin target names a scanned document: by path (for a managed
/// document), by title, by document id, or by title after an entity prefix.
pub open spec fn pin_names(target: Seq<char>, d: crate::workspace_scanner::ScannedDocument) -> bool {
    let t = normalize_target(target);
    ||| (d.document_id is Some && normalize_target(d.markdown_relative_path@) == t)
    ||| normalize_target(d.title@) == t
    ||| (d.document_id matches Some(id) && normalize_target(id@) == t)
    ||| normalize_target(strip_entity_prefix(target)) == normalize_target(d.title@)
}

/// The first scanned document a pin target names.
pub open spec fn first_named(target: Seq<char>, ds: Seq<crate::workspace_scanner::ScannedDocument>, k: int) -> Option<int>
    decreases ds.len() - k,
{
    if k < 0 || k >= ds.len() {
        None
    } else if pin_names(target, ds[k]) {
        Some(k)
    } else {
        first_named(target, ds, k + 1)
    }
}

fn text_eq(a: &[char], b: &[char]) -> (r: bool)
    ensures
        r == (a@ == b@),
{
    crate::text::seq_eq(a, b)
}

fn pin_names_exec(target: &[char], d: &crate::workspace_scanner::ScannedDocument) -> (r: bool)
    ensures
        r == pin_names(target@, *d),
{
    let t = normalize_target_exec(target);
    let p = chars_of(d.markdown_relative_path.as_str());
    let np = normalize_target_exec(p.as_slice());
    if d.document_id.is_some() && text_eq(np.as_slice(), t.as_slice()) {
        return true;
    }
    let ti = chars_of(d.title.as_str());
    let nt = normalize_target_exec(ti.as_slice());
    if text_eq(nt.as_slice(), t.as_slice()) {
        return true;
    }
    match &d.document_id {
        Some(id) => {
            let ic = chars_of(id.as_str());
            let ni = normalize_target_exec(ic.as_slice());
            if text_eq(ni.as_slice(), t.as_slice()) {
                return true;
            }
        },
        None => {},
    }
    let sp = strip_entity_prefix_exec(target);
    let ns = normalize_target_exec(sp.as_slice());
    text_eq(ns.as_slice(), nt.as_slice())
}

/// The first scanned document a pin target names.
pub fn resolve_pin(target: &str, documents: &Vec<crate::workspace_scanner::ScannedDocument>) -> (r: Option<usize>)
    ensures
        match r {
            Some(i) => first_named(target@, documents@, 0) == Some(i as int) && i < documents@.len(),
            None => first_named(target@, documents@, 0) is None,
        },
{
    let t = chars_of(target);
    let n = documents.len();
    let mut k: usize = 0;
    while k < n
        invariant
            n == documents@.len(),
            k <= n,
            t@ == target@,
            first_named(target@, documents@, 0) == first_named(target@, documents@, k as int),
        decreases n - k,
    {
        if pin_names_exec(t.as_slice(), &documents[k]) {
            return Some(k);
        }
        k = k + 1;
    }
    None
}

/// How many scanned documents with an id, other than the module's own
/// index, have the module's document type.
pub open spec fn module_entity_count(
    ds: Seq<crate::workspace_scanner::ScannedDocument>,
    m: crate::module_registry::ModuleView,
) -> nat
    decreases ds.len(),
{
    if ds.len() == 0 {
        0
    } else {
        let d = ds.last();
        module_entity_count(ds.drop_last(), m) + if d.document_id is Some && d.markdown_relative_path@
            != m.default_path && d.document_type@ == m.document_type {
            1nat
        } else {
            0nat
        }
    }
}

/// The view of a module summary.
pub open spec fn module_summary_view(s: DashboardModuleSummary) -> (Seq<char>, Seq<char>, Seq<char>, nat, Seq<char>) {
    (s.module_id@, s.display_name@, s.status@, s.entity_count as nat, s.index_path@)
}

/// The entity counts of the core modules, in their order.
pub fn module_summaries(documents: &Vec<crate::workspace_scanner::ScannedDocument>) -> (r: Vec<DashboardModuleSummary>)
    ensures
        r@.len() == crate::module_registry::core_module_views().len(),
        forall|k: int|
            0 <= k < r@.len() ==> {
                let m = crate::module_registry::core_module_views()[k];
                module_summary_view(#[trigger] r@[k]) == (
                    m.id,
                    m.display_name,
                    m.implementation_status,
                    module_entity_count(documents@, m),
                    m.default_path,
                )
            },
{
    let modules = crate::module_registry::ModuleRegistry::core_modules();
    let ghost mv = crate::module_registry::module_views(modules@);
    let mut out: Vec<DashboardModuleSummary> = Vec::new();
    let m = modules.len();
    let mut k: usize = 0;
    while k < m
        invariant
            m == modules@.len(),
            mv == crate::module_registry::module_views(modules@),
            mv == crate::module_registry::core_module_views(),
            k <= m,
            out@.len() == k,
            forall|q: int|
                0 <= q < k ==> module_summary_view(#[trigger] out@[q]) == (
                    mv[q].id,
                    mv[q].display_name,
                    mv[q].implementation_status,
                    module_entity_count(documents@, mv[q]),
                    mv[q].default_path,
                ),
        decreases m - k,
    {
        let module = &modules[k];
        assert(mv[k as int] == crate::module_registry::module_view(*module));
        let n = documents.len();
        let mut c: usize = 0;
        let mut i: usize = 0;
        while i < n
            invariant
                n == documents@.len(),
                i <= n,
                c <= i,
                c == module_entity_count(documents@.take(i as int), crate::module_registry::module_view(*module)),
            decreases n - i,
        {
            let d = &documents[i];
            assert(documents@.take(i + 1).drop_last() =~= documents@.take(i as int));
            assert(documents@.take(i + 1).last() == *d);
            if d.document_id.is_some() && !crate::text::eq_str_string(&d.markdown_relative_path, &module.default_path)
                && crate::text::eq_str_string(&d.document_type, &module.document_type) {
                c = c + 1;
            }
            i = i + 1;
        }
        assert(documents@.take(n as int) =~= documents@);
        out.push(DashboardModuleSummary {
            module_id: module.id.clone(),
            display_name: module.display_name.clone(),
            status: module.implementation_status.clone(),
            entity_count: c,
            index_path: module.default_path.clone(),
        });
        k = k + 1;
    }
    out
}

impl DashboardService {
    /// The dashboard hub from its Markdown and a scan of the vault: its id,
    /// body (frontmatter and identity comment removed, trimmed) and title;
    /// each pin resolved to the first document it names (pins that name a
    /// document without an id are left out, those that name none listed as
    /// unresolved); the core modules' entity counts; and the scan's issue
    /// messages as warnings.
    pub fn read_dashboard_hub(markdown: &str, scan: &crate::workspace_scanner::WorkspaceScanResult) -> (r:
        DashboardHubDocument)
        ensures
            crate::theme::opt_string_view(r.document_id) == match crate::document_identity::identity_comment(markdown@) {
                Some(p) => Some(p.0),
                None => None,
            },
            r.markdown_relative_path@ == DASHBOARD_INDEX_PATH@,
            r.markdown_body@ == crate::text::trim(
                crate::document_identity::without_identity_comments(
                    crate::markdown_document::parsed_frontmatter(markdown@).1,
                ),
            ),
            r.title@ == markdown_title(r.markdown_body@, "Dashboard"@),
            r.warnings@.len() == scan.issues@.len(),
            forall|k: int| 0 <= k < r.warnings@.len() ==> (#[trigger] r.warnings@[k])@ == scan.issues@[k].message@,
    {
        let parsed = crate::markdown_document::MarkdownDocumentService::parse_frontmatter(markdown);
        let document_id = match crate::document_identity::DocumentIdentityService::find_identity_comment(markdown) {
            Some(c) => Some(c.document_id),
            None => None,
        };
        let without = crate::document_identity::DocumentIdentityService::remove_identity_comments(parsed.body.as_str());
        let trimmed = crate::text::trim_str(without.as_str());
        let body = crate::text::string_of(trimmed.as_slice());
        let pins = parse_pin_targets(body.as_str());
        let mut pinned: Vec<DashboardPinnedEntity> = Vec::new();
        let mut unresolved: Vec<String> = Vec::new();
        let mut i: usize = 0;
        while i < pins.len()
            invariant
                i <= pins@.len(),
            decreases pins@.len() - i,
        {
            let pin = &pins[i];
            match resolve_pin(pin.target.as_str(), &scan.documents) {
                Some(k) => {
                    let d = &scan.documents[k];
                    match &d.document_id {
                        Some(id) => {
                            pinned.push(DashboardPinnedEntity {
                                label: pin.label.clone(),
                                target: pin.target.clone(),
                                document_id: id.clone(),
                                title: d.title.clone(),
                                markdown_relative_path: d.markdown_relative_path.clone(),
                                entity_type: d.document_type.clone(),
                            });
                        },
                        None => {},
                    }
                },
                None => {
                    unresolved.push(pin.target.clone());
                },
            }
            i = i + 1;
        }
        let mut warnings: Vec<String> = Vec::new();
        let mut j: usize = 0;
        while j < scan.issues.len()
            invariant
                j <= scan.issues@.len(),
                warnings@.len() == j,
                forall|k: int| 0 <= k < j ==> (#[trigger] warnings@[k])@ == scan.issues@[k].message@,
            decreases scan.issues@.len() - j,
        {
            warnings.push(scan.issues[j].message.clone());
            j = j + 1;
        }
        let title = markdown_title_exec(body.as_str(), "Dashboard");
        DashboardHubDocument {
            document_id,
            markdown_relative_path: crate::text::owned(DASHBOARD_INDEX_PATH),
            title,
            markdown_body: body,
            pinned_entities: pinned,
            unresolved_pins: unresolved,
            module_summaries: module_summaries(&scan.documents),
            warnings,
        }
    }
}

} // verus!

verus! {

/// A managed index a V3 vault scaffold holds: its path, the Markdown it is
/// created with where it does not exist, and its document type.
pub struct ScaffoldIndex {
    pub relative_path: String,
    pub default_markdown: String,
    pub document_type: String,
}

/// The view of a scaffold index.
pub open spec fn scaffold_index_view(i: ScaffoldIndex) -> (Seq<char>, Seq<char>, Seq<char>) {
    (i.relative_path@, i.default_markdown@, i.document_type@)
}

/// The Markdown a new hub starts with.
pub open spec fn default_dashboard_markdown() -> Seq<char> {
    "# Today\n\n## Pinned Entities\n\nAdd links to important BentoLife entities here.\n\n## Modules\n\nCore module summaries are generated by BentoLife.\n"@
}

/// The Markdown a new module dashboard starts with.
pub open spec fn module_index_markdown(module_id: Seq<char>, display_name: Seq<char>) -> Seq<char> {
    "# "@ + display_name + "\n\nThis module dashboard summarizes BentoLife "@ + module_id + " entities.\n"@
}

/// The managed indexes of a V3 vault, in the order they are ensured: the
/// hub, the module dashboards of the navigator and the four content
/// modules, then the trash's and the archive's indexes.
pub open spec fn scaffold_indexes() -> Seq<(Seq<char>, Seq<char>, Seq<char>)> {
    seq![
        ("INDEX.md"@, default_dashboard_markdown(), "dashboard"@),
        ("modules/navigator/INDEX.md"@, module_index_markdown("navigator"@, "Navigator"@), "navigator"@),
        ("modules/notes/INDEX.md"@, module_index_markdown("notes"@, "Notes"@), "notes"@),
        ("modules/todos/INDEX.md"@, module_index_markdown("todos"@, "Todos"@), "todos"@),
        ("modules/contacts/INDEX.md"@, module_index_markdown("contacts"@, "Contacts"@), "contacts"@),
        ("modules/habits/INDEX.md"@, module_index_markdown("habits"@, "Habits"@), "habits"@),
        (
            "modules/trash/INDEX.md"@,
            "# Trash\n\nDeleted records are stored internally under `.bentolifelayout/trash/` until explicitly restored or permanently removed.\n"@,
            "trash"@,
        ),
        (
            "modules/archive/INDEX.md"@,
            "# Archive\n\nArchived records are stored internally under `.bentolifelayout/archive/` until explicitly restored.\n"@,
            "archive"@,
        ),
    ]
}

fn module_index(module_id: &str, display_name: &str) -> (r: ScaffoldIndex)
    ensures
        scaffold_index_view(r) == ("modules/"@ + module_id@ + "/INDEX.md"@, module_index_markdown(
            module_id@,
            display_name@,
        ), module_id@),
{
    let mut p = chars_of("modules/");
    crate::text::append_str(&mut p, module_id);
    crate::text::append_str(&mut p, "/INDEX.md");
    let mut m = chars_of("# ");
    crate::text::append_str(&mut m, display_name);
    crate::text::append_str(&mut m, "\n\nThis module dashboard summarizes BentoLife ");
    crate::text::append_str(&mut m, module_id);
    crate::text::append_str(&mut m, " entities.\n");
    ScaffoldIndex {
        relative_path: crate::text::string_of(p.as_slice()),
        default_markdown: crate::text::string_of(m.as_slice()),
        document_type: owned(module_id),
    }
}

/// The managed indexes a V3 vault scaffold ensures (see
/// `scaffold_indexes`); the files and folders it holds besides are
/// `required_v3_paths`.
pub fn v3_scaffold_indexes() -> (r: Vec<ScaffoldIndex>)
    ensures
        r@.map_values(|i: ScaffoldIndex| scaffold_index_view(i)) == scaffold_indexes(),
{
    let mut r: Vec<ScaffoldIndex> = Vec::new();
    r.push(ScaffoldIndex {
        relative_path: owned("INDEX.md"),
        default_markdown: owned(
            "# Today\n\n## Pinned Entities\n\nAdd links to important BentoLife entities here.\n\n## Modules\n\nCore module summaries are generated by BentoLife.\n",
        ),
        document_type: owned("dashboard"),
    });
    r.push(module_index("navigator", "Navigator"));
    r.push(module_index("notes", "Notes"));
    r.push(module_index("todos", "Todos"));
    r.push(module_index("contacts", "Contacts"));
    r.push(module_index("habits", "Habits"));
    r.push(ScaffoldIndex {
        relative_path: owned("modules/trash/INDEX.md"),
        default_markdown: owned(
            "# Trash\n\nDeleted records are stored internally under `.bentolifelayout/trash/` until explicitly restored or permanently removed.\n",
        ),
        document_type: owned("trash"),
    });
    r.push(ScaffoldIndex {
        relative_path: owned("modules/archive/INDEX.md"),
        default_markdown: owned(
            "# Archive\n\nArchived records are stored internally under `.bentolifelayout/archive/` until explicitly restored.\n",
        ),
        document_type: owned("archive"),
    });
    proof {
        reveal_strlit("modules/");
        reveal_strlit("/INDEX.md");
        reveal_strlit("navigator");
        reveal_strlit("notes");
        reveal_strlit("todos");
        reveal_strlit("contacts");
        reveal_strlit("habits");
        reveal_strlit("modules/navigator/INDEX.md");
        reveal_strlit("modules/notes/INDEX.md");
        reveal_strlit("modules/todos/INDEX.md");
        reveal_strlit("modules/contacts/INDEX.md");
        reveal_strlit("modules/habits/INDEX.md");
    }
    assert("modules/"@ + "navigator"@ + "/INDEX.md"@ =~= "modules/navigator/INDEX.md"@);
    assert("modules/"@ + "notes"@ + "/INDEX.md"@ =~= "modules/notes/INDEX.md"@);
    assert("modules/"@ + "todos"@ + "/INDEX.md"@ =~= "modules/todos/INDEX.md"@);
    assert("modules/"@ + "contacts"@ + "/INDEX.md"@ =~= "modules/contacts/INDEX.md"@);
    assert("modules/"@ + "habits"@ + "/INDEX.md"@ =~= "modules/habits/INDEX.md"@);
    let ghost v = r@.map_values(|i: ScaffoldIndex| scaffold_index_view(i));
    assert(v.len() == 8);
    assert forall|k: int| 0 <= k < 8 implies #[trigger] v[k] == scaffold_indexes()[k] by {
        assert(v[k] == scaffold_index_view(r@[k]));
    }
    assert(r@.map_values(|i: ScaffoldIndex| scaffold_index_view(i)) =~= scaffold_indexes());
    r
}

} // verus!

verus! {

/// Law: a module's entity count is the number of documents with an id,
/// other than the module's own index, whose type is the module's; a
/// document of another type leaves it unchanged.
pub proof fn law_module_entity_count(
    ds: Seq<crate::workspace_scanner::ScannedDocument>,
    d: crate::workspace_scanner::ScannedDocument,
    m: crate::module_registry::ModuleView,
)
    ensures
        module_entity_count(ds, m) == ds.filter(
            |x: crate::workspace_scanner::ScannedDocument|
                x.document_id is Some && x.markdown_relative_path@ != m.default_path && x.document_type@
                    == m.document_type,
        ).len(),
        d.document_type@ != m.document_type ==> module_entity_count(ds.push(d), m) == module_entity_count(ds, m),
    decreases ds.len(),
{
    reveal(Seq::filter);
    assert(ds.push(d).drop_last() =~= ds);
    if ds.len() > 0 {
        law_module_entity_count(ds.drop_last(), ds.last(), m);
    }
}

} // verus!
