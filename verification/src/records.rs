//! Text rules that module records share: titles, file names, slugs,
//! bodies and excerpts of the Markdown documents a module keeps.
use vstd::prelude::*;
use crate::text::{chars_of, eq_str, owned, string_of, views};

verus! {

/// The last part of a `/`-separated path that is neither empty nor `.`.
pub open spec fn last_component(parts: Seq<Seq<char>>) -> Option<Seq<char>>
    decreases parts.len(),
{
    if parts.len() == 0 {
        None
    } else if parts.last().len() > 0 && parts.last() != "."@ {
        Some(parts.last())
    } else {
        last_component(parts.drop_last())
    }
}

/// The file name of a path (`Path::file_name` on `/`-separated paths): its
/// last part, unless that is `..` or there is none.
pub open spec fn file_name_of(path: Seq<char>) -> Option<Seq<char>> {
    match last_component(crate::text::split_char(path, '/')) {
        Some(x) => if x == ".."@ {
            None
        } else {
            Some(x)
        },
        None => None,
    }
}

/// The file name of a path.
pub fn file_name_exec(path: &[char]) -> (r: Option<Vec<char>>)
    ensures
        match file_name_of(path@) {
            Some(x) => r matches Some(v) && v@ == x,
            None => r is None,
        },
{
    let parts = crate::text::split_exec(path, '/');
    let ghost ps = views(parts@);
    let mut k: usize = parts.len();
    assert(ps.take(k as int) =~= ps);
    while k > 0
        invariant
            ps == views(parts@),
            ps == crate::text::split_char(path@, '/'),
            k <= parts@.len(),
            last_component(ps) == last_component(ps.take(k as int)),
        decreases k,
    {
        let p = &parts[k - 1];
        assert(ps.take(k as int).last() == p@);
        if p.len() > 0 && !eq_str(p.as_slice(), ".") {
            assert(last_component(ps.take(k as int)) == Some(p@));
            assert(crate::text::split_char(path@, '/') == ps);
            if eq_str(p.as_slice(), "..") {
                return None;
            }
            let v = crate::text::slice_vec(p.as_slice(), 0, p.len());
            assert(v@ =~= p@);
            return Some(v);
        }
        assert(ps.take(k as int).drop_last() =~= ps.take(k - 1));
        k = k - 1;
    }
    None
}

/// A title taken from a path: its file stem, or a default, with `-` read
/// as a space.
pub open spec fn fallback_title_from_path(path: Seq<char>, default: Seq<char>) -> Seq<char> {
    let stem = match file_name_of(path) {
        Some(n) => crate::import_export::file_stem_of(n),
        None => default,
    };
    crate::text::replace_char(stem, '-', ' ')
}

fn file_stem(name: &[char]) -> (r: Vec<char>)
    ensures
        r@ == crate::import_export::file_stem_of(name@),
{
    let dot = chars_of(".");
    match crate::text::rfind_exec(name, dot.as_slice()) {
        None => crate::text::slice_vec(name, 0, name.len()),
        Some(p) => {
            proof {
                reveal_strlit(".");
                crate::text::lemma_rfind_from(name@, "."@, name@.len() - 1);
            }
            if p == 0 {
                crate::text::slice_vec(name, 0, name.len())
            } else {
                crate::text::slice_vec(name, 0, p)
            }
        },
    }
}

/// A title taken from a path.
pub fn fallback_title(path: &str, default: &str) -> (r: String)
    ensures
        r@ == fallback_title_from_path(path@, default@),
{
    let p = chars_of(path);
    let stem = match file_name_exec(p.as_slice()) {
        Some(n) => file_stem(n.as_slice()),
        None => chars_of(default),
    };
    let r = crate::text::replace_char_exec(stem.as_slice(), '-', ' ');
    string_of(r.as_slice())
}

/// The title of a Markdown body: its first `# ` heading, or the title
/// taken from its path.
pub open spec fn record_title(body: Seq<char>, path: Seq<char>, default: Seq<char>) -> Seq<char> {
    crate::dashboard::markdown_title(body, fallback_title_from_path(path, default))
}

/// The title of a Markdown body.
pub fn markdown_title(body: &str, path: &str, default: &str) -> (r: String)
    ensures
        r@ == record_title(body@, path@, default@),
{
    let f = fallback_title(path, default);
    crate::dashboard::markdown_title_exec(body, f.as_str())
}

/// A title trimmed, or a default where it is blank.
pub open spec fn cleaned_title(title: Seq<char>, default: Seq<char>) -> Seq<char> {
    let t = crate::text::trim(title);
    if t.len() == 0 {
        default
    } else {
        t
    }
}

/// A title trimmed, or a default where it is blank.
pub fn clean_title(title: &str, default: &str) -> (r: String)
    ensures
        r@ == cleaned_title(title@, default@),
{
    let t = crate::text::trim_str(title);
    if t.len() == 0 {
        owned(default)
    } else {
        string_of(t.as_slice())
    }
}

/// The characters a slug keeps, each run of others written as one `-`,
/// and whether it ends in such a `-`.
pub open spec fn slug_dashed(s: Seq<char>) -> (Seq<char>, bool)
    decreases s.len(),
{
    if s.len() == 0 {
        (seq![], false)
    } else {
        let (o, d) = slug_dashed(s.drop_last());
        if crate::text::is_ascii_alnum(s.last()) {
            (o.push(s.last()), false)
        } else if !d {
            (o.push('-'), true)
        } else {
            (o, d)
        }
    }
}

/// The slug of a title: trimmed and lowercased, ASCII letters and digits
/// kept, each run of other characters written as one `-`, `-` trimmed from
/// both ends; a default where nothing is left.
pub open spec fn slug_of(title: Seq<char>, default: Seq<char>) -> Seq<char> {
    let s = crate::text::trim_by(
        slug_dashed(crate::text::unicode_lowercase(crate::text::trim(title))).0,
        crate::text::Strip::Char('-'),
    );
    if s.len() == 0 {
        default
    } else {
        s
    }
}

fn slug_dashed_exec(s: &[char]) -> (r: Vec<char>)
    ensures
        r@ == slug_dashed(s@).0,
{
    let mut out: Vec<char> = Vec::new();
    let mut last_dash = false;
    let n = s.len();
    let mut i: usize = 0;
    assert(s@.take(0) =~= Seq::<char>::empty());
    while i < n
        invariant
            n == s@.len(),
            i <= n,
            (out@, last_dash) == slug_dashed(s@.take(i as int)),
        decreases n - i,
    {
        assert(s@.take(i + 1).drop_last() =~= s@.take(i as int));
        assert(s@.take(i + 1).last() == s@[i as int]);
        let c = s[i];
        if crate::text::is_ascii_alnum_exec(c) {
            out.push(c);
            last_dash = false;
        } else if !last_dash {
            out.push('-');
            last_dash = true;
        }
        i = i + 1;
    }
    assert(s@.take(n as int) =~= s@);
    out
}

/// The slug of a title.
pub fn slugify(title: &str, default: &str) -> (r: String)
    ensures
        r@ == slug_of(title@, default@),
{
    let t = crate::text::trim_str(title);
    let l = crate::text::lowercase_chars(t.as_slice());
    let d = slug_dashed_exec(l.as_slice());
    let s = crate::text::trim_by_exec(d.as_slice(), crate::text::Strip::Char('-'));
    if s.len() == 0 {
        owned(default)
    } else {
        string_of(s.as_slice())
    }
}

/// Some line, after leading whitespace, starts with `# `.
pub open spec fn has_h1_line(body: Seq<char>) -> bool {
    exists|i: int|
        0 <= i < crate::text::lines(body).len() && crate::text::has_prefix(
            crate::text::trim_start(#[trigger] crate::text::lines(body)[i]),
            "# "@,
        )
}

fn h1_line_index(ls: &Vec<Vec<char>>) -> (r: Option<usize>)
    ensures
        match r {
            Some(i) => i < ls@.len() && crate::text::has_prefix(crate::text::trim_start(views(ls@)[i as int]), "# "@)
                && forall|j: int| 0 <= j < i ==> !crate::text::has_prefix(crate::text::trim_start(#[trigger] views(ls@)[j]), "# "@),
            None => forall|j: int| 0 <= j < ls@.len() ==> !crate::text::has_prefix(crate::text::trim_start(#[trigger] views(ls@)[j]), "# "@),
        },
{
    let n = ls.len();
    let mut i: usize = 0;
    while i < n
        invariant
            n == ls@.len(),
            i <= n,
            forall|j: int| 0 <= j < i ==> !crate::text::has_prefix(crate::text::trim_start(#[trigger] views(ls@)[j]), "# "@),
        decreases n - i,
    {
        let t = crate::text::trim_start_exec(ls[i].as_slice(), crate::text::Strip::Whitespace);
        assert(views(ls@)[i as int] == ls@[i as int]@);
        if crate::text::starts_with_str(t.as_slice(), "# ") {
            return Some(i);
        }
        i = i + 1;
    }
    None
}

/// The body a new record is written with: for a blank body, a `# ` title
/// line and a tail; a body with a `# ` line as it is; otherwise a `# ` title
/// line, a blank line and the body; each ending in a newline.
pub open spec fn new_record_body(title: Seq<char>, body: Seq<char>, empty_tail: Seq<char>) -> Seq<char> {
    let b = crate::text::trim(body);
    if b.len() == 0 {
        "# "@ + title + "\n"@ + empty_tail
    } else if has_h1_line(b) {
        b + "\n"@
    } else {
        "# "@ + title + "\n\n"@ + b + "\n"@
    }
}

/// The body a new record is written with.
pub fn normalize_record_body(title: &str, body: &str, empty_tail: &str) -> (r: String)
    ensures
        r@ == new_record_body(title@, body@, empty_tail@),
{
    let b = crate::text::trim_str(body);
    if b.len() == 0 {
        let mut v = chars_of("# ");
        crate::text::append_str(&mut v, title);
        crate::text::append_str(&mut v, "\n");
        crate::text::append_str(&mut v, empty_tail);
        return string_of(v.as_slice());
    }
    let ls = crate::text::lines_exec(b.as_slice());
    let found = h1_line_index(&ls);
    proof {
        if found is Some {
            let i = found->0 as int;
            assert(crate::text::lines(b@)[i] == views(ls@)[i]);
        } else {
            assert forall|i: int| 0 <= i < crate::text::lines(b@).len() implies !crate::text::has_prefix(
                crate::text::trim_start(#[trigger] crate::text::lines(b@)[i]),
                "# "@,
            ) by {
                assert(crate::text::lines(b@)[i] == views(ls@)[i]);
            }
        }
    }
    if found.is_some() {
        let mut v = b;
        crate::text::append_str(&mut v, "\n");
        string_of(v.as_slice())
    } else {
        let mut v = chars_of("# ");
        crate::text::append_str(&mut v, title);
        crate::text::append_str(&mut v, "\n\n");
        crate::text::append(&mut v, b.as_slice());
        crate::text::append_str(&mut v, "\n");
        string_of(v.as_slice())
    }
}

/// A body kept as it is when it has content, or a `# ` title taken from
/// the path; each ending in a newline.
pub open spec fn body_with_title(body: Seq<char>, path: Seq<char>, default: Seq<char>) -> Seq<char> {
    let b = crate::text::trim(body);
    if b.len() == 0 {
        "# "@ + fallback_title_from_path(path, default) + "\n"@
    } else {
        b + "\n"@
    }
}

/// A body with a title where it is blank.
pub fn ensure_title_fallback(body: &str, path: &str, default: &str) -> (r: String)
    ensures
        r@ == body_with_title(body@, path@, default@),
{
    let b = crate::text::trim_str(body);
    if b.len() == 0 {
        let f = fallback_title(path, default);
        let mut v = chars_of("# ");
        crate::text::append_str(&mut v, f.as_str());
        crate::text::append_str(&mut v, "\n");
        string_of(v.as_slice())
    } else {
        let mut v = b;
        crate::text::append_str(&mut v, "\n");
        string_of(v.as_slice())
    }
}

/// The lines of a body with its first `# ` line (after leading
/// whitespace) replaced by the title, or the title line put first where
/// there is none.
pub open spec fn retitled_lines(ls: Seq<Seq<char>>, title: Seq<char>) -> Seq<Seq<char>> {
    let h = "# "@ + title;
    if exists|i: int| 0 <= i < ls.len() && crate::text::has_prefix(crate::text::trim_start(#[trigger] ls[i]), "# "@) {
        let i = choose|i: int|
            0 <= i < ls.len() && crate::text::has_prefix(crate::text::trim_start(#[trigger] ls[i]), "# "@) && forall|j: int|
                0 <= j < i ==> !crate::text::has_prefix(crate::text::trim_start(#[trigger] ls[j]), "# "@);
        ls.update(i, h)
    } else {
        seq![h] + ls
    }
}

/// A body with its title line set to a title: the lines joined by
/// newlines, trimmed, and ending in a newline.
pub open spec fn retitled(body: Seq<char>, title: Seq<char>) -> Seq<char> {
    crate::text::trim(crate::text::join(retitled_lines(crate::text::lines(body), title), "\n"@)) + "\n"@
}

/// Sets the title line of a body.
pub fn replace_or_insert_h1(body: &str, title: &str) -> (r: String)
    ensures
        r@ == retitled(body@, title@),
{
    let c = chars_of(body);
    let mut ls = crate::text::lines_exec(c.as_slice());
    let ghost lv = views(ls@);
    let mut h = chars_of("# ");
    crate::text::append_str(&mut h, title);
    match h1_line_index(&ls) {
        Some(i) => {
            proof {
                let k = choose|k: int|
                    0 <= k < lv.len() && crate::text::has_prefix(crate::text::trim_start(#[trigger] lv[k]), "# "@)
                        && forall|j: int| 0 <= j < k ==> !crate::text::has_prefix(crate::text::trim_start(#[trigger] lv[j]), "# "@);
                if k < i {
                    assert(!crate::text::has_prefix(crate::text::trim_start(lv[k]), "# "@));
                } else if k > i {
                    assert(!crate::text::has_prefix(crate::text::trim_start(lv[i as int]), "# "@));
                }
                assert(k == i);
            }
            ls.set(i, h);
            assert(views(ls@) =~= lv.update(i as int, "# "@ + title@));
        },
        None => {
            ls.insert(0, h);
            assert(views(ls@) =~= seq!["# "@ + title@] + lv);
        },
    }
    assert(views(ls@) == retitled_lines(crate::text::lines(body@), title@));
    let sep = chars_of("\n");
    let j = crate::text::join_exec(&ls, sep.as_slice());
    let mut t = crate::text::trim_exec(j.as_slice());
    crate::text::append_str(&mut t, "\n");
    string_of(t.as_slice())
}

/// A line an excerpt may come from: not blank, not a heading, not a task.
pub open spec fn excerpt_line(l: Seq<char>) -> bool {
    l.len() > 0 && !crate::text::has_prefix(l, "#"@) && !crate::text::has_prefix(l, "- ["@)
}

/// The first trimmed line that an excerpt may come from.
pub open spec fn first_excerpt_line(ls: Seq<Seq<char>>) -> Option<Seq<char>>
    decreases ls.len(),
{
    if ls.len() == 0 {
        None
    } else if excerpt_line(crate::text::trim(ls[0])) {
        Some(crate::text::trim(ls[0]))
    } else {
        first_excerpt_line(ls.skip(1))
    }
}

/// An excerpt of a body: the first 140 characters of its first trimmed
/// line that is not blank, a heading or a task, or `No preview yet.`.
pub open spec fn excerpt_of(body: Seq<char>) -> Seq<char> {
    let l = match first_excerpt_line(crate::text::lines(body)) {
        Some(l) => l,
        None => "No preview yet."@,
    };
    if l.len() > 140 {
        l.take(140)
    } else {
        l
    }
}

fn first_excerpt_exec(ls: &Vec<Vec<char>>) -> (r: Option<Vec<char>>)
    ensures
        match first_excerpt_line(views(ls@)) {
            Some(l) => r matches Some(v) && v@ == l,
            None => r is None,
        },
{
    let ghost lv = views(ls@);
    let n = ls.len();
    let mut i: usize = 0;
    assert(lv.skip(0) =~= lv);
    while i < n
        invariant
            n == ls@.len(),
            lv == views(ls@),
            i <= n,
            first_excerpt_line(lv) == first_excerpt_line(lv.skip(i as int)),
        decreases n - i,
    {
        let t = crate::text::trim_exec(ls[i].as_slice());
        assert(lv.skip(i as int)[0] == ls@[i as int]@);
        assert(lv.skip(i as int).skip(1) =~= lv.skip(i + 1));
        if t.len() > 0 && !crate::text::starts_with_str(t.as_slice(), "#") && !crate::text::starts_with_str(
            t.as_slice(),
            "- [",
        ) {
            return Some(t);
        }
        i = i + 1;
    }
    None
}

/// The excerpt of a body.
pub fn markdown_excerpt(body: &str) -> (r: String)
    ensures
        r@ == excerpt_of(body@),
{
    let c = chars_of(body);
    let ls = crate::text::lines_exec(c.as_slice());
    let l = match first_excerpt_exec(&ls) {
        Some(t) => t,
        None => chars_of("No preview yet."),
    };
    if l.len() > 140 {
        let v = crate::text::slice_vec(l.as_slice(), 0, 140);
        string_of(v.as_slice())
    } else {
        string_of(l.as_slice())
    }
}

/// A path holds a module's data record: it is under
/// `modules/<module>/data/` and ends with `.md`.
pub open spec fn is_module_data_markdown(path: Seq<char>, module_id: Seq<char>) -> bool {
    crate::text::has_prefix(path, "modules/"@ + module_id + "/data/"@) && crate::text::has_suffix(path, ".md"@)
}

/// Whether a path holds a module's data record.
pub fn is_module_data_markdown_exec(path: &str, module_id: &str) -> (r: bool)
    ensures
        r == is_module_data_markdown(path@, module_id@),
{
    let p = chars_of(path);
    let mut pre = chars_of("modules/");
    crate::text::append_str(&mut pre, module_id);
    crate::text::append_str(&mut pre, "/data/");
    crate::text::starts_with(p.as_slice(), pre.as_slice()) && crate::text::ends_with_str(p.as_slice(), ".md")
}

} // verus!

verus! {

/// A trimmed line that holds text and is neither a heading nor a task.
pub open spec fn text_line(l: Seq<char>) -> bool {
    l.len() > 0 && !(l[0] == '#') && !(l.len() >= 3 && l[0] == '-' && l[1] == ' ' && l[2] == '[')
}

proof fn lemma_first_excerpt_line(ls: Seq<Seq<char>>)
    ensures
        first_excerpt_line(ls) matches Some(l) ==> l.len() > 0 && !crate::text::has_prefix(l, "#"@)
            && !crate::text::has_prefix(l, "- ["@) && exists|i: int|
            0 <= i < ls.len() && l == crate::text::trim(#[trigger] ls[i]) && forall|j: int|
                0 <= j < i ==> !text_line(crate::text::trim(#[trigger] ls[j])),
        first_excerpt_line(ls) is None ==> forall|j: int| 0 <= j < ls.len() ==> !text_line(crate::text::trim(#[trigger] ls[j])),
    decreases ls.len(),
{
    reveal_strlit("#");
    reveal_strlit("- [");
    if ls.len() > 0 {
        let t0 = crate::text::trim(ls[0]);
        if t0.len() > 0 {
            assert(crate::text::has_prefix(t0, "#"@) <==> t0[0] == '#') by {
                if t0[0] == '#' {
                    assert(t0.subrange(0, 1) =~= "#"@);
                }
                if crate::text::has_prefix(t0, "#"@) {
                    assert(t0.subrange(0, 1)[0] == t0[0]);
                }
            }
            assert(crate::text::has_prefix(t0, "- ["@) <==> (t0.len() >= 3 && t0[0] == '-' && t0[1] == ' ' && t0[2] == '[')) by {
                if t0.len() >= 3 && t0[0] == '-' && t0[1] == ' ' && t0[2] == '[' {
                    assert(t0.subrange(0, 3) =~= "- ["@);
                }
                if crate::text::has_prefix(t0, "- ["@) {
                    assert(t0.subrange(0, 3)[0] == t0[0]);
                    assert(t0.subrange(0, 3)[1] == t0[1]);
                    assert(t0.subrange(0, 3)[2] == t0[2]);
                }
            }
        }
        assert(excerpt_line(t0) == text_line(t0));
        if !excerpt_line(t0) {
            lemma_first_excerpt_line(ls.skip(1));
            if let Some(l) = first_excerpt_line(ls.skip(1)) {
                let i = choose|i: int|
                    0 <= i < ls.skip(1).len() && l == crate::text::trim(#[trigger] ls.skip(1)[i]) && forall|j: int|
                        0 <= j < i ==> !text_line(crate::text::trim(#[trigger] ls.skip(1)[j]));
                assert(ls.skip(1)[i] == ls[i + 1]);
                assert forall|j: int| 0 <= j < i + 1 implies !text_line(crate::text::trim(#[trigger] ls[j])) by {
                    if j > 0 {
                        assert(ls.skip(1)[j - 1] == ls[j]);
                    }
                }
            } else {
                assert forall|j: int| 0 <= j < ls.len() implies !text_line(crate::text::trim(#[trigger] ls[j])) by {
                    if j > 0 {
                        assert(ls.skip(1)[j - 1] == ls[j]);
                    }
                }
            }
        }
    }
}

/// Law: an excerpt is never a heading or a task line: it does not start
/// with `#` or `- [`; it holds between one and 140 characters; and it is
/// either `No preview yet.` or the start of a trimmed line of the body.
pub proof fn law_excerpt_shape(body: Seq<char>)
    ensures
        !crate::text::has_prefix(excerpt_of(body), "#"@),
        !crate::text::has_prefix(excerpt_of(body), "- ["@),
        0 < excerpt_of(body).len() <= 140,
        (forall|j: int|
            0 <= j < crate::text::lines(body).len() ==> !text_line(crate::text::trim(#[trigger] crate::text::lines(body)[j])))
            ==> excerpt_of(body) == "No preview yet."@,
        (exists|j: int|
            0 <= j < crate::text::lines(body).len() && text_line(crate::text::trim(#[trigger] crate::text::lines(body)[j])))
            ==> exists|i: int|
            0 <= i < crate::text::lines(body).len() && crate::text::has_prefix(
                crate::text::trim(#[trigger] crate::text::lines(body)[i]),
                excerpt_of(body),
            ) && text_line(crate::text::trim(crate::text::lines(body)[i])) && forall|j: int|
                0 <= j < i ==> !text_line(crate::text::trim(#[trigger] crate::text::lines(body)[j])),
{
    reveal_strlit("#");
    reveal_strlit("- [");
    reveal_strlit("No preview yet.");
    let ls = crate::text::lines(body);
    lemma_first_excerpt_line(ls);
    let l = match first_excerpt_line(ls) {
        Some(l) => l,
        None => "No preview yet."@,
    };
    let e = excerpt_of(body);
    assert(e == if l.len() > 140 { l.take(140) } else { l });
    assert(l.len() > 0);
    if first_excerpt_line(ls) is None {
        assert(l[0] == 'N');
        assert(l.subrange(0, 1)[0] == l[0]);
        assert(l.subrange(0, 3)[0] == l[0]);
        assert(("#"@)[0] == '#');
        assert(("- ["@)[0] == '-');
    }
    assert(!crate::text::has_prefix(l, "#"@));
    assert(!crate::text::has_prefix(l, "- ["@));
    if l.len() > 140 {
        if crate::text::has_prefix(e, "#"@) {
            assert(l.subrange(0, 1) =~= e.subrange(0, 1));
        }
        if crate::text::has_prefix(e, "- ["@) {
            assert(l.subrange(0, 3) =~= e.subrange(0, 3));
        }
    }
    if let Some(x) = first_excerpt_line(ls) {
        let i = choose|i: int|
            0 <= i < ls.len() && x == crate::text::trim(#[trigger] ls[i]) && forall|j: int|
                0 <= j < i ==> !text_line(crate::text::trim(#[trigger] ls[j]));
        assert(x.subrange(0, e.len() as int) =~= e);
        assert(crate::text::has_prefix(crate::text::trim(ls[i]), e));
        if x[0] == '#' {
            assert(x.subrange(0, 1) =~= "#"@);
        }
        if x.len() >= 3 && x[0] == '-' && x[1] == ' ' && x[2] == '[' {
            assert(x.subrange(0, 3) =~= "- ["@);
        }
        assert(text_line(crate::text::trim(ls[i])));
    } else {
        assert(e == "No preview yet."@);
    }
}

} // verus!
