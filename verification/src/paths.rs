//! The textual model of vault paths.
//!
//! Paths are handled as text.  Both `/` and `\` separate components; a path is
//! absolute when it starts with a separator or with a drive prefix such as
//! `C:`, so the same rules hold for Windows and Unix style paths.
use vstd::prelude::*;
use crate::text::{
    append, append_str, chars_of, eq_str, replace_char, replace_char_exec, slice_vec, split_char,
    split_exec, string_of, views,
};

verus! {

/// `s` with every backslash turned into a forward slash.
pub open spec fn normalize_slashes(s: Seq<char>) -> Seq<char> {
    replace_char(s, '\\', '/')
}

/// `str::replace('\\', "/")`.
pub fn normalize_slashes_exec(s: &[char]) -> (r: Vec<char>)
    ensures
        r@ == normalize_slashes(s@),
{
    replace_char_exec(s, '\\', '/')
}

/// An ASCII letter.
pub open spec fn is_ascii_letter(c: char) -> bool {
    ('a' <= c && c <= 'z') || ('A' <= c && c <= 'Z')
}

/// The path is absolute: it starts with a separator or a drive prefix.
pub open spec fn is_absolute_path(p: Seq<char>) -> bool {
    (p.len() > 0 && (p[0] == '/' || p[0] == '\\')) || (p.len() >= 2 && is_ascii_letter(p[0])
        && p[1] == ':')
}

/// Whether the path is absolute.
pub fn is_absolute_path_exec(p: &[char]) -> (r: bool)
    ensures
        r == is_absolute_path(p@),
{
    let n = p.len();
    (n > 0 && (p[0] == '/' || p[0] == '\\')) || (n >= 2 && (('a' <= p[0] && p[0] <= 'z') || (
    'A' <= p[0] && p[0] <= 'Z')) && p[1] == ':')
}

/// The components of a path, separated by either separator.
pub open spec fn components(p: Seq<char>) -> Seq<Seq<char>> {
    split_char(normalize_slashes(p), '/')
}

/// Some component of the path is `..`.
pub open spec fn has_parent_component(p: Seq<char>) -> bool {
    components(p).contains(".."@)
}

/// Whether one of the parts equals `target`.
pub fn parts_contain(parts: &Vec<Vec<char>>, target: &str) -> (r: bool)
    ensures
        r == views(parts@).contains(target@),
{
    let mut i: usize = 0;
    while i < parts.len()
        invariant
            i <= parts@.len(),
            forall|j: int| 0 <= j < i ==> views(parts@)[j] != target@,
        decreases parts@.len() - i,
    {
        if eq_str(parts[i].as_slice(), target) {
            assert(views(parts@)[i as int] == target@);
            return true;
        }
        i = i + 1;
    }
    false
}

/// Whether some component of the path is `..`.
pub fn has_parent_component_exec(p: &[char]) -> (r: bool)
    ensures
        r == has_parent_component(p@),
{
    let n = normalize_slashes_exec(p);
    let parts = split_exec(n.as_slice(), '/');
    parts_contain(&parts, "..")
}

/// The last non-empty component of a path that is not `.`.
pub open spec fn last_named(parts: Seq<Seq<char>>) -> Option<Seq<char>>
    decreases parts.len(),
{
    if parts.len() == 0 {
        None
    } else if parts.last().len() > 0 && parts.last() != "."@ {
        Some(parts.last())
    } else {
        last_named(parts.drop_last())
    }
}

/// The file name of a path (`Path::file_name`): its last component, unless
/// that is `..`.
pub open spec fn file_name(p: Seq<char>) -> Option<Seq<char>> {
    match last_named(components(p)) {
        Some(name) => if name == ".."@ {
            None
        } else {
            Some(name)
        },
        None => None,
    }
}

/// The file name of a path.
pub fn file_name_exec(p: &[char]) -> (r: Option<Vec<char>>)
    ensures
        match r {
            Some(v) => file_name(p@) == Some(v@),
            None => file_name(p@) is None,
        },
{
    let n = normalize_slashes_exec(p);
    let parts = split_exec(n.as_slice(), '/');
    let mut i = parts.len();
    assert(views(parts@) == components(p@));
    assert(views(parts@).take(i as int) =~= views(parts@));
    while i > 0
        invariant
            i <= parts@.len(),
            views(parts@) == components(p@),
            last_named(views(parts@)) == last_named(views(parts@).take(i as int)),
        decreases i,
    {
        let ghost t = views(parts@).take(i as int);
        assert(t.drop_last() =~= views(parts@).take(i - 1));
        assert(t.last() == parts@[i - 1]@);
        let part = &parts[i - 1];
        if part.len() > 0 && !eq_str(part.as_slice(), ".") {
            assert(last_named(t) == Some(part@));
            if eq_str(part.as_slice(), "..") {
                return None;
            }
            let v = slice_vec(part.as_slice(), 0, part.len());
            assert(v@ =~= part@);
            return Some(v);
        }
        i = i - 1;
    }
    None
}

/// `a` joined with `b` (`Path::join`): an absolute `b` replaces `a`;
/// otherwise a separator is added between them when `a` does not end in one.
pub open spec fn path_join(a: Seq<char>, b: Seq<char>) -> Seq<char> {
    if is_absolute_path(b) {
        b
    } else if a.len() == 0 || a.last() == '/' || a.last() == '\\' {
        a + b
    } else {
        a + "/"@ + b
    }
}

/// `Path::join` on path text.
pub fn path_join_exec(a: &[char], b: &[char]) -> (r: Vec<char>)
    ensures
        r@ == path_join(a@, b@),
{
    if is_absolute_path_exec(b) {
        return slice_vec(b, 0, b.len());
    }
    let n = a.len();
    let mut r = slice_vec(a, 0, n);
    if !(n == 0 || a[n - 1] == '/' || a[n - 1] == '\\') {
        append_str(&mut r, "/");
    }
    append(&mut r, b);
    r
}

/// `Path::join` on strings.
pub fn join_path(a: &str, b: &str) -> (r: String)
    ensures
        r@ == path_join(a@, b@),
{
    let av = chars_of(a);
    let bv = chars_of(b);
    let r = path_join_exec(av.as_slice(), bv.as_slice());
    string_of(r.as_slice())
}

} // verus!

verus! {

/// Normalizing slashes twice is normalizing once.
pub proof fn lemma_normalize_idempotent(p: Seq<char>)
    ensures
        normalize_slashes(normalize_slashes(p)) == normalize_slashes(p),
{
    assert(normalize_slashes(normalize_slashes(p)) =~= normalize_slashes(p));
}

/// Normalizing slashes keeps a path absolute or relative, and keeps its components.
pub proof fn lemma_normalize_keeps_path(p: Seq<char>)
    ensures
        is_absolute_path(normalize_slashes(p)) == is_absolute_path(p),
        components(normalize_slashes(p)) == components(p),
        has_parent_component(normalize_slashes(p)) == has_parent_component(p),
{
    lemma_normalize_idempotent(p);
}

} // verus!

verus! {

/// A path component with no separator in it.
pub open spec fn no_separator(s: Seq<char>) -> bool {
    forall|j: int| 0 <= j < s.len() ==> s[j] != '/' && s[j] != '\\'
}

/// A path of three separator-free components, starting with `.`, none of
/// them `..`, has no `..` component and is not absolute.
pub proof fn lemma_three_part_path(a: Seq<char>, b: Seq<char>, c: Seq<char>)
    requires
        no_separator(a),
        no_separator(b),
        no_separator(c),
        a.len() > 0,
        a[0] == '.',
        a != ".."@,
        b != ".."@,
        c != ".."@,
    ensures
        !is_absolute_path(a + "/"@ + b + "/"@ + c),
        !has_parent_component(a + "/"@ + b + "/"@ + c),
{
    reveal_strlit("/");
    let p = a + "/"@ + b + "/"@ + c;
    assert(p =~= a + seq!['/'] + (b + seq!['/'] + c));
    assert forall|j: int| 0 <= j < p.len() implies p[j] != '\\' by {
        if j < a.len() {
            assert(p[j] == a[j]);
        } else if j == a.len() {
        } else if j < a.len() + 1 + b.len() {
            assert(p[j] == b[j - a.len() - 1]);
        } else if j == a.len() + 1 + b.len() {
        } else {
            assert(p[j] == c[j - a.len() - 2 - b.len()]);
        }
    }
    crate::text::lemma_replace_char_absent(p, '\\', '/');
    crate::text::lemma_split_char_concat(a, '/', b + seq!['/'] + c);
    crate::text::lemma_split_char_concat(b, '/', c);
    crate::text::lemma_split_char_none(a, '/');
    crate::text::lemma_split_char_none(b, '/');
    crate::text::lemma_split_char_none(c, '/');
    let parts = components(p);
    assert(parts =~= seq![a, b, c]);
    assert(!parts.contains(".."@)) by {
        if parts.contains(".."@) {
            let k = choose|k: int| 0 <= k < parts.len() && parts[k] == ".."@;
            assert(k == 0 || k == 1 || k == 2);
        }
    }
}

} // verus!

verus! {

/// Whether one of the parts equals `target`.
pub fn parts_contain_chars(parts: &Vec<Vec<char>>, target: &[char]) -> (r: bool)
    ensures
        r == views(parts@).contains(target@),
{
    let mut i: usize = 0;
    while i < parts.len()
        invariant
            i <= parts@.len(),
            forall|j: int| 0 <= j < i ==> views(parts@)[j] != target@,
        decreases parts@.len() - i,
    {
        if crate::text::seq_eq(parts[i].as_slice(), target) {
            assert(views(parts@)[i as int] == target@);
            return true;
        }
        i = i + 1;
    }
    false
}

} // verus!
