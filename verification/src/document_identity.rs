//! The hidden identity comment that ties a Markdown file to its metadata.
use vstd::prelude::*;
use crate::text::{
    append, append_str, chars_of, concat, find, find_exec, find_str, has_prefix, is_ascii_alnum,
    is_ws, occurs_at, owned, rfind, rfind_exec, slice_vec, string_of, trim, trim_end, trim_exec,
    trim_end_exec, lemma_find_from, lemma_rfind_from, Strip,
};

verus! {

/// The start of an identity comment.
pub open spec fn comment_start() -> Seq<char> {
    "<!-- bentolife:document_id="@
}

/// The end of an identity comment.
pub open spec fn comment_end() -> Seq<char> {
    " -->"@
}

/// The closing marker searched for after the start.
pub open spec fn close_marker() -> Seq<char> {
    "-->"@
}

/// An identity comment found in Markdown.
#[derive(Debug, Clone, PartialEq, Eq)]
pub struct IdentityComment {
    pub document_id: String,
    pub comment: String,
}

/// Reads, writes and removes identity comments.
pub struct DocumentIdentityService;

/// The comment that carries `id`.
pub open spec fn formatted_comment(id: Seq<char>) -> Seq<char> {
    comment_start() + id + comment_end()
}

/// The last identity comment of the Markdown, as (document id, comment
/// text): the last comment start, up to the first `-->` after it; the id is
/// the trimmed text between them and must not be empty.
pub open spec fn identity_comment(md: Seq<char>) -> Option<(Seq<char>, Seq<char>)> {
    match rfind(md, comment_start()) {
        None => None,
        Some(st) => {
            let after = st + comment_start().len();
            match find(md.skip(after), close_marker()) {
                None => None,
                Some(e) => {
                    let id = trim(md.subrange(after, after + e));
                    if id.len() == 0 {
                        None
                    } else {
                        Some((id, md.subrange(st, after + e + 3)))
                    }
                },
            }
        },
    }
}

/// The Markdown with every complete identity comment removed, from the first
/// onwards; a comment start without a closing `-->` stops the removal.
pub open spec fn without_identity_comments(md: Seq<char>) -> Seq<char>
    decreases md.len(),
{
    match find(md, comment_start()) {
        None => md,
        Some(st) => {
            let after = st + comment_start().len();
            match find(md.skip(after), close_marker()) {
                None => md,
                Some(e) => if 0 <= st && after <= md.len() && 0 <= e && after + e + 3 <= md.len() {
                    without_identity_comments(md.take(st) + md.skip(after + e + 3))
                } else {
                    md
                },
            }
        },
    }
}

/// The Markdown without identity comments, with exactly one comment for `id`
/// at its end.
pub open spec fn with_identity_at_end(md: Seq<char>, id: Seq<char>) -> Seq<char> {
    let body = trim_end(without_identity_comments(md));
    if body.len() == 0 {
        formatted_comment(id) + "\n"@
    } else {
        body + "\n\n"@ + formatted_comment(id) + "\n"@
    }
}

pub(crate) fn remove_identity_chars(md: &[char]) -> (r: Vec<char>)
    ensures
        r@ == without_identity_comments(md@),
{
    let start = chars_of("<!-- bentolife:document_id=");
    let close = chars_of("-->");
    let mut cur = slice_vec(md, 0, md.len());
    assert(cur@ =~= md@);
    proof {
        reveal_strlit("-->");
    }
    loop
        invariant
            start@ == comment_start(),
            close@ == close_marker(),
            close@.len() == 3,
            without_identity_comments(cur@) == without_identity_comments(md@),
        decreases cur@.len(),
    {
        let st = match find_exec(cur.as_slice(), start.as_slice()) {
            None => {
                return cur;
            },
            Some(st) => st,
        };
        proof {
            lemma_find_from(cur@, start@, 0);
        }
        let n = cur.len();
        let after = st + start.len();
        let rest = slice_vec(cur.as_slice(), after, n);
        let e = match find_exec(rest.as_slice(), close.as_slice()) {
            None => {
                return cur;
            },
            Some(e) => e,
        };
        proof {
            lemma_find_from(rest@, close@, 0);
            assert(rest@ == cur@.skip(after as int));
        }
        let mut next = slice_vec(cur.as_slice(), 0, st);
        let tail = slice_vec(cur.as_slice(), after + e + 3, n);
        append(&mut next, tail.as_slice());
        assert(next@ =~= cur@.take(st as int) + cur@.skip(after + e + 3));
        cur = next;
    }
}

/// The shape of a document id that the round trip needs: non-empty, made of
/// ASCII letters, digits and underscores.
pub open spec fn plain_id(id: Seq<char>) -> bool {
    id.len() > 0 && forall|i: int| 0 <= i < id.len() ==> (is_ascii_alnum(#[trigger] id[i]) || id[i]
        == '_')
}

impl DocumentIdentityService {
    /// The name of this service.
    pub fn service_name() -> (r: &'static str)
        ensures
            r@ == "DocumentIdentityService"@,
    {
        "DocumentIdentityService"
    }

    /// The identity comment for a document id.
    pub fn format_comment(document_id: &str) -> (r: String)
        ensures
            r@ == formatted_comment(document_id@),
    {
        let mut v = chars_of("<!-- bentolife:document_id=");
        append_str(&mut v, document_id);
        append_str(&mut v, " -->");
        string_of(v.as_slice())
    }

    /// The last identity comment of the Markdown, if it has a non-empty id.
    pub fn find_identity_comment(markdown: &str) -> (r: Option<IdentityComment>)
        ensures
            match r {
                None => identity_comment(markdown@) is None,
                Some(c) => identity_comment(markdown@) == Some((c.document_id@, c.comment@)),
            },
    {
        let md = chars_of(markdown);
        let start = chars_of("<!-- bentolife:document_id=");
        let st = match rfind_exec(md.as_slice(), start.as_slice()) {
            None => {
                return None;
            },
            Some(st) => st,
        };
        proof {
            lemma_rfind_from(md@, start@, md@.len() - start@.len());
            reveal_strlit("-->");
        }
        let n = md.len();
        let after = st + start.len();
        let rest = slice_vec(md.as_slice(), after, n);
        let e = match find_str(rest.as_slice(), "-->") {
            None => {
                return None;
            },
            Some(e) => e,
        };
        proof {
            lemma_find_from(rest@, close_marker(), 0);
            assert(rest@ == md@.skip(after as int));
        }
        let raw = slice_vec(md.as_slice(), after, after + e);
        let id = trim_exec(raw.as_slice());
        if id.len() == 0 {
            return None;
        }
        let comment = slice_vec(md.as_slice(), st, after + e + 3);
        Some(IdentityComment { document_id: string_of(id.as_slice()), comment: string_of(comment.as_slice()) })
    }

    /// The Markdown without identity comments, with one comment for the
    /// document id at its end.
    pub fn ensure_identity_comment_at_end(markdown: &str, document_id: &str) -> (r: String)
        ensures
            r@ == with_identity_at_end(markdown@, document_id@),
    {
        let md = chars_of(markdown);
        let removed = remove_identity_chars(md.as_slice());
        let body = trim_end_exec(removed.as_slice(), Strip::Whitespace);
        let comment = Self::format_comment(document_id);
        let mut out: Vec<char> = Vec::new();
        if body.len() > 0 {
            append(&mut out, body.as_slice());
            append_str(&mut out, "\n\n");
        }
        append_str(&mut out, comment.as_str());
        append_str(&mut out, "\n");
        assert(out@ =~= with_identity_at_end(markdown@, document_id@));
        string_of(out.as_slice())
    }

    /// The Markdown with every complete identity comment removed.
    pub fn remove_identity_comments(markdown: &str) -> (r: String)
        ensures
            r@ == without_identity_comments(markdown@),
    {
        let md = chars_of(markdown);
        let r = remove_identity_chars(md.as_slice());
        string_of(r.as_slice())
    }
}

} // verus!

verus! {

proof fn lemma_start_has_one_open_angle()
    ensures
        comment_start().len() == 27,
        comment_start()[0] == '<',
        forall|k: int| 1 <= k < 27 ==> comment_start()[k] != '<',
{
    reveal_strlit("<!-- bentolife:document_id=");
}

/// Law: once the identity comment of a plain document id has been placed at
/// the end of any Markdown, the identity comment read back from the result
/// carries that same id and is exactly that comment.
pub proof fn law_identity_comment_round_trip(md: Seq<char>, id: Seq<char>)
    requires
        plain_id(id),
    ensures
        identity_comment(with_identity_at_end(md, id)) == Some((id, formatted_comment(id))),
{
    reveal_strlit(" -->");
    reveal_strlit("-->");
    reveal_strlit("\n");
    reveal_strlit("\n\n");
    lemma_start_has_one_open_angle();
    let s = comment_start();
    let e = comment_end();
    let body = trim_end(without_identity_comments(md));
    let b: Seq<char> = if body.len() == 0 {
        seq![]
    } else {
        body + "\n\n"@
    };
    let out = with_identity_at_end(md, id);
    let n = id.len() as int;
    let p = b.len() as int;
    assert(out =~= b + s + id + e + "\n"@);
    assert(out.len() == p + 27 + n + 5);
    // The appended comment start is the last one.
    assert(out.subrange(p, p + 27) =~= s);
    assert(occurs_at(out, s, p));
    assert forall|j: int| p < j < out.len() implies out[j] != '<' by {
        if j < p + 27 {
            assert(out[j] == s[j - p]);
        } else if j < p + 27 + n {
            assert(out[j] == id[j - p - 27]);
        } else {
            assert(out[j] == (e + "\n"@)[j - p - 27 - n]);
        }
    }
    lemma_rfind_from(out, s, out.len() - 27);
    match rfind(out, s) {
        None => {
            assert(!occurs_at(out, s, p));
        },
        Some(i) => {
            if i < p {
                assert(!occurs_at(out, s, p));
            } else if i > p {
                assert(out.subrange(i, i + 27)[0] == out[i]);
                assert(out[i] == '<');
            }
        },
    }
    assert(rfind(out, s) == Some(p));
    // The first closing marker after it is the one of the appended comment.
    let rest = out.skip(p + 27);
    let close = close_marker();
    assert(rest =~= id + e + "\n"@);
    assert(rest.subrange(n + 1, n + 4) =~= close);
    assert(occurs_at(rest, close, n + 1));
    assert forall|j: int| 0 <= j <= n implies rest[j] != '-' by {
        if j < n {
            assert(rest[j] == id[j]);
        } else {
            assert(rest[j] == ' ');
        }
    }
    lemma_find_from(rest, close, 0);
    match find(rest, close) {
        None => {
            assert(!occurs_at(rest, close, n + 1));
        },
        Some(i) => {
            if i < n + 1 {
                assert(rest.subrange(i, i + 3)[0] == rest[i]);
                assert(rest[i] == '-');
            } else if i > n + 1 {
                assert(!occurs_at(rest, close, n + 1));
            }
        },
    }
    assert(find(rest, close) == Some(n + 1));
    // The trimmed text between them is the id.
    let raw = out.subrange(p + 27, p + 27 + n + 1);
    assert(raw =~= id.push(' '));
    assert(!is_ws(id[0]));
    assert(!is_ws(id[n - 1]));
    assert(crate::text::leading(raw, Strip::Whitespace) == 0);
    assert(raw.drop_last() =~= id);
    assert(crate::text::trailing(id, Strip::Whitespace) == 0);
    assert(crate::text::trailing(raw, Strip::Whitespace) == 1);
    assert(raw.skip(0) =~= raw);
    assert(trim(raw) =~= id);
    assert(out.subrange(p, p + 27 + n + 1 + 3) =~= formatted_comment(id));
}


/// The character before the trailing run of a class is not in it.
proof fn lemma_trailing_stops(s: Seq<char>, k: crate::text::Strip)
    ensures
        crate::text::trailing(s, k) <= s.len(),
        crate::text::trailing(s, k) < s.len() ==> !crate::text::strips(k, s[s.len() - 1 - crate::text::trailing(s, k)]),
        forall|j: int| s.len() - crate::text::trailing(s, k) <= j < s.len() ==> crate::text::strips(k, #[trigger] s[j]),
    decreases s.len(),
{
    if s.len() > 0 && crate::text::strips(k, s.last()) {
        lemma_trailing_stops(s.drop_last(), k);
        assert forall|j: int| s.len() - crate::text::trailing(s, k) <= j < s.len() implies crate::text::strips(k, #[trigger] s[j]) by {
            if j < s.len() - 1 {
                assert(s.drop_last()[j] == s[j]);
            }
        }
        if crate::text::trailing(s, k) < s.len() {
            assert(s.drop_last()[s.len() - 1 - crate::text::trailing(s, k)] == s[s.len() - 1 - crate::text::trailing(s, k)]);
        }
    }
}

/// No comment start occurs in `x + "\n" + y` that does not lie wholly in
/// `x` or wholly in `y`, as a comment start holds no newline.
proof fn lemma_no_start_across_newline(out: Seq<char>, at: int, j: int)
    requires
        0 <= at < out.len(),
        out[at] == '\n',
        j <= at < j + 27,
    ensures
        !occurs_at(out, comment_start(), j),
{
    reveal_strlit("<!-- bentolife:document_id=");
    if occurs_at(out, comment_start(), j) {
        assert(out.subrange(j, j + 27)[at - j] == out[at]);
        assert(comment_start()[at - j] != '\n');
    }
}

/// `pat` occurs in `t` at exactly one position.
pub open spec fn occurs_once(t: Seq<char>, pat: Seq<char>) -> bool {
    exists|q: int| occurs_at(t, pat, q) && forall|j: int| #[trigger] occurs_at(t, pat, j) ==> j == q
}

/// Law: placing the identity comment of an id that holds neither a comment
/// start nor `-->` at the end of Markdown whose other text holds no comment
/// start, and then placing it again, changes nothing: the result ends with
/// that comment, holds exactly one comment start, and doing it twice is
/// doing it once.
pub proof fn law_identity_comment_idempotent(md: Seq<char>, id: Seq<char>)
    requires
        !crate::text::contains(id, close_marker()),
        !crate::text::contains(id, comment_start()),
        !crate::text::contains(without_identity_comments(md), comment_start()),
    ensures
        crate::text::has_suffix(with_identity_at_end(md, id), formatted_comment(id) + "\n"@),
        occurs_once(with_identity_at_end(md, id), comment_start()),
        without_identity_comments(with_identity_at_end(md, id)) == trim_end(without_identity_comments(md)) + (
        if trim_end(without_identity_comments(md)).len() == 0 {
            "\n"@
        } else {
            "\n\n\n"@
        }),
        with_identity_at_end(with_identity_at_end(md, id), id) == with_identity_at_end(md, id),
{
    reveal_strlit(" -->");
    reveal_strlit("-->");
    reveal_strlit("\n");
    reveal_strlit("\n\n");
    reveal_strlit("\n\n\n");
    reveal_strlit("<!-- bentolife:document_id=");
    let s = comment_start();
    let e = comment_end();
    let w = without_identity_comments(md);
    let body = trim_end(w);
    lemma_trailing_stops(w, crate::text::Strip::Whitespace);
    let b: Seq<char> = if body.len() == 0 { seq![] } else { body + "\n\n"@ };
    let out = with_identity_at_end(md, id);
    let n = id.len() as int;
    let p = b.len() as int;
    assert(out =~= b + s + id + e + "\n"@);
    assert(out.subrange(out.len() - (formatted_comment(id) + "\n"@).len(), out.len() as int) =~= formatted_comment(id) + "\n"@);
    // No comment start in the body.
    lemma_find_from(w, s, 0);
    assert forall|j: int| j + 27 <= body.len() implies !occurs_at(body, s, j) by {
        if occurs_at(body, s, j) {
            assert(w.subrange(j, j + 27) =~= body.subrange(j, j + 27));
            assert(occurs_at(w, s, j));
        }
    }
    // The first comment start of `out` is the appended one.
    assert(out.subrange(p, p + 27) =~= s);
    assert forall|j: int| 0 <= j < p implies !occurs_at(out, s, j) by {
        if j + 27 <= body.len() {
            if occurs_at(out, s, j) {
                assert(body.subrange(j, j + 27) =~= out.subrange(j, j + 27));
                assert(occurs_at(body, s, j));
            }
        } else {
            let at = if j < body.len() { body.len() as int } else { j };
            assert(out[at] == '\n');
            lemma_no_start_across_newline(out, at, j);
        }
    }
    lemma_find_from(out, s, 0);
    assert(occurs_at(out, s, p));
    match find(out, s) {
        Some(i) => {
            if i < p {
                assert(!occurs_at(out, s, i));
            }
            if i > p {
                assert(!occurs_at(out, s, p));
            }
        },
        None => {
            assert(!occurs_at(out, s, p));
        },
    }
    lemma_start_has_one_open_angle();
    lemma_find_from(id, s, 0);
    assert forall|j: int| #[trigger] occurs_at(out, s, j) implies j == p by {
        if j < p {
        } else if j > p {
            if j < p + 27 {
                assert(out.subrange(j, j + 27)[0] == out[j]);
                assert(out[j] == s[j - p]);
            } else if j + 27 <= p + 27 + n {
                assert(id.subrange(j - p - 27, j - p) =~= out.subrange(j, j + 27));
                assert(occurs_at(id, s, j - p - 27));
            } else {
                assert(out.subrange(j, j + 27)[26] == out[j + 26]);
                assert(s[26] == '=');
                assert(out[j + 26] == (e + "\n"@)[j + 26 - p - 27 - n]);
            }
        }
    }
    assert(occurs_once(out, s));
    let after = p + 27;
    let rest = out.skip(after);
    assert(rest =~= id + e + "\n"@);
    assert(rest.subrange(n + 1, n + 4) =~= close_marker());
    lemma_find_from(id, close_marker(), 0);
    assert forall|j: int| 0 <= j < n + 1 implies !occurs_at(rest, close_marker(), j) by {
        if occurs_at(rest, close_marker(), j) {
            if j + 3 <= n {
                assert(id.subrange(j, j + 3) =~= rest.subrange(j, j + 3));
                assert(occurs_at(id, close_marker(), j));
            } else {
                assert(rest[n] == ' ');
                assert(rest.subrange(j, j + 3)[n - j] == rest[n]);
            }
        }
    }
    lemma_find_from(rest, close_marker(), 0);
    assert(occurs_at(rest, close_marker(), n + 1));
    match find(rest, close_marker()) {
        Some(i) => {
            if i < n + 1 {
                assert(!occurs_at(rest, close_marker(), i));
            }
            if i > n + 1 {
                assert(!occurs_at(rest, close_marker(), n + 1));
            }
        },
        None => {
            assert(!occurs_at(rest, close_marker(), n + 1));
        },
    }
    let next = out.take(p) + out.skip(after + n + 1 + 3);
    assert(next =~= b + "\n"@);
    // The rest holds no comment start.
    assert forall|j: int| 0 <= j implies !occurs_at(next, s, j) by {
        if j + 27 <= body.len() {
            if occurs_at(next, s, j) {
                assert(body.subrange(j, j + 27) =~= next.subrange(j, j + 27));
                assert(occurs_at(body, s, j));
            }
        } else if j + 27 <= next.len() {
            let at = if j < body.len() { body.len() as int } else { j };
            assert(next[at] == '\n');
            lemma_no_start_across_newline(next, at, j);
        }
    }
    lemma_find_from(next, s, 0);
    assert(without_identity_comments(next) == next);
    assert(find(out, s) == Some(p));
    assert(find(out.skip(after), close_marker()) == Some(n + 1));
    assert(after <= out.len() && after + (n + 1) + 3 <= out.len());
    assert(s.len() == 27);
    assert(without_identity_comments(out) == without_identity_comments(out.take(p) + out.skip(after + (n + 1) + 3)));
    assert(without_identity_comments(out) == without_identity_comments(next));
    // Trimming the newlines gives the body back.
    let t: int = if body.len() == 0 { 1 } else { 3 };
    assert(next.len() == body.len() + t);
    assert forall|j: int| next.len() - t <= j < next.len() implies crate::text::strips(crate::text::Strip::Whitespace, #[trigger] next[j]) by {
        assert(next[j] == '\n');
    }
    if body.len() > 0 {
        assert(next[next.len() - 1 - t] == body[body.len() - 1]);
        assert(w[w.len() - 1 - crate::text::trailing(w, crate::text::Strip::Whitespace)] == body[body.len() - 1]);
    }
    crate::text::lemma_trailing(next, crate::text::Strip::Whitespace, t);
    assert(trim_end(next) =~= body);
}


/// Law: removing identity comments leaves Markdown without a comment start
/// unchanged, never makes it longer, and leaves no comment start that a
/// later `-->` closes: every complete identity comment is gone.
pub proof fn law_identity_comments_removed(md: Seq<char>)
    ensures
        !crate::text::contains(md, comment_start()) ==> without_identity_comments(md) == md,
        without_identity_comments(md).len() <= md.len(),
        forall|j: int, m: int|
            #![trigger occurs_at(without_identity_comments(md), comment_start(), j), occurs_at(without_identity_comments(md), close_marker(), m)]
            occurs_at(without_identity_comments(md), comment_start(), j) && j + comment_start().len() <= m
                ==> !occurs_at(without_identity_comments(md), close_marker(), m),
    decreases md.len(),
{
    reveal_strlit("<!-- bentolife:document_id=");
    reveal_strlit("-->");
    let s = comment_start();
    let c = close_marker();
    lemma_find_from(md, s, 0);
    match find(md, s) {
        None => {
            assert forall|j: int, m: int| occurs_at(md, s, j) && j + s.len() <= m implies !occurs_at(md, c, m) by {
            }
        },
        Some(st) => {
            let after = st + s.len();
            let rest = md.skip(after);
            lemma_find_from(rest, c, 0);
            match find(rest, c) {
                None => {
                    assert forall|j: int, m: int| occurs_at(md, s, j) && j + s.len() <= m implies !occurs_at(md, c, m) by {
                        if occurs_at(md, c, m) {
                            assert(j >= st);
                            assert(rest.subrange(m - after, m - after + 3) =~= md.subrange(m, m + 3));
                            assert(occurs_at(rest, c, m - after));
                        }
                    }
                },
                Some(e) => {
                    let next = md.take(st) + md.skip(after + e + 3);
                    law_identity_comments_removed(next);
                },
            }
        },
    }
}

} // verus!
