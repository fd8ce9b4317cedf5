//! Theme tokens: parsing static CSS custom properties, checking them against
//! the allowlist, and layering app, workspace and module themes.
use vstd::prelude::*;
use crate::ordered::{
    lemma_keyed_dom, lemma_text_lt_differs, lemma_text_lt_irreflexive, lemma_text_lt_total,
    lemma_text_lt_transitive, text_lt, OrderedMap,
};
use crate::text::{
    append, append_str, chars_of, contains, contains_str, find, find_str, has_prefix,
    is_ascii_alnum, is_ascii_alnum_exec, lowercase_chars, owned, rfind, rfind_exec, slice_vec,
    split_char, split_exec, split_once_char, split_once_exec, starts_with_str, string_of, trim,
    trim_exec, trim_str, unicode_lowercase, utf8_len, utf8_len_exceeds, views,
};

verus! {

/// The theme of new workspaces and layouts.
pub const DEFAULT_THEME: &'static str = "clean-slate";

/// Where the active theme state is kept, relative to the vault.
pub const ACTIVE_THEME_PATH: &'static str = ".bentolifelayout/themes/active-theme.json";

/// Token names to token values, in name order.
pub type ThemeTokenMap = OrderedMap<String>;

/// The token values of a map, as text.
pub open spec fn text_values(m: Map<Seq<char>, String>) -> Map<Seq<char>, Seq<char>> {
    m.map_values(|s: String| s@)
}

/// The views of static strings.
pub open spec fn str_views(v: Seq<&str>) -> Seq<Seq<char>> {
    v.map_values(|s: &str| s@)
}

// ---------------------------------------------------------------------------
// Pattern lists
// ---------------------------------------------------------------------------

/// Patterns that make a CSS theme executable or load remote content.
pub open spec fn rejected_css_patterns() -> Seq<Seq<char>> {
    seq![
        "@import"@, "url("@, "javascript:"@, "expression("@, "<script"@, "</script"@, "<html"@,
        "<body"@, "behavior:"@, "-moz-binding"@, "vbscript:"@, "data:text/html"@,
        "data:application/javascript"@, "data:text/javascript"@,
    ]
}

fn rejected_css_patterns_exec() -> (r: Vec<&'static str>)
    ensures
        str_views(r@) == rejected_css_patterns(),
{
    let r = vec![
        "@import", "url(", "javascript:", "expression(", "<script", "</script", "<html", "<body",
        "behavior:", "-moz-binding", "vbscript:", "data:text/html", "data:application/javascript",
        "data:text/javascript",
    ];
    assert(str_views(r@) =~= rejected_css_patterns());
    r
}

/// Patterns that a token value may not contain.
pub open spec fn rejected_value_patterns() -> Seq<Seq<char>> {
    seq![
        "@"@, "{"@, "}"@, ";"@, "url("@, "javascript:"@, "expression("@, "<"@, ">"@,
        "behavior:"@, "-moz-binding"@,
    ]
}

fn rejected_value_patterns_exec() -> (r: Vec<&'static str>)
    ensures
        str_views(r@) == rejected_value_patterns(),
{
    let r = vec![
        "@", "{", "}", ";", "url(", "javascript:", "expression(", "<", ">", "behavior:",
        "-moz-binding",
    ];
    assert(str_views(r@) =~= rejected_value_patterns());
    r
}

/// The token names a theme may set.
pub open spec fn allowed_tokens() -> Seq<Seq<char>> {
    seq![
        "--background"@, "--foreground"@, "--card"@, "--card-foreground"@, "--popover"@,
        "--popover-foreground"@, "--primary"@, "--primary-foreground"@, "--secondary"@,
        "--secondary-foreground"@, "--muted"@, "--muted-foreground"@, "--accent"@,
        "--accent-foreground"@, "--destructive"@, "--destructive-foreground"@, "--border"@,
        "--input"@, "--ring"@, "--sage"@, "--sage-foreground"@, "--soft-blue"@,
        "--soft-blue-foreground"@, "--amber-note"@, "--amber-note-foreground"@, "--shadow-soft"@,
        "--shadow-lifted"@, "--habit-progress-height"@, "--habit-streak-emphasis"@,
        "--habit-completed-state"@, "--todo-overdue-state"@, "--todo-priority-emphasis"@,
        "--todo-completed-state"@, "--contact-relationship-chip"@,
    ]
}

fn allowed_tokens_exec() -> (r: Vec<&'static str>)
    ensures
        str_views(r@) == allowed_tokens(),
{
    let r = vec![
        "--background", "--foreground", "--card", "--card-foreground", "--popover",
        "--popover-foreground", "--primary", "--primary-foreground", "--secondary",
        "--secondary-foreground", "--muted", "--muted-foreground", "--accent",
        "--accent-foreground", "--destructive", "--destructive-foreground", "--border", "--input",
        "--ring", "--sage", "--sage-foreground", "--soft-blue", "--soft-blue-foreground",
        "--amber-note", "--amber-note-foreground", "--shadow-soft", "--shadow-lifted",
        "--habit-progress-height", "--habit-streak-emphasis", "--habit-completed-state",
        "--todo-overdue-state", "--todo-priority-emphasis", "--todo-completed-state",
        "--contact-relationship-chip",
    ];
    assert(str_views(r@) =~= allowed_tokens());
    r
}

/// The position of the first pattern, from `k` on, that occurs in `t`.
pub open spec fn first_contained_from(t: Seq<char>, pats: Seq<Seq<char>>, k: int) -> Option<int>
    decreases pats.len() - k,
{
    if k < 0 || k >= pats.len() {
        None
    } else if contains(t, pats[k]) {
        Some(k)
    } else {
        first_contained_from(t, pats, k + 1)
    }
}

fn first_contained_exec(t: &[char], pats: &Vec<&'static str>) -> (r: Option<usize>)
    ensures
        match first_contained_from(t@, str_views(pats@), 0) {
            Some(i) => r matches Some(x) && x == i,
            None => r is None,
        },
        r matches Some(i) ==> i < pats@.len(),
{
    let n = pats.len();
    let mut i: usize = 0;
    while i < n
        invariant
            n == pats@.len(),
            i <= n,
            first_contained_from(t@, str_views(pats@), 0) == first_contained_from(
                t@,
                str_views(pats@),
                i as int,
            ),
        decreases n - i,
    {
        assert(str_views(pats@)[i as int] == pats@[i as int]@);
        if contains_str(t, pats[i]) {
            return Some(i);
        }
        i = i + 1;
    }
    None
}

/// Whether `x` is one of `v`.
fn is_one_of(x: &[char], v: &Vec<&'static str>) -> (r: bool)
    ensures
        r == str_views(v@).contains(x@),
{
    let n = v.len();
    let mut i: usize = 0;
    while i < n
        invariant
            n == v@.len(),
            i <= n,
            forall|j: int| 0 <= j < i ==> str_views(v@)[j] != x@,
        decreases n - i,
    {
        if crate::text::eq_str(x, v[i]) {
            assert(str_views(v@)[i as int] == x@);
            return true;
        }
        i = i + 1;
    }
    false
}

// ---------------------------------------------------------------------------
// Token values
// ---------------------------------------------------------------------------

/// A character a token value may hold.
pub open spec fn token_value_char(c: char) -> bool {
    is_ascii_alnum(c) || c == '#' || c == '.' || c == ',' || c == '%' || c == '(' || c == ')'
        || c == '/' || c == ' ' || c == '-' || c == '_' || c == '+'
}

fn token_value_char_exec(c: char) -> (r: bool)
    ensures
        r == token_value_char(c),
{
    is_ascii_alnum_exec(c) || c == '#' || c == '.' || c == ',' || c == '%' || c == '(' || c
        == ')' || c == '/' || c == ' ' || c == '-' || c == '_' || c == '+'
}

/// Why a token value is refused, if it is.
pub open spec fn value_error(v: Seq<char>) -> Option<Seq<char>> {
    match first_contained_from(unicode_lowercase(v), rejected_value_patterns(), 0) {
        Some(i) => Some(
            "Theme token value contains a rejected pattern: "@ + rejected_value_patterns()[i] + "."@,
        ),
        None => if trim(v).len() == 0 || utf8_len(v) > 180 {
            Some("Theme token values must be non-empty and shorter than 180 characters."@)
        } else if exists|i: int| 0 <= i < v.len() && !token_value_char(#[trigger] v[i]) {
            Some("Theme token values may only contain static color, size, or shadow characters."@)
        } else {
            None
        },
    }
}

/// Checks one token value.
pub fn validate_token_value(value: &str) -> (r: Result<(), String>)
    ensures
        match value_error(value@) {
            Some(e) => r matches Err(x) && x@ == e,
            None => r is Ok,
        },
{
    let v = chars_of(value);
    let lowered = lowercase_chars(v.as_slice());
    let pats = rejected_value_patterns_exec();
    match first_contained_exec(lowered.as_slice(), &pats) {
        Some(i) => {
            let mut m = chars_of("Theme token value contains a rejected pattern: ");
            append_str(&mut m, pats[i]);
            append_str(&mut m, ".");
            assert(str_views(pats@)[i as int] == pats@[i as int]@);
            assert(lowered@ == unicode_lowercase(value@));
            assert(m@ == "Theme token value contains a rejected pattern: "@
                + rejected_value_patterns()[i as int] + "."@);
            return Err(string_of(m.as_slice()));
        },
        None => {},
    }
    let t = trim_exec(v.as_slice());
    if t.len() == 0 || utf8_len_exceeds(v.as_slice(), 180) {
        return Err(owned("Theme token values must be non-empty and shorter than 180 characters."));
    }
    let n = v.len();
    let mut i: usize = 0;
    while i < n
        invariant
            n == v@.len(),
            v@ == value@,
            lowered@ == unicode_lowercase(value@),
            t@ == trim(value@),
            first_contained_from(unicode_lowercase(value@), rejected_value_patterns(), 0) is None,
            !(trim(value@).len() == 0 || utf8_len(value@) > 180),
            i <= n,
            forall|j: int| 0 <= j < i ==> token_value_char(#[trigger] v@[j]),
        decreases n - i,
    {
        if !token_value_char_exec(v[i]) {
            assert(!token_value_char(value@[i as int]));
            assert(lowered@ == unicode_lowercase(value@));
            assert(t@ == trim(value@));
            return Err(
                owned("Theme token values may only contain static color, size, or shadow characters."),
            );
        }
        i = i + 1;
    }
    Ok(())
}

// ---------------------------------------------------------------------------
// Token maps
// ---------------------------------------------------------------------------

/// Why a token is refused, if it is.
pub open spec fn token_error(k: Seq<char>, v: Seq<char>) -> Option<Seq<char>> {
    if !allowed_tokens().contains(k) {
        Some("Theme token "@ + k + " is not allowlisted."@)
    } else {
        value_error(v)
    }
}

/// The token `k` of `m` is refused.
pub open spec fn token_fails(m: Map<Seq<char>, Seq<char>>, k: Seq<char>) -> bool {
    m.dom().contains(k) && token_error(k, m[k]) is Some
}

/// `k` is the first refused token of `m` in name order.
pub open spec fn first_failing(m: Map<Seq<char>, Seq<char>>, k: Seq<char>) -> bool {
    token_fails(m, k) && forall|j: Seq<char>| #[trigger] token_fails(m, j) ==> !text_lt(j, k)
}

/// Why a token map is refused: the reason of its first refused token in name
/// order, if any.
pub open spec fn tokens_error(m: Map<Seq<char>, Seq<char>>) -> Option<Seq<char>> {
    if exists|k: Seq<char>| first_failing(m, k) {
        let k = choose|k: Seq<char>| first_failing(m, k);
        token_error(k, m[k])
    } else {
        None
    }
}

/// Checks every token of a map.
pub fn validate_tokens(tokens: &ThemeTokenMap) -> (r: Result<(), String>)
    requires
        tokens.wf(),
    ensures
        match tokens_error(text_values(tokens@)) {
            Some(e) => r matches Err(x) && x@ == e,
            None => r is Ok,
        },
{
    let ghost m = text_values(tokens@);
    let ghost e = tokens.entries@;
    let allowed = allowed_tokens_exec();
    let n = tokens.entries.len();
    let mut i: usize = 0;
    while i < n
        invariant
            n == e.len(),
            e == tokens.entries@,
            tokens.wf(),
            m == text_values(tokens@),
            str_views(allowed@) == allowed_tokens(),
            i <= n,
            forall|j: int| 0 <= j < i ==> token_error(#[trigger] e[j].0@, e[j].1@) is None,
        decreases n - i,
    {
        let key = chars_of(tokens.entries[i].0.as_str());
        let value = tokens.entries[i].1.as_str();
        let res: Result<(), String> = if !is_one_of(key.as_slice(), &allowed) {
            let mut msg = chars_of("Theme token ");
            append(&mut msg, key.as_slice());
            append_str(&mut msg, " is not allowlisted.");
            Err(string_of(msg.as_slice()))
        } else {
            validate_token_value(value)
        };
        match res {
            Err(err) => {
                proof {
                    tokens.lemma_entry(i as int);
                    let k = e[i as int].0@;
                    assert(token_fails(m, k));
                    assert forall|j: Seq<char>| #[trigger] token_fails(m, j) implies !text_lt(j, k) by {
                        lemma_keyed_dom(e, j);
                        let l = choose|l: int| 0 <= l < e.len() && #[trigger] e[l].0@ == j;
                        tokens.lemma_entry(l);
                        if l < i {
                            assert(token_error(e[l].0@, e[l].1@) is None);
                        } else if l == i {
                            lemma_text_lt_irreflexive(k);
                        } else {
                            assert(text_lt(e[i as int].0@, e[l].0@));
                            if text_lt(j, k) {
                                lemma_text_lt_transitive(k, j, k);
                                lemma_text_lt_irreflexive(k);
                            }
                        }
                    }
                    assert(first_failing(m, k));
                    let c = choose|c: Seq<char>| first_failing(m, c);
                    if c != k {
                        lemma_text_lt_total(c, k);
                    }
                }
                return Err(err);
            },
            Ok(()) => {},
        }
        i = i + 1;
    }
    proof {
        assert forall|k: Seq<char>| !first_failing(m, k) by {
            if token_fails(m, k) {
                lemma_keyed_dom(e, k);
                let l = choose|l: int| 0 <= l < e.len() && #[trigger] e[l].0@ == k;
                tokens.lemma_entry(l);
            }
        }
    }
    Ok(())
}

/// Sets `k` to `v` in a token map.
fn insert_token(m: &mut ThemeTokenMap, k: &[char], v: &[char])
    requires
        old(m).wf(),
    ensures
        final(m).wf(),
        text_values(final(m)@) == text_values(old(m)@).insert(k@, v@),
{
    let ghost before = m@;
    m.insert(string_of(k), string_of(v));
    assert(text_values(m@) =~= text_values(before).insert(k@, v@));
}

/// The tokens that the declarations set, or why one is malformed.
pub open spec fn declared_tokens(pieces: Seq<Seq<char>>) -> Result<
    Map<Seq<char>, Seq<char>>,
    Seq<char>,
>
    decreases pieces.len(),
{
    if pieces.len() == 0 {
        Ok(Map::empty())
    } else {
        match declared_tokens(pieces.drop_last()) {
            Err(e) => Err(e),
            Ok(m) => {
                let d = trim(pieces.last());
                if d.len() == 0 {
                    Ok(m)
                } else {
                    match split_once_char(d, ':') {
                        None => Err("CSS token declarations must use --token: value syntax."@),
                        Some((name, value)) => if !has_prefix(trim(name), "--"@) {
                            Err("CSS token themes may only contain custom properties."@)
                        } else {
                            Ok(m.insert(trim(name), trim(value)))
                        },
                    }
                }
            },
        }
    }
}

/// The tokens of `--name: value;` declarations, checked.
pub open spec fn token_declarations(content: Seq<char>) -> Result<
    Map<Seq<char>, Seq<char>>,
    Seq<char>,
> {
    match declared_tokens(split_char(content, ';')) {
        Err(e) => Err(e),
        Ok(m) => match tokens_error(m) {
            Some(e) => Err(e),
            None => if m.dom().len() == 0 {
                Err("Theme token file did not contain any allowlisted tokens."@)
            } else {
                Ok(m)
            },
        },
    }
}

/// Parses `--name: value;` declarations into a checked token map.
pub fn parse_token_declarations(content: &[char]) -> (r: Result<ThemeTokenMap, String>)
    ensures
        match token_declarations(content@) {
            Ok(m) => r matches Ok(t) && t.wf() && text_values(t@) == m,
            Err(e) => r matches Err(x) && x@ == e,
        },
{
    let pieces = split_exec(content, ';');
    let ghost ps = views(pieces@);
    let mut tokens: ThemeTokenMap = OrderedMap::new();
    let n = pieces.len();
    let mut i: usize = 0;
    assert(ps.take(0) =~= Seq::<Seq<char>>::empty());
    assert(text_values(tokens@) =~= Map::<Seq<char>, Seq<char>>::empty());
    while i < n
        invariant
            n == pieces@.len(),
            ps == views(pieces@),
            ps == split_char(content@, ';'),
            i <= n,
            tokens.wf(),
            declared_tokens(ps.take(i as int)) == Ok::<Map<Seq<char>, Seq<char>>, Seq<char>>(
                text_values(tokens@),
            ),
        decreases n - i,
    {
        let ghost t = ps.take(i + 1);
        assert(t.drop_last() =~= ps.take(i as int));
        assert(t.last() == pieces@[i as int]@);
        let d = trim_exec(pieces[i].as_slice());
        if d.len() > 0 {
            match split_once_exec(d.as_slice(), ':') {
                None => {
                    proof {
                        lemma_declared_error_stays(ps, i as int + 1);
                    }
                    return Err(owned("CSS token declarations must use --token: value syntax."));
                },
                Some((name, value)) => {
                    let name = trim_exec(name.as_slice());
                    let value = trim_exec(value.as_slice());
                    if !starts_with_str(name.as_slice(), "--") {
                        proof {
                            lemma_declared_error_stays(ps, i as int + 1);
                        }
                        return Err(owned("CSS token themes may only contain custom properties."));
                    }
                    insert_token(&mut tokens, name.as_slice(), value.as_slice());
                },
            }
        }
        i = i + 1;
    }
    assert(ps.take(n as int) =~= ps);
    match validate_tokens(&tokens) {
        Err(e) => {
            return Err(e);
        },
        Ok(()) => {},
    }
    if tokens.is_empty() {
        proof {
            tokens.lemma_dom_len();
        }
        assert(text_values(tokens@).dom() =~= tokens@.dom());
        return Err(owned("Theme token file did not contain any allowlisted tokens."));
    }
    proof {
        tokens.lemma_dom_len();
        assert(text_values(tokens@).dom() =~= tokens@.dom());
    }
    Ok(tokens)
}

/// Once the declarations up to `k` are refused, so is every longer run.
proof fn lemma_declared_error_stays(ps: Seq<Seq<char>>, k: int)
    requires
        0 <= k <= ps.len(),
        declared_tokens(ps.take(k)) is Err,
    ensures
        declared_tokens(ps) == declared_tokens(ps.take(k)),
    decreases ps.len() - k,
{
    if k < ps.len() {
        let t = ps.take(k + 1);
        assert(t.drop_last() =~= ps.take(k));
        lemma_declared_error_stays(ps, k + 1);
    } else {
        assert(ps.take(k) =~= ps);
    }
}

// ---------------------------------------------------------------------------
// CSS themes
// ---------------------------------------------------------------------------

/// The message for a CSS theme holding a rejected pattern.
pub open spec fn css_pattern_error(p: Seq<char>) -> Seq<char> {
    "CSS theme contains a rejected executable or remote-loading pattern: "@ + p + "."@
}

/// The declarations of a CSS theme: the whole trimmed text, or the inside of
/// its single `:root { ... }` block, or why the block is malformed.
pub open spec fn css_token_source(css: Seq<char>) -> Result<Seq<char>, Seq<char>> {
    let t = trim(css);
    if !(contains(t, "{"@) || contains(t, "}"@)) {
        Ok(t)
    } else {
        let t2 = trim(t);
        if !has_prefix(t2, ":root"@) {
            Err("CSS token themes may only use a :root custom-property block."@)
        } else {
            match find(t2, "{"@) {
                None => Err("CSS token theme is missing an opening block."@),
                Some(open) => match rfind(t2, "}"@) {
                    None => Err("CSS token theme is missing a closing block."@),
                    Some(close) => if close <= open || trim(t2.skip(close + 1)).len() != 0 {
                        Err("CSS token theme may not include selectors after the :root block."@)
                    } else {
                        let inner = t2.subrange(open + 1, close);
                        if contains(inner, "{"@) || contains(inner, "}"@) {
                            Err("CSS token theme may not contain nested selectors."@)
                        } else {
                            Ok(inner)
                        }
                    },
                },
            }
        }
    }
}

/// The tokens of a CSS theme, or why it is refused.
pub open spec fn css_tokens(css: Seq<char>) -> Result<Map<Seq<char>, Seq<char>>, Seq<char>> {
    match first_contained_from(unicode_lowercase(css), rejected_css_patterns(), 0) {
        Some(i) => Err(css_pattern_error(rejected_css_patterns()[i])),
        None => if trim(css).len() == 0 {
            Err("CSS theme is empty."@)
        } else {
            match css_token_source(css) {
                Err(e) => Err(e),
                Ok(src) => token_declarations(src),
            }
        },
    }
}

fn css_token_source_exec(css: &[char]) -> (r: Result<Vec<char>, String>)
    ensures
        match css_token_source(css@) {
            Ok(s) => r matches Ok(v) && v@ == s,
            Err(e) => r matches Err(x) && x@ == e,
        },
{
    let t = trim_exec(css);
    if !(contains_str(t.as_slice(), "{") || contains_str(t.as_slice(), "}")) {
        return Ok(t);
    }
    let t2 = trim_exec(t.as_slice());
    if !starts_with_str(t2.as_slice(), ":root") {
        return Err(owned("CSS token themes may only use a :root custom-property block."));
    }
    let open = match find_str(t2.as_slice(), "{") {
        None => {
            return Err(owned("CSS token theme is missing an opening block."));
        },
        Some(o) => o,
    };
    let brace = chars_of("}");
    let close = match rfind_exec(t2.as_slice(), brace.as_slice()) {
        None => {
            return Err(owned("CSS token theme is missing a closing block."));
        },
        Some(c) => c,
    };
    proof {
        reveal_strlit("}");
        reveal_strlit("{");
        crate::text::lemma_find_from(t2@, "{"@, 0);
        crate::text::lemma_rfind_from(t2@, "}"@, t2@.len() - 1);
        assert(brace@ == "}"@);
        assert(rfind(t2@, brace@) == crate::text::rfind_from(t2@, "}"@, t2@.len() - 1));
        assert(close + 1 <= t2@.len());
    }
    if close <= open {
        return Err(owned("CSS token theme may not include selectors after the :root block."));
    }
    let n2 = t2.len();
    assert(close + 1 <= n2);
    let after = slice_vec(t2.as_slice(), close + 1, n2);
    let after_t = trim_exec(after.as_slice());
    assert(after@ =~= t2@.skip(close + 1));
    if after_t.len() != 0 {
        return Err(owned("CSS token theme may not include selectors after the :root block."));
    }
    let inner = slice_vec(t2.as_slice(), open + 1, close);
    if contains_str(inner.as_slice(), "{") || contains_str(inner.as_slice(), "}") {
        return Err(owned("CSS token theme may not contain nested selectors."));
    }
    Ok(inner)
}



// ---------------------------------------------------------------------------
// Scopes and module themes
// ---------------------------------------------------------------------------

/// The scope of a theme, normalised, or why it is refused.
pub open spec fn scope_result(scope: Seq<char>) -> Result<Seq<char>, Seq<char>> {
    let s = unicode_lowercase(trim(scope));
    if s == "workspace"@ {
        Ok("workspace"@)
    } else if s == "module"@ {
        Ok("module"@)
    } else {
        Err("Theme scope must be workspace or module."@)
    }
}

/// Normalises a theme scope: `workspace` or `module`, in any case and with
/// surrounding blanks.
pub fn normalize_scope(scope: &str) -> (r: Result<String, String>)
    ensures
        match scope_result(scope@) {
            Ok(s) => r matches Ok(x) && x@ == s,
            Err(e) => r matches Err(x) && x@ == e,
        },
{
    let t = trim_str(scope);
    let s = lowercase_chars(t.as_slice());
    if crate::text::eq_str(s.as_slice(), "workspace") {
        Ok(owned("workspace"))
    } else if crate::text::eq_str(s.as_slice(), "module") {
        Ok(owned("module"))
    } else {
        Err(owned("Theme scope must be workspace or module."))
    }
}

/// A character a module ID may hold.
pub open spec fn module_id_char(c: char) -> bool {
    ('a' <= c && c <= 'z') || ('0' <= c && c <= '9') || c == '-' || c == '_'
}

/// The module ID of a theme of the scope, or why it is refused.
pub open spec fn module_id_result(scope: Seq<char>, module_id: Option<Seq<char>>) -> Result<
    Option<Seq<char>>,
    Seq<char>,
> {
    if scope == "workspace"@ {
        Ok(None)
    } else {
        match module_id {
            None => Err("Module theme scope requires a module ID."@),
            Some(m) => {
                let t = trim(m);
                if t.len() == 0 {
                    Err("Module theme scope requires a module ID."@)
                } else if exists|i: int| 0 <= i < t.len() && !module_id_char(#[trigger] t[i]) {
                    Err(
                        "Module ID may only contain lowercase ASCII letters, numbers, dash, or underscore."@,
                    )
                } else {
                    Ok(Some(t))
                }
            },
        }
    }
}

/// The view of an optional text.
pub open spec fn opt_view(o: Option<&str>) -> Option<Seq<char>> {
    match o {
        Some(s) => Some(s@),
        None => None,
    }
}

/// The view of an optional owned text.
pub open spec fn opt_string_view(o: Option<String>) -> Option<Seq<char>> {
    match o {
        Some(s) => Some(s@),
        None => None,
    }
}

/// Checks the module ID of a theme: none for the workspace, a trimmed ID of
/// lowercase ASCII letters, digits, `-` and `_` for a module.
pub fn normalize_module_id(scope: &str, module_id: Option<&str>) -> (r: Result<
    Option<String>,
    String,
>)
    ensures
        match module_id_result(scope@, opt_view(module_id)) {
            Ok(m) => r matches Ok(x) && opt_string_view(x) == m,
            Err(e) => r matches Err(x) && x@ == e,
        },
{
    let sc = chars_of(scope);
    if crate::text::eq_str(sc.as_slice(), "workspace") {
        return Ok(None);
    }
    let m = match module_id {
        None => {
            return Err(owned("Module theme scope requires a module ID."));
        },
        Some(m) => m,
    };
    let t = trim_str(m);
    if t.len() == 0 {
        return Err(owned("Module theme scope requires a module ID."));
    }
    let n = t.len();
    let mut i: usize = 0;
    while i < n
        invariant
            n == t@.len(),
            t@ == trim(m@),
            module_id == Some(m),
            scope@ != "workspace"@,
            i <= n,
            forall|j: int| 0 <= j < i ==> module_id_char(#[trigger] t@[j]),
        decreases n - i,
    {
        let c = t[i];
        if !(('a' <= c && c <= 'z') || ('0' <= c && c <= '9') || c == '-' || c == '_') {
            assert(!module_id_char(t@[i as int]));
            return Err(
                owned(
                    "Module ID may only contain lowercase ASCII letters, numbers, dash, or underscore.",
                ),
            );
        }
        i = i + 1;
    }
    Ok(Some(string_of(t.as_slice())))
}

/// Where the JSON and CSS themes of a module live.
pub open spec fn module_theme_prefixes(module_id: Seq<char>) -> (Seq<char>, Seq<char>) {
    (
        "modules/"@ + module_id + "/theme/json/"@,
        "modules/"@ + module_id + "/theme/css/"@,
    )
}

/// Whether a vault-relative path may hold a theme of the module.
pub open spec fn module_theme_path_result(module_id: Option<Seq<char>>, relative: Seq<char>) -> Result<
    (),
    Seq<char>,
> {
    match module_id {
        None => Err("Module theme scope requires a module ID."@),
        Some(m) => {
            let (json, css) = module_theme_prefixes(m);
            if has_prefix(relative, json) || has_prefix(relative, css) {
                Ok(())
            } else {
                Err("Module themes must live under "@ + json + " or "@ + css + "."@)
            }
        },
    }
}

/// Checks that a module theme lives under the module's `theme/json/` or
/// `theme/css/` folder.
pub fn validate_module_theme_relative_path(module_id: Option<&str>, relative: &str) -> (r: Result<
    (),
    String,
>)
    ensures
        match module_theme_path_result(opt_view(module_id), relative@) {
            Ok(_) => r is Ok,
            Err(e) => r matches Err(x) && x@ == e,
        },
{
    let m = match module_id {
        None => {
            return Err(owned("Module theme scope requires a module ID."));
        },
        Some(m) => m,
    };
    let mut json = chars_of("modules/");
    append_str(&mut json, m);
    append_str(&mut json, "/theme/json/");
    let mut css = chars_of("modules/");
    append_str(&mut css, m);
    append_str(&mut css, "/theme/css/");
    let rel = chars_of(relative);
    if crate::text::starts_with(rel.as_slice(), json.as_slice()) || crate::text::starts_with(
        rel.as_slice(),
        css.as_slice(),
    ) {
        Ok(())
    } else {
        let mut msg = chars_of("Module themes must live under ");
        append(&mut msg, json.as_slice());
        append_str(&mut msg, " or ");
        append(&mut msg, css.as_slice());
        append_str(&mut msg, ".");
        Err(string_of(msg.as_slice()))
    }
}

/// The ID of the theme of a scope: the scope, then `-` and the module ID for
/// a module.
pub open spec fn theme_id(scope: Seq<char>, module_id: Option<Seq<char>>) -> Seq<char> {
    match module_id {
        Some(m) => scope + "-"@ + m,
        None => scope,
    }
}

/// The ID of the theme of a scope.
pub fn theme_id_for(scope: &str, module_id: Option<&str>) -> (r: String)
    ensures
        r@ == theme_id(scope@, opt_view(module_id)),
{
    let mut v = chars_of(scope);
    match module_id {
        Some(m) => {
            append_str(&mut v, "-");
            append_str(&mut v, m);
        },
        None => {},
    }
    string_of(v.as_slice())
}

// ---------------------------------------------------------------------------
// Layering
// ---------------------------------------------------------------------------

/// The tokens of a token map, as text.
pub open spec fn tv(m: ThemeTokenMap) -> Map<Seq<char>, Seq<char>> {
    text_values(m@)
}

/// Sets every token of `b` in `a`, `b` winning.
pub fn extend_tokens(a: &mut ThemeTokenMap, b: &ThemeTokenMap)
    requires
        old(a).wf(),
    ensures
        final(a).wf(),
        tv(*final(a)) == tv(*old(a)).union_prefer_right(tv(*b)),
{
    let ghost a0 = tv(*a);
    let ghost e = b.entries@;
    let n = b.entries.len();
    let mut i: usize = 0;
    assert(a0.union_prefer_right(text_values(crate::keyed::keyed(e.take(0)))) =~= a0);
    while i < n
        invariant
            n == e.len(),
            e == b.entries@,
            i <= n,
            a.wf(),
            tv(*a) == a0.union_prefer_right(text_values(crate::keyed::keyed(e.take(i as int)))),
        decreases n - i,
    {
        let ghost before = tv(*a);
        let k = b.entries[i].0.clone();
        let v = b.entries[i].1.clone();
        a.insert(k, v);
        proof {
            let t = e.take(i + 1);
            assert(t.drop_last() =~= e.take(i as int));
            assert(t.last() == e[i as int]);
            assert(text_values(a@) =~= before.insert(e[i as int].0@, e[i as int].1@));
            assert(tv(*a) =~= a0.union_prefer_right(text_values(crate::keyed::keyed(t))));
        }
        i = i + 1;
    }
    assert(e.take(n as int) =~= e);
}

/// A copy of a token map.
pub fn copy_tokens(b: &ThemeTokenMap) -> (r: ThemeTokenMap)
    ensures
        r.wf(),
        tv(r) == tv(*b),
{
    let mut r: ThemeTokenMap = OrderedMap::new();
    assert(tv(r) =~= Map::<Seq<char>, Seq<char>>::empty());
    extend_tokens(&mut r, b);
    assert(Map::<Seq<char>, Seq<char>>::empty().union_prefer_right(tv(*b)) =~= tv(*b));
    r
}

fn put(m: &mut ThemeTokenMap, k: &str, v: &str)
    requires
        old(m).wf(),
    ensures
        final(m).wf(),
        tv(*final(m)) == tv(*old(m)).insert(k@, v@),
{
    let ghost before = tv(*m);
    m.insert(owned(k), owned(v));
    assert(tv(*m) =~= before.insert(k@, v@));
}

/// The tokens every workspace starts from.
pub open spec fn app_defaults() -> Map<Seq<char>, Seq<char>> {
    map![
        "--background"@ => "#f6f7f4"@, "--foreground"@ => "#202521"@, "--card"@ => "#ffffff"@,
        "--card-foreground"@ => "#202521"@, "--popover"@ => "#ffffff"@,
        "--popover-foreground"@ => "#202521"@, "--primary"@ => "#335c4a"@,
        "--primary-foreground"@ => "#f8fbf7"@, "--secondary"@ => "#e8eee9"@,
        "--secondary-foreground"@ => "#26342d"@, "--muted"@ => "#edf0eb"@,
        "--muted-foreground"@ => "#66716a"@, "--accent"@ => "#e5edf4"@,
        "--accent-foreground"@ => "#213346"@, "--destructive"@ => "#9f3a3a"@,
        "--destructive-foreground"@ => "#fff7f7"@, "--border"@ => "#dfe4dc"@,
        "--input"@ => "#d9e0d7"@, "--ring"@ => "#6f927f"@, "--sage"@ => "#7e9d86"@,
        "--sage-foreground"@ => "#213528"@, "--soft-blue"@ => "#7d98ad"@,
        "--soft-blue-foreground"@ => "#203343"@, "--amber-note"@ => "#d7b46a"@,
        "--amber-note-foreground"@ => "#403112"@,
        "--shadow-soft"@ => "0 16px 40px rgb(39 50 42 / 0.08)"@,
        "--shadow-lifted"@ => "0 22px 55px rgb(39 50 42 / 0.12)"@
    ]
}

/// The tokens every workspace starts from.
pub fn app_default_tokens() -> (r: ThemeTokenMap)
    ensures
        r.wf(),
        tv(r) == app_defaults(),
{
    let mut m: ThemeTokenMap = OrderedMap::new();
    assert(tv(m) =~= Map::<Seq<char>, Seq<char>>::empty());
    put(&mut m, "--background", "#f6f7f4");
    put(&mut m, "--foreground", "#202521");
    put(&mut m, "--card", "#ffffff");
    put(&mut m, "--card-foreground", "#202521");
    put(&mut m, "--popover", "#ffffff");
    put(&mut m, "--popover-foreground", "#202521");
    put(&mut m, "--primary", "#335c4a");
    put(&mut m, "--primary-foreground", "#f8fbf7");
    put(&mut m, "--secondary", "#e8eee9");
    put(&mut m, "--secondary-foreground", "#26342d");
    put(&mut m, "--muted", "#edf0eb");
    put(&mut m, "--muted-foreground", "#66716a");
    put(&mut m, "--accent", "#e5edf4");
    put(&mut m, "--accent-foreground", "#213346");
    put(&mut m, "--destructive", "#9f3a3a");
    put(&mut m, "--destructive-foreground", "#fff7f7");
    put(&mut m, "--border", "#dfe4dc");
    put(&mut m, "--input", "#d9e0d7");
    put(&mut m, "--ring", "#6f927f");
    put(&mut m, "--sage", "#7e9d86");
    put(&mut m, "--sage-foreground", "#213528");
    put(&mut m, "--soft-blue", "#7d98ad");
    put(&mut m, "--soft-blue-foreground", "#203343");
    put(&mut m, "--amber-note", "#d7b46a");
    put(&mut m, "--amber-note-foreground", "#403112");
    put(&mut m, "--shadow-soft", "0 16px 40px rgb(39 50 42 / 0.08)");
    put(&mut m, "--shadow-lifted", "0 22px 55px rgb(39 50 42 / 0.12)");
    m
}

/// The default tokens of the habits module.
pub open spec fn habits_defaults() -> Map<Seq<char>, Seq<char>> {
    map![
        "--habit-progress-height"@ => "0.375rem"@, "--habit-streak-emphasis"@ => "#335c4a"@,
        "--habit-completed-state"@ => "#7e9d86"@
    ]
}

/// The default tokens of the todos module.
pub open spec fn todos_defaults() -> Map<Seq<char>, Seq<char>> {
    map![
        "--todo-overdue-state"@ => "#9f3a3a"@, "--todo-priority-emphasis"@ => "#d7b46a"@,
        "--todo-completed-state"@ => "#7e9d86"@
    ]
}

/// The default tokens of the contacts module.
pub open spec fn contacts_defaults() -> Map<Seq<char>, Seq<char>> {
    map!["--contact-relationship-chip"@ => "#e5edf4"@]
}

/// The modules with default tokens, and their tokens.
pub open spec fn module_defaults() -> Map<Seq<char>, Map<Seq<char>, Seq<char>>> {
    map![
        "habits"@ => habits_defaults(), "todos"@ => todos_defaults(),
        "contacts"@ => contacts_defaults()
    ]
}

/// Token maps by module, as text.
pub open spec fn nested_tv(m: OrderedMap<ThemeTokenMap>) -> Map<Seq<char>, Map<Seq<char>, Seq<char>>> {
    m@.map_values(|t: ThemeTokenMap| tv(t))
}

/// Every token map of a map by module keeps its keys in order.
pub open spec fn nested_wf(m: OrderedMap<ThemeTokenMap>) -> bool {
    m.wf() && forall|i: int| 0 <= i < m.entries@.len() ==> (#[trigger] m.entries@[i]).1.wf()
}

/// A map by module, through its entries, keeps its token maps in order.
pub proof fn lemma_nested_wf(m: OrderedMap<ThemeTokenMap>, k: Seq<char>)
    requires
        nested_wf(m),
        m@.dom().contains(k),
    ensures
        m@[k].wf(),
{
    lemma_keyed_dom(m.entries@, k);
    let i = choose|i: int| 0 <= i < m.entries@.len() && #[trigger] m.entries@[i].0@ == k;
    m.lemma_entry(i);
}

/// The default tokens of the modules that have them.
pub fn module_default_tokens() -> (r: OrderedMap<ThemeTokenMap>)
    ensures
        nested_wf(r),
        nested_tv(r) == module_defaults(),
{
    let mut habits: ThemeTokenMap = OrderedMap::new();
    assert(tv(habits) =~= Map::<Seq<char>, Seq<char>>::empty());
    put(&mut habits, "--habit-progress-height", "0.375rem");
    put(&mut habits, "--habit-streak-emphasis", "#335c4a");
    put(&mut habits, "--habit-completed-state", "#7e9d86");
    let mut todos: ThemeTokenMap = OrderedMap::new();
    assert(tv(todos) =~= Map::<Seq<char>, Seq<char>>::empty());
    put(&mut todos, "--todo-overdue-state", "#9f3a3a");
    put(&mut todos, "--todo-priority-emphasis", "#d7b46a");
    put(&mut todos, "--todo-completed-state", "#7e9d86");
    let mut contacts: ThemeTokenMap = OrderedMap::new();
    assert(tv(contacts) =~= Map::<Seq<char>, Seq<char>>::empty());
    put(&mut contacts, "--contact-relationship-chip", "#e5edf4");
    let ghost (h, t, c) = (habits, todos, contacts);
    let mut r: OrderedMap<ThemeTokenMap> = OrderedMap::new();
    r.insert(owned("habits"), habits);
    r.insert(owned("todos"), todos);
    r.insert(owned("contacts"), contacts);
    proof {
        assert(r@ =~= Map::<Seq<char>, ThemeTokenMap>::empty().insert("habits"@, h).insert(
            "todos"@,
            t,
        ).insert("contacts"@, c));
        assert(nested_tv(r) =~= module_defaults());
        assert forall|i: int| 0 <= i < r.entries@.len() implies (#[trigger] r.entries@[i]).1.wf() by {
            r.lemma_entry(i);
        }
    }
    r
}

/// A theme applied to the workspace or to one module.
pub struct ThemeManifest {
    pub schema_version: u32,
    pub theme_id: String,
    pub scope: String,
    pub module_id: Option<String>,
    pub source_path: Option<String>,
    pub tokens: ThemeTokenMap,
    pub active: bool,
    pub updated_at: String,
}

/// A checked theme, with the tokens it would take effect with.
pub struct ThemePreview {
    pub safe: bool,
    pub message: String,
    pub scope: String,
    pub module_id: Option<String>,
    pub source_path: String,
    pub tokens: ThemeTokenMap,
    pub effective_tokens: ThemeTokenMap,
    pub rejected_tokens: Vec<String>,
}

/// The themes in force: app defaults, the workspace theme, module defaults
/// and module themes, and the tokens they add up to.
pub struct ActiveThemeState {
    pub schema_version: u32,
    pub app_default_tokens: ThemeTokenMap,
    pub workspace_theme: ThemeManifest,
    pub module_default_tokens: OrderedMap<ThemeTokenMap>,
    pub module_themes: OrderedMap<ThemeManifest>,
    pub effective_tokens: ThemeTokenMap,
    pub effective_module_tokens: OrderedMap<ThemeTokenMap>,
    pub updated_at: String,
}

/// Every map of a theme state keeps its keys in order.
pub open spec fn state_wf(s: ActiveThemeState) -> bool {
    &&& s.app_default_tokens.wf()
    &&& s.workspace_theme.tokens.wf()
    &&& nested_wf(s.module_default_tokens)
    &&& s.module_themes.wf()
    &&& (forall|i: int| 0 <= i < s.module_themes.entries@.len() ==> (
    #[trigger] s.module_themes.entries@[i]).1.tokens.wf())
    &&& s.effective_tokens.wf()
    &&& nested_wf(s.effective_module_tokens)
}

/// The tokens in force for the workspace, or for a module: app defaults,
/// then the workspace theme, then the module's defaults, then its theme.
pub open spec fn effective(s: ActiveThemeState, module_id: Option<Seq<char>>) -> Map<
    Seq<char>,
    Seq<char>,
> {
    let base = tv(s.app_default_tokens).union_prefer_right(tv(s.workspace_theme.tokens));
    match module_id {
        None => base,
        Some(m) => {
            let a = if s.module_default_tokens@.dom().contains(m) {
                base.union_prefer_right(tv(s.module_default_tokens@[m]))
            } else {
                base
            };
            if s.module_themes@.dom().contains(m) {
                a.union_prefer_right(tv(s.module_themes@[m].tokens))
            } else {
                a
            }
        },
    }
}

/// The tokens in force for the workspace, or for a module.
pub fn effective_tokens(state: &ActiveThemeState, module_id: Option<&str>) -> (r: ThemeTokenMap)
    requires
        state_wf(*state),
    ensures
        r.wf(),
        tv(r) == effective(*state, opt_view(module_id)),
{
    let mut tokens = copy_tokens(&state.app_default_tokens);
    extend_tokens(&mut tokens, &state.workspace_theme.tokens);
    match module_id {
        Some(m) => {
            match state.module_default_tokens.get(m) {
                Some(d) => {
                    proof {
                        lemma_nested_wf(state.module_default_tokens, m@);
                    }
                    extend_tokens(&mut tokens, d);
                },
                None => {},
            }
            match state.module_themes.get(m) {
                Some(t) => {
                    proof {
                        lemma_keyed_dom(state.module_themes.entries@, m@);
                        let i = choose|i: int|
                            0 <= i < state.module_themes.entries@.len()
                                && #[trigger] state.module_themes.entries@[i].0@ == m@;
                        state.module_themes.lemma_entry(i);
                    }
                    extend_tokens(&mut tokens, &t.tokens);
                },
                None => {},
            }
        },
        None => {},
    }
    tokens
}


// ---------------------------------------------------------------------------
// Checks of manifests and states
// ---------------------------------------------------------------------------

/// The first reason in a list, if any.
pub open spec fn first_some(s: Seq<Option<Seq<char>>>) -> Option<Seq<char>>
    decreases s.len(),
{
    if s.len() == 0 {
        None
    } else if s[0] is Some {
        s[0]
    } else {
        first_some(s.drop_first())
    }
}

/// Why a manifest is refused, if it is.
pub open spec fn manifest_error(m: ThemeManifest) -> Option<Seq<char>> {
    if m.schema_version != 1 {
        Some(
            "Unsupported theme manifest version "@ + crate::storage::decimal(
                m.schema_version as nat,
            ) + "."@,
        )
    } else {
        match scope_result(m.scope@) {
            Err(e) => Some(e),
            Ok(_) => if m.scope@ == "module"@ && module_id_result(
                m.scope@,
                opt_string_view(m.module_id),
            ) is Err {
                Some(module_id_result(m.scope@, opt_string_view(m.module_id))->Err_0)
            } else {
                tokens_error(tv(m.tokens))
            },
        }
    }
}

fn version_error(prefix: &str, n: u32) -> (r: String)
    ensures
        r@ == prefix@ + crate::storage::decimal(n as nat) + "."@,
{
    let mut v = chars_of(prefix);
    let d = crate::storage::decimal_exec(n as u64);
    append(&mut v, d.as_slice());
    append_str(&mut v, ".");
    string_of(v.as_slice())
}

impl ThemeManifest {
    /// Checks a manifest: its version, scope, module ID and tokens.
    pub fn validate(&self) -> (r: Result<(), String>)
        requires
            self.tokens.wf(),
        ensures
            match manifest_error(*self) {
                Some(e) => r matches Err(x) && x@ == e,
                None => r is Ok,
            },
    {
        if self.schema_version != 1 {
            return Err(version_error("Unsupported theme manifest version ", self.schema_version));
        }
        match normalize_scope(self.scope.as_str()) {
            Err(e) => {
                return Err(e);
            },
            Ok(_) => {},
        }
        let sc = chars_of(self.scope.as_str());
        if crate::text::eq_str(sc.as_slice(), "module") {
            let mid: Option<&str> = match &self.module_id {
                Some(m) => Some(m.as_str()),
                None => None,
            };
            assert(opt_view(mid) == opt_string_view(self.module_id));
            match normalize_module_id(self.scope.as_str(), mid) {
                Err(e) => {
                    return Err(e);
                },
                Ok(_) => {},
            }
        }
        validate_tokens(&self.tokens)
    }

    /// A manifest with no tokens for a scope, dated now.
    pub fn clean_slate(scope: &str, module_id: Option<String>) -> (r: Self)
        ensures
            r.schema_version == 1,
            r.theme_id@ == theme_id(scope@, opt_string_view(module_id)),
            r.scope@ == scope@,
            r.module_id == module_id,
            r.source_path is None,
            r.tokens.wf(),
            r.tokens@.dom().len() == 0,
            r.active,
            exists|s: u64| r.updated_at@ == crate::storage::timestamp_label(s as nat),
    {
        let mid: Option<&str> = match &module_id {
            Some(m) => Some(m.as_str()),
            None => None,
        };
        assert(opt_view(mid) == opt_string_view(module_id));
        let tokens: ThemeTokenMap = OrderedMap::new();
        proof {
            tokens.lemma_dom_len();
        }
        ThemeManifest {
            schema_version: 1,
            theme_id: theme_id_for(scope, mid),
            scope: owned(scope),
            module_id,
            source_path: None,
            tokens,
            active: true,
            updated_at: crate::storage::current_timestamp_label(),
        }
    }
}

/// The reasons of the token maps, in key order.
pub open spec fn token_map_errors(e: Seq<(String, ThemeTokenMap)>) -> Seq<Option<Seq<char>>> {
    e.map_values(|p: (String, ThemeTokenMap)| tokens_error(tv(p.1)))
}

/// The reasons of the manifests, in key order.
pub open spec fn manifest_errors(e: Seq<(String, ThemeManifest)>) -> Seq<Option<Seq<char>>> {
    e.map_values(|p: (String, ThemeManifest)| manifest_error(p.1))
}

pub proof fn lemma_first_some_step(s: Seq<Option<Seq<char>>>, i: int)
    requires
        0 <= i < s.len(),
        s[i] is None,
    ensures
        first_some(s.skip(i)) == first_some(s.skip(i + 1)),
{
    assert(s.skip(i)[0] == s[i]);
    assert(s.skip(i).drop_first() =~= s.skip(i + 1));
}

fn validate_token_maps(m: &OrderedMap<ThemeTokenMap>) -> (r: Result<(), String>)
    requires
        nested_wf(*m),
    ensures
        match first_some(token_map_errors(m.entries@)) {
            Some(e) => r matches Err(x) && x@ == e,
            None => r is Ok,
        },
{
    let ghost s = token_map_errors(m.entries@);
    let n = m.entries.len();
    let mut i: usize = 0;
    assert(s.skip(0) =~= s);
    while i < n
        invariant
            n == m.entries@.len(),
            s == token_map_errors(m.entries@),
            nested_wf(*m),
            i <= n,
            first_some(s) == first_some(s.skip(i as int)),
        decreases n - i,
    {
        assert(s.skip(i as int)[0] == s[i as int]);
        assert(m.entries@[i as int].1.wf());
        match validate_tokens(&m.entries[i].1) {
            Err(e) => {
                return Err(e);
            },
            Ok(()) => {},
        }
        proof {
            lemma_first_some_step(s, i as int);
        }
        i = i + 1;
    }
    assert(s.skip(n as int) =~= Seq::<Option<Seq<char>>>::empty());
    Ok(())
}

fn validate_manifests(m: &OrderedMap<ThemeManifest>) -> (r: Result<(), String>)
    requires
        forall|i: int| 0 <= i < m.entries@.len() ==> (#[trigger] m.entries@[i]).1.tokens.wf(),
    ensures
        match first_some(manifest_errors(m.entries@)) {
            Some(e) => r matches Err(x) && x@ == e,
            None => r is Ok,
        },
{
    let ghost s = manifest_errors(m.entries@);
    let n = m.entries.len();
    let mut i: usize = 0;
    assert(s.skip(0) =~= s);
    while i < n
        invariant
            n == m.entries@.len(),
            s == manifest_errors(m.entries@),
            forall|j: int| 0 <= j < m.entries@.len() ==> (#[trigger] m.entries@[j]).1.tokens.wf(),
            i <= n,
            first_some(s) == first_some(s.skip(i as int)),
        decreases n - i,
    {
        assert(s.skip(i as int)[0] == s[i as int]);
        assert(m.entries@[i as int].1.tokens.wf());
        match m.entries[i].1.validate() {
            Err(e) => {
                return Err(e);
            },
            Ok(()) => {},
        }
        proof {
            lemma_first_some_step(s, i as int);
        }
        i = i + 1;
    }
    assert(s.skip(n as int) =~= Seq::<Option<Seq<char>>>::empty());
    Ok(())
}

/// Why a theme state is refused, if it is: its version, then its maps in
/// the order they are checked.
pub open spec fn state_error(s: ActiveThemeState) -> Option<Seq<char>> {
    if s.schema_version != 1 {
        Some(
            "Unsupported active theme state version "@ + crate::storage::decimal(
                s.schema_version as nat,
            ) + "."@,
        )
    } else {
        first_some(
            seq![tokens_error(tv(s.app_default_tokens)), manifest_error(s.workspace_theme)]
                + token_map_errors(s.module_default_tokens.entries@) + manifest_errors(
                s.module_themes.entries@,
            ) + seq![tokens_error(tv(s.effective_tokens))] + token_map_errors(
                s.effective_module_tokens.entries@,
            ),
        )
    }
}

proof fn lemma_first_some_append(a: Seq<Option<Seq<char>>>, b: Seq<Option<Seq<char>>>)
    ensures
        first_some(a + b) == (if first_some(a) is Some {
            first_some(a)
        } else {
            first_some(b)
        }),
    decreases a.len(),
{
    if a.len() == 0 {
        assert(a + b =~= b);
    } else {
        assert((a + b).drop_first() =~= a.drop_first() + b);
        lemma_first_some_append(a.drop_first(), b);
    }
}

impl ActiveThemeState {
    /// Checks a theme state: its version and every map and manifest in it.
    pub fn validate(&self) -> (r: Result<(), String>)
        requires
            state_wf(*self),
        ensures
            match state_error(*self) {
                Some(e) => r matches Err(x) && x@ == e,
                None => r is Ok,
            },
    {
        if self.schema_version != 1 {
            return Err(
                version_error("Unsupported active theme state version ", self.schema_version),
            );
        }
        let ghost a = seq![tokens_error(tv(self.app_default_tokens)), manifest_error(self.workspace_theme)];
        let ghost b = token_map_errors(self.module_default_tokens.entries@);
        let ghost c = manifest_errors(self.module_themes.entries@);
        let ghost d = seq![tokens_error(tv(self.effective_tokens))];
        let ghost f = token_map_errors(self.effective_module_tokens.entries@);
        proof {
            lemma_first_some_append(a + b + c + d, f);
            lemma_first_some_append(a + b + c, d);
            lemma_first_some_append(a + b, c);
            lemma_first_some_append(a, b);
            assert(a.drop_first() =~= seq![manifest_error(self.workspace_theme)]);
            assert(a.drop_first().drop_first() =~= Seq::<Option<Seq<char>>>::empty());
            assert(d.drop_first() =~= Seq::<Option<Seq<char>>>::empty());
            reveal_with_fuel(first_some, 3);
        }
        match validate_tokens(&self.app_default_tokens) {
            Err(e) => {
                return Err(e);
            },
            Ok(()) => {},
        }
        match self.workspace_theme.validate() {
            Err(e) => {
                return Err(e);
            },
            Ok(()) => {},
        }
        match validate_token_maps(&self.module_default_tokens) {
            Err(e) => {
                return Err(e);
            },
            Ok(()) => {},
        }
        match validate_manifests(&self.module_themes) {
            Err(e) => {
                return Err(e);
            },
            Ok(()) => {},
        }
        match validate_tokens(&self.effective_tokens) {
            Err(e) => {
                return Err(e);
            },
            Ok(()) => {},
        }
        validate_token_maps(&self.effective_module_tokens)
    }
}

// ---------------------------------------------------------------------------
// Hydration
// ---------------------------------------------------------------------------

/// The modules with tokens of their own in a state.
pub open spec fn themed_modules(s: ActiveThemeState) -> Set<Seq<char>> {
    s.module_default_tokens@.dom().union(s.module_themes@.dom())
}

/// A state whose defaults are the built-in ones and whose effective tokens
/// are those its themes add up to.
pub open spec fn is_hydrated(h: ActiveThemeState) -> bool {
    &&& state_wf(h)
    &&& tv(h.app_default_tokens) == app_defaults()
    &&& nested_tv(h.module_default_tokens) == module_defaults()
    &&& tv(h.effective_tokens) == effective(h, None)
    &&& h.effective_module_tokens@.dom() == themed_modules(h)
    &&& forall|k: Seq<char>| #[trigger] h.effective_module_tokens@.dom().contains(k) ==> tv(
        h.effective_module_tokens@[k],
    ) == effective(h, Some(k))
}

/// `h` is `s` with its defaults and effective tokens recomputed.
pub open spec fn hydration_of(s: ActiveThemeState, h: ActiveThemeState) -> bool {
    &&& is_hydrated(h)
    &&& h.schema_version == s.schema_version
    &&& h.workspace_theme == s.workspace_theme
    &&& h.module_themes == s.module_themes
    &&& h.updated_at == s.updated_at
}

/// The effective tokens of every module that has defaults or a theme.
pub fn effective_module_tokens(state: &ActiveThemeState) -> (r: OrderedMap<ThemeTokenMap>)
    requires
        state_wf(*state),
    ensures
        nested_wf(r),
        r@.dom() == themed_modules(*state),
        forall|k: Seq<char>| #[trigger] r@.dom().contains(k) ==> tv(r@[k]) == effective(
            *state,
            Some(k),
        ),
{
    let mut r: OrderedMap<ThemeTokenMap> = OrderedMap::new();
    let ghost d = state.module_default_tokens.entries@;
    let ghost t = state.module_themes.entries@;
    let n = state.module_default_tokens.entries.len();
    let mut i: usize = 0;
    while i < n
        invariant
            n == d.len(),
            d == state.module_default_tokens.entries@,
            t == state.module_themes.entries@,
            state_wf(*state),
            r.wf(),
            i <= n,
            forall|k: Seq<char>| #[trigger] r@.dom().contains(k) ==> themed_modules(*state).contains(k)
                && r@[k].wf() && tv(r@[k]) == effective(*state, Some(k)),
            forall|j: int| 0 <= j < i ==> r@.dom().contains(#[trigger] d[j].0@),
        decreases n - i,
    {
        let key = state.module_default_tokens.entries[i].0.as_str();
        let v = effective_tokens(state, Some(key));
        proof {
            state.module_default_tokens.lemma_entry(i as int);
        }
        r.insert(state.module_default_tokens.entries[i].0.clone(), v);
        i = i + 1;
    }
    let m = state.module_themes.entries.len();
    let mut i: usize = 0;
    while i < m
        invariant
            n == d.len(),
            m == t.len(),
            d == state.module_default_tokens.entries@,
            t == state.module_themes.entries@,
            state_wf(*state),
            r.wf(),
            i <= m,
            forall|k: Seq<char>| #[trigger] r@.dom().contains(k) ==> themed_modules(*state).contains(k)
                && r@[k].wf() && tv(r@[k]) == effective(*state, Some(k)),
            forall|j: int| 0 <= j < n ==> r@.dom().contains(#[trigger] d[j].0@),
            forall|j: int| 0 <= j < i ==> r@.dom().contains(#[trigger] t[j].0@),
        decreases m - i,
    {
        let key = state.module_themes.entries[i].0.as_str();
        let v = effective_tokens(state, Some(key));
        proof {
            state.module_themes.lemma_entry(i as int);
        }
        r.insert(state.module_themes.entries[i].0.clone(), v);
        i = i + 1;
    }
    proof {
        assert forall|k: Seq<char>| themed_modules(*state).contains(k) implies r@.dom().contains(k) by {
            lemma_keyed_dom(d, k);
            lemma_keyed_dom(t, k);
            if state.module_default_tokens@.dom().contains(k) {
                let j = choose|j: int| 0 <= j < d.len() && #[trigger] d[j].0@ == k;
                assert(r@.dom().contains(d[j].0@));
            } else {
                let j = choose|j: int| 0 <= j < t.len() && #[trigger] t[j].0@ == k;
                assert(r@.dom().contains(t[j].0@));
            }
        }
        assert(r@.dom() =~= themed_modules(*state));
        assert forall|j: int| 0 <= j < r.entries@.len() implies (#[trigger] r.entries@[j]).1.wf() by {
            r.lemma_entry(j);
        }
    }
    r
}

impl ActiveThemeState {
    /// The state with the built-in defaults and recomputed effective tokens.
    pub fn hydrate(self) -> (r: Self)
        requires
            state_wf(self),
        ensures
            hydration_of(self, r),
    {
        let ghost old_self = self;
        let ActiveThemeState {
            schema_version,
            app_default_tokens: _,
            workspace_theme,
            module_default_tokens: _,
            module_themes,
            effective_tokens: _,
            effective_module_tokens: _,
            updated_at,
        } = self;
        let app = app_default_tokens();
        let defaults = module_default_tokens();
        let mut s = ActiveThemeState {
            schema_version,
            app_default_tokens: app,
            workspace_theme,
            module_default_tokens: defaults,
            module_themes,
            effective_tokens: OrderedMap::new(),
            effective_module_tokens: OrderedMap::new(),
            updated_at,
        };
        let eff = effective_tokens(&s, None);
        let eff_modules = effective_module_tokens(&s);
        s.effective_tokens = eff;
        s.effective_module_tokens = eff_modules;
        s
    }

    /// The state hydrated and checked.
    pub fn hydrated(self) -> (r: Result<Self, String>)
        requires
            state_wf(self),
        ensures
            r matches Ok(h) ==> hydration_of(self, h) && state_error(h) is None,
            r matches Err(e) ==> exists|h: ActiveThemeState| hydration_of(self, h) && state_error(h)
                == Some(e@),
    {
        let h = self.hydrate();
        match h.validate() {
            Err(e) => Err(e),
            Ok(()) => Ok(h),
        }
    }

    /// A fresh state: built-in defaults, a clean workspace theme and no
    /// module themes, dated now.
    pub fn fresh() -> (r: Self)
        ensures
            r.schema_version == 1,
            r.workspace_theme.scope@ == "workspace"@,
            r.workspace_theme.module_id is None,
            r.workspace_theme.tokens@.dom().len() == 0,
            r.module_themes@.dom().len() == 0,
            state_wf(r),
            tv(r.app_default_tokens) == app_defaults(),
            nested_tv(r.module_default_tokens) == module_defaults(),
    {
        let now = crate::storage::current_timestamp_label();
        let themes: OrderedMap<ThemeManifest> = OrderedMap::new();
        proof {
            themes.lemma_dom_len();
        }
        let effective_modules: OrderedMap<ThemeTokenMap> = OrderedMap::new();
        ActiveThemeState {
            schema_version: 1,
            app_default_tokens: app_default_tokens(),
            workspace_theme: ThemeManifest::clean_slate("workspace", None),
            module_default_tokens: module_default_tokens(),
            module_themes: themes,
            effective_tokens: OrderedMap::new(),
            effective_module_tokens: effective_modules,
            updated_at: now,
        }
    }
}

/// Theme operations.
pub struct ThemeService;

impl ThemeService {
    /// Parses a CSS theme into its tokens: only allowlisted custom properties,
    /// either bare or in one `:root` block, with static values.
    pub fn parse_css_tokens(css: &str) -> (r: Result<ThemeTokenMap, String>)
        ensures
            match css_tokens(css@) {
                Ok(m) => r matches Ok(t) && t.wf() && text_values(t@) == m,
                Err(e) => r matches Err(x) && x@ == e,
            },
    {
        let v = chars_of(css);
        let normalized = lowercase_chars(v.as_slice());
        let pats = rejected_css_patterns_exec();
        match first_contained_exec(normalized.as_slice(), &pats) {
            Some(i) => {
                let mut m = chars_of(
                    "CSS theme contains a rejected executable or remote-loading pattern: ",
                );
                append_str(&mut m, pats[i]);
                append_str(&mut m, ".");
                assert(str_views(pats@)[i as int] == pats@[i as int]@);
                return Err(string_of(m.as_slice()));
            },
            None => {},
        }
        let t = trim_exec(v.as_slice());
        if t.len() == 0 {
            return Err(owned("CSS theme is empty."));
        }
        match css_token_source_exec(v.as_slice()) {
            Err(e) => Err(e),
            Ok(src) => parse_token_declarations(src.as_slice()),
        }
    }

    /// Checks that a CSS theme holds only allowlisted static tokens.
    pub fn validate_css_theme(css: &str) -> (r: Result<(), String>)
        ensures
            r is Ok <==> css_tokens(css@) is Ok,
            css_tokens(css@) matches Err(e) ==> r matches Err(x) && x@ == e,
    {
        match ThemeService::parse_css_tokens(css) {
            Ok(_) => Ok(()),
            Err(e) => Err(e),
        }
    }

    /// The tokens in force for a module, as the theme service reports them.
    pub fn effective_tokens_for_module(state: &ActiveThemeState, module_id: Option<&str>) -> (r:
        ThemeTokenMap)
        requires
            state_wf(*state),
        ensures
            r.wf(),
            tv(r) == effective(*state, opt_view(module_id)),
    {
        effective_tokens(state, module_id)
    }
}

// ---------------------------------------------------------------------------
// JSON themes and theme sources
// ---------------------------------------------------------------------------

/// What `serde_json::from_str` reads from a text as a map of text keys to
/// text values, as its pairs in key order; `None` where the text is not
/// such an object.
pub uninterp spec fn json_text_object(text: Seq<char>) -> Option<Seq<(Seq<char>, Seq<char>)>>;

/// The views of text pairs.
pub open spec fn pair_views(v: Seq<(String, String)>) -> Seq<(Seq<char>, Seq<char>)> {
    v.map_values(|p: (String, String)| (p.0@, p.1@))
}

/// Reads a JSON object of text values with `serde_json::from_str` into an
/// ordered map, and hands out its pairs in key order.
#[verifier::external_body]
fn json_text_object_pairs(content: &str) -> (r: Option<Vec<(String, String)>>)
    ensures
        json_text_object(content@) == match r {
            Some(v) => Some(pair_views(v@)),
            None => None::<Seq<(Seq<char>, Seq<char>)>>,
        },
{
    match serde_json::from_str::<std::collections::BTreeMap<String, String>>(content) {
        Ok(map) => Some(map.into_iter().collect()),
        Err(_) => None,
    }
}

/// The map of pairs, a later pair winning.
pub open spec fn pairs_map(ps: Seq<(Seq<char>, Seq<char>)>) -> Map<Seq<char>, Seq<char>>
    decreases ps.len(),
{
    if ps.len() == 0 {
        Map::empty()
    } else {
        pairs_map(ps.drop_last()).insert(ps.last().0, ps.last().1)
    }
}

/// The tokens of a JSON theme, or why it is refused.
pub open spec fn json_tokens(content: Seq<char>) -> Result<Map<Seq<char>, Seq<char>>, Seq<char>> {
    match json_text_object(content) {
        None => Err("Theme JSON must be an object of token names to string values."@),
        Some(ps) => match tokens_error(pairs_map(ps)) {
            Some(e) => Err(e),
            None => Ok(pairs_map(ps)),
        },
    }
}

/// Parses a JSON theme: an object of allowlisted token names to static values.
pub fn parse_json_tokens(content: &str) -> (r: Result<ThemeTokenMap, String>)
    ensures
        match json_tokens(content@) {
            Ok(m) => r matches Ok(t) && t.wf() && tv(t) == m,
            Err(e) => r matches Err(x) && x@ == e,
        },
{
    let pairs = match json_text_object_pairs(content) {
        None => {
            return Err(owned("Theme JSON must be an object of token names to string values."));
        },
        Some(p) => p,
    };
    let ghost ps = pair_views(pairs@);
    let mut m: ThemeTokenMap = OrderedMap::new();
    assert(tv(m) =~= pairs_map(ps.take(0)));
    let n = pairs.len();
    let mut i: usize = 0;
    while i < n
        invariant
            n == pairs@.len(),
            ps == pair_views(pairs@),
            i <= n,
            m.wf(),
            tv(m) == pairs_map(ps.take(i as int)),
        decreases n - i,
    {
        let ghost before = tv(m);
        m.insert(pairs[i].0.clone(), pairs[i].1.clone());
        proof {
            let t = ps.take(i + 1);
            assert(t.drop_last() =~= ps.take(i as int));
            assert(t.last() == (pairs@[i as int].0@, pairs@[i as int].1@));
            assert(tv(m) =~= before.insert(pairs@[i as int].0@, pairs@[i as int].1@));
        }
        i = i + 1;
    }
    assert(ps.take(n as int) =~= ps);
    match validate_tokens(&m) {
        Err(e) => Err(e),
        Ok(()) => Ok(m),
    }
}

/// Whether a vault-relative theme source may be read for the scope.
pub open spec fn theme_source_result(scope: Seq<char>, module_id: Option<Seq<char>>, relative: Seq<
    char,
>) -> Result<(), Seq<char>> {
    let rel = crate::text::replace_char(relative, '\\', '/');
    if contains(rel, ".."@) {
        Err("Theme source paths must not contain traversal segments."@)
    } else if scope == "module"@ {
        module_theme_path_result(module_id, rel)
    } else {
        Ok(())
    }
}

/// Checks a vault-relative theme source: no traversal, and for a module
/// theme, under the module's theme folders.
pub fn theme_source_check(scope: &str, module_id: Option<&str>, relative: &str) -> (r: Result<
    (),
    String,
>)
    ensures
        match theme_source_result(scope@, opt_view(module_id), relative@) {
            Ok(_) => r is Ok,
            Err(e) => r matches Err(x) && x@ == e,
        },
{
    let raw = chars_of(relative);
    let rel = crate::text::replace_char_exec(raw.as_slice(), '\\', '/');
    if contains_str(rel.as_slice(), "..") {
        return Err(owned("Theme source paths must not contain traversal segments."));
    }
    if crate::text::eq_str(chars_of(scope).as_slice(), "module") {
        let rs = string_of(rel.as_slice());
        return validate_module_theme_relative_path(module_id, rs.as_str());
    }
    Ok(())
}

// ---------------------------------------------------------------------------
// Previewing, applying and rolling back
// ---------------------------------------------------------------------------

/// The tokens of a theme source: JSON or CSS.
pub open spec fn source_tokens(content: Seq<char>, is_json: bool) -> Result<
    Map<Seq<char>, Seq<char>>,
    Seq<char>,
> {
    if is_json {
        json_tokens(content)
    } else {
        css_tokens(content)
    }
}

/// What a preview reports: the scope, the module, the theme's tokens and the
/// tokens that would be in force, or why the theme is refused.
pub open spec fn preview_result(
    state: ActiveThemeState,
    scope: Seq<char>,
    module_id: Option<Seq<char>>,
    content: Seq<char>,
    is_json: bool,
) -> Result<(Seq<char>, Option<Seq<char>>, Map<Seq<char>, Seq<char>>, Map<Seq<char>, Seq<char>>), Seq<char>> {
    match scope_result(scope) {
        Err(e) => Err(e),
        Ok(sc) => match module_id_result(sc, module_id) {
            Err(e) => Err(e),
            Ok(mid) => match source_tokens(content, is_json) {
                Err(e) => Err(e),
                Ok(tokens) => match state_error(state) {
                    Some(e) => Err(e),
                    None => {
                        let eff = effective(
                            state,
                            if sc == "module"@ {
                                mid
                            } else {
                                None
                            },
                        ).union_prefer_right(tokens);
                        match tokens_error(eff) {
                            Some(e) => Err(e),
                            None => Ok((sc, mid, tokens, eff)),
                        }
                    },
                },
            },
        },
    }
}

/// The state after a manifest replaced the workspace theme or set the theme
/// of its module, before hydration.
pub open spec fn applied_manifest(s: ActiveThemeState, h: ActiveThemeState, m: ThemeManifest) -> bool {
    if m.scope@ == "workspace"@ {
        h.workspace_theme == m && h.module_themes@ == s.module_themes@
    } else if m.module_id is Some {
        h.workspace_theme == s.workspace_theme && h.module_themes@ == s.module_themes@.insert(
            m.module_id->0@,
            m,
        )
    } else {
        h.workspace_theme == s.workspace_theme && h.module_themes@ == s.module_themes@
    }
}

impl ThemeService {
    /// The theme state in force: the stored one, or a fresh one where none is
    /// stored, hydrated and checked.
    pub fn read_active_theme(stored: Option<ActiveThemeState>) -> (r: Result<
        ActiveThemeState,
        String,
    >)
        requires
            stored matches Some(s) ==> state_wf(s),
        ensures
            stored matches Some(s) ==> (r matches Ok(h) ==> hydration_of(s, h) && state_error(h)
                is None) && (r matches Err(e) ==> exists|h: ActiveThemeState|
                hydration_of(s, h) && state_error(h) == Some(e@)),
            stored is None ==> (r matches Ok(h) ==> is_hydrated(h) && state_error(h) is None
                && h.workspace_theme.tokens@.dom().len() == 0 && h.module_themes@.dom().len()
                == 0),
    {
        match stored {
            Some(s) => s.hydrated(),
            None => ActiveThemeState::fresh().hydrated(),
        }
    }

    /// Checks a theme source's content for a scope against the state in
    /// force, and reports the tokens that would take effect.
    pub fn preview_theme_tokens(
        state: &ActiveThemeState,
        scope: &str,
        module_id: Option<&str>,
        source_path: &str,
        content: &str,
        is_json: bool,
    ) -> (r: Result<ThemePreview, String>)
        requires
            state_wf(*state),
        ensures
            match preview_result(*state, scope@, opt_view(module_id), content@, is_json) {
                Ok((sc, mid, tokens, eff)) => r matches Ok(p) && p.safe && p.scope@ == sc
                    && opt_string_view(p.module_id) == mid && tv(p.tokens) == tokens && tv(
                    p.effective_tokens,
                ) == eff && p.source_path@ == source_path@ && p.rejected_tokens@.len() == 0
                    && p.tokens.wf() && p.effective_tokens.wf()
                    && p.message@ == "Theme token preview is safe to apply."@,
                Err(e) => r matches Err(x) && x@ == e,
            },
    {
        let sc = match normalize_scope(scope) {
            Err(e) => {
                return Err(e);
            },
            Ok(s) => s,
        };
        let mid = match normalize_module_id(sc.as_str(), module_id) {
            Err(e) => {
                return Err(e);
            },
            Ok(m) => m,
        };
        let tokens = if is_json {
            parse_json_tokens(content)
        } else {
            ThemeService::parse_css_tokens(content)
        };
        let tokens = match tokens {
            Err(e) => {
                return Err(e);
            },
            Ok(t) => t,
        };
        match state.validate() {
            Err(e) => {
                return Err(e);
            },
            Ok(()) => {},
        }
        let is_module = crate::text::eq_str(chars_of(sc.as_str()).as_slice(), "module");
        let target: Option<&str> = if is_module {
            match &mid {
                Some(m) => Some(m.as_str()),
                None => None,
            }
        } else {
            None
        };
        let mut eff = effective_tokens(state, target);
        extend_tokens(&mut eff, &tokens);
        match validate_tokens(&eff) {
            Err(e) => {
                return Err(e);
            },
            Ok(()) => {},
        }
        Ok(ThemePreview {
            safe: true,
            message: owned("Theme token preview is safe to apply."),
            scope: sc,
            module_id: mid,
            source_path: owned(source_path),
            tokens,
            effective_tokens: eff,
            rejected_tokens: Vec::new(),
        })
    }

    /// Applies a previewed theme: it replaces the workspace theme or sets the
    /// theme of its module, and the state is hydrated and checked again.
    pub fn apply_theme_tokens(state: ActiveThemeState, preview: ThemePreview) -> (r: Result<
        ActiveThemeState,
        String,
    >)
        requires
            state_wf(state),
            preview.tokens.wf(),
        ensures
            r matches Ok(h) ==> is_hydrated(h) && state_error(h) is None && h.schema_version
                == state.schema_version && exists|m: ThemeManifest|
                applied_manifest(state, h, m) && m.schema_version == 1 && m.theme_id@ == theme_id(
                    preview.scope@,
                    opt_string_view(preview.module_id),
                ) && m.scope@ == preview.scope@ && m.module_id == preview.module_id
                    && m.source_path == Some(preview.source_path) && m.tokens == preview.tokens
                    && m.active,
    {
        let ActiveThemeState {
            schema_version,
            app_default_tokens,
            workspace_theme,
            module_default_tokens,
            mut module_themes,
            effective_tokens,
            effective_module_tokens,
            updated_at: _,
        } = state;
        let mid: Option<&str> = match &preview.module_id {
            Some(m) => Some(m.as_str()),
            None => None,
        };
        assert(opt_view(mid) == opt_string_view(preview.module_id));
        let manifest = ThemeManifest {
            schema_version: 1,
            theme_id: theme_id_for(preview.scope.as_str(), mid),
            scope: preview.scope.clone(),
            module_id: preview.module_id.clone(),
            source_path: Some(preview.source_path),
            tokens: preview.tokens,
            active: true,
            updated_at: crate::storage::current_timestamp_label(),
        };
        let ghost m = manifest;
        let is_workspace = crate::text::eq_str(chars_of(manifest.scope.as_str()).as_slice(), "workspace");
        let ws = if is_workspace {
            manifest
        } else {
            match &manifest.module_id {
                Some(id) => {
                    let key = id.clone();
                    proof {
                        assert forall|i: int| 0 <= i < module_themes.entries@.len() implies (#[trigger] module_themes.entries@[i]).1.tokens.wf() by {
                            assert(state.module_themes.entries@[i] == module_themes.entries@[i]);
                        }
                    }
                    module_themes.insert(key, manifest);
                    workspace_theme
                },
                None => workspace_theme,
            }
        };
        let ghost ws_old = state.workspace_theme;
        let s2 = ActiveThemeState {
            schema_version,
            app_default_tokens,
            workspace_theme: ws,
            module_default_tokens,
            module_themes,
            effective_tokens,
            effective_module_tokens,
            updated_at: crate::storage::current_timestamp_label(),
        };
        proof {
            assert(applied_manifest(state, s2, m));
            assert forall|i: int| 0 <= i < s2.module_themes.entries@.len() implies (#[trigger] s2.module_themes.entries@[i]).1.tokens.wf() by {
                s2.module_themes.lemma_entry(i);
                let k = s2.module_themes.entries@[i].0@;
                if !is_workspace && m.module_id is Some && k == m.module_id->0@ {
                } else {
                    assert(state.module_themes@.dom().contains(k));
                    lemma_keyed_dom(state.module_themes.entries@, k);
                    let j = choose|j: int| 0 <= j < state.module_themes.entries@.len() && #[trigger] state.module_themes.entries@[j].0@ == k;
                    state.module_themes.lemma_entry(j);
                }
            }
        }
        let r = s2.hydrated();
        proof {
            if r is Ok {
                assert(applied_manifest(state, r->Ok_0, m));
            }
        }
        r
    }

    /// Rolls a scope back: the workspace to a clean theme, a module to no
    /// theme of its own; the state is hydrated and checked again.
    pub fn rollback_theme(state: ActiveThemeState, scope: &str, module_id: Option<&str>) -> (r: Result<
        ActiveThemeState,
        String,
    >)
        requires
            state_wf(state),
        ensures
            scope_result(scope@) matches Err(e) ==> r matches Err(x) && x@ == e,
            scope_result(scope@) matches Ok(sc) ==> (module_id_result(sc, opt_view(module_id)) matches Err(e)
                ==> (r matches Err(x) && x@ == e)),
            r matches Ok(h) ==> is_hydrated(h) && state_error(h) is None && h.schema_version
                == state.schema_version && scope_result(scope@) is Ok && (if scope_result(
                scope@,
            )->Ok_0 == "workspace"@ {
                h.module_themes@ == state.module_themes@ && h.workspace_theme.scope@
                    == "workspace"@ && h.workspace_theme.tokens@.dom().len() == 0
            } else {
                h.workspace_theme == state.workspace_theme && (module_id_result(
                    scope_result(scope@)->Ok_0,
                    opt_view(module_id),
                ) matches Ok(Some(mid)) && h.module_themes@ == state.module_themes@.remove(mid))
            }),
    {
        let sc = match normalize_scope(scope) {
            Err(e) => {
                return Err(e);
            },
            Ok(s) => s,
        };
        let mid = match normalize_module_id(sc.as_str(), module_id) {
            Err(e) => {
                return Err(e);
            },
            Ok(m) => m,
        };
        let ActiveThemeState {
            schema_version,
            app_default_tokens,
            workspace_theme,
            module_default_tokens,
            mut module_themes,
            effective_tokens,
            effective_module_tokens,
            updated_at: _,
        } = state;
        let is_workspace = crate::text::eq_str(chars_of(sc.as_str()).as_slice(), "workspace");
        let ws = if is_workspace {
            ThemeManifest::clean_slate("workspace", None)
        } else {
            match &mid {
                Some(id) => {
                    module_themes.remove(id.as_str());
                },
                None => {},
            }
            workspace_theme
        };
        let s2 = ActiveThemeState {
            schema_version,
            app_default_tokens,
            workspace_theme: ws,
            module_default_tokens,
            module_themes,
            effective_tokens,
            effective_module_tokens,
            updated_at: crate::storage::current_timestamp_label(),
        };
        proof {
            assert forall|i: int| 0 <= i < s2.module_themes.entries@.len() implies (#[trigger] s2.module_themes.entries@[i]).1.tokens.wf() by {
                s2.module_themes.lemma_entry(i);
                let k = s2.module_themes.entries@[i].0@;
                assert(state.module_themes@.dom().contains(k));
                lemma_keyed_dom(state.module_themes.entries@, k);
                let j = choose|j: int| 0 <= j < state.module_themes.entries@.len() && #[trigger] state.module_themes.entries@[j].0@ == k;
                state.module_themes.lemma_entry(j);
            }
        }
        s2.hydrated()
    }
}

} // verus!
