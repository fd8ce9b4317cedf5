//! Importing layouts, widget layouts and themes into a vault, and exporting
//! widget layouts: which files are accepted, under what name they are kept.
use vstd::prelude::*;
use crate::markdown_assets::{extension_of, extension_of_exec};
use crate::text::{chars_of, eq_str, owned, string_of};
use vstd::string::StringSliceAdditionalSpecFns;
use vstd::string::StrSliceExecFns;

verus! {

/// The outcome of checking a file to import.
pub struct ImportValidation {
    pub kind: String,
    pub safe: bool,
    pub message: String,
    pub source_path: String,
    pub normalized_name: Option<String>,
}

/// A file imported into the vault.
pub struct ImportResult {
    pub validation: ImportValidation,
    pub stored_relative_path: String,
    pub bytes_copied: usize,
}

/// Imports and exports.
pub struct ImportExportService;

/// Extensions of files that could run code, or that no import expects.
pub open spec fn executable_extensions() -> Seq<Seq<char>> {
    seq![
        "js"@, "mjs"@, "cjs"@, "ts"@, "tsx"@, "jsx"@, "html"@, "htm"@, "svg"@, "wasm"@, "exe"@, "bat"@,
        "cmd"@, "ps1"@, "vbs"@, "com"@, "scr"@, "dll"@, "msi"@,
    ]
}

/// An extension, ASCII case aside, that could run code.
pub open spec fn is_executable_extension(extension: Seq<char>) -> bool {
    executable_extensions().contains(crate::text::ascii_lowercase(extension))
}

/// Whether an extension, ASCII case aside, could run code.
pub fn is_executable_or_unexpected_extension(extension: &str) -> (r: bool)
    ensures
        r == is_executable_extension(extension@),
{
    let v = vec![
        "js", "mjs", "cjs", "ts", "tsx", "jsx", "html", "htm", "svg", "wasm", "exe", "bat", "cmd", "ps1", "vbs",
        "com", "scr", "dll", "msi",
    ];
    assert(v@.map_values(|s: &str| s@) =~= executable_extensions());
    let c = chars_of(extension);
    let l = crate::text::ascii_lowercase_exec(c.as_slice());
    let n = v.len();
    let mut i: usize = 0;
    while i < n
        invariant
            n == v@.len(),
            v@.map_values(|s: &str| s@) == executable_extensions(),
            l@ == crate::text::ascii_lowercase(extension@),
            i <= n,
            forall|j: int| 0 <= j < i ==> v@[j]@ != l@,
        decreases n - i,
    {
        if eq_str(l.as_slice(), v[i]) {
            assert(executable_extensions()[i as int] == l@);
            return true;
        }
        i = i + 1;
    }
    false
}

/// Two texts are equal, ASCII case aside.
pub open spec fn eq_ignore_ascii_case(a: Seq<char>, b: Seq<char>) -> bool {
    crate::text::ascii_lowercase(a) == crate::text::ascii_lowercase(b)
}

fn eq_ignore_ascii_case_exec(a: &[char], b: &str) -> (r: bool)
    ensures
        r == eq_ignore_ascii_case(a@, b@),
{
    let la = crate::text::ascii_lowercase_exec(a);
    let bc = chars_of(b);
    let lb = crate::text::ascii_lowercase_exec(bc.as_slice());
    crate::text::seq_eq(la.as_slice(), lb.as_slice())
}

/// The stem of a file name (`Path::file_stem`): what comes before its last
/// `.`, or the whole name where the only `.` starts it.
pub open spec fn file_stem_of(name: Seq<char>) -> Seq<char> {
    match crate::text::rfind(name, "."@) {
        None => name,
        Some(p) => if p == 0 {
            name
        } else {
            name.take(p)
        },
    }
}

fn file_stem_exec(name: &[char]) -> (r: Vec<char>)
    ensures
        r@ == file_stem_of(name@),
{
    let dot = chars_of(".");
    match crate::text::rfind_exec(name, dot.as_slice()) {
        None => crate::text::slice_vec(name, 0, name.len()),
        Some(p) => {
            proof {
                reveal_strlit(".");
                crate::text::lemma_rfind_from(name@, "."@, name@.len() - 1);
            }
            if p == 0 {
                crate::text::slice_vec(name, 0, name.len())
            } else {
                crate::text::slice_vec(name, 0, p)
            }
        },
    }
}

/// A character an import name keeps: an ASCII letter or digit, or `_`.
pub open spec fn kept_char(c: char) -> bool {
    crate::text::is_ascii_alnum(c) || c == '_'
}

/// The characters kept, each run of others written as one `-`, and
/// whether the text so far ends in such a `-`.
pub open spec fn dashed(s: Seq<char>) -> (Seq<char>, bool)
    decreases s.len(),
{
    if s.len() == 0 {
        (seq![], false)
    } else {
        let (o, d) = dashed(s.drop_last());
        if kept_char(s.last()) {
            (o.push(s.last()), false)
        } else if !d {
            (o.push('-'), true)
        } else {
            (o, d)
        }
    }
}

/// An import name made from a stem: trimmed, lowercased, runs of other
/// characters than ASCII letters, digits and `_` written as one `-`, and
/// `-` trimmed from both ends.
pub open spec fn sanitized_stem(stem: Seq<char>) -> Seq<char> {
    crate::text::trim_by(
        dashed(crate::text::unicode_lowercase(crate::text::trim(stem))).0,
        crate::text::Strip::Char('-'),
    )
}

fn dashed_exec(s: &[char]) -> (r: Vec<char>)
    ensures
        r@ == dashed(s@).0,
{
    let mut out: Vec<char> = Vec::new();
    let mut last_dash = false;
    let n = s.len();
    let mut i: usize = 0;
    assert(s@.take(0) =~= Seq::<char>::empty());
    while i < n
        invariant
            n == s@.len(),
            i <= n,
            (out@, last_dash) == dashed(s@.take(i as int)),
        decreases n - i,
    {
        assert(s@.take(i + 1).drop_last() =~= s@.take(i as int));
        assert(s@.take(i + 1).last() == s@[i as int]);
        let c = s[i];
        if crate::text::is_ascii_alnum_exec(c) || c == '_' {
            out.push(c);
            last_dash = false;
        } else if !last_dash {
            out.push('-');
            last_dash = true;
        }
        i = i + 1;
    }
    assert(s@.take(n as int) =~= s@);
    out
}

/// The normalised name of a file to import, or why it has none.
pub open spec fn import_name(file_name: Option<Seq<char>>, extension: Seq<char>) -> Result<Seq<char>, Seq<char>> {
    match file_name {
        None => Err("Import source must have a valid file name."@),
        Some(n) => if n.contains('/') || n.contains('\\') || crate::text::contains(n, ".."@) {
            Err("Import file names must not contain path traversal segments."@)
        } else {
            let s = sanitized_stem(file_stem_of(n));
            if s.len() == 0 {
                Err("Import file name must include at least one ASCII letter or number."@)
            } else {
                Ok(s + "."@ + extension)
            }
        },
    }
}

fn has_char(v: &[char], c: char) -> (r: bool)
    ensures
        r == v@.contains(c),
{
    let n = v.len();
    let mut i: usize = 0;
    while i < n
        invariant
            n == v@.len(),
            i <= n,
            forall|j: int| 0 <= j < i ==> v@[j] != c,
        decreases n - i,
    {
        if v[i] == c {
            return true;
        }
        i = i + 1;
    }
    false
}

/// The name a file is imported under: its sanitised stem and the expected
/// extension.  `file_name` is the last part of the source path, where it
/// has one.
pub fn normalized_import_name(file_name: Option<&str>, expected_extension: &str) -> (r: Result<String, String>)
    ensures
        match r {
            Ok(s) => import_name(
                match file_name {
                    Some(n) => Some(n@),
                    None => None,
                },
                expected_extension@,
            ) == Ok::<Seq<char>, Seq<char>>(s@),
            Err(e) => import_name(
                match file_name {
                    Some(n) => Some(n@),
                    None => None,
                },
                expected_extension@,
            ) == Err::<Seq<char>, Seq<char>>(e@),
        },
{
    let name = match file_name {
        None => {
            return Err(owned("Import source must have a valid file name."));
        },
        Some(n) => n,
    };
    let c = chars_of(name);
    if has_char(c.as_slice(), '/') || has_char(c.as_slice(), '\\') || crate::text::contains_str(c.as_slice(), "..") {
        return Err(owned("Import file names must not contain path traversal segments."));
    }
    let stem = file_stem_exec(c.as_slice());
    let t = crate::text::trim_exec(stem.as_slice());
    let l = crate::text::lowercase_chars(t.as_slice());
    let d = dashed_exec(l.as_slice());
    let s = crate::text::trim_by_exec(d.as_slice(), crate::text::Strip::Char('-'));
    if s.len() == 0 {
        return Err(owned("Import file name must include at least one ASCII letter or number."));
    }
    let mut v = s;
    crate::text::append_str(&mut v, ".");
    crate::text::append_str(&mut v, expected_extension);
    Ok(string_of(v.as_slice()))
}

/// A refused import.
pub fn unsafe_validation(kind: &str, source_path: String, message: &str) -> (r: ImportValidation)
    ensures
        r.kind@ == kind@,
        !r.safe,
        r.message@ == message@,
        r.source_path == source_path,
        r.normalized_name is None,
{
    ImportValidation { kind: owned(kind), safe: false, message: owned(message), source_path, normalized_name: None }
}

/// The extension an import of a kind expects: `json` for layouts, `css`
/// otherwise.
pub open spec fn expected_extension(kind: Seq<char>) -> Seq<char> {
    if kind == "layout"@ {
        "json"@
    } else {
        "css"@
    }
}

/// The problem of a file to import before its content is read: its
/// extension, whether it is a file, and its name.  On success, the name it
/// is imported under.
pub open spec fn source_check(kind: Seq<char>, file_name: Option<Seq<char>>, is_file: bool) -> Result<
    Seq<char>,
    Seq<char>,
> {
    let ext = match file_name {
        Some(n) => extension_of(n),
        None => None,
    };
    match ext {
        None => Err("Imported files must include a file extension."@),
        Some(e) => if is_executable_extension(e) || !eq_ignore_ascii_case(e, expected_extension(kind)) {
            Err("Imported layouts must be .json files and imported themes must be .css files."@)
        } else if !is_file {
            Err("Import source file was not found."@)
        } else {
            import_name(file_name, expected_extension(kind))
        },
    }
}

/// The problem of a widget layout file before its content is read.
pub open spec fn widget_source_check(file_name: Option<Seq<char>>, is_file: bool) -> Result<Seq<char>, Seq<char>> {
    let ext = match file_name {
        Some(n) => extension_of(n),
        None => None,
    };
    match ext {
        None => Err("Dashboard widget layout imports must be .json files."@),
        Some(e) => if is_executable_extension(e) || !eq_ignore_ascii_case(e, "json"@) {
            Err("Dashboard widget layout imports must be .json files."@)
        } else if !is_file {
            Err("Import source file was not found."@)
        } else {
            import_name(file_name, "json"@)
        },
    }
}

fn opt_chars(file_name: Option<&str>) -> (r: Option<Vec<char>>)
    ensures
        match file_name {
            Some(n) => r matches Some(v) && v@ == n@,
            None => r is None,
        },
{
    match file_name {
        Some(n) => Some(chars_of(n)),
        None => None,
    }
}

fn ext_of(file_name: Option<&str>) -> (r: Option<Vec<char>>)
    ensures
        match (match file_name {
            Some(n) => extension_of(n@),
            None => None,
        }) {
            Some(e) => r matches Some(v) && v@ == e,
            None => r is None,
        },
{
    match opt_chars(file_name) {
        Some(c) => extension_of_exec(c.as_slice()),
        None => None,
    }
}

/// The view of a check's outcome.
pub open spec fn check_view(r: Result<String, String>) -> Result<Seq<char>, Seq<char>> {
    match r {
        Ok(s) => Ok(s@),
        Err(e) => Err(e@),
    }
}

fn check_source(kind: &str, file_name: Option<&str>, is_file: bool) -> (r: Result<String, String>)
    ensures
        check_view(r) == source_check(
            kind@,
            match file_name {
                Some(n) => Some(n@),
                None => None,
            },
            is_file,
        ),
{
    let kc = chars_of(kind);
    let expected = if eq_str(kc.as_slice(), "layout") {
        "json"
    } else {
        "css"
    };
    let e = match ext_of(file_name) {
        None => {
            return Err(owned("Imported files must include a file extension."));
        },
        Some(e) => e,
    };
    let es = string_of(e.as_slice());
    if is_executable_or_unexpected_extension(es.as_str()) || !eq_ignore_ascii_case_exec(e.as_slice(), expected) {
        return Err(owned("Imported layouts must be .json files and imported themes must be .css files."));
    }
    if !is_file {
        return Err(owned("Import source file was not found."));
    }
    normalized_import_name(file_name, expected)
}

fn check_widget_source(file_name: Option<&str>, is_file: bool) -> (r: Result<String, String>)
    ensures
        check_view(r) == widget_source_check(
            match file_name {
                Some(n) => Some(n@),
                None => None,
            },
            is_file,
        ),
{
    let e = match ext_of(file_name) {
        None => {
            return Err(owned("Dashboard widget layout imports must be .json files."));
        },
        Some(e) => e,
    };
    let es = string_of(e.as_slice());
    if is_executable_or_unexpected_extension(es.as_str()) || !eq_ignore_ascii_case_exec(e.as_slice(), "json") {
        return Err(owned("Dashboard widget layout imports must be .json files."));
    }
    if !is_file {
        return Err(owned("Import source file was not found."));
    }
    normalized_import_name(file_name, "json")
}

/// A validation's parts.
pub open spec fn validation_is(
    v: ImportValidation,
    kind: Seq<char>,
    safe: bool,
    message: Seq<char>,
    source: Seq<char>,
    name: Option<Seq<char>>,
) -> bool {
    &&& v.kind@ == kind
    &&& v.safe == safe
    &&& v.message@ == message
    &&& v.source_path@ == source
    &&& crate::theme::opt_string_view(v.normalized_name) == name
}

/// The validation of a file given its source check and the check of its
/// content: refused with the first problem, or safe under its name.
pub open spec fn validated(
    v: ImportValidation,
    kind: Seq<char>,
    source: Seq<char>,
    check: Result<Seq<char>, Seq<char>>,
    content: Result<(), Seq<char>>,
    safe_message: Seq<char>,
) -> bool {
    match check {
        Err(m) => validation_is(v, kind, false, m, source, None),
        Ok(name) => match content {
            Err(m) => validation_is(v, kind, false, m, source, None),
            Ok(_) => validation_is(v, kind, true, safe_message, source, Some(name)),
        },
    }
}

fn finish_validation(
    kind: &str,
    source: &str,
    check: Result<String, String>,
    content: Result<(), String>,
    safe_message: &str,
) -> (r: ImportValidation)
    ensures
        validated(r, kind@, source@, check_view(check), crate::security::unit_view(content), safe_message@),
{
    match check {
        Err(m) => unsafe_validation(kind, owned(source), m.as_str()),
        Ok(name) => match content {
            Err(m) => unsafe_validation(kind, owned(source), m.as_str()),
            Ok(_) => ImportValidation {
                kind: owned(kind),
                safe: true,
                message: owned(safe_message),
                source_path: owned(source),
                normalized_name: Some(name),
            },
        },
    }
}

impl ImportExportService {
    /// The service's name.
    pub fn service_name() -> (r: &'static str)
        ensures
            r@ == "ImportExportService"@,
    {
        "ImportExportService"
    }

    /// Checks a layout file to import.  `file_name` is the last part of its
    /// path, `is_file` whether it is a file, and `parsed` the outcome of
    /// reading it as layout metadata; the metadata must pass its checks.
    pub fn validate_layout_import(
        source_path: &str,
        file_name: Option<&str>,
        is_file: bool,
        parsed: Result<crate::layout_metadata::LayoutMetadata, String>,
    ) -> (r: ImportValidation)
        ensures
            validated(
                r,
                "layout"@,
                source_path@,
                source_check(
                    "layout"@,
                    match file_name {
                        Some(n) => Some(n@),
                        None => None,
                    },
                    is_file,
                ),
                match parsed {
                    Err(e) => Err(e@),
                    Ok(m) => crate::layout_metadata::layout_check(m),
                },
                "layout import is valid and data-only."@,
            ),
    {
        let check = check_source("layout", file_name, is_file);
        let content = match parsed {
            Err(e) => Err(e),
            Ok(m) => m.validate(),
        };
        finish_validation("layout", source_path, check, content, "layout import is valid and data-only.")
    }

    /// Checks a theme file to import.  `content` is the outcome of reading
    /// it; the CSS must pass the theme's checks.
    pub fn validate_theme_import(
        source_path: &str,
        file_name: Option<&str>,
        is_file: bool,
        content: Result<String, String>,
    ) -> (r: ImportValidation)
        ensures
            validated(
                r,
                "theme"@,
                source_path@,
                source_check(
                    "theme"@,
                    match file_name {
                        Some(n) => Some(n@),
                        None => None,
                    },
                    is_file,
                ),
                match content {
                    Err(e) => Err(e@),
                    Ok(css) => match crate::theme::css_tokens(css@) {
                        Ok(_) => Ok(()),
                        Err(e) => Err(e),
                    },
                },
                "theme import is valid and data-only."@,
            ),
    {
        let check = check_source("theme", file_name, is_file);
        let checked = match content {
            Err(e) => Err(e),
            Ok(css) => crate::theme::ThemeService::validate_css_theme(css.as_str()),
        };
        finish_validation("theme", source_path, check, checked, "theme import is valid and data-only.")
    }

    /// Checks a widget layout file to import.  `checked` is the outcome of
    /// reading it as a widget state and checking that state for import.
    pub fn validate_widget_layout_import(
        source_path: &str,
        file_name: Option<&str>,
        is_file: bool,
        checked: Result<(), String>,
    ) -> (r: ImportValidation)
        ensures
            validated(
                r,
                "widget_layout"@,
                source_path@,
                widget_source_check(
                    match file_name {
                        Some(n) => Some(n@),
                        None => None,
                    },
                    is_file,
                ),
                crate::security::unit_view(checked),
                "Dashboard widget layout import is valid and data-only."@,
            ),
    {
        let check = check_widget_source(file_name, is_file);
        finish_validation(
            "widget_layout",
            source_path,
            check,
            checked,
            "Dashboard widget layout import is valid and data-only.",
        )
    }
}


/// The stem of an import name: without its `.` and extension, and without
/// trailing dots.
pub open spec fn import_stem(base: Seq<char>, extension: Seq<char>) -> Seq<char> {
    let suffix = "."@ + extension;
    let s = if crate::text::has_suffix(base, suffix) {
        base.take(base.len() - suffix.len())
    } else {
        base
    };
    crate::text::trim_end_by(s, crate::text::Strip::Char('.'))
}

/// Where an import is kept: the folder, the stem, `-`, eight digits of the
/// content's hash, and the extension.
pub open spec fn import_path_of(folder: Seq<char>, base: Seq<char>, extension: Seq<char>, hash8: Seq<char>) -> Seq<char> {
    folder + "/"@ + import_stem(base, extension) + "-"@ + hash8 + "."@ + extension
}

/// The vault-relative path an import is kept at: the first eight digits
/// of a content hash tell apart files of the same name.
pub fn unique_import_relative_path(folder: &str, base_name: &str, extension: &str, content: &str) -> (r: String)
    ensures
        exists|h: u64| r@ == import_path_of(folder@, base_name@, extension@, crate::storage::hex_padded(h as nat, 16).take(8)),
{
    let b = chars_of(base_name);
    let mut suffix = chars_of(".");
    crate::text::append_str(&mut suffix, extension);
    proof {
        reveal_strlit(".");
    }
    assert(suffix@ == "."@ + extension@);
    let stripped = if crate::text::ends_with(b.as_slice(), suffix.as_slice()) {
        let v = crate::text::slice_vec(b.as_slice(), 0, b.len() - suffix.len());
        assert(v@ =~= base_name@.take(base_name@.len() - suffix@.len()));
        v
    } else {
        let v = crate::text::slice_vec(b.as_slice(), 0, b.len());
        assert(v@ =~= base_name@);
        v
    };
    let stem = crate::text::trim_end_exec(stripped.as_slice(), crate::text::Strip::Char('.'));
    assert(stem@ == import_stem(base_name@, extension@));
    let hash = crate::storage::content_hash(content);
    let hc = chars_of(hash.as_str());
    let ghost h = choose|h: u64| hash@ == crate::storage::hex_padded(h as nat, 16);
    proof {
        lemma_hex_padded_len(h as nat, 16);
    }
    let hash8 = crate::text::slice_vec(hc.as_slice(), 0, 8);
    let mut v = chars_of(folder);
    crate::text::append_str(&mut v, "/");
    crate::text::append(&mut v, stem.as_slice());
    crate::text::append_str(&mut v, "-");
    crate::text::append(&mut v, hash8.as_slice());
    crate::text::append_str(&mut v, ".");
    crate::text::append_str(&mut v, extension);
    let r = string_of(v.as_slice());
    assert(hash8@ =~= crate::storage::hex_padded(h as nat, 16).take(8));
    assert(r@ =~= import_path_of(folder@, base_name@, extension@, crate::storage::hex_padded(h as nat, 16).take(8)));
    r
}

/// Zero-padded hexadecimal digits have the width asked for.
pub proof fn lemma_hex_padded_len(n: nat, width: nat)
    ensures
        crate::storage::hex_padded(n, width).len() == width,
    decreases width,
{
    if width > 0 {
        lemma_hex_padded_len(n / 16, (width - 1) as nat);
    }
}

/// Where a validated import is kept, checked as a runtime import target.
pub fn import_target(validation: &ImportValidation, folder: &str, extension: &str, content: &str) -> (r: Result<
    String,
    String,
>)
    ensures
        validation.normalized_name is None ==> (r matches Err(e) && e@
            == "Validated import is missing a normalized file name."@),
        validation.normalized_name matches Some(base) ==> exists|h: u64|
            crate::security::res_view(r) == crate::security::runtime_import_target(
                import_path_of(folder@, base@, extension@, crate::storage::hex_padded(h as nat, 16).take(8)),
            ),
{
    let base = match &validation.normalized_name {
        None => {
            return Err(owned("Validated import is missing a normalized file name."));
        },
        Some(b) => b,
    };
    let rel = unique_import_relative_path(folder, base.as_str(), extension, content);
    crate::security::validate_runtime_import_target(rel.as_str())
}

fn import_into(validation: ImportValidation, folder: &str, extension: &str, content: &str) -> (r: Result<
    ImportResult,
    String,
>)
    ensures
        !validation.safe ==> (r matches Err(e) && e == validation.message),
        validation.safe && validation.normalized_name is None ==> (r matches Err(e) && e@
            == "Validated import is missing a normalized file name."@),
        validation.safe ==> (validation.normalized_name matches Some(base) ==> exists|h: u64| #![trigger crate::storage::hex_padded(h as nat, 16)] {
            let t = crate::security::runtime_import_target(
                import_path_of(folder@, base@, extension@, crate::storage::hex_padded(h as nat, 16).take(8)),
            );
            match t {
                Err(e) => r matches Err(x) && x@ == e,
                Ok(p) => r matches Ok(res) && res.validation == validation && res.stored_relative_path@ == p
                    && res.bytes_copied == content.spec_bytes().len(),
            }
        }),
{
    if !validation.safe {
        return Err(validation.message);
    }
    let target = import_target(&validation, folder, extension, content)?;
    let bytes = content.as_bytes_vec().len();
    Ok(ImportResult { validation, stored_relative_path: target, bytes_copied: bytes })
}

impl ImportExportService {
    /// Where a validated layout import is kept under
    /// `.bentolifelayout/imports/layouts`; a refused validation answers
    /// with its message.  The content is then written there.
    pub fn import_layout_file(validation: ImportValidation, content: &str) -> (r: Result<ImportResult, String>)
        ensures
            !validation.safe ==> (r matches Err(e) && e == validation.message),
            validation.safe ==> (validation.normalized_name matches Some(base) ==> exists|h: u64| #![trigger crate::storage::hex_padded(h as nat, 16)] {
                let t = crate::security::runtime_import_target(
                    import_path_of(
                        ".bentolifelayout/imports/layouts"@,
                        base@,
                        "json"@,
                        crate::storage::hex_padded(h as nat, 16).take(8),
                    ),
                );
                match t {
                    Err(e) => r matches Err(x) && x@ == e,
                    Ok(p) => r matches Ok(res) && res.validation == validation && res.stored_relative_path@ == p
                        && res.bytes_copied == content.spec_bytes().len(),
                }
            }),
            validation.safe && validation.normalized_name is None ==> r is Err,
    {
        import_into(validation, ".bentolifelayout/imports/layouts", "json", content)
    }

    /// Where a validated theme import is kept under `.bentolifelayout/themes`.
    pub fn import_theme_file(validation: ImportValidation, content: &str) -> (r: Result<ImportResult, String>)
        ensures
            !validation.safe ==> (r matches Err(e) && e == validation.message),
            validation.safe ==> (validation.normalized_name matches Some(base) ==> exists|h: u64| #![trigger crate::storage::hex_padded(h as nat, 16)] {
                let t = crate::security::runtime_import_target(
                    import_path_of(
                        ".bentolifelayout/themes"@,
                        base@,
                        "css"@,
                        crate::storage::hex_padded(h as nat, 16).take(8),
                    ),
                );
                match t {
                    Err(e) => r matches Err(x) && x@ == e,
                    Ok(p) => r matches Ok(res) && res.validation == validation && res.stored_relative_path@ == p
                        && res.bytes_copied == content.spec_bytes().len(),
                }
            }),
            validation.safe && validation.normalized_name is None ==> r is Err,
    {
        import_into(validation, ".bentolifelayout/themes", "css", content)
    }

    /// Where a validated widget layout import is kept under
    /// `.bentolifelayout/imports/dashboard-widgets`.
    pub fn import_widget_layout_file(validation: ImportValidation, content: &str) -> (r: Result<ImportResult, String>)
        ensures
            !validation.safe ==> (r matches Err(e) && e == validation.message),
            validation.safe ==> (validation.normalized_name matches Some(base) ==> exists|h: u64| #![trigger crate::storage::hex_padded(h as nat, 16)] {
                let t = crate::security::runtime_import_target(
                    import_path_of(
                        ".bentolifelayout/imports/dashboard-widgets"@,
                        base@,
                        "json"@,
                        crate::storage::hex_padded(h as nat, 16).take(8),
                    ),
                );
                match t {
                    Err(e) => r matches Err(x) && x@ == e,
                    Ok(p) => r matches Ok(res) && res.validation == validation && res.stored_relative_path@ == p
                        && res.bytes_copied == content.spec_bytes().len(),
                }
            }),
            validation.safe && validation.normalized_name is None ==> r is Err,
    {
        import_into(validation, ".bentolifelayout/imports/dashboard-widgets", "json", content)
    }

    /// Checks where a widget layout is exported to: a `.json` file whose
    /// name has an ASCII letter or digit.  On success, the export's name.
    pub fn check_widget_layout_export(file_name: Option<&str>) -> (r: Result<String, String>)
        ensures
            match (match file_name {
                Some(n) => extension_of(n@),
                None => None,
            }) {
                None => r matches Err(e) && e@ == "Dashboard widget layout exports must be .json files."@,
                Some(e) => if is_executable_extension(e) || !eq_ignore_ascii_case(e, "json"@) {
                    r matches Err(x) && x@ == "Dashboard widget layout exports must be .json files."@
                } else {
                    match import_name(
                        match file_name {
                            Some(n) => Some(n@),
                            None => None,
                        },
                        "json"@,
                    ) {
                        Ok(name) => r matches Ok(x) && x@ == name,
                        Err(_) => r matches Err(x) && x@
                            == "Export file name must include at least one ASCII letter or number."@,
                    }
                },
            },
    {
        let e = match ext_of(file_name) {
            None => {
                return Err(owned("Dashboard widget layout exports must be .json files."));
            },
            Some(e) => e,
        };
        let es = string_of(e.as_slice());
        if is_executable_or_unexpected_extension(es.as_str()) || !eq_ignore_ascii_case_exec(e.as_slice(), "json") {
            return Err(owned("Dashboard widget layout exports must be .json files."));
        }
        match normalized_import_name(file_name, "json") {
            Ok(n) => Ok(n),
            Err(_) => Err(owned("Export file name must include at least one ASCII letter or number.")),
        }
    }

    /// The result of a widget layout export of some bytes.
    pub fn export_result(output_path: &str, normalized_name: String, bytes: usize) -> (r: ImportResult)
        ensures
            validation_is(
                r.validation,
                "widget_layout_export"@,
                true,
                "Dashboard widget layout export is valid and data-only."@,
                output_path@,
                Some(normalized_name@),
            ),
            r.stored_relative_path@ == output_path@,
            r.bytes_copied == bytes,
    {
        ImportResult {
            validation: ImportValidation {
                kind: owned("widget_layout_export"),
                safe: true,
                message: owned("Dashboard widget layout export is valid and data-only."),
                source_path: owned(output_path),
                normalized_name: Some(normalized_name),
            },
            stored_relative_path: owned(output_path),
            bytes_copied: bytes,
        }
    }
}

} // verus!
