//! Validation of vault-relative paths, vault roots, module ids and
//! confirmation tokens for destructive actions.
use vstd::prelude::*;
use crate::paths::{file_name, file_name_exec, normalize_slashes, normalize_slashes_exec};
use crate::text::{
    append, append_str, chars_of, contains, contains_str, ends_with_str, eq_str, has_prefix,
    has_suffix, owned, seq_eq, split_char, split_exec, starts_with_str, string_of, trim,
    trim_exec, views,
};

verus! {

/// The name of the vault folder.
pub const VAULT_FOLDER_NAME: &'static str = ".bentolifevault";

/// The app-owned metadata folder inside the vault.
pub const LAYOUT_FOLDER: &'static str = ".bentolifelayout";

/// The folder that holds trashed entries.
pub const TRASH_FOLDER: &'static str = ".bentolifelayout/trash";

/// The folder that holds archived entries.
pub const ARCHIVE_FOLDER: &'static str = ".bentolifelayout/archive";

/// The view of a result of strings.
pub open spec fn res_view(r: Result<String, String>) -> Result<Seq<char>, Seq<char>> {
    match r {
        Ok(s) => Ok(s@),
        Err(e) => Err(e@),
    }
}

/// The view of a result of character vectors.
pub open spec fn vec_res(r: Result<Vec<char>, Vec<char>>) -> Result<Seq<char>, Seq<char>> {
    match r {
        Ok(s) => Ok(s@),
        Err(e) => Err(e@),
    }
}

/// The view of a result without a value.
pub open spec fn unit_view(r: Result<(), String>) -> Result<(), Seq<char>> {
    match r {
        Ok(_) => Ok(()),
        Err(e) => Err(e@),
    }
}

// ---------------------------------------------------------------------------
// Vault root and module ids
// ---------------------------------------------------------------------------

/// The vault root must be the `.bentolifevault` folder itself.
pub open spec fn vault_root_result(p: Seq<char>) -> Result<Seq<char>, Seq<char>> {
    if file_name(p) == Some(VAULT_FOLDER_NAME@) {
        Ok(p)
    } else {
        Err("Target path must be the .bentolifevault folder itself."@)
    }
}

/// Accepts a vault root path only when its last component is `.bentolifevault`.
pub fn validate_vault_root_path(vault_path: &str) -> (r: Result<String, String>)
    ensures
        res_view(r) == vault_root_result(vault_path@),
{
    let p = chars_of(vault_path);
    match file_name_exec(p.as_slice()) {
        Some(name) => {
            if eq_str(name.as_slice(), VAULT_FOLDER_NAME) {
                return Ok(owned(vault_path));
            }
        },
        None => {},
    }
    Err(owned("Target path must be the .bentolifevault folder itself."))
}

/// The content modules that user content may live in.
pub open spec fn is_known_module(id: Seq<char>) -> bool {
    id == "notes"@ || id == "todos"@ || id == "contacts"@ || id == "habits"@
}

/// Whether the id names a known content module.
pub fn is_known_module_exec(id: &[char]) -> (r: bool)
    ensures
        r == is_known_module(id@),
{
    eq_str(id, "notes") || eq_str(id, "todos") || eq_str(id, "contacts") || eq_str(id, "habits")
}

/// A module id, trimmed, must name a known content module.
pub open spec fn known_module_result(id: Seq<char>) -> Result<Seq<char>, Seq<char>> {
    if is_known_module(trim(id)) {
        Ok(trim(id))
    } else {
        Err("Unknown or unsupported module id: "@ + trim(id) + "."@)
    }
}

fn known_module_chars(id: &[char]) -> (r: Result<Vec<char>, Vec<char>>)
    ensures
        vec_res(r) == known_module_result(id@),
{
    let t = trim_exec(id);
    if is_known_module_exec(t.as_slice()) {
        Ok(t)
    } else {
        let mut e = chars_of("Unknown or unsupported module id: ");
        append(&mut e, t.as_slice());
        append_str(&mut e, ".");
        Err(e)
    }
}

/// Trims the id and accepts it only when it names a known content module.
pub fn validate_known_module_id(module_id: &str) -> (r: Result<String, String>)
    ensures
        res_view(r) == known_module_result(module_id@),
{
    let v = chars_of(module_id);
    match known_module_chars(v.as_slice()) {
        Ok(t) => Ok(string_of(t.as_slice())),
        Err(e) => Err(string_of(e.as_slice())),
    }
}

// ---------------------------------------------------------------------------
// Vault-relative paths
// ---------------------------------------------------------------------------

/// The first offending component among the slash-separated parts, if any:
/// a `..` escapes the vault; a named component with `:` carries a URL or
/// drive prefix.  Empty and `.` parts are not components.
pub open spec fn segment_error(parts: Seq<Seq<char>>) -> Option<Seq<char>>
    decreases parts.len(),
{
    if parts.len() == 0 {
        None
    } else if parts[0] == ".."@ {
        Some("Vault-relative paths must not escape the vault."@)
    } else if parts[0].len() > 0 && parts[0] != "."@ && contains(parts[0], ":"@) {
        Some("Vault-relative paths must not contain URL or drive prefixes."@)
    } else {
        segment_error(parts.drop_first())
    }
}

/// The normalized form of a vault-relative path, or why it is refused.
pub open spec fn basic_relative_path(p: Seq<char>) -> Result<Seq<char>, Seq<char>> {
    if contains(p, "\0"@) {
        Err("Vault-relative paths must not contain null bytes."@)
    } else {
        let n = normalize_slashes(trim(p));
        if n.len() == 0 {
            Err("Vault-relative path is required."@)
        } else if has_prefix(n, "/"@) || contains(n, "//"@) {
            Err("Vault-relative paths must not be absolute."@)
        } else {
            match segment_error(split_char(n, '/')) {
                Some(m) => Err(m),
                None => Ok(n),
            }
        }
    }
}

fn segment_error_exec(parts: &Vec<Vec<char>>) -> (r: Option<Vec<char>>)
    ensures
        match r {
            Some(m) => segment_error(views(parts@)) == Some(m@),
            None => segment_error(views(parts@)) is None,
        },
{
    let mut i: usize = 0;
    assert(views(parts@).skip(0) =~= views(parts@));
    while i < parts.len()
        invariant
            i <= parts@.len(),
            segment_error(views(parts@)) == segment_error(views(parts@).skip(i as int)),
        decreases parts@.len() - i,
    {
        let ghost rest = views(parts@).skip(i as int);
        assert(rest[0] == parts@[i as int]@);
        assert(rest.drop_first() =~= views(parts@).skip(i + 1));
        let part = parts[i].as_slice();
        if eq_str(part, "..") {
            return Some(chars_of("Vault-relative paths must not escape the vault."));
        }
        if part.len() > 0 && !eq_str(part, ".") && contains_str(part, ":") {
            return Some(chars_of("Vault-relative paths must not contain URL or drive prefixes."));
        }
        i = i + 1;
    }
    None
}

fn basic_relative_path_chars(p: &[char]) -> (r: Result<Vec<char>, Vec<char>>)
    ensures
        vec_res(r) == basic_relative_path(p@),
{
    if contains_str(p, "\0") {
        return Err(chars_of("Vault-relative paths must not contain null bytes."));
    }
    let t = trim_exec(p);
    let n = normalize_slashes_exec(t.as_slice());
    if n.len() == 0 {
        return Err(chars_of("Vault-relative path is required."));
    }
    if starts_with_str(n.as_slice(), "/") || contains_str(n.as_slice(), "//") {
        return Err(chars_of("Vault-relative paths must not be absolute."));
    }
    let parts = split_exec(n.as_slice(), '/');
    match segment_error_exec(&parts) {
        Some(m) => Err(m),
        None => Ok(n),
    }
}

fn reject_runtime_or_system_chars(n: &[char]) -> (r: bool)
    ensures
        r == is_runtime_or_system(n@),
{
    starts_with_str(n, LAYOUT_FOLDER) || starts_with_str(n, "modules/trash/") || starts_with_str(
        n,
        "modules/archive/",
    ) || starts_with_str(n, "modules/navigator/") || eq_str(n, "INDEX.md") || ends_with_str(
        n,
        "/INDEX.md",
    ) || ends_with_str(n, "/MODULE.md")
}

/// Runtime and system files that user content mutations must not touch.
pub open spec fn is_runtime_or_system(n: Seq<char>) -> bool {
    has_prefix(n, LAYOUT_FOLDER@) || has_prefix(n, "modules/trash/"@) || has_prefix(
        n,
        "modules/archive/"@,
    ) || has_prefix(n, "modules/navigator/"@) || n == "INDEX.md"@ || has_suffix(n, "/INDEX.md"@)
        || has_suffix(n, "/MODULE.md"@)
}

/// A user-content Markdown path: `modules/<known module>/data/.../*.md`,
/// normalized, outside runtime and system files.
pub open spec fn user_module_markdown_path(p: Seq<char>) -> Result<Seq<char>, Seq<char>> {
    match basic_relative_path(p) {
        Err(e) => Err(e),
        Ok(n) => {
            let parts = split_char(n, '/');
            if parts.len() < 4 || parts[0] != "modules"@ || parts[2] != "data"@ || !has_suffix(
                n,
                ".md"@,
            ) {
                Err("User content mutations must target modules/<module>/data/*.md files."@)
            } else {
                match known_module_result(parts[1]) {
                    Err(e) => Err(e),
                    Ok(_) => if is_runtime_or_system(n) {
                        Err(
                            "User content mutations must not target BentoLife runtime or system files."@,
                        )
                    } else {
                        Ok(n)
                    },
                }
            }
        },
    }
}

fn user_module_markdown_chars(p: &[char]) -> (r: Result<Vec<char>, Vec<char>>)
    ensures
        vec_res(r) == user_module_markdown_path(p@),
{
    let n = match basic_relative_path_chars(p) {
        Ok(n) => n,
        Err(e) => {
            return Err(e);
        },
    };
    let parts = split_exec(n.as_slice(), '/');
    if parts.len() < 4 || !eq_str(parts[0].as_slice(), "modules") || !eq_str(
        parts[2].as_slice(),
        "data",
    ) || !ends_with_str(n.as_slice(), ".md") {
        return Err(chars_of("User content mutations must target modules/<module>/data/*.md files."));
    }
    assert(views(parts@)[1] == parts@[1]@);
    match known_module_chars(parts[1].as_slice()) {
        Err(e) => {
            return Err(e);
        },
        Ok(_) => {},
    }
    if reject_runtime_or_system_chars(n.as_slice()) {
        return Err(
            chars_of("User content mutations must not target BentoLife runtime or system files."),
        );
    }
    Ok(n)
}

fn to_strings(r: Result<Vec<char>, Vec<char>>) -> (s: Result<String, String>)
    ensures
        res_view(s) == vec_res(r),
{
    match r {
        Ok(v) => Ok(string_of(v.as_slice())),
        Err(e) => Err(string_of(e.as_slice())),
    }
}

/// Accepts only normalized user-content Markdown paths under
/// `modules/<module>/data/`.
pub fn validate_user_module_markdown_path(relative_path: &str) -> (r: Result<String, String>)
    ensures
        res_view(r) == user_module_markdown_path(relative_path@),
{
    let p = chars_of(relative_path);
    to_strings(user_module_markdown_chars(p.as_slice()))
}

/// Recovery targets follow the same rule as user-content Markdown paths.
pub fn validate_recovery_markdown_path(relative_path: &str) -> (r: Result<String, String>)
    ensures
        res_view(r) == user_module_markdown_path(relative_path@),
{
    validate_user_module_markdown_path(relative_path)
}

/// A staged import file: under `.bentolifelayout/imports/staged/`, not the
/// staged import index itself.
pub open spec fn staged_import_path(p: Seq<char>) -> Result<Seq<char>, Seq<char>> {
    match basic_relative_path(p) {
        Err(e) => Err(e),
        Ok(n) => if n == ".bentolifelayout/imports/staged/import-index.json"@ || !has_prefix(
            n,
            ".bentolifelayout/imports/staged/"@,
        ) {
            Err("Import review actions must target staged import files only."@)
        } else {
            Ok(n)
        },
    }
}

/// Accepts only staged import files.
pub fn validate_staged_import_path(relative_path: &str) -> (r: Result<String, String>)
    ensures
        res_view(r) == staged_import_path(relative_path@),
{
    let p = chars_of(relative_path);
    let n = match basic_relative_path_chars(p.as_slice()) {
        Ok(n) => n,
        Err(e) => {
            return Err(string_of(e.as_slice()));
        },
    };
    if eq_str(n.as_slice(), ".bentolifelayout/imports/staged/import-index.json") || !starts_with_str(
        n.as_slice(),
        ".bentolifelayout/imports/staged/",
    ) {
        return Err(owned("Import review actions must target staged import files only."));
    }
    Ok(string_of(n.as_slice()))
}

/// A snapshot path only needs to be a safe vault-relative path.
pub fn validate_snapshot_relative_path(relative_path: &str) -> (r: Result<String, String>)
    ensures
        res_view(r) == basic_relative_path(relative_path@),
{
    let p = chars_of(relative_path);
    to_strings(basic_relative_path_chars(p.as_slice()))
}

/// A runtime import target must lie in a BentoLife-owned import or theme folder.
pub open spec fn runtime_import_target(p: Seq<char>) -> Result<Seq<char>, Seq<char>> {
    match basic_relative_path(p) {
        Err(e) => Err(e),
        Ok(n) => if has_prefix(n, ".bentolifelayout/imports/layouts/"@) || has_prefix(
            n,
            ".bentolifelayout/imports/dashboard-widgets/"@,
        ) || has_prefix(n, ".bentolifelayout/themes/"@) {
            Ok(n)
        } else {
            Err("Runtime import targets must use BentoLife-owned import/theme folders."@)
        },
    }
}

/// Accepts only targets inside the BentoLife-owned import and theme folders.
pub fn validate_runtime_import_target(relative_path: &str) -> (r: Result<String, String>)
    ensures
        res_view(r) == runtime_import_target(relative_path@),
{
    let p = chars_of(relative_path);
    let n = match basic_relative_path_chars(p.as_slice()) {
        Ok(n) => n,
        Err(e) => {
            return Err(string_of(e.as_slice()));
        },
    };
    if starts_with_str(n.as_slice(), ".bentolifelayout/imports/layouts/") || starts_with_str(
        n.as_slice(),
        ".bentolifelayout/imports/dashboard-widgets/",
    ) || starts_with_str(n.as_slice(), ".bentolifelayout/themes/") {
        Ok(string_of(n.as_slice()))
    } else {
        Err(owned("Runtime import targets must use BentoLife-owned import/theme folders."))
    }
}

/// A lifecycle entry id: a record under `<folder>/` with the given suffix.
pub open spec fn lifecycle_entry_id(p: Seq<char>, folder: Seq<char>, suffix: Seq<char>) -> Result<
    Seq<char>,
    Seq<char>,
> {
    match basic_relative_path(p) {
        Err(e) => Err(e),
        Ok(n) => if has_prefix(n, folder + "/"@) && has_suffix(n, suffix) {
            Ok(n)
        } else {
            Err("Lifecycle entry id does not point to the expected metadata record."@)
        },
    }
}

fn lifecycle_entry_chars(p: &[char], folder: &str, suffix: &str) -> (r: Result<
    Vec<char>,
    Vec<char>,
>)
    ensures
        vec_res(r) == lifecycle_entry_id(p@, folder@, suffix@),
{
    let n = match basic_relative_path_chars(p) {
        Ok(n) => n,
        Err(e) => {
            return Err(e);
        },
    };
    let mut prefix = chars_of(folder);
    append_str(&mut prefix, "/");
    let sfx = chars_of(suffix);
    if crate::text::starts_with(n.as_slice(), prefix.as_slice()) && crate::text::ends_with(
        n.as_slice(),
        sfx.as_slice(),
    ) {
        Ok(n)
    } else {
        Err(chars_of("Lifecycle entry id does not point to the expected metadata record."))
    }
}

/// Accepts an entry id only when it is a record under `folder` ending in `suffix`.
pub fn validate_lifecycle_entry_id(entry_id: &str, folder: &str, suffix: &str) -> (r: Result<
    String,
    String,
>)
    ensures
        res_view(r) == lifecycle_entry_id(entry_id@, folder@, suffix@),
{
    let p = chars_of(entry_id);
    to_strings(lifecycle_entry_chars(p.as_slice(), folder, suffix))
}

/// A lifecycle file path: a file under `<folder>/files/`.
pub open spec fn lifecycle_file_path(p: Seq<char>, folder: Seq<char>) -> Result<
    Seq<char>,
    Seq<char>,
> {
    match basic_relative_path(p) {
        Err(e) => Err(e),
        Ok(n) => if has_prefix(n, folder + "/files/"@) {
            Ok(n)
        } else {
            Err("Lifecycle file path does not point to the expected internal file folder."@)
        },
    }
}

/// Accepts a file path only when it lies under `<folder>/files/`.
pub fn validate_lifecycle_file_path(relative_path: &str, folder: &str) -> (r: Result<
    String,
    String,
>)
    ensures
        res_view(r) == lifecycle_file_path(relative_path@, folder@),
{
    let p = chars_of(relative_path);
    let n = match basic_relative_path_chars(p.as_slice()) {
        Ok(n) => n,
        Err(e) => {
            return Err(string_of(e.as_slice()));
        },
    };
    let mut prefix = chars_of(folder);
    append_str(&mut prefix, "/files/");
    if crate::text::starts_with(n.as_slice(), prefix.as_slice()) {
        Ok(string_of(n.as_slice()))
    } else {
        Err(owned("Lifecycle file path does not point to the expected internal file folder."))
    }
}

// ---------------------------------------------------------------------------
// Confirmation tokens
// ---------------------------------------------------------------------------

/// A destructive action goes ahead only when the provided token equals the
/// expected one.
pub fn require_confirmation_token(expected: &str, provided: &str) -> (r: Result<(), String>)
    ensures
        unit_view(r) == if provided@ == expected@ {
            Ok::<(), Seq<char>>(())
        } else {
            Err("Destructive action confirmation token is missing or invalid."@)
        },
{
    let e = chars_of(expected);
    let p = chars_of(provided);
    if seq_eq(p.as_slice(), e.as_slice()) {
        Ok(())
    } else {
        Err(owned("Destructive action confirmation token is missing or invalid."))
    }
}

/// `prefix` followed by the validated value, or the validation error.
pub open spec fn prefixed(prefix: Seq<char>, r: Result<Seq<char>, Seq<char>>) -> Result<
    Seq<char>,
    Seq<char>,
> {
    match r {
        Ok(v) => Ok(prefix + v),
        Err(e) => Err(e),
    }
}

fn prefixed_exec(prefix: &str, r: Result<Vec<char>, Vec<char>>) -> (s: Result<String, String>)
    ensures
        res_view(s) == prefixed(prefix@, vec_res(r)),
{
    match r {
        Ok(v) => {
            let mut t = chars_of(prefix);
            append(&mut t, v.as_slice());
            Ok(string_of(t.as_slice()))
        },
        Err(e) => Err(string_of(e.as_slice())),
    }
}

/// The token that confirms trashing a user-content Markdown file.
pub fn trash_confirmation_token(relative_path: &str) -> (r: Result<String, String>)
    ensures
        res_view(r) == prefixed("trash:"@, user_module_markdown_path(relative_path@)),
{
    let p = chars_of(relative_path);
    prefixed_exec("trash:", user_module_markdown_chars(p.as_slice()))
}

/// The token that confirms archiving a user-content Markdown file.
pub fn archive_confirmation_token(relative_path: &str) -> (r: Result<String, String>)
    ensures
        res_view(r) == prefixed("archive:"@, user_module_markdown_path(relative_path@)),
{
    let p = chars_of(relative_path);
    prefixed_exec("archive:", user_module_markdown_chars(p.as_slice()))
}

/// The token that confirms permanently deleting a trash entry.
pub fn delete_trash_confirmation_token(entry_id: &str) -> (r: Result<String, String>)
    ensures
        res_view(r) == prefixed(
            "permanently-delete-trash-entry:"@,
            lifecycle_entry_id(entry_id@, TRASH_FOLDER@, ".trash.json"@),
        ),
{
    let p = chars_of(entry_id);
    prefixed_exec(
        "permanently-delete-trash-entry:",
        lifecycle_entry_chars(p.as_slice(), TRASH_FOLDER, ".trash.json"),
    )
}

/// The token that confirms emptying the trash.
pub fn empty_trash_confirmation_token() -> (r: &'static str)
    ensures
        r@ == "empty-trash"@,
{
    "empty-trash"
}

/// The token that confirms restoring a vault snapshot.
pub fn restore_snapshot_confirmation_token() -> (r: &'static str)
    ensures
        r@ == "restore-vault-snapshot"@,
{
    "restore-vault-snapshot"
}

/// The token that confirms applying an entity upgrade.
pub fn apply_entity_upgrade_confirmation_token() -> (r: &'static str)
    ensures
        r@ == "apply-entity-upgrade"@,
{
    "apply-entity-upgrade"
}

/// The token that confirms repairing the vault structure.
pub fn repair_vault_confirmation_token() -> (r: &'static str)
    ensures
        r@ == "repair-vault-structure"@,
{
    "repair-vault-structure"
}

} // verus!
