//! Which files of an import source are staged for review and which are shown.
use vstd::prelude::*;
use crate::paths::{normalize_slashes, normalize_slashes_exec};
use crate::security::{is_known_module, is_known_module_exec};
use crate::text::{
    chars_of, contains, contains_str, ends_with_str, eq_str, has_prefix, has_suffix, split_char,
    split_exec, starts_with_str, string_of, trim, trim_exec, views,
};

verus! {

/// The normalized form of an import path: trimmed, with forward slashes.
pub open spec fn normalized_import_path(p: Seq<char>) -> Seq<char> {
    normalize_slashes(trim(p))
}

fn normalize_chars(p: &[char]) -> (r: Vec<char>)
    ensures
        r@ == normalized_import_path(p@),
{
    let t = trim_exec(p);
    normalize_slashes_exec(t.as_slice())
}

/// Trims the path and turns backslashes into forward slashes.
pub fn normalize_import_relative_path(relative_path: &str) -> (r: String)
    ensures
        r@ == normalized_import_path(relative_path@),
{
    let p = chars_of(relative_path);
    let n = normalize_chars(p.as_slice());
    string_of(n.as_slice())
}

/// Names of folders that hold tooling or runtime data, not user content.
pub open spec fn is_tooling_root(part: Seq<char>) -> bool {
    part == ".bentolifelayout"@ || part == ".git"@ || part == ".obsidian"@ || part
        == "node_modules"@ || part == "schemas"@
}

/// Operating-system clutter files.
pub open spec fn is_os_clutter(part: Seq<char>) -> bool {
    part == ".DS_Store"@ || part == "Thumbs.db"@
}

/// The path is BentoLife runtime data, tooling data, or system clutter.
pub open spec fn runtime_path(p: Seq<char>) -> bool {
    let path = normalized_import_path(p);
    let parts = split_char(path, '/');
    ||| path.len() == 0
    ||| is_tooling_root(parts[0])
    ||| is_os_clutter(path)
    ||| (exists|i: int| 0 <= i < parts.len() && is_os_clutter(#[trigger] parts[i]))
    ||| has_prefix(path, "modules/navigator/"@)
    ||| path == "modules/navigator"@
    ||| has_prefix(path, "modules/trash/"@)
    ||| path == "modules/trash"@
    ||| has_prefix(path, "modules/archive/"@)
    ||| path == "modules/archive"@
}

fn is_os_clutter_exec(part: &[char]) -> (r: bool)
    ensures
        r == is_os_clutter(part@),
{
    eq_str(part, ".DS_Store") || eq_str(part, "Thumbs.db")
}

fn any_clutter(parts: &Vec<Vec<char>>) -> (r: bool)
    ensures
        r == exists|i: int| 0 <= i < parts@.len() && is_os_clutter(#[trigger] views(parts@)[i]),
{
    let mut i: usize = 0;
    while i < parts.len()
        invariant
            i <= parts@.len(),
            forall|j: int| 0 <= j < i ==> !is_os_clutter(#[trigger] views(parts@)[j]),
        decreases parts@.len() - i,
    {
        assert(views(parts@)[i as int] == parts@[i as int]@);
        if is_os_clutter_exec(parts[i].as_slice()) {
            return true;
        }
        i = i + 1;
    }
    false
}

/// Whether the path is BentoLife runtime data, tooling data, or system clutter.
pub fn is_runtime_path(relative_path: &str) -> (r: bool)
    ensures
        r == runtime_path(relative_path@),
{
    let p = chars_of(relative_path);
    let path = normalize_chars(p.as_slice());
    let parts = split_exec(path.as_slice(), '/');
    proof {
        crate::text::lemma_split_char_nonempty(path@, '/');
    }
    if path.len() == 0 {
        return true;
    }
    let first = parts[0].as_slice();
    assert(views(parts@)[0] == parts@[0]@);
    if eq_str(first, ".bentolifelayout") || eq_str(first, ".git") || eq_str(first, ".obsidian")
        || eq_str(first, "node_modules") || eq_str(first, "schemas") {
        return true;
    }
    if is_os_clutter_exec(path.as_slice()) {
        return true;
    }
    if any_clutter(&parts) {
        return true;
    }
    starts_with_str(path.as_slice(), "modules/navigator/") || eq_str(
        path.as_slice(),
        "modules/navigator",
    ) || starts_with_str(path.as_slice(), "modules/trash/") || eq_str(
        path.as_slice(),
        "modules/trash",
    ) || starts_with_str(path.as_slice(), "modules/archive/") || eq_str(
        path.as_slice(),
        "modules/archive",
    )
}

/// The vault index or a module's `INDEX.md` / `MODULE.md`.
pub open spec fn reserved_system_markdown(p: Seq<char>) -> bool {
    let path = normalized_import_path(p);
    let parts = split_char(path, '/');
    path == "INDEX.md"@ || (parts.len() == 3 && parts[0] == "modules"@ && (parts[2]
        == "INDEX.md"@ || parts[2] == "MODULE.md"@))
}

/// Whether the path is the vault index or a module's system Markdown.
pub fn is_reserved_system_markdown(relative_path: &str) -> (r: bool)
    ensures
        r == reserved_system_markdown(relative_path@),
{
    let p = chars_of(relative_path);
    let path = normalize_chars(p.as_slice());
    if eq_str(path.as_slice(), "INDEX.md") {
        return true;
    }
    let parts = split_exec(path.as_slice(), '/');
    if parts.len() != 3 {
        return false;
    }
    assert(views(parts@)[0] == parts@[0]@);
    assert(views(parts@)[2] == parts@[2]@);
    eq_str(parts[0].as_slice(), "modules") && (eq_str(parts[2].as_slice(), "INDEX.md") || eq_str(
        parts[2].as_slice(),
        "MODULE.md",
    ))
}

/// A Markdown file under `modules/<known module>/data/`.
pub open spec fn user_module_data_path(p: Seq<char>) -> bool {
    let path = normalized_import_path(p);
    let parts = split_char(path, '/');
    parts.len() >= 4 && parts[0] == "modules"@ && is_known_module(parts[1]) && parts[2]
        == "data"@ && has_suffix(path, ".md"@)
}

/// Whether the path is a Markdown file under `modules/<known module>/data/`.
pub fn is_user_module_data_path(relative_path: &str) -> (r: bool)
    ensures
        r == user_module_data_path(relative_path@),
{
    let p = chars_of(relative_path);
    let path = normalize_chars(p.as_slice());
    let parts = split_exec(path.as_slice(), '/');
    if parts.len() < 4 {
        return false;
    }
    assert(views(parts@)[0] == parts@[0]@);
    assert(views(parts@)[1] == parts@[1]@);
    assert(views(parts@)[2] == parts@[2]@);
    eq_str(parts[0].as_slice(), "modules") && is_known_module_exec(parts[1].as_slice()) && eq_str(
        parts[2].as_slice(),
        "data",
    ) && ends_with_str(path.as_slice(), ".md")
}

/// A part that makes a relative path unsafe: empty, `.`, `..`, or with `:`.
pub open spec fn is_unsafe_part(part: Seq<char>) -> bool {
    part.len() == 0 || part == "."@ || part == ".."@ || contains(part, ":"@)
}

/// The path is absolute, has an empty part, or a `.`, `..` or prefixed part.
pub open spec fn unsafe_relative_path(path: Seq<char>) -> bool {
    let parts = split_char(path, '/');
    has_prefix(path, "/"@) || contains(path, "//"@) || exists|i: int|
        0 <= i < parts.len() && is_unsafe_part(#[trigger] parts[i])
}

fn has_unsafe_relative_path(path: &[char]) -> (r: bool)
    ensures
        r == unsafe_relative_path(path@),
{
    if starts_with_str(path, "/") || contains_str(path, "//") {
        return true;
    }
    let parts = split_exec(path, '/');
    let mut i: usize = 0;
    while i < parts.len()
        invariant
            i <= parts@.len(),
            views(parts@) == split_char(path@, '/'),
            forall|j: int| 0 <= j < i ==> !is_unsafe_part(#[trigger] views(parts@)[j]),
        decreases parts@.len() - i,
    {
        assert(views(parts@)[i as int] == parts@[i as int]@);
        let part = parts[i].as_slice();
        if part.len() == 0 || eq_str(part, ".") || eq_str(part, "..") || contains_str(part, ":") {
            assert(is_unsafe_part(views(parts@)[i as int]));
            return true;
        }
        i = i + 1;
    }
    false
}

/// Sources whose content must already follow the vault layout.
pub open spec fn is_vault_source(kind: Seq<char>) -> bool {
    kind == "bentolife_vault"@ || kind == "snapshot"@
}

/// Staged for review: a safe path that is neither runtime data nor system
/// Markdown; from a vault or snapshot, only module data files.
pub open spec fn stage_for_review(p: Seq<char>, kind: Seq<char>) -> bool {
    let path = normalized_import_path(p);
    !unsafe_relative_path(path) && !runtime_path(path) && !reserved_system_markdown(path) && (
    is_vault_source(kind) ==> user_module_data_path(path))
}

/// Whether a file of an import source is staged for review.
pub fn should_stage_for_import_review(relative_path: &str, source_kind: &str) -> (r: bool)
    ensures
        r == stage_for_review(relative_path@, source_kind@),
{
    let p = chars_of(relative_path);
    let path_v = normalize_chars(p.as_slice());
    let path = string_of(path_v.as_slice());
    if has_unsafe_relative_path(path_v.as_slice()) || is_runtime_path(path.as_str())
        || is_reserved_system_markdown(path.as_str()) {
        return false;
    }
    let kind = chars_of(source_kind);
    if eq_str(kind.as_slice(), "bentolife_vault") || eq_str(kind.as_slice(), "snapshot") {
        is_user_module_data_path(path.as_str())
    } else {
        true
    }
}

/// Shown in the review: staged, and a Markdown file.
pub open spec fn show_in_review(p: Seq<char>, kind: Seq<char>) -> bool {
    let path = normalized_import_path(p);
    stage_for_review(path, kind) && has_suffix(path, ".md"@)
}

/// Whether a file of an import source is shown in the review.
pub fn should_show_in_import_review(relative_path: &str, source_kind: &str) -> (r: bool)
    ensures
        r == show_in_review(relative_path@, source_kind@),
{
    let path = normalize_import_relative_path(relative_path);
    let v = chars_of(path.as_str());
    should_stage_for_import_review(path.as_str(), source_kind) && ends_with_str(
        v.as_slice(),
        ".md",
    )
}

} // verus!
