//! Vault inspection: where a vault lives, which paths it must hold, and what
//! state a folder is in, from what was observed of it on disk.
use vstd::prelude::*;
use crate::dashboard::{v3_relative_paths, v3_relative_paths_exec};
use crate::layout_folder::required_layout_subfolders;
use crate::paths::{file_name, file_name_exec, join_path, path_join};
use crate::text::{chars_of, eq_str, owned, string_views};

verus! {

/// The state a vault folder is in.
#[derive(Debug, Clone, Copy, PartialEq, Eq, Structural)]
pub enum VaultState {
    Missing,
    InvalidPath,
    OlderVersionDetected,
    LayoutMissing,
    ScaffoldIncomplete,
    Ready,
    Blocked,
}

/// What an inspection of a vault folder found.
pub struct VaultInspection {
    pub path: String,
    pub state: VaultState,
    pub exists: bool,
    pub is_bentolife_vault: bool,
    pub layout_exists: bool,
    pub older_version_detected: bool,
    pub missing_paths: Vec<String>,
    pub message: String,
}

/// What was observed on disk about a vault path: whether it exists, is a
/// folder, holds a layout folder, shows an older vault shape, and which of
/// its required paths are missing.
pub struct VaultObservation {
    pub exists: bool,
    pub is_dir: bool,
    pub layout_is_dir: bool,
    pub older_shape: bool,
    pub missing_paths: Vec<String>,
}

/// The paths a vault must hold, relative to it, in the order they are
/// checked.
pub open spec fn required_relative_paths() -> Seq<Seq<char>> {
    seq![
        "assets"@, ".bentolifelayout"@, ".bentolifelayout/schema.json"@,
        ".bentolifelayout/index.json"@, ".bentolifelayout/workspace_state.json"@,
        "modules/trash/INDEX.md"@, "modules/archive/INDEX.md"@,
    ] + required_layout_subfolders().map_values(|f: Seq<char>| ".bentolifelayout/"@ + f)
        + v3_relative_paths()
}

/// The paths whose presence flag is false, in order.
pub open spec fn missing_of(paths: Seq<Seq<char>>, present: Seq<bool>) -> Seq<Seq<char>>
    decreases paths.len(),
{
    if paths.len() == 0 {
        seq![]
    } else if present.len() > 0 && present[paths.len() - 1] {
        missing_of(paths.drop_last(), present)
    } else {
        missing_of(paths.drop_last(), present).push(paths.last())
    }
}

/// The state of a vault path and the message shown for it, from what was
/// observed: the name comes first, then existence, being a folder, an older
/// shape, the layout folder and the missing paths.
pub open spec fn inspection_outcome(
    named: bool,
    exists: bool,
    is_dir: bool,
    layout: bool,
    older: bool,
    missing: nat,
) -> (VaultState, Seq<char>) {
    if !named {
        (VaultState::InvalidPath, "Select or create the .bentolifevault folder itself."@)
    } else if !exists {
        (VaultState::Missing, "Vault folder has not been created yet."@)
    } else if !is_dir {
        (VaultState::Blocked, "A file exists at the vault path, but BentoLife needs a folder."@)
    } else if older {
        (
            VaultState::OlderVersionDetected,
            "Older BentoLife vault paths were detected. Back up or snapshot this vault, then create a fresh V3 vault and import copied content explicitly."@,
        )
    } else if !layout {
        (VaultState::LayoutMissing, "Markdown content may be safe, but .bentolifelayout is missing."@)
    } else if missing > 0 {
        (
            VaultState::ScaffoldIncomplete,
            "Vault exists but required metadata folders or bootstrap files are missing."@,
        )
    } else {
        (VaultState::Ready, "Vault is ready."@)
    }
}

/// Whether a path names the vault folder itself.
pub open spec fn named_vault(path: Seq<char>) -> bool {
    file_name(path) == Some(".bentolifevault"@)
}

/// A file that only an older vault holds: a Markdown file in a module folder
/// other than its `INDEX.md` and `MODULE.md`.
pub open spec fn legacy_entry(name: Seq<char>, is_file: bool) -> bool {
    is_file && crate::markdown_assets::extension_of(name) == Some("md"@) && name != "INDEX.md"@
        && name != "MODULE.md"@
}

/// Vault paths and states.
pub struct VaultService;

impl VaultService {
    /// The default vault under a home folder: `Documents/.bentolifevault`.
    pub fn default_vault_path_from_home(home_path: &str) -> (r: String)
        ensures
            r@ == path_join(path_join(home_path@, "Documents"@), ".bentolifevault"@),
    {
        let documents = join_path(home_path, "Documents");
        join_path(documents.as_str(), crate::security::VAULT_FOLDER_NAME)
    }

    /// Whether a path names the vault folder itself.
    pub fn is_named_vault(path: &str) -> (r: bool)
        ensures
            r == named_vault(path@),
    {
        let p = chars_of(path);
        match file_name_exec(p.as_slice()) {
            Some(name) => eq_str(name.as_slice(), ".bentolifevault"),
            None => false,
        }
    }

    /// The paths a vault must hold, relative to it, in order.
    pub fn required_relative_paths() -> (r: Vec<String>)
        ensures
            string_views(r@) == required_relative_paths(),
    {
        let mut r: Vec<String> = vec![
            owned("assets"),
            owned(".bentolifelayout"),
            owned(".bentolifelayout/schema.json"),
            owned(".bentolifelayout/index.json"),
            owned(".bentolifelayout/workspace_state.json"),
            owned("modules/trash/INDEX.md"),
            owned("modules/archive/INDEX.md"),
        ];
        let folders = vec![
            "documents", "layouts", "indexes", "themes", "imports", "imports/staged", "backups",
            "plugins", "orphans", "trash", "archive", "modules",
        ];
        let ghost head = string_views(r@);
        let ghost fs = folders@.map_values(|s: &str| s@);
        assert(fs =~= required_layout_subfolders());
        let n = folders.len();
        let mut i: usize = 0;
        while i < n
            invariant
                n == folders@.len(),
                fs == folders@.map_values(|s: &str| s@),
                i <= n,
                string_views(r@) == head + fs.take(i as int).map_values(
                    |f: Seq<char>| ".bentolifelayout/"@ + f,
                ),
            decreases n - i,
        {
            let mut p = chars_of(".bentolifelayout/");
            crate::text::append_str(&mut p, folders[i]);
            let ghost before = string_views(r@);
            r.push(crate::text::string_of(p.as_slice()));
            assert(string_views(r@) =~= before.push(p@));
            assert(fs.take(i + 1).map_values(|f: Seq<char>| ".bentolifelayout/"@ + f) =~= fs.take(
                i as int,
            ).map_values(|f: Seq<char>| ".bentolifelayout/"@ + f).push(".bentolifelayout/"@ + fs[i as int]));
            i = i + 1;
        }
        assert(fs.take(n as int) =~= fs);
        let v3 = v3_relative_paths_exec();
        let ghost mid = string_views(r@);
        let m = v3.len();
        let mut j: usize = 0;
        while j < m
            invariant
                m == v3@.len(),
                string_views(v3@) == v3_relative_paths(),
                j <= m,
                string_views(r@) == mid + string_views(v3@).take(j as int),
            decreases m - j,
        {
            let ghost before = string_views(r@);
            r.push(v3[j].clone());
            assert(string_views(r@) =~= before.push(v3@[j as int]@));
            assert(string_views(v3@).take(j + 1) =~= string_views(v3@).take(j as int).push(
                v3@[j as int]@,
            ));
            j = j + 1;
        }
        assert(string_views(v3@).take(m as int) =~= string_views(v3@));
        assert(string_views(r@) =~= required_relative_paths());
        r
    }

    /// The required paths that are not present, in order.
    pub fn missing_required_paths(required: &Vec<String>, present: &Vec<bool>) -> (r: Vec<String>)
        requires
            present@.len() == required@.len(),
        ensures
            string_views(r@) == missing_of(string_views(required@), present@),
    {
        let mut r: Vec<String> = Vec::new();
        let n = required.len();
        let mut i: usize = 0;
        assert(string_views(required@).take(0) =~= Seq::<Seq<char>>::empty());
        while i < n
            invariant
                n == required@.len(),
                present@.len() == n,
                i <= n,
                string_views(r@) == missing_of(string_views(required@).take(i as int), present@),
            decreases n - i,
        {
            let ghost t = string_views(required@).take(i + 1);
            assert(t.drop_last() =~= string_views(required@).take(i as int));
            assert(t.last() == required@[i as int]@);
            if !present[i] {
                let ghost before = string_views(r@);
                r.push(required[i].clone());
                assert(string_views(r@) =~= before.push(required@[i as int]@));
            }
            i = i + 1;
        }
        assert(string_views(required@).take(n as int) =~= string_views(required@));
        r
    }

    /// Inspects a vault path from what was observed of it.
    pub fn inspect(path: &str, observed: VaultObservation) -> (r: VaultInspection)
        ensures
            r.path@ == path@,
            r.is_bentolife_vault == named_vault(path@),
            r.exists == observed.exists,
            r.layout_exists == observed.layout_is_dir,
            r.older_version_detected == (observed.exists && observed.is_dir && observed.older_shape),
            r.missing_paths@ == observed.missing_paths@,
            (r.state, r.message@) == inspection_outcome(
                named_vault(path@),
                observed.exists,
                observed.is_dir,
                observed.layout_is_dir,
                observed.exists && observed.is_dir && observed.older_shape,
                observed.missing_paths@.len(),
            ),
    {
        let named = Self::is_named_vault(path);
        let exists = observed.exists;
        let older = exists && observed.is_dir && observed.older_shape;
        let layout = observed.layout_is_dir;
        let (state, message) = if !named {
            (VaultState::InvalidPath, "Select or create the .bentolifevault folder itself.")
        } else if !exists {
            (VaultState::Missing, "Vault folder has not been created yet.")
        } else if !observed.is_dir {
            (VaultState::Blocked, "A file exists at the vault path, but BentoLife needs a folder.")
        } else if older {
            (
                VaultState::OlderVersionDetected,
                "Older BentoLife vault paths were detected. Back up or snapshot this vault, then create a fresh V3 vault and import copied content explicitly.",
            )
        } else if !layout {
            (VaultState::LayoutMissing, "Markdown content may be safe, but .bentolifelayout is missing.")
        } else if observed.missing_paths.len() > 0 {
            (
                VaultState::ScaffoldIncomplete,
                "Vault exists but required metadata folders or bootstrap files are missing.",
            )
        } else {
            (VaultState::Ready, "Vault is ready.")
        };
        VaultInspection {
            path: owned(path),
            state,
            exists,
            is_bentolife_vault: named,
            layout_exists: layout,
            older_version_detected: older,
            missing_paths: observed.missing_paths,
            message: owned(message),
        }
    }

    /// Whether a folder entry shows an older vault shape.
    pub fn is_legacy_entry(name: &str, is_file: bool) -> (r: bool)
        ensures
            r == legacy_entry(name@, is_file),
    {
        let v = chars_of(name);
        is_file && match crate::markdown_assets::extension_of_exec(v.as_slice()) {
            Some(e) => eq_str(e.as_slice(), "md"),
            None => false,
        } && !eq_str(v.as_slice(), "INDEX.md") && !eq_str(v.as_slice(), "MODULE.md")
    }

    /// Whether a vault may be repaired in place: it must be named as the
    /// vault, be a folder, and show no older shape.
    pub fn repair_vault_structure(path: &str, is_dir: bool, older_shape: bool) -> (r: Result<
        (),
        String,
    >)
        ensures
            !named_vault(path@) ==> (r matches Err(e) && e@
                == "Vault path must point to the .bentolifevault folder itself."@),
            named_vault(path@) && !is_dir ==> (r matches Err(e) && e@ == "Vault folder does not exist at "@
                + path@),
            named_vault(path@) && is_dir && older_shape ==> (r matches Err(e) && e@
                == "Repair will not convert older MVP/V2 vault paths into V3. Back up or snapshot the vault, then reinitialize a fresh V3 vault and import copied data explicitly."@),
            r is Ok <==> named_vault(path@) && is_dir && !older_shape,
    {
        if !Self::is_named_vault(path) {
            return Err(owned("Vault path must point to the .bentolifevault folder itself."));
        }
        if !is_dir {
            let mut m = chars_of("Vault folder does not exist at ");
            crate::text::append_str(&mut m, path);
            return Err(crate::text::string_of(m.as_slice()));
        }
        if older_shape {
            return Err(
                owned(
                    "Repair will not convert older MVP/V2 vault paths into V3. Back up or snapshot the vault, then reinitialize a fresh V3 vault and import copied data explicitly.",
                ),
            );
        }
        Ok(())
    }

    /// Whether a vault may be created at a path: it must be named as the
    /// vault, and an existing non-empty folder there must not show an older
    /// shape.
    pub fn create_vault(path: &str, exists: bool, is_empty: bool, older_shape: bool) -> (r: Result<
        (),
        String,
    >)
        ensures
            !named_vault(path@) ==> (r matches Err(e) && e@
                == "Vault path must point to the .bentolifevault folder itself."@),
            named_vault(path@) && exists && !is_empty && older_shape ==> (r matches Err(e) && e@
                == "Older BentoLife vault structure detected. Back up or snapshot this folder, then create a fresh V3 vault or use copy-only import instead of in-place migration."@),
            r is Ok <==> named_vault(path@) && !(exists && !is_empty && older_shape),
    {
        if !Self::is_named_vault(path) {
            return Err(owned("Vault path must point to the .bentolifevault folder itself."));
        }
        if exists && !is_empty && older_shape {
            return Err(
                owned(
                    "Older BentoLife vault structure detected. Back up or snapshot this folder, then create a fresh V3 vault or use copy-only import instead of in-place migration.",
                ),
            );
        }
        Ok(())
    }
}

} // verus!
