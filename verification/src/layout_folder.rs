//! The layout folder of a vault and the folders it must hold.
use vstd::prelude::*;
use crate::paths::{join_path, path_join};
use crate::text::string_views;

verus! {

/// The folders the layout folder must hold, relative to it.
pub open spec fn required_layout_subfolders() -> Seq<Seq<char>> {
    seq![
        "documents"@, "layouts"@, "indexes"@, "themes"@, "imports"@, "imports/staged"@,
        "backups"@, "plugins"@, "orphans"@, "trash"@, "archive"@, "modules"@,
    ]
}

/// The layout folder of a vault.
pub open spec fn layout_path_of(vault: Seq<char>) -> Seq<char> {
    path_join(vault, ".bentolifelayout"@)
}

/// Paths of the layout folder.
pub struct LayoutFolderService;

impl LayoutFolderService {
    /// The layout folder of a vault.
    pub fn layout_path(vault_path: &str) -> (r: String)
        ensures
            r@ == layout_path_of(vault_path@),
    {
        join_path(vault_path, crate::security::LAYOUT_FOLDER)
    }

    /// The folders the layout folder of a vault must hold, in order.
    pub fn required_paths(vault_path: &str) -> (r: Vec<String>)
        ensures
            string_views(r@) == required_layout_subfolders().map_values(
                |f: Seq<char>| path_join(layout_path_of(vault_path@), f),
            ),
    {
        let layout = Self::layout_path(vault_path);
        let folders = vec![
            "documents", "layouts", "indexes", "themes", "imports", "imports/staged", "backups",
            "plugins", "orphans", "trash", "archive", "modules",
        ];
        let ghost fs = folders@.map_values(|s: &str| s@);
        assert(fs =~= required_layout_subfolders());
        let mut r: Vec<String> = Vec::new();
        let n = folders.len();
        let mut i: usize = 0;
        while i < n
            invariant
                n == folders@.len(),
                fs == folders@.map_values(|s: &str| s@),
                i <= n,
                string_views(r@) == fs.take(i as int).map_values(
                    |f: Seq<char>| path_join(layout@, f),
                ),
            decreases n - i,
        {
            let p = join_path(layout.as_str(), folders[i]);
            let ghost before = string_views(r@);
            r.push(p);
            assert(string_views(r@) =~= before.push(p@));
            assert(fs.take(i + 1).map_values(|f: Seq<char>| path_join(layout@, f)) =~= fs.take(
                i as int,
            ).map_values(|f: Seq<char>| path_join(layout@, f)).push(path_join(layout@, fs[i as int])));
            i = i + 1;
        }
        assert(fs.take(n as int) =~= fs);
        r
    }
}

} // verus!
