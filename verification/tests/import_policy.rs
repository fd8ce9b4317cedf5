use bentolife_core::import_policy::{
    is_reserved_system_markdown, is_runtime_path, is_user_module_data_path,
    normalize_import_relative_path, should_show_in_import_review, should_stage_for_import_review,
};

#[test]
fn classifies_runtime_and_system_paths() {
    for path in [
        ".bentolifelayout/index.json",
        "INDEX.md",
        "modules/notes/INDEX.md",
        "modules/notes/MODULE.md",
        "modules/navigator/NAVIGATOR.md",
        "modules/trash/INDEX.md",
        "modules/archive/INDEX.md",
        "schemas/modules/note.schema.json",
        ".git/config",
        ".obsidian/config.json",
        "node_modules/pkg/index.js",
        ".DS_Store",
        "Thumbs.db",
    ] {
        assert!(!should_show_in_import_review(path, "markdown_folder"), "{path}");
    }
}

#[test]
fn shows_only_module_data_markdown_for_bentolife_sources() {
    assert!(should_show_in_import_review("modules/notes/data/daily.md", "bentolife_vault"));
    assert!(should_show_in_import_review("modules/habits/data/morning.md", "snapshot"));
    assert!(!should_show_in_import_review("Loose.md", "bentolife_vault"));
    assert!(!should_show_in_import_review("assets/banner.png", "snapshot"));
}

#[test]
fn generic_markdown_folders_can_stage_assets_but_not_show_them() {
    assert!(should_stage_for_import_review("assets/banner.png", "markdown_folder"));
    assert!(!should_show_in_import_review("assets/banner.png", "markdown_folder"));
    assert!(should_show_in_import_review("Daily.md", "markdown_folder"));
}

#[test]
fn path_classifiers_on_their_own() {
    assert_eq!(normalize_import_relative_path(" a\\b\\c.md "), "a/b/c.md");
    assert!(is_runtime_path(""));
    assert!(is_runtime_path("photos/Thumbs.db"));
    assert!(is_runtime_path("modules/trash"));
    assert!(!is_runtime_path("modules/notes/data/a.md"));
    assert!(is_reserved_system_markdown("modules/todos/MODULE.md"));
    assert!(!is_reserved_system_markdown("modules/todos/data/MODULE.md"));
    assert!(is_user_module_data_path("modules/contacts/data/deep/mina.md"));
    assert!(!is_user_module_data_path("modules/recipes/data/cake.md"));
    assert!(!should_stage_for_import_review("a/./b.md", "markdown_folder"));
    assert!(!should_stage_for_import_review("c:/b.md", "markdown_folder"));
}
