use bentolife_core::security::{
    archive_confirmation_token, delete_trash_confirmation_token, empty_trash_confirmation_token,
    require_confirmation_token, trash_confirmation_token, validate_known_module_id,
    validate_lifecycle_entry_id, validate_lifecycle_file_path, validate_runtime_import_target,
    validate_snapshot_relative_path, validate_staged_import_path,
    validate_user_module_markdown_path, validate_vault_root_path, TRASH_FOLDER,
};

#[test]
fn validates_vault_root_name() {
    assert!(validate_vault_root_path("C:/tmp/.bentolifevault").is_ok());
    assert!(validate_vault_root_path("C:/tmp/not-a-vault").is_err());
}

#[test]
fn rejects_traversal_absolute_and_runtime_paths() {
    for path in [
        "../outside.md",
        "/absolute/path.md",
        "C:/absolute/path.md",
        "modules/notes/data/../../outside.md",
        ".bentolifelayout/index.json",
        "modules/notes/INDEX.md",
        "modules/navigator/NAVIGATOR.md",
    ] {
        assert!(validate_user_module_markdown_path(path).is_err(), "{path}");
    }
    assert!(validate_user_module_markdown_path("modules/notes/data/daily.md").is_ok());
}

#[test]
fn validates_confirmation_tokens() {
    let token = trash_confirmation_token("modules/notes/data/daily.md").expect("token");
    assert!(require_confirmation_token(&token, &token).is_ok());
    assert!(require_confirmation_token(&token, "trash:wrong.md").is_err());
}

#[test]
fn validates_staged_import_and_lifecycle_ids() {
    assert!(validate_staged_import_path(".bentolifelayout/imports/staged/folder/Daily.md").is_ok());
    assert!(validate_staged_import_path(".bentolifelayout/index.json").is_err());
    assert!(validate_lifecycle_entry_id(
        ".bentolifelayout/trash/modules-notes-data-daily-md.trash.json",
        TRASH_FOLDER,
        ".trash.json",
    )
    .is_ok());
    assert!(validate_lifecycle_entry_id("modules/notes/data/daily.md", TRASH_FOLDER, ".trash.json").is_err());
    assert!(validate_lifecycle_file_path(
        ".bentolifelayout/trash/files/modules/notes/data/daily.md",
        TRASH_FOLDER,
    )
    .is_ok());
    assert!(validate_lifecycle_file_path("modules/notes/data/daily.md", TRASH_FOLDER).is_err());
}

#[test]
fn user_markdown_path_is_normalized_and_error_messages_are_exact() {
    assert_eq!(
        validate_user_module_markdown_path("  modules\\todos\\data\\task.md ").unwrap(),
        "modules/todos/data/task.md"
    );
    assert_eq!(
        validate_user_module_markdown_path("modules/recipes/data/cake.md").unwrap_err(),
        "Unknown or unsupported module id: recipes."
    );
    assert_eq!(
        validate_user_module_markdown_path("a\0b").unwrap_err(),
        "Vault-relative paths must not contain null bytes."
    );
    assert_eq!(
        validate_user_module_markdown_path("   ").unwrap_err(),
        "Vault-relative path is required."
    );
    assert_eq!(
        validate_user_module_markdown_path("a//b").unwrap_err(),
        "Vault-relative paths must not be absolute."
    );
    assert_eq!(
        validate_user_module_markdown_path("a/../b").unwrap_err(),
        "Vault-relative paths must not escape the vault."
    );
    assert_eq!(
        validate_user_module_markdown_path("http://x").unwrap_err(),
        "Vault-relative paths must not be absolute."
    );
    assert_eq!(
        validate_user_module_markdown_path("c:x/y").unwrap_err(),
        "Vault-relative paths must not contain URL or drive prefixes."
    );
    assert_eq!(
        validate_user_module_markdown_path("notes/daily.md").unwrap_err(),
        "User content mutations must target modules/<module>/data/*.md files."
    );
    assert_eq!(
        validate_user_module_markdown_path("modules/notes/data/MODULE.md").unwrap_err(),
        "User content mutations must not target BentoLife runtime or system files."
    );
}

#[test]
fn module_ids_and_tokens() {
    assert_eq!(validate_known_module_id(" habits ").unwrap(), "habits");
    assert!(validate_known_module_id("navigator").is_err());
    assert_eq!(
        archive_confirmation_token("modules/notes/data/a.md").unwrap(),
        "archive:modules/notes/data/a.md"
    );
    assert_eq!(
        delete_trash_confirmation_token(".bentolifelayout/trash/x.trash.json").unwrap(),
        "permanently-delete-trash-entry:.bentolifelayout/trash/x.trash.json"
    );
    assert_eq!(empty_trash_confirmation_token(), "empty-trash");
    assert!(validate_runtime_import_target(".bentolifelayout/themes/calm.css").is_ok());
    assert!(validate_runtime_import_target("modules/notes/data/a.md").is_err());
    assert_eq!(validate_snapshot_relative_path(" a\\b ").unwrap(), "a/b");
}
