use bentolife_core::layout_folder::LayoutFolderService;
use bentolife_core::vault::{VaultObservation, VaultService, VaultState};

#[test]
fn default_vault_path_uses_documents_folder() {
    let path = VaultService::default_vault_path_from_home("C:/Users/Test");

    assert_eq!(path, "C:/Users/Test/Documents/.bentolifevault");
}

fn observed(exists: bool, is_dir: bool, layout: bool, older: bool, missing: Vec<&str>) -> VaultObservation {
    VaultObservation {
        exists,
        is_dir,
        layout_is_dir: layout,
        older_shape: older,
        missing_paths: missing.into_iter().map(String::from).collect(),
    }
}

#[test]
fn inspection_states_follow_the_observations() {
    let vault = "/tmp/x/.bentolifevault";
    assert_eq!(
        VaultService::inspect("/tmp/not-a-vault", observed(true, true, true, false, vec![])).state,
        VaultState::InvalidPath
    );
    assert_eq!(VaultService::inspect(vault, observed(false, false, false, false, vec![])).state, VaultState::Missing);
    assert_eq!(VaultService::inspect(vault, observed(true, false, false, false, vec![])).state, VaultState::Blocked);
    let older = VaultService::inspect(vault, observed(true, true, true, true, vec![]));
    assert_eq!(older.state, VaultState::OlderVersionDetected);
    assert!(older.older_version_detected);
    assert_eq!(VaultService::inspect(vault, observed(true, true, false, false, vec![])).state, VaultState::LayoutMissing);
    let incomplete = VaultService::inspect(vault, observed(true, true, true, false, vec!["assets"]));
    assert_eq!(incomplete.state, VaultState::ScaffoldIncomplete);
    assert!(incomplete.missing_paths.contains(&"assets".to_string()));
    let ready = VaultService::inspect(vault, observed(true, true, true, false, vec![]));
    assert_eq!(ready.state, VaultState::Ready);
    assert_eq!(ready.message, "Vault is ready.");
}

#[test]
fn required_paths_and_missing_ones() {
    let required = VaultService::required_relative_paths();
    assert_eq!(required[0], "assets");
    assert!(required.contains(&".bentolifelayout/documents".to_string()));
    assert!(required.contains(&"modules/notes/module.schema.json".to_string()));
    assert!(required.contains(&"modules/habits/theme/css".to_string()));
    let present: Vec<bool> = required.iter().map(|p| p != "assets").collect();
    assert_eq!(VaultService::missing_required_paths(&required, &present), vec!["assets".to_string()]);
    let layout = LayoutFolderService::required_paths("/v");
    assert_eq!(layout.len(), 12);
    assert_eq!(layout[5], "/v/.bentolifelayout/imports/staged");
    assert_eq!(LayoutFolderService::layout_path("/v"), "/v/.bentolifelayout");
}

#[test]
fn repair_and_create_refuse_wrong_paths_and_older_shapes() {
    assert!(VaultService::repair_vault_structure("/tmp/not-a-vault", true, false).is_err());
    assert!(VaultService::repair_vault_structure("/tmp/.bentolifevault", true, true).is_err());
    assert!(VaultService::repair_vault_structure("/tmp/.bentolifevault", false, false).is_err());
    assert!(VaultService::repair_vault_structure("/tmp/.bentolifevault", true, false).is_ok());
    assert!(VaultService::create_vault("/tmp/not-a-vault", false, true, false).is_err());
    assert!(VaultService::create_vault("/tmp/.bentolifevault", true, false, true).is_err());
    assert!(VaultService::create_vault("/tmp/.bentolifevault", true, true, true).is_ok());
    assert!(VaultService::is_legacy_entry("daily.md", true));
    assert!(!VaultService::is_legacy_entry("INDEX.md", true));
    assert!(!VaultService::is_legacy_entry(".md", true));
    assert!(!VaultService::is_legacy_entry("daily.md", false));
}
