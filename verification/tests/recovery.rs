use bentolife_core::document_metadata::DocumentMetadataService;
use bentolife_core::markdown_document::MarkdownDocumentService;
use bentolife_core::recovery::{
    action_for_issue, document_type_for_path, identity_for_recovery, orphan_document_relative_path,
    orphan_layout_relative_path, orphan_manifest_relative_path, orphaned_result, RecoveryService,
};
use bentolife_core::vault::VaultState;
use bentolife_core::workspace_scanner::{
    classify_candidate, scan_candidate, scan_index, WorkspaceScanResult,
};

const ID: &str = "bl_doc_daily";

#[test]
fn recovery_service_name() {
    assert_eq!(RecoveryService::service_name(), "RecoveryService");
}

#[test]
fn maps_issue_codes_to_actions() {
    assert_eq!(action_for_issue("metadata_missing").as_deref(), Some("recover_document_metadata"));
    assert_eq!(action_for_issue("layout_missing").as_deref(), Some("recover_layout_metadata"));
    assert_eq!(
        action_for_issue("markdown_missing").as_deref(),
        Some("orphan_missing_document_metadata")
    );
    assert_eq!(
        action_for_issue("metadata_path_mismatch").as_deref(),
        Some("repair_document_frontmatter_reference")
    );
    assert_eq!(action_for_issue("duplicate_identity"), None);
}

#[test]
fn document_types_follow_module_folders() {
    assert_eq!(document_type_for_path("modules/notes/data/a.md"), "note");
    assert_eq!(document_type_for_path("modules\\todos\\data\\a.md"), "todos");
    assert_eq!(document_type_for_path("modules/contacts/data/a.md"), "contact");
    assert_eq!(document_type_for_path("modules/habits/data/a.md"), "habit");
    assert_eq!(document_type_for_path("inbox/a.md"), "markdown_document");
}

#[test]
fn orphan_storage_paths() {
    assert_eq!(orphan_document_relative_path(ID), ".bentolifelayout/orphans/documents/bl_doc_daily.json");
    assert_eq!(orphan_layout_relative_path(ID), ".bentolifelayout/orphans/layouts/bl_doc_daily.layout.json");
    assert_eq!(orphan_manifest_relative_path(ID), ".bentolifelayout/orphans/bl_doc_daily.orphan.json");
}

#[test]
fn recovers_missing_document_metadata_from_identity_comment() {
    let markdown = "# Daily\n\n<!-- bentolife:document_id=bl_doc_daily -->\n";
    let id = identity_for_recovery(markdown).expect("identity");
    assert_eq!(id, ID);
    assert!(identity_for_recovery("# Daily\n").is_err());
    let metadata = RecoveryService::recover_document_metadata(&id, "modules/todos/data/tea.md", markdown, false)
        .expect("metadata");
    assert_eq!(metadata.document_type, "todos");
    assert_eq!(metadata.current_path, "modules/todos/data/tea.md");
    let err = RecoveryService::recover_document_metadata(&id, "modules/todos/data/tea.md", markdown, true)
        .err().unwrap();
    assert_eq!(err, "Document metadata already exists for bl_doc_daily.");
}

#[test]
fn recovers_layout_from_headings() {
    let layout = RecoveryService::recover_layout_metadata(ID, "# Daily\n\n## Today\n").expect("layout");
    let matches: Vec<&str> = layout.cards.iter().map(|c| c.section_match.as_str()).collect();
    assert_eq!(matches, vec!["# Daily", "## Today"]);
}

#[test]
fn orphans_and_restores_missing_file_metadata() {
    let metadata = DocumentMetadataService::create_default_with_type(ID, "modules/notes/data/daily.md", "# Daily\n", "note")
        .expect("metadata");
    assert!(RecoveryService::orphan_missing_document_metadata(metadata.clone(), true, false).is_err());
    assert_eq!(
        RecoveryService::orphan_missing_document_metadata(metadata.clone(), false, true).err().unwrap(),
        "Orphan metadata already exists for bl_doc_daily."
    );
    let (orphaned, manifest) =
        RecoveryService::orphan_missing_document_metadata(metadata, false, false).expect("orphaned");
    assert_eq!(orphaned.recovery_status, "orphaned");
    assert_eq!(manifest.reason, "markdown_missing");
    assert_eq!(manifest.last_known_markdown_path, "modules/notes/data/daily.md");

    let result = orphaned_result(ID, "modules/notes/data/daily.md", true, None);
    assert_eq!(result.changed_paths.len(), 3);

    let markdown = "# Daily\n<!-- bentolife:document_id=bl_doc_daily -->\n";
    let restored = RecoveryService::restore_orphaned_document_metadata(
        ID,
        "modules\\notes\\data\\restored.md",
        markdown,
        orphaned.clone(),
    )
    .expect("restored");
    assert_eq!(restored.current_path, "modules/notes/data/restored.md");
    assert_eq!(restored.recovery_status, "managed");
    let err = RecoveryService::restore_orphaned_document_metadata("bl_doc_other", "modules/notes/data/x.md", markdown, orphaned)
        .err().unwrap();
    assert_eq!(err, "Markdown identity bl_doc_daily does not match orphaned document bl_doc_other.");
}

#[test]
fn repairs_stale_frontmatter_reference_without_losing_body() {
    let metadata = DocumentMetadataService::create_default_with_type(ID, "modules/notes/data/daily.md", "# Daily\n", "note")
        .expect("metadata");
    let stale = "---\nbentolife_metadata: .bentolifelayout/documents/bl_doc_stale.json\n---\n# Daily\n\nBody paragraph\n<!-- bentolife:document_id=bl_doc_daily -->\n";
    let (_, repaired) = RecoveryService::repair_document_frontmatter_reference(metadata, stale);
    assert!(repaired.contains(".bentolifelayout/documents/bl_doc_daily.json"));
    assert!(repaired.contains("Body paragraph"));
    assert_eq!(repaired.matches("bentolife:document_id=bl_doc_daily").count(), 1);
}

#[test]
fn preview_lists_vault_and_recovery_issues() {
    let preview = RecoveryService::preview_workspace_recovery("/v/.bentolifevault", VaultState::LayoutMissing, "", None);
    assert_eq!(preview.issues.len(), 1);
    assert_eq!(preview.issues[0].code, "layout_folder_missing");
    assert_eq!(preview.issues[0].action.as_deref(), Some("repair_vault_structure"));

    let preview = RecoveryService::preview_workspace_recovery("/v", VaultState::InvalidPath, "Select it.", None);
    assert_eq!(preview.issues[0].code, "vault_not_ready");
    assert_eq!(preview.issues[0].message, "Select it.");

    let markdown = MarkdownDocumentService::prepare_managed_markdown("# Daily\n", ID, ".bentolifelayout/documents/bl_doc_daily.json");
    let c = classify_candidate(scan_candidate(markdown, "modules/notes/data/daily.md".to_string()), false, None, Err(String::new()));
    let scan = WorkspaceScanResult {
        vault_path: "/v".to_string(),
        documents: vec![c.document],
        issues: c.issues,
        index: scan_index(Vec::new(), Vec::new(), Vec::new()),
    };
    let preview = RecoveryService::preview_workspace_recovery("/v", VaultState::Ready, "Vault is ready.", Some(scan));
    assert_eq!(preview.issues.len(), 1);
    assert_eq!(preview.issues[0].code, "metadata_missing");
    assert_eq!(preview.issues[0].action.as_deref(), Some("recover_document_metadata"));
}
