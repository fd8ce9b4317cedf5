use bentolife_core::document_metadata::DocumentMetadataService;
use bentolife_core::workspace_metadata::WorkspaceMetadataService;

#[test]
fn default_workspace_state_points_to_root_index_json() {
    let state = WorkspaceMetadataService::default_workspace_state();

    assert_eq!(state.index_path, ".bentolifelayout/index.json");
    assert_eq!(state.language, "en");
    assert!(state.validate().is_ok());
}

#[test]
fn workspace_language_roundtrips_and_invalid_values_fall_back_to_english() {
    let mut state = WorkspaceMetadataService::default_workspace_state();
    state.language = "vi".to_string();
    state.normalize();
    assert_eq!(state.language, "vi");
    assert!(state.validate().is_ok());

    state.language = "en".to_string();
    state.normalize();
    assert_eq!(state.language, "en");

    state.language = "fr".to_string();
    state.normalize();
    assert_eq!(state.language, "en");
    assert!(state.validate().is_ok());
}

#[test]
fn rebuilt_index_maps_documents_by_id_and_path() {
    let document = DocumentMetadataService::create_default("bl_doc_test", "notes/test.md", "# Test\n")
        .expect("document metadata is valid");

    let index = WorkspaceMetadataService::rebuild_index_from_documents(&[document])
        .expect("index rebuilds");

    assert_eq!(
        index.document_id_for_path("notes/test.md"),
        Some("bl_doc_test".to_string())
    );
    assert!(index.rebuild_policy.treat_index_as_cache);
}

#[test]
fn reading_a_state_with_an_unknown_language_falls_back_to_english() {
    let mut state = WorkspaceMetadataService::default_workspace_state();
    state.language = "not-supported".to_string();
    let read = WorkspaceMetadataService::read_workspace_state(state).expect("read invalid");
    assert_eq!(read.language, "en");
}
