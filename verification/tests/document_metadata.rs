use bentolife_core::document_metadata::DocumentMetadataService;

#[test]
fn default_document_metadata_uses_document_id_filename() {
    let metadata = DocumentMetadataService::create_default("bl_doc_test", "notes/test.md", "# Test\n")
        .expect("metadata is valid");
    assert_eq!(
        metadata.frontmatter_contract.required_value,
        ".bentolifelayout/documents/bl_doc_test.json"
    );
    assert_eq!(metadata.layout_path, ".bentolifelayout/layouts/bl_doc_test.layout.json");
}

#[test]
fn document_metadata_rejects_absolute_paths() {
    let mut metadata = DocumentMetadataService::create_default("bl_doc_test", "notes/test.md", "# Test\n")
        .expect("metadata is valid");
    metadata.current_path = "C:/Users/Bento/test.md".to_string();
    assert!(metadata.validate().is_err());
}

#[test]
fn metadata_errors_and_fields() {
    assert_eq!(
        DocumentMetadataService::create_default("doc_1", "a.md", "").unwrap_err(),
        "Document IDs must start with bl_doc_."
    );
    assert_eq!(
        DocumentMetadataService::validate_document_id("bl_doc_a-b").unwrap_err(),
        "Document IDs may contain only ASCII letters, numbers, and underscores."
    );
    assert_eq!(
        DocumentMetadataService::create_default("bl_doc_1", "../a.md", "").unwrap_err(),
        "Vault metadata paths must not escape the vault."
    );
    let m = DocumentMetadataService::create_default_with_type("bl_doc_1", "notes\\a.md", "x", "note").unwrap();
    assert_eq!(m.current_path, "notes/a.md");
    assert_eq!(m.document_type, "note");
    assert_eq!(m.content_hash.len(), 16);
    assert!(m.created_at.starts_with("unix:"));
    let mut bad = m.clone();
    bad.schema_version = 7;
    assert_eq!(bad.validate().unwrap_err(), "Unsupported document metadata version 7.");
    assert_eq!(
        DocumentMetadataService::metadata_path("/v/.bentolifevault", "bl_doc_1"),
        "/v/.bentolifevault/.bentolifelayout/documents/bl_doc_1.json"
    );
}
