use bentolife_core::markdown_document::MarkdownDocumentService;

#[test]
fn parses_existing_bentolife_frontmatter() {
    let parsed = MarkdownDocumentService::parse_frontmatter(
        "---\nbentolife_metadata: .bentolifelayout/documents/bl_doc_daily.json\n---\n\n# Daily\n",
    );

    assert_eq!(
        parsed.metadata_reference.as_deref(),
        Some(".bentolifelayout/documents/bl_doc_daily.json")
    );
    assert!(parsed.body.contains("# Daily"));
}

#[test]
fn inserts_metadata_reference_and_identity_without_losing_body() {
    let managed = MarkdownDocumentService::prepare_managed_markdown(
        "# Daily\n\n- [ ] Tea\n",
        "bl_doc_daily",
        ".bentolifelayout/documents/bl_doc_daily.json",
    );

    assert!(managed.contains("bentolife_metadata: .bentolifelayout/documents/bl_doc_daily.json"));
    assert!(managed.contains("- [ ] Tea"));
    assert!(managed.ends_with("<!-- bentolife:document_id=bl_doc_daily -->\n"));
}

#[test]
fn preserves_existing_document_identity() {
    let managed = MarkdownDocumentService::prepare_managed_markdown(
        "# Daily\n\n<!-- bentolife:document_id=bl_doc_daily -->\n",
        "bl_doc_daily",
        ".bentolifelayout/documents/bl_doc_daily.json",
    );

    assert_eq!(managed.matches("bentolife:document_id=bl_doc_daily").count(), 1);
}

#[test]
fn text_without_frontmatter_is_all_body() {
    let parsed = MarkdownDocumentService::parse_frontmatter("# Plain\n");
    assert_eq!(parsed.metadata_reference, None);
    assert_eq!(parsed.body, "# Plain\n");
}

#[test]
fn manages_markdown_with_existing_or_new_identity() {
    let managed = MarkdownDocumentService::manage_document("modules\\notes\\data\\daily.md", "# Daily\n", 9).expect("managed");
    assert!(managed.document_id.starts_with("bl_doc_"));
    assert_eq!(managed.markdown_relative_path, "modules/notes/data/daily.md");
    assert_eq!(managed.metadata_path, format!(".bentolifelayout/documents/{}.json", managed.document_id));
    assert!(managed.markdown.contains("# Daily"));
    let kept = MarkdownDocumentService::manage_document(
        "modules/notes/data/daily.md",
        "# Daily\n\n<!-- bentolife:document_id=bl_doc_kept -->\n",
        9,
    )
    .expect("managed");
    assert_eq!(kept.document_id, "bl_doc_kept");
    assert!(MarkdownDocumentService::manage_document("/abs/daily.md", "# Daily\n", 9).is_err());
}
