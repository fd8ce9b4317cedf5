use bentolife_core::layout_metadata::{LayoutCardMetadata, LayoutMetadataService};

#[test]
fn default_layout_uses_heading_fallback() {
    let metadata = LayoutMetadataService::create_default("bl_doc_test").expect("layout is valid");

    assert_eq!(metadata.theme, "clean-slate");
    assert_eq!(
        metadata.fallback_layout.strategy,
        "generate_cards_from_markdown_headings"
    );
}

#[test]
fn generates_concrete_cards_from_h1_and_h2_headings() {
    let metadata = LayoutMetadataService::generate_from_markdown(
        "bl_doc_test",
        "---\nbentolife_metadata: .bentolifelayout/documents/bl_doc_test.json\n---\n\n# Daily\n\n## Today\n\n### Detail\n\n## Later\n",
    )
    .expect("layout generated");

    assert_eq!(
        metadata
            .cards
            .iter()
            .map(|card| card.section_match.as_str())
            .collect::<Vec<_>>(),
        vec!["# Daily", "## Today", "## Later"]
    );
    assert!(metadata.cards.iter().all(|card| card.width == "single"));
    assert!(metadata.cards.iter().all(|card| card.widget == "rich_text"));
}

#[test]
fn detects_stale_layout_references() {
    let mut metadata =
        LayoutMetadataService::generate_from_markdown("bl_doc_test", "# Daily\n\n## Today\n")
            .expect("layout generated");
    metadata.cards.push(LayoutCardMetadata {
        section_match: "## Missing".to_string(),
        card_id: "missing".to_string(),
        width: "single".to_string(),
        order: 20,
        widget: "rich_text".to_string(),
    });

    let stale = LayoutMetadataService::stale_section_matches(&metadata, "# Daily\n\n## Today\n");

    assert_eq!(stale, vec!["## Missing".to_string()]);
}

#[test]
fn layouts_refuse_unsafe_document_ids() {
    assert!(LayoutMetadataService::create_default("../x").is_err());
    assert!(LayoutMetadataService::generate_from_markdown("bad id", "# A\n").is_err());
}
