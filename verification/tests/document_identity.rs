use bentolife_core::document_identity::DocumentIdentityService;

#[test]
fn detects_existing_identity_comment() {
    let markdown = "# Daily\n\n<!-- bentolife:document_id=bl_doc_daily -->\n";
    let identity = DocumentIdentityService::find_identity_comment(markdown).expect("identity exists");
    assert_eq!(identity.document_id, "bl_doc_daily");
}

#[test]
fn inserts_identity_comment_at_end() {
    let markdown = "# Daily\n";
    let managed = DocumentIdentityService::ensure_identity_comment_at_end(markdown, "bl_doc_daily");
    assert!(managed.ends_with("<!-- bentolife:document_id=bl_doc_daily -->\n"));
}

#[test]
fn identity_round_trip_and_removal() {
    let managed = DocumentIdentityService::ensure_identity_comment_at_end(
        "# A\n<!-- bentolife:document_id=bl_doc_old -->\ntext\n\n",
        "bl_doc_new",
    );
    assert_eq!(managed, "# A\n\ntext\n\n<!-- bentolife:document_id=bl_doc_new -->\n");
    let found = DocumentIdentityService::find_identity_comment(&managed).unwrap();
    assert_eq!(found.document_id, "bl_doc_new");
    assert_eq!(found.comment, "<!-- bentolife:document_id=bl_doc_new -->");
    assert_eq!(DocumentIdentityService::ensure_identity_comment_at_end("  \n", "bl_doc_x"), "<!-- bentolife:document_id=bl_doc_x -->\n");
    assert!(DocumentIdentityService::find_identity_comment("<!-- bentolife:document_id=   -->").is_none());
    assert_eq!(
        DocumentIdentityService::remove_identity_comments("a<!-- bentolife:document_id=x -->b<!-- bentolife:document_id=y"),
        "ab<!-- bentolife:document_id=y"
    );
    assert_eq!(DocumentIdentityService::format_comment("bl_doc_1"), "<!-- bentolife:document_id=bl_doc_1 -->");
    assert_eq!(DocumentIdentityService::service_name(), "DocumentIdentityService");
}

#[test]
fn placing_the_identity_comment_twice_changes_nothing() {
    let once = DocumentIdentityService::ensure_identity_comment_at_end("# Daily\n\nText  \n\n", "bl_doc_daily");
    assert!(once.ends_with("<!-- bentolife:document_id=bl_doc_daily -->\n"));
    assert_eq!(once.matches("<!-- bentolife:document_id=").count(), 1);
    assert_eq!(DocumentIdentityService::ensure_identity_comment_at_end(&once, "bl_doc_daily"), once);
    assert_eq!(DocumentIdentityService::remove_identity_comments(&once), "# Daily\n\nText\n\n\n");
}
