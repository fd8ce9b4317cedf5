use bentolife_core::workspace_scanner::{assemble_scan, ScanInput};
use bentolife_core::document_metadata::{DocumentMetadata, DocumentMetadataService};
use bentolife_core::layout_metadata::LayoutMetadataService;
use bentolife_core::markdown_document::MarkdownDocumentService;
use bentolife_core::workspace_scanner::{
    classify_candidate, duplicate_identities, duplicate_issues, markdown_title, metadata_by_id,
    missing_markdown, reconnect_metadata, reject_older_vault_scan, scan_candidate, scan_index,
    should_skip_active_scan_folder, should_skip_active_scan_markdown_file,
    sort_documents_by_path, ScanCandidate, ScannedDocumentStatus, WorkspaceScanner,
};

const ID: &str = "bl_doc_daily";

fn metadata_at(path: &str) -> DocumentMetadata {
    DocumentMetadataService::create_default_with_type(ID, path, "# Daily\n", "note").expect("metadata")
}

fn managed_candidate(path: &str) -> ScanCandidate {
    let markdown = MarkdownDocumentService::prepare_managed_markdown(
        "# Daily\n",
        ID,
        ".bentolifelayout/documents/bl_doc_daily.json",
    );
    scan_candidate(markdown, path.to_string())
}

#[test]
fn scanner_service_name() {
    assert_eq!(WorkspaceScanner::service_name(), "WorkspaceScanner");
}

#[test]
fn skips_layout_trash_and_archive_folders() {
    assert!(should_skip_active_scan_folder(Some(".bentolifelayout")));
    assert!(should_skip_active_scan_folder(Some(".bentolifelayout/imports/staged")));
    assert!(should_skip_active_scan_folder(Some("modules/trash")));
    assert!(should_skip_active_scan_folder(Some("modules\\archive\\old")));
    assert!(!should_skip_active_scan_folder(Some("modules/notes/data")));
    assert!(!should_skip_active_scan_folder(None));
}

#[test]
fn skips_app_owned_system_markdown() {
    assert!(should_skip_active_scan_markdown_file(Some("modules/navigator/INDEX.md")));
    assert!(should_skip_active_scan_markdown_file(Some("modules/navigator/NAVIGATOR.md")));
    assert!(should_skip_active_scan_markdown_file(Some("modules/trash/INDEX.md")));
    assert!(should_skip_active_scan_markdown_file(Some("modules/notes/MODULE.md")));
    assert!(!should_skip_active_scan_markdown_file(Some("modules/notes/data/daily.md")));
    assert!(!should_skip_active_scan_markdown_file(None));
}

#[test]
fn scanned_title_falls_back_to_file_stem() {
    assert_eq!(markdown_title("# Daily Plan\n", "modules/notes/data/x.md"), "Daily Plan");
    assert_eq!(markdown_title("Body\n", "modules/notes/data/daily-plan.md"), "daily plan");
}

#[test]
fn reads_identity_and_frontmatter_into_candidate() {
    let candidate = managed_candidate("modules/notes/data/daily.md");
    assert_eq!(candidate.document_id.as_deref(), Some(ID));
    assert_eq!(
        candidate.frontmatter_reference.as_deref(),
        Some(".bentolifelayout/documents/bl_doc_daily.json")
    );
    assert!(candidate.markdown_body.contains("# Daily"));
}

#[test]
fn plain_markdown_is_not_managed() {
    let candidate = scan_candidate("# Loose\n".to_string(), "inbox/loose.md".to_string());
    let c = classify_candidate(candidate, false, None, Err("unused".to_string()));
    assert_eq!(c.document.status, ScannedDocumentStatus::PlainMarkdown);
    assert_eq!(c.document.title, "Loose");
    assert_eq!(c.document.document_type, "markdown_document");
    assert!(c.issues.is_empty());
    assert!(c.index_entry.is_none());
}

#[test]
fn managed_document_with_metadata_and_layout_is_indexed() {
    let path = "modules/notes/data/daily.md";
    let layout = LayoutMetadataService::generate_from_markdown(ID, "# Daily\n").expect("layout");
    let c = classify_candidate(managed_candidate(path), false, Some(metadata_at(path)), Ok(layout));
    assert_eq!(c.document.status, ScannedDocumentStatus::Managed);
    assert_eq!(c.document.document_type, "note");
    assert!(c.issues.is_empty());
    assert!(c.document.stale_layout_references.is_empty());
    let (id, entry) = c.index_entry.expect("entry");
    assert_eq!(id, ID);
    assert_eq!(entry.current_path, path);
    assert_eq!(entry.metadata_path, ".bentolifelayout/documents/bl_doc_daily.json");
}

#[test]
fn stale_layout_references_are_recovery_issues() {
    let path = "modules/notes/data/daily.md";
    let layout =
        LayoutMetadataService::generate_from_markdown(ID, "# Daily\n\n## Gone\n").expect("layout");
    let c = classify_candidate(managed_candidate(path), false, Some(metadata_at(path)), Ok(layout));
    assert_eq!(c.document.stale_layout_references, vec!["## Gone".to_string()]);
    assert_eq!(c.issues.len(), 1);
    assert_eq!(c.issues[0].code, "layout_reference_stale");
    assert_eq!(c.issues[0].classification, "recovery_issue");
    assert_eq!(c.issues[0].suggested_action.as_deref(), Some("Open Recovery"));
}

#[test]
fn missing_layout_and_stale_frontmatter_are_reported() {
    let path = "modules/notes/data/daily.md";
    let candidate = scan_candidate(
        "---\nbentolife_metadata: .bentolifelayout/documents/bl_doc_stale.json\n---\n# Daily\n<!-- bentolife:document_id=bl_doc_daily -->\n"
            .to_string(),
        path.to_string(),
    );
    let c = classify_candidate(candidate, false, Some(metadata_at(path)), Err("missing".to_string()));
    assert_eq!(c.document.status, ScannedDocumentStatus::LayoutMissing);
    let codes: Vec<&str> = c.issues.iter().map(|i| i.code.as_str()).collect();
    assert_eq!(codes, vec!["metadata_path_mismatch", "layout_missing"]);
    assert!(c.index_entry.is_some());
}

#[test]
fn missing_metadata_points_at_expected_records() {
    let c = classify_candidate(
        managed_candidate("modules/notes/data/daily.md"),
        false,
        None,
        Err("unused".to_string()),
    );
    assert_eq!(c.document.status, ScannedDocumentStatus::MetadataMissing);
    assert_eq!(
        c.document.metadata_path.as_deref(),
        Some(".bentolifelayout/documents/bl_doc_daily.json")
    );
    assert_eq!(
        c.document.layout_path.as_deref(),
        Some(".bentolifelayout/layouts/bl_doc_daily.layout.json")
    );
    assert_eq!(c.issues[0].code, "metadata_missing");
}

#[test]
fn detects_duplicate_identity_conflicts_among_candidates() {
    let candidates = vec![
        managed_candidate("modules/notes/data/daily.md"),
        managed_candidate("modules/notes/data/copy.md"),
        scan_candidate("# Other\n".to_string(), "modules/notes/data/other.md".to_string()),
    ];
    let dups = duplicate_identities(&candidates);
    assert_eq!(dups, vec![ID.to_string()]);
    let issues = duplicate_issues(&dups);
    assert_eq!(issues.len(), 1);
    assert_eq!(issues[0].code, "duplicate_identity");
    assert!(issues[0].markdown_relative_path.is_none());

    let c = classify_candidate(managed_candidate("modules/notes/data/copy.md"), true, None, Err(String::new()));
    assert_eq!(c.document.status, ScannedDocumentStatus::DuplicateIdentity);
    assert!(c.index_entry.is_none());
}

#[test]
fn reconnects_moved_metadata_to_new_path() {
    let metadata = metadata_at("modules/notes/data/daily.md");
    let (moved, changed) =
        reconnect_metadata(metadata, "modules/notes/data/renamed/daily.md", "# Daily\n");
    assert!(changed);
    assert_eq!(moved.current_path, "modules/notes/data/renamed/daily.md");
    assert!(moved.previous_paths.contains(&"modules/notes/data/daily.md".to_string()));

    let (same, changed) = reconnect_metadata(moved, "modules/notes/data/renamed/daily.md", "# Daily\n");
    assert!(!changed);
    assert_eq!(same.previous_paths.len(), 1);
}

#[test]
fn missing_markdown_skips_app_owned_files() {
    let content = metadata_at("modules/notes/data/daily.md");
    let system = DocumentMetadataService::create_default_with_type(
        "bl_doc_nav",
        "modules/navigator/INDEX.md",
        "# Navigator\n",
        "markdown_document",
    )
    .expect("system");
    let (orphans, issues) = missing_markdown(&vec![content, system], &Vec::new());
    assert_eq!(orphans, vec![ID.to_string()]);
    assert_eq!(issues.len(), 1);
    assert_eq!(issues[0].code, "markdown_missing");
    assert_eq!(issues[0].document_id.as_deref(), Some(ID));

    let seen = vec!["modules/notes/data/daily.md".to_string()];
    let (orphans, issues) = missing_markdown(&vec![metadata_at("modules/notes/data/daily.md")], &seen);
    assert!(orphans.is_empty() && issues.is_empty());
}

#[test]
fn metadata_by_id_keeps_later_records() {
    let first = metadata_at("modules/notes/data/a.md");
    let second = metadata_at("modules/notes/data/b.md");
    let map = metadata_by_id(vec![first, second]);
    assert_eq!(map.entries.len(), 1);
    assert_eq!(map.entries[0].1.current_path, "modules/notes/data/b.md");
}

#[test]
fn scan_index_records_entries_orphans_and_conflicts() {
    let path = "modules/notes/data/daily.md";
    let layout = LayoutMetadataService::generate_from_markdown(ID, "# Daily\n").expect("layout");
    let c = classify_candidate(managed_candidate(path), false, Some(metadata_at(path)), Ok(layout));
    let index = scan_index(
        vec![c.index_entry.expect("entry")],
        vec!["bl_doc_gone".to_string()],
        vec!["bl_doc_twice".to_string()],
    );
    assert!(index.validate().is_ok());
    assert_eq!(index.documents_by_id.len(), 1);
    assert_eq!(index.document_id_for_path(path).as_deref(), Some(ID));
    assert_eq!(index.orphaned_document_ids, vec!["bl_doc_gone".to_string()]);
    assert_eq!(index.duplicate_identity_conflicts, vec!["bl_doc_twice".to_string()]);
}

#[test]
fn documents_are_sorted_by_path() {
    let docs: Vec<_> = ["b.md", "c.md", "a.md"]
        .iter()
        .map(|p| {
            classify_candidate(
                scan_candidate("# X\n".to_string(), p.to_string()),
                false,
                None,
                Err(String::new()),
            )
            .document
        })
        .collect();
    let sorted = sort_documents_by_path(docs);
    let paths: Vec<&str> = sorted.iter().map(|d| d.markdown_relative_path.as_str()).collect();
    assert_eq!(paths, vec!["a.md", "b.md", "c.md"]);
}

#[test]
fn refuses_to_scan_older_vault_layouts() {
    assert!(reject_older_vault_scan(false, true, &Vec::new()).is_ok());
    assert!(reject_older_vault_scan(true, true, &Vec::new()).is_err());
    assert!(reject_older_vault_scan(true, false, &vec!["INDEX.md".to_string(), "MODULE.md".to_string()]).is_ok());
    let err = reject_older_vault_scan(true, false, &vec!["todo.md".to_string()]).err().unwrap();
    assert!(err.starts_with("Older BentoLife vault structure detected."));
}

fn input(markdown: &str, path: &str) -> ScanInput {
    ScanInput {
        candidate: scan_candidate(markdown.to_string(), path.to_string()),
        layout: Err("no layout".to_string()),
        schema: Err("no schema".to_string()),
    }
}

#[test]
fn assembles_scans_with_duplicates_exclusions_and_missing_markdown() {
    let dup = "# A\n\n<!-- bentolife:document_id=bl_doc_dup -->\n";
    let moved = MarkdownDocumentService::prepare_managed_markdown("# Daily\n", ID, ".bentolifelayout/documents/bl_doc_daily.json");
    let inputs = vec![
        input("# Zed\n", "notes/zed.md"),
        input(dup, "b.md"),
        input(dup, "a.md"),
        input("# Trash\n", "modules/trash/old.md"),
        input("# Module\n", "modules/notes/MODULE.md"),
        input(&moved, "journal/daily.md"),
    ];
    let gone = DocumentMetadataService::create_default_with_type("bl_doc_gone", "lost.md", "# Lost\n", "note").expect("m");
    let (scan, writes) = assemble_scan("/vault", inputs, vec![metadata_at("notes/daily.md"), gone]);
    assert_eq!(scan.vault_path, "/vault");
    let paths: Vec<&str> = scan.documents.iter().map(|d| d.markdown_relative_path.as_str()).collect();
    assert_eq!(paths, vec!["a.md", "b.md", "journal/daily.md", "notes/zed.md"]);
    assert_eq!(scan.documents[0].status, ScannedDocumentStatus::DuplicateIdentity);
    assert_eq!(scan.documents[1].status, ScannedDocumentStatus::DuplicateIdentity);
    assert_eq!(scan.documents[2].status, ScannedDocumentStatus::LayoutMissing);
    assert_eq!(scan.documents[3].status, ScannedDocumentStatus::PlainMarkdown);
    assert_eq!(scan.index.duplicate_identity_conflicts, vec!["bl_doc_dup"]);
    assert_eq!(scan.index.orphaned_document_ids, vec!["bl_doc_daily", "bl_doc_gone"]);
    assert_eq!(scan.issues.first().unwrap().code, "duplicate_identity");
    assert_eq!(scan.issues.last().unwrap().code, "markdown_missing");
    assert_eq!(writes.len(), 1);
    assert_eq!(writes[0].current_path, "journal/daily.md");
    assert_eq!(writes[0].previous_paths, vec!["notes/daily.md"]);
}
