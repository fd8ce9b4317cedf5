use bentolife_core::document_metadata::DocumentMetadataService;
use bentolife_core::notes::NotesService;
use bentolife_core::record_files::{
    record_path_for_title, stale_write_decision, unique_record_path, validate_record_content_path,
    RecordKind,
};
use bentolife_core::workspace_scanner::{classify_candidate, scan_candidate};

#[test]
fn note_paths_follow_titles() {
    assert_eq!(record_path_for_title(RecordKind::Note, "Daily Plan!"), "modules/notes/data/daily-plan.md");
    assert_eq!(record_path_for_title(RecordKind::Note, "!!!"), "modules/notes/data/untitled-note.md");
    assert!(validate_record_content_path(RecordKind::Note, "modules/notes/data/a.md").is_ok());
    assert_eq!(
        validate_record_content_path(RecordKind::Note, "notes/a.md").err().unwrap(),
        "V3 notes must live under modules/notes/data/ as Markdown files."
    );
    assert!(validate_record_content_path(RecordKind::Note, "modules/notes/data/.bentolifelayout/a.md").is_err());
}

#[test]
fn unique_note_paths_skip_taken_candidates() {
    let existing = vec!["modules/notes/data/daily.md".to_string(), "modules/notes/data/daily-1.md".to_string()];
    assert_eq!(
        unique_record_path(RecordKind::Note, "Daily", &existing).unwrap(),
        "modules/notes/data/daily-2.md"
    );
    let all: Vec<String> = (0..100)
        .map(|i| if i == 0 { "modules/notes/data/x.md".to_string() } else { format!("modules/notes/data/x-{i}.md") })
        .collect();
    assert_eq!(
        unique_record_path(RecordKind::Note, "x", &all).err().unwrap(),
        "Unable to find an available note filename."
    );
}

#[test]
fn creates_updates_and_renames_note_without_changing_identity() {
    let created = NotesService::create_note("Daily Plan", Some("## Morning\n\n- [ ] Tea"), &Vec::new(), 7)
        .expect("note created");
    assert_eq!(created.markdown_relative_path, "modules/notes/data/daily-plan.md");
    assert!(created.markdown.contains("# Daily Plan\n\n## Morning"));
    assert!(created.markdown.contains(&format!("bentolife:document_id={}", created.document_id)));
    assert_eq!(created.document_metadata.document_type, "note");

    let (updated, markdown) = NotesService::update_note(
        created.document_metadata.clone(),
        "# Daily Plan\n\n## Afternoon\n\nParagraph",
        &created.markdown,
        Some(created.document_metadata.content_hash.clone()),
        false,
    )
    .expect("note updated");
    assert_eq!(updated.document_id, created.document_id);
    assert!(markdown.contains("## Afternoon"));

    let renamed = NotesService::rename_note(updated, "# Daily Plan\n\n## Afternoon\n", "Renamed Plan", false)
        .expect("renamed");
    assert_eq!(renamed.document_metadata.document_id, created.document_id);
    assert_eq!(renamed.document_metadata.current_path, "modules/notes/data/renamed-plan.md");
    assert!(renamed.markdown_body.contains("# Renamed Plan"));
    assert_eq!(renamed.moved_from.as_deref(), Some("modules/notes/data/daily-plan.md"));
}

#[test]
fn rejects_stale_note_writes_unless_overwriting() {
    let created = NotesService::create_note("Daily Plan", None, &Vec::new(), 7).expect("note");
    let result = NotesService::update_note(
        created.document_metadata.clone(),
        "# Daily Plan\n\nBentoLife edit\n",
        "# Daily Plan\n\nExternal edit\n",
        Some(created.document_metadata.content_hash.clone()),
        false,
    );
    assert!(result.is_err());
    let overwritten = NotesService::update_note(
        created.document_metadata,
        "# Daily Plan\n\nBentoLife edit\n",
        "",
        None,
        true,
    )
    .expect("overwrite");
    assert!(overwritten.1.contains("BentoLife edit"));
    assert!(stale_write_decision(RecordKind::Note, "a", "a", false).is_ok());
    assert!(stale_write_decision(RecordKind::Note, "a", "b", false).is_err());
}

#[test]
fn rejects_rename_collisions() {
    let created = NotesService::create_note("First", None, &Vec::new(), 7).expect("first");
    let err = NotesService::rename_note(created.document_metadata, "# First\n", "Second", true).err().unwrap();
    assert_eq!(err, "A note already exists at modules/notes/data/second.md.");
}

#[test]
fn reads_note_with_schema_outcome() {
    let metadata = DocumentMetadataService::create_default_with_type(
        "bl_doc_note",
        "modules/notes/data/schema-proof.md",
        "# Schema Proof\n",
        "note",
    )
    .expect("metadata");
    let markdown = "---\nbentolife_metadata: .bentolifelayout/documents/bl_doc_note.json\n---\n# Schema Proof\n\n#NoSpace\n<!-- bentolife:document_id=bl_doc_note -->\n";
    let note = NotesService::read_note(metadata, markdown, None, Err("missing".to_string())).expect("note");
    assert_eq!(note.title, "Schema Proof");
    assert_eq!(note.markdown_body, "# Schema Proof\n\n#NoSpace");
    assert_eq!(note.parsed_entity.module_id.as_deref(), Some("notes"));
    assert!(!note.parsed_entity.unknown_blocks.is_empty());
    assert_eq!(note.schema_warnings, vec!["Module schema could not be loaded: missing".to_string()]);
}

#[test]
fn lists_notes_sorted_by_lowercase_title() {
    let docs = vec![
        ("modules/notes/data/b.md", "# beta\n", "bl_doc_b"),
        ("modules/notes/data/a.md", "# Alpha\n", "bl_doc_a"),
        ("modules/todos/data/t.md", "# Task\n", "bl_doc_t"),
    ];
    let scanned: Vec<_> = docs
        .iter()
        .map(|(path, body, id)| {
            let markdown = format!("{body}<!-- bentolife:document_id={id} -->\n");
            let c = classify_candidate(scan_candidate(markdown, path.to_string()), false, None, Err(String::new()));
            (c.document, Some("t".to_string()))
        })
        .collect();
    let notes = NotesService::list_notes(&scanned);
    let titles: Vec<&str> = notes.iter().map(|n| n.title.as_str()).collect();
    assert_eq!(titles, vec!["Alpha", "beta"]);
    assert_eq!(notes[0].updated_at.as_deref(), Some("t"));
}
