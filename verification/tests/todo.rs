use bentolife_core::todo::{is_completed_status, TodoService};
use bentolife_core::workspace_scanner::{classify_candidate, scan_candidate};

#[test]
fn completed_statuses() {
    assert!(is_completed_status(" Done "));
    assert!(is_completed_status("COMPLETED"));
    assert!(!is_completed_status("In progress"));
}

#[test]
fn new_todo_gets_default_status_and_priority() {
    let created = TodoService::create_todo("Launch Task", None, &Vec::new(), 3).expect("todo");
    assert_eq!(created.markdown_relative_path, "modules/todos/data/launch-task.md");
    assert!(created.markdown.contains("# Launch Task\n\nStatus: Not started\nPriority: Medium\n"));
    assert_eq!(created.document_metadata.document_type, "todos");
    let blank = TodoService::create_todo("   ", None, &Vec::new(), 3).expect("todo");
    assert_eq!(blank.markdown_relative_path, "modules/todos/data/untitled-task.md");
}

#[test]
fn rejects_stale_todo_writes_after_external_edit() {
    let created = TodoService::create_todo("Tea", None, &Vec::new(), 3).expect("todo");
    let err = TodoService::update_todo(created.document_metadata.clone(), "# Tea\n\nStatus: Done\n", "# Tea\n\nExternal\n")
        .err().unwrap();
    assert!(err.starts_with("Todos was changed outside BentoLife."));
    let (updated, markdown) =
        TodoService::update_todo(created.document_metadata, "# Tea\n\nStatus: Done\n", &created.markdown)
            .expect("updated");
    assert_eq!(updated.document_type, "todos");
    assert!(markdown.contains("Status: Done"));
}

#[test]
fn list_todos_only_exposes_data_folder_records() {
    let docs = vec![
        ("modules/todos/INDEX.md", "# Todos\n", "bl_doc_index"),
        ("modules/todos/data/b.md", "# Buy tea\n\nStatus: Done\n", "bl_doc_b"),
        ("modules/todos/data/a.md", "# answer mail\n\nStatus: Waiting\n", "bl_doc_a"),
    ];
    let scanned: Vec<_> = docs
        .iter()
        .map(|(path, body, id)| {
            let markdown = format!("{body}<!-- bentolife:document_id={id} -->\n");
            let c = classify_candidate(scan_candidate(markdown, path.to_string()), false, None, Err(String::new()));
            (c.document, None)
        })
        .collect();
    let todos = TodoService::list_todos(&scanned);
    assert_eq!(todos.len(), 2);
    assert_eq!(todos[0].title, "answer mail");
    assert!(!todos[0].is_completed);
    assert_eq!(todos[1].title, "Buy tea");
    assert!(todos[1].is_completed);
}
