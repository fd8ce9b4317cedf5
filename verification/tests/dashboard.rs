use bentolife_core::workspace_scanner::{classify_candidate, scan_candidate, scan_index, WorkspaceScanResult};
use bentolife_core::dashboard::{markdown_title_exec, parse_pin_targets, DashboardService};

#[test]
fn pins_are_read_from_the_pinned_section_only() {
    let pins = parse_pin_targets(
        "# Today\n\n- [Outside](x.md)\n## Pinned Entities\n\n- [Daily](modules/notes/data/daily-note.md)\n- [[Missing]]\n## Other\n- [No](y.md)\n",
    );
    let targets: Vec<&str> = pins.iter().map(|p| p.target.as_str()).collect();
    assert_eq!(targets, vec!["modules/notes/data/daily-note.md", "Missing"]);
    assert_eq!(pins[0].label, "Daily");
}

#[test]
fn pinning_adds_a_section_before_the_identity_comment_and_is_idempotent() {
    let hub = "# My Hub\n\n<!-- bentolife:document_id=bl_doc_root_index -->\n";
    let pinned = DashboardService::pin_dashboard_entity(hub, "Daily Note", "modules/notes/data/daily-note.md");
    assert_eq!(
        pinned,
        "# My Hub\n\n\n## Pinned Entities\n\n- [Daily Note](modules/notes/data/daily-note.md)\n\n<!-- bentolife:document_id=bl_doc_root_index -->\n"
    );
    let again = DashboardService::pin_dashboard_entity(&pinned, "Daily Note", "./Modules/notes/data/daily-note.md");
    assert_eq!(again, pinned);

    let with_heading = DashboardService::pin_dashboard_entity("# Hub\n## Pinned\n", "A", "a.md");
    assert_eq!(with_heading, "# Hub\n## Pinned\n\n- [A](a.md)\n");
}

#[test]
fn unpinning_drops_only_pinned_lines_pointing_at_the_entity() {
    let hub = "# Hub\n- [Daily](notes/daily.md)\n## Pinned\n- [Daily](notes/daily.md)\n- [Other](o.md)\n- [[Note: Daily Note]]\n";
    let out = DashboardService::unpin_dashboard_entity(hub, "bl_doc_x", "Daily Note", "notes/daily.md");
    assert_eq!(out, "# Hub\n- [Daily](notes/daily.md)\n## Pinned\n- [Other](o.md)\n");
}

#[test]
fn titles_and_required_paths() {
    assert_eq!(markdown_title_exec("text\n# Title \n# Later\n", "Dashboard"), "Title");
    assert_eq!(markdown_title_exec("no title\n", "Dashboard"), "Dashboard");
    let paths = DashboardService::required_v3_paths("/v");
    assert_eq!(paths.len(), 38);
    assert_eq!(paths[0], "/v/modules/notes/INDEX.md");
    assert_eq!(paths[37], "/v/.bentolifelayout/backups");
}

#[test]
fn reads_dashboard_hub_pins_and_module_counts() {
    let note = classify_candidate(
        scan_candidate("# Daily Plan\n<!-- bentolife:document_id=bl_doc_daily -->\n".to_string(), "modules/notes/data/daily-plan.md".to_string()),
        false,
        None,
        Err(String::new()),
    );
    let scan = WorkspaceScanResult {
        vault_path: "/v".to_string(),
        documents: vec![note.document],
        issues: note.issues,
        index: scan_index(Vec::new(), Vec::new(), Vec::new()),
    };
    let hub = bentolife_core::dashboard::DashboardService::read_dashboard_hub(
        "# Home\n\n## Pinned\n- [Plan](modules/notes/data/daily-plan.md)\n- [[Nowhere]]\n<!-- bentolife:document_id=bl_doc_hub -->\n",
        &scan,
    );
    assert_eq!(hub.document_id.as_deref(), Some("bl_doc_hub"));
    assert_eq!(hub.title, "Home");
    assert_eq!(hub.pinned_entities.len(), 1);
    assert_eq!(hub.pinned_entities[0].document_id, "bl_doc_daily");
    assert_eq!(hub.unresolved_pins, vec!["Nowhere".to_string()]);
    assert_eq!(hub.warnings.len(), 1);
    assert!(hub.module_summaries.iter().any(|m| m.module_id == "notes"));
}

#[test]
fn unpinning_after_pinning_leaves_no_pin_to_the_entity() {
    let hub = "# Today\n\n## Pinned Entities\n\nAdd links here.\n\n## Modules\n";
    let pinned = DashboardService::pin_dashboard_entity(hub, "Daily Note", "modules/notes/data/daily-note.md");
    assert_eq!(parse_pin_targets(&pinned).len(), 1);
    let unpinned = DashboardService::unpin_dashboard_entity(&pinned, "bl_doc_daily", "Daily Note", "modules/notes/data/daily-note.md");
    assert!(parse_pin_targets(&unpinned).is_empty());
    assert!(unpinned.contains("Add links here."));
}

#[test]
fn scaffold_lists_the_managed_indexes() {
    let indexes = bentolife_core::dashboard::v3_scaffold_indexes();
    let paths: Vec<&str> = indexes.iter().map(|i| i.relative_path.as_str()).collect();
    assert_eq!(paths, vec![
        "INDEX.md", "modules/navigator/INDEX.md", "modules/notes/INDEX.md", "modules/todos/INDEX.md",
        "modules/contacts/INDEX.md", "modules/habits/INDEX.md", "modules/trash/INDEX.md", "modules/archive/INDEX.md",
    ]);
    assert_eq!(indexes[2].default_markdown, "# Notes\n\nThis module dashboard summarizes BentoLife notes entities.\n");
    assert_eq!(indexes[0].document_type, "dashboard");
}
