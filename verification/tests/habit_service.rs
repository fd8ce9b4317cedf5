use bentolife_core::habits::{habit_ranges, parse_habit_entity, parse_habit_record};
use bentolife_core::document_metadata::DocumentMetadataService;
use bentolife_core::habits::{
    clean_habit_input, habit_id_for_record, is_habit_entity_path,
    render_habit_entity, render_habit_record, summarize_habits, with_checkin, HabitEntry, HabitInput,
    HabitsService,
};

fn input(name: &str) -> HabitInput {
    HabitInput {
        name: name.to_string(),
        frequency: Some("Daily".to_string()),
        target: None,
        tags: vec!["health".to_string()],
        relationships: Vec::new(),
        notes: None,
    }
}

fn habit(name: &str, checkins: &[&str]) -> HabitEntry {
    HabitEntry {
        habit_id: format!("bl_doc_{}::h", name.to_lowercase()),
        name: name.to_string(),
        frequency: None,
        target: None,
        tags: Vec::new(),
        relationships: Vec::new(),
        notes: None,
        checkins: checkins.iter().map(|c| c.to_string()).collect(),
        line_index: 0,
        raw_markdown: String::new(),
        parsed_entity: bentolife_core::markdown_parser::MarkdownParser::parse(""),
        schema_warnings: Vec::new(),
    }
}

#[test]
fn renders_habits_with_checkins() {
    let cleaned = clean_habit_input(input(" Read  ")).expect("clean");
    let checkins = vec!["2026-06-01".to_string(), "2026-06-02".to_string()];
    assert_eq!(
        render_habit_record(&cleaned, &checkins),
        "## Read\n- Frequency: Daily\n- Tags: health\n### Check-ins\n- 2026-06-01\n- 2026-06-02\n"
    );
    assert!(render_habit_entity(&cleaned, &Vec::new()).ends_with("## Check-ins\n"));
    assert_eq!(clean_habit_input(input(" ")).err().unwrap(), "Habit name is required.");
}

#[test]
fn adds_checkins_once_in_order() {
    let checkins = vec!["2026-06-01".to_string(), "2026-06-03".to_string()];
    assert_eq!(with_checkin(&checkins, "2026-06-02"), vec!["2026-06-01", "2026-06-02", "2026-06-03"]);
    assert_eq!(with_checkin(&checkins, "2026-06-03"), checkins);
}

#[test]
fn habit_paths_and_ids() {
    assert!(is_habit_entity_path("modules/habits/data/read.md"));
    assert!(!is_habit_entity_path("modules/habits/INDEX.md"));
    assert!(habit_id_for_record(4, "## Read").starts_with("habit_4_"));
}

#[test]
fn summarizes_habits_for_a_day() {
    let habits = vec![habit("Walk", &["2026-06-01", "2026-06-02"]), habit("Read", &["2026-06-02"])];
    let s = summarize_habits(&habits, Some("2026-06-02"));
    assert_eq!(s.total, 2);
    assert_eq!(s.checked_in_on_date, 2);
    let recent: Vec<(&str, &str)> = s.recent_checkins.iter().map(|c| (c.name.as_str(), c.date.as_str())).collect();
    assert_eq!(recent, vec![("Read", "2026-06-02"), ("Walk", "2026-06-02"), ("Walk", "2026-06-01")]);
    assert_eq!(s.streaks[0].current_streak, 2);
    assert_eq!(s.streaks[1].current_streak, 1);
    let none = summarize_habits(&habits, None);
    assert_eq!(none.checked_in_on_date, 0);
}

#[test]
fn records_checkins_on_habit_entities() {
    let created = HabitsService::create_habit(input("Read"), Some("2026-06-02"), &Vec::new(), 1).expect("created");
    assert_eq!(created.markdown_relative_path, "modules/habits/data/read.md");
    assert!(HabitsService::create_habit(input("Read"), Some("2026-02-30"), &Vec::new(), 1).is_err());
    let body = bentolife_core::document_identity::DocumentIdentityService::remove_identity_comments(
        &bentolife_core::markdown_document::MarkdownDocumentService::parse_frontmatter(&created.markdown).body,
    );
    let id = bentolife_core::contacts::record_id(&created.document_id, &body);
    let (metadata, markdown) = HabitsService::record_checkin(&id, "2026-06-02", created.document_metadata.clone(), &created.markdown)
        .expect("checked in");
    assert_eq!(metadata.document_type, "habit");
    assert!(markdown.contains("## Check-ins\n- 2026-06-02"));
    assert!(HabitsService::record_checkin(&id, "06/02/2026", created.document_metadata, &created.markdown).is_err());
}

#[test]
fn reads_habits_sorted_and_rejects_bad_summary_dates() {
    let metadata = DocumentMetadataService::create_default_with_type("bl_doc_idx", "modules/habits/INDEX.md", "# Habits\n", "habit")
        .expect("metadata");
    let doc = HabitsService::read_habits(metadata.clone(), vec![habit("walk", &[]), habit("Read", &[])], "", Vec::new(), None)
        .expect("doc");
    let names: Vec<&str> = doc.habits.iter().map(|h| h.name.as_str()).collect();
    assert_eq!(names, vec!["Read", "walk"]);
    assert!(doc.markdown_body.starts_with("# Habits\n\n## Read\n"));
    assert!(HabitsService::read_habits(metadata, Vec::new(), "", Vec::new(), Some("bad")).is_err());
}

#[test]
fn parses_habit_entities_into_entries() {
    let body = "# Read\n- Frequency: Daily\n- Mood: calm\n## Check-ins\n- 2026-06-03\n- 2026-06-02\n- 2026-06-03\n- not-a-date\n";
    let mut warnings: Vec<String> = Vec::new();
    let entry = parse_habit_entity(
        body,
        "bl_doc_0000000000000001",
        "modules/habits/data/read.md",
        Err("missing".to_string()),
        &mut warnings,
    )
    .expect("habit");
    assert_eq!(entry.name, "Read");
    assert_eq!(entry.frequency.as_deref(), Some("Daily"));
    assert_eq!(entry.checkins, vec!["2026-06-02", "2026-06-03"]);
    assert_eq!(entry.line_index, 0);
    assert_eq!(entry.raw_markdown, format!("{}\n", body.trim()));
    assert_eq!(
        entry.habit_id,
        format!("bl_doc_0000000000000001::{}", bentolife_core::storage::content_hash(body))
    );
    assert_eq!(entry.parsed_entity.module_id.as_deref(), Some("habits"));
    assert_eq!(entry.parsed_entity.entity_type.as_deref(), Some("habit"));
    assert_eq!(entry.parsed_entity.path, "modules/habits/data/read.md");
    assert_eq!(warnings.len(), 2);
    assert!(warnings[0].contains("unknown habit field 'mood'"));
    assert!(warnings[1].contains("invalid habit check-in date 'not-a-date'"));
    assert_eq!(entry.schema_warnings[0], "Module schema could not be loaded: missing");

    let mut untouched = vec!["kept".to_string()];
    assert!(parse_habit_entity("no title here", "bl_doc_1", "x.md", Err("e".to_string()), &mut untouched).is_none());
    assert_eq!(untouched, vec!["kept"]);
}

#[test]
fn parses_legacy_habit_records() {
    let body = "# Habits\n\n## Read\n- Target: 20 pages\n### Check-ins\n- 2026-06-01\n## Walk\n- Frequency: Weekly\n";
    let ranges = habit_ranges(body);
    assert_eq!(ranges, vec![(2, 6), (6, 8)]);
    let mut warnings: Vec<String> = Vec::new();
    let walk = parse_habit_record(body, 6, 8, "modules/habits/INDEX.md", Err("x".to_string()), &mut warnings)
        .expect("walk");
    assert_eq!(walk.name, "Walk");
    assert_eq!(walk.frequency.as_deref(), Some("Weekly"));
    assert_eq!(walk.line_index, 6);
    assert_eq!(walk.raw_markdown, "## Walk\n- Frequency: Weekly\n");
    assert_eq!(walk.habit_id, habit_id_for_record(6, "## Walk\n- Frequency: Weekly"));
    let read = parse_habit_record(body, 2, 6, "modules/habits/INDEX.md", Err("x".to_string()), &mut warnings)
        .expect("read");
    assert_eq!(read.checkins, vec!["2026-06-01"]);
    assert_eq!(read.target.as_deref(), Some("20 pages"));
    assert!(parse_habit_record(body, 0, 2, "modules/habits/INDEX.md", Err("x".to_string()), &mut warnings).is_none());
    assert!(warnings.is_empty());
}

#[test]
fn checkins_stay_sorted_and_once() {
    let created = HabitsService::create_habit(input("Read"), Some("2026-06-03"), &Vec::new(), 7).expect("create");
    assert_eq!(created.markdown_relative_path, "modules/habits/data/read.md");
    let body = stored_body(&created.markdown);
    let id = bentolife_core::contacts::record_id(&created.document_id, &body);
    let (m1, md1) = HabitsService::record_checkin(&id, "2026-06-02", created.document_metadata.clone(), &created.markdown)
        .expect("first check-in");
    assert!(md1.contains("- 2026-06-02\n"));
    assert_eq!(m1.content_hash, bentolife_core::storage::content_hash(&md1));
    assert!(HabitsService::record_checkin(&id, "2026-06-04", m1.clone(), &md1).is_err());
    let body2 = stored_body(&md1);
    let id2 = bentolife_core::contacts::record_id(&created.document_id, &body2);
    let (_, md2) = HabitsService::record_checkin(&id2, "2026-06-03", m1.clone(), &md1).expect("second");
    let (_, md3) = HabitsService::record_checkin(
        &bentolife_core::contacts::record_id(&created.document_id, &stored_body(&md2)),
        "2026-06-03",
        m1,
        &md2,
    )
    .expect("again");
    assert_eq!(md2.matches("- 2026-06-03").count(), 1);
    assert_eq!(md3, md2);
    assert!(md2.find("- 2026-06-02").unwrap() < md2.find("- 2026-06-03").unwrap());
    assert!(HabitsService::create_habit(input("Read"), Some("2026-13-40"), &Vec::new(), 7).is_err());
    assert_eq!(
        HabitsService::create_habit(input("  "), None, &Vec::new(), 7).err().unwrap(),
        "Habit name is required."
    );
}

fn stored_body(markdown: &str) -> String {
    let parsed = bentolife_core::markdown_document::MarkdownDocumentService::parse_frontmatter(markdown);
    bentolife_core::document_identity::DocumentIdentityService::remove_identity_comments(&parsed.body)
}
