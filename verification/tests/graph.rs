use bentolife_core::graph::{
    extract_graph_links, extract_tags, markdown_excerpt, markdown_headings, normalize_graph_target,
    resolve_graph_link,
};
use bentolife_core::ordered::OrderedMap;

#[test]
fn extracts_typed_and_wiki_links() {
    let links = extract_graph_links("See [[Contact: Ada]] and [[Daily Plan]] and [[ ]].", "notes/a.md");
    assert_eq!(links.len(), 2);
    assert_eq!(links[0].link_type, "contact");
    assert_eq!(links[0].target, "Ada");
    assert_eq!(links[0].raw, "[[Contact: Ada]]");
    assert_eq!(links[0].status, "unresolved");
    assert_eq!(links[1].link_type, "wiki");
    assert_eq!(links[1].target, "Daily Plan");
    assert_eq!(links[1].source_path, "notes/a.md");
    assert!(extract_graph_links("[[open", "a.md").is_empty());
}

#[test]
fn normalizes_graph_targets() {
    assert_eq!(normalize_graph_target("  Notes\\Daily.md.md "), "notes/daily");
    assert_eq!(normalize_graph_target("Plan"), "plan");
}

#[test]
fn resolves_links_by_key_or_typed_key() {
    let mut targets: OrderedMap<(Option<String>, String, String)> = OrderedMap::new();
    targets.insert(
        "daily plan".to_string(),
        (Some("bl_doc_daily".to_string()), "modules/notes/data/daily-plan.md".to_string(), "note".to_string()),
    );
    targets.insert(
        "contact:ada".to_string(),
        (None, "modules/contacts/data/ada.md".to_string(), "contact".to_string()),
    );
    let mut links = extract_graph_links("[[Daily Plan]] [[Ada]] [[Nobody]]", "x.md");
    for link in links.iter_mut() {
        resolve_graph_link(link, &targets);
    }
    assert_eq!(links[0].status, "resolved");
    assert_eq!(links[0].resolved_document_id.as_deref(), Some("bl_doc_daily"));
    assert_eq!(links[1].status, "resolved");
    assert_eq!(links[1].resolved_path.as_deref(), Some("modules/contacts/data/ada.md"));
    assert_eq!(links[2].status, "broken");
}

#[test]
fn collects_tags_from_fields_and_words() {
    let tags = extract_tags("# Note\n- Tags: #Work, home\nMeeting about #Plans, and #work.\n");
    assert_eq!(tags, vec!["home".to_string(), "plans".to_string(), "work".to_string()]);
}

#[test]
fn lists_headings_up_to_level_three() {
    let headings = markdown_headings("# One\n## Two\n### Three\n#### Four\n#  \n");
    assert_eq!(headings, vec!["One".to_string(), "Two".to_string(), "Three".to_string()]);
}

#[test]
fn graph_excerpt_skips_headings_comments_and_tags() {
    assert_eq!(
        markdown_excerpt("# T\n<!-- c -->\n- Tags: a\n\n  First line  \n"),
        "First line"
    );
    assert_eq!(markdown_excerpt("# Only\n"), "No preview yet.");
    assert_eq!(markdown_excerpt(&"x".repeat(200)).chars().count(), 160);
}
