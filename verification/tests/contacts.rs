use bentolife_core::contacts::{contact_entity_fields, contact_record_fields};

#[test]
fn reads_contact_records_and_entities() {
    let ls: Vec<Vec<char>> = "## Ada Lovelace\n- Relationship:  Friend \n- Email: ada@example.com\n- Shoe: 9\n### Notes\nMet at   the lab.\n"
        .lines()
        .map(|l| l.chars().collect())
        .collect();
    let c = contact_record_fields(&ls, 0, ls.len(), "modules/contacts/INDEX.md").expect("contact");
    assert_eq!(c.name, "Ada Lovelace");
    assert_eq!(c.relationship.as_deref(), Some("Friend"));
    assert_eq!(c.email.as_deref(), Some("ada@example.com"));
    assert_eq!(c.notes.as_deref(), Some("Met at   the lab."));
    assert_eq!(c.warnings, vec!["modules/contacts/INDEX.md: unknown contact field 'shoe' remains visible in Markdown.".to_string()]);

    let e = contact_entity_fields("# Grace\n- Phone: 555\n- Notes: Navy\n", "g.md").expect("entity");
    assert_eq!(e.name, "Grace");
    assert_eq!(e.phone.as_deref(), Some("555"));
    assert_eq!(e.notes.as_deref(), Some("Navy"));
    let none: Vec<Vec<char>> = vec!["# Top".chars().collect(), "x".chars().collect()];
    assert!(contact_record_fields(&none, 0, 2, "x").is_none());
}
