use bentolife_core::contacts::{
    clean_contact_input, contact_ranges, contact_slugify, document_id_from_record_id,
    is_contact_entity_path, normalize_contacts_body, render_contact_entity, render_contact_record,
    replace_line_range, summarize_contacts, unique_contact_entity_path, ContactEntry, ContactInput,
    ContactsService,
};
use bentolife_core::document_metadata::DocumentMetadataService;

fn input(name: &str) -> ContactInput {
    ContactInput {
        name: name.to_string(),
        relationship: Some(" Friend ".to_string()),
        organization: None,
        email: Some("ada@example.com".to_string()),
        phone: None,
        tags: vec!["math, poetry".to_string(), "math".to_string()],
        relationships: Vec::new(),
        notes: Some("  Met at the lab.  ".to_string()),
    }
}

fn entry(name: &str, rel: Option<&str>, tags: &[&str], email: bool) -> ContactEntry {
    let mut warnings = Vec::new();
    let body = format!("# {name}\n");
    let mut c = ContactsService::parse_contact_entity(&body, "bl_doc_x", "modules/contacts/data/x.md", Err("none".to_string()), &mut warnings)
        .expect("entity");
    c.relationship = rel.map(str::to_string);
    c.tags = tags.iter().map(|t| t.to_string()).collect();
    c.email = if email { Some("e@x".to_string()) } else { None };
    c
}

#[test]
fn cleans_contact_input() {
    let cleaned = clean_contact_input(input("  Ada   Lovelace ")).expect("clean");
    assert_eq!(cleaned.name, "Ada Lovelace");
    assert_eq!(cleaned.relationship.as_deref(), Some("Friend"));
    assert_eq!(cleaned.tags, vec!["math".to_string(), "poetry".to_string()]);
    assert_eq!(cleaned.notes.as_deref(), Some("Met at the lab."));
    assert_eq!(clean_contact_input(input("   ")).err().unwrap(), "Contact name is required.");
}

#[test]
fn renders_contact_records_and_entities() {
    let cleaned = clean_contact_input(input("Ada")).expect("clean");
    assert_eq!(
        render_contact_record(&cleaned),
        "## Ada\n- Relationship: Friend\n- Email: ada@example.com\n- Tags: math, poetry\n### Notes\nMet at the lab.\n"
    );
    assert!(render_contact_entity(&cleaned).starts_with("# Ada\n"));
    assert!(render_contact_entity(&cleaned).contains("## Notes\nMet at the lab."));
}

#[test]
fn finds_and_replaces_contact_record_ranges() {
    let body = "# Contacts\n\n## Ada\n- Email: a\n\n## Grace\n- Phone: 1\n";
    let ranges = contact_ranges(body);
    assert_eq!(ranges, vec![(2, 5), (5, 7)]);
    let replaced = replace_line_range(body, 5, 7, "## Grace Hopper\n- Phone: 2\n\n").expect("replaced");
    assert_eq!(replaced, "# Contacts\n\n## Ada\n- Email: a\n\n## Grace Hopper\n- Phone: 2\n");
    assert_eq!(replace_line_range(body, 5, 99, "x").err().unwrap(), "Contact source block was not found.");
}

#[test]
fn contact_paths_slugs_and_ids() {
    assert_eq!(contact_slugify(" Ada Lovelace! "), "ada-lovelace");
    assert_eq!(contact_slugify("!!"), "untitled-contact");
    assert!(is_contact_entity_path("modules/contacts/data/ada.md"));
    assert!(!is_contact_entity_path("modules/contacts/INDEX.md"));
    assert!(!is_contact_entity_path("modules/contacts/MODULE.md"));
    let existing = vec!["modules/contacts/data/ada.md".to_string()];
    assert_eq!(unique_contact_entity_path("Ada", &existing).unwrap(), "modules/contacts/data/ada-1.md");
    assert_eq!(document_id_from_record_id("bl_doc_a::ff00"), "bl_doc_a");
    assert_eq!(document_id_from_record_id("contact_3_ff"), "contact_3_ff");
    assert_eq!(normalize_contacts_body("  \n"), "# Contacts\n");
}

#[test]
fn summarizes_contacts() {
    let contacts = vec![
        entry("Ada", Some("Friend"), &["math", "poetry"], true),
        entry("Grace", Some("Friend"), &["navy", "math"], false),
        entry("Alan", None, &["math", "crypto"], true),
    ];
    let s = summarize_contacts(&contacts);
    assert_eq!(s.total, 3);
    assert_eq!(s.relationship_counts, vec![("Friend".to_string(), 2)]);
    let top: Vec<(&str, usize)> = s.top_tags.iter().map(|t| (t.tag.as_str(), t.count)).collect();
    assert_eq!(top, vec![("math", 3), ("crypto", 1), ("navy", 1), ("poetry", 1)]);
    assert_eq!(s.contacts_with_email, 2);
    assert_eq!(s.contacts_with_phone, 0);
}

#[test]
fn creates_and_updates_contact_entities() {
    let created = ContactsService::create_contact(input("Ada"), &Vec::new(), 5).expect("created");
    assert_eq!(created.markdown_relative_path, "modules/contacts/data/ada.md");
    assert_eq!(created.document_metadata.document_type, "contact");
    assert!(created.markdown.contains("- Email: ada@example.com"));

    let mut warnings = Vec::new();
    let existing = ContactsService::parse_contact_entity(
        &bentolife_core::document_identity::DocumentIdentityService::remove_identity_comments(
            &bentolife_core::markdown_document::MarkdownDocumentService::parse_frontmatter(&created.markdown).body,
        ),
        &created.document_id,
        &created.markdown_relative_path,
        Err("none".to_string()),
        &mut warnings,
    )
    .expect("contact");
    let (metadata, markdown) = ContactsService::update_contact(
        &existing.contact_id,
        input("Ada King"),
        created.document_metadata.clone(),
        &created.markdown,
    )
    .expect("updated");
    assert_eq!(metadata.document_type, "contact");
    assert!(markdown.contains("# Ada King"));

    let stale = ContactsService::update_contact(
        &format!("{}::0000000000000000", created.document_id),
        input("Ada"),
        created.document_metadata.clone(),
        &created.markdown,
    );
    assert_eq!(stale.err().unwrap(), "Contact was changed outside BentoLife.");
}

#[test]
fn updates_legacy_contact_records() {
    let metadata = DocumentMetadataService::create_default_with_type("bl_doc_legacy", "modules/contacts.md", "# Contacts\n", "contact")
        .expect("metadata");
    let markdown = "# Contacts\n\n## Ada\n- Email: a\n";
    let missing = ContactsService::update_contact("contact_9_x", input("Ada"), metadata.clone(), markdown);
    assert_eq!(missing.err().unwrap(), "Contact was not found or was changed outside BentoLife.");
    let mut warnings = Vec::new();
    let c = ContactsService::parse_contact_record(markdown, 2, 4, "modules/contacts.md", Err("none".to_string()), &mut warnings)
        .expect("record");
    assert!(c.contact_id.starts_with("contact_2_"));
    let (_, updated) = ContactsService::update_contact(&c.contact_id, input("Ada King"), metadata, markdown).expect("updated");
    assert!(updated.contains("## Ada King\n- Relationship: Friend"));
}

#[test]
fn reads_contacts_sorted_with_index_body() {
    let metadata = DocumentMetadataService::create_default_with_type("bl_doc_index", "modules/contacts/INDEX.md", "# Contacts\n", "contact")
        .expect("metadata");
    let doc = ContactsService::read_contacts(
        metadata,
        vec![entry("grace", None, &[], false), entry("Ada", None, &[], false)],
        "",
        Vec::new(),
    );
    let names: Vec<&str> = doc.contacts.iter().map(|c| c.name.as_str()).collect();
    assert_eq!(names, vec!["Ada", "grace"]);
    assert_eq!(doc.markdown_body, "# Contacts\n\n## Ada\n\n## grace\n");
}

#[test]
fn parses_contact_fields_and_refuses_external_edits() {
    let body = "# Mina Park\n- Email: mina@example.com\n- Phone: 555-0100\n- Shoe: 9\n## Notes\nMet at studio\n";
    let mut warnings = vec!["earlier".to_string()];
    let c = ContactsService::parse_contact_entity(body, "bl_doc_0000000000000002", "modules/contacts/data/mina-park.md", Err("gone".to_string()), &mut warnings)
        .expect("contact");
    assert_eq!(c.email.as_deref(), Some("mina@example.com"));
    assert_eq!(c.phone.as_deref(), Some("555-0100"));
    assert_eq!(c.notes.as_deref(), Some("Met at studio"));
    assert_eq!(c.contact_id, format!("bl_doc_0000000000000002::{}", bentolife_core::storage::content_hash(body)));
    assert_eq!(c.parsed_entity.entity_type.as_deref(), Some("contact"));
    assert_eq!(warnings.len(), 2);
    assert!(warnings[1].contains("unknown contact field 'shoe'"));
    assert_eq!(c.schema_warnings[0], "Module schema could not be loaded: gone");

    let created = ContactsService::create_contact(input("Mina"), &Vec::new(), 3).expect("created");
    let stored = bentolife_core::document_identity::DocumentIdentityService::remove_identity_comments(
        &bentolife_core::markdown_document::MarkdownDocumentService::parse_frontmatter(&created.markdown).body,
    );
    let id = bentolife_core::contacts::record_id(&created.document_id, &stored);
    let edited = created.markdown.replace("# Mina", "# Mina Changed");
    let refused = ContactsService::update_contact(&id, input("Mina"), created.document_metadata.clone(), &edited);
    assert_eq!(refused.err().unwrap(), "Contact was changed outside BentoLife.");
    assert!(ContactsService::update_contact(&id, input("Mina"), created.document_metadata, &created.markdown).is_ok());
}
