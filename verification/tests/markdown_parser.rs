use bentolife_core::markdown_parser::{MarkdownBlock, MarkdownParser};

#[test]
fn parses_safe_relative_markdown_images() {
    let parsed = MarkdownParser::parse(
        "# Note\n\n![Pasted image](../../../assets/notes/bl_doc/image.png)\n",
    );

    assert!(parsed.blocks.iter().any(|block| matches!(
        block,
        MarkdownBlock::Image { alt, source, raw }
            if alt == "Pasted image"
                && source == "../../../assets/notes/bl_doc/image.png"
                && raw.contains("Pasted image")
    )));
}

#[test]
fn preserves_remote_images_as_unknown_blocks() {
    let parsed = MarkdownParser::parse("# Note\n\n![Remote](https://example.com/image.png)\n");

    assert!(parsed.blocks.iter().any(|block| matches!(block, MarkdownBlock::Unknown { raw } if raw.contains("https://example.com"))));
    assert!(!parsed.unknown_blocks.is_empty());
}

#[test]
fn ignores_import_context_comments_as_app_metadata() {
    let parsed = MarkdownParser::parse(
        "# Imported\n\n<!-- bentolife:import_context Source: modules/todos/data/task.md #imported -->\n",
    );

    assert!(parsed.blocks.iter().any(
        |block| matches!(block, MarkdownBlock::Heading { text, .. } if text == "Imported")
    ));
    assert!(parsed
        .blocks
        .iter()
        .all(|block| !matches!(block, MarkdownBlock::Unknown { raw } if raw.contains("import_context"))));
    assert!(parsed.unknown_blocks.is_empty());
}

#[test]
fn parses_only_strict_top_level_field_lines() {
    let parsed = MarkdownParser::parse(
        "# Task\n\nStatus: Done\nPriority: Medium\nDue date: 2026-06-15\nTags: alpha, product\nRelationships: [[Note:Launch]]\n",
    );

    assert_eq!(parsed.field("status").as_deref(), Some("Done"));
    assert_eq!(parsed.field("priority").as_deref(), Some("Medium"));
    assert_eq!(parsed.field("due date").as_deref(), Some("2026-06-15"));
    assert_eq!(
        parsed.tags,
        vec!["alpha".to_string(), "product".to_string()]
    );
    assert_eq!(parsed.relationships, vec!["[[Note:Launch]]".to_string()]);
}

#[test]
fn preserves_bold_and_list_labels_with_colons_as_markdown_content() {
    let parsed = MarkdownParser::parse(
        "# Roast\n\n**Vibe:** calm\n\n- **JavaScript/TypeScript:** nested label\n- **Phase 4:** parser guards\n1. Status: not metadata\n> Priority: not metadata\n",
    );

    assert!(parsed.field("**vibe").is_none());
    assert!(parsed.field("**javascript/typescript").is_none());
    assert!(parsed.field("**phase 4").is_none());
    assert!(parsed.field("status").is_none());
    assert!(parsed.field("priority").is_none());
    assert!(parsed.blocks.iter().any(|block| matches!(block, MarkdownBlock::List { items } if items.iter().any(|item| item.contains("JavaScript/TypeScript")))));
    assert!(parsed.blocks.iter().any(
        |block| matches!(block, MarkdownBlock::Paragraph { text } if text.contains("**Vibe:**"))
    ));
}

#[test]
fn ignores_field_like_text_inside_fenced_code() {
    let parsed = MarkdownParser::parse("# Code\n\n```text\nStatus: Done\n```\n");

    assert!(parsed.field("status").is_none());
    assert!(parsed.blocks.iter().any(|block| matches!(block, MarkdownBlock::Code { content, .. } if content.contains("Status: Done"))));
}

#[test]
fn keeps_headings_with_colons_out_of_fields() {
    let parsed = MarkdownParser::parse("# Status: Done\n\n## Phase 4: Parser\n");

    assert!(parsed.field("status").is_none());
    assert!(parsed.blocks.iter().any(
        |block| matches!(block, MarkdownBlock::Heading { text, .. } if text == "Status: Done")
    ));
}

#[test]
fn parses_alpha_preview_markdown_blocks() {
    let parsed = MarkdownParser::parse(
        "# Note\n\n> Quote\n\n---\n\n1. First\n2. Second\n\n![[Pasted image.png]]\n",
    );

    assert!(parsed
        .blocks
        .iter()
        .any(|block| matches!(block, MarkdownBlock::Blockquote { .. })));
    assert!(parsed
        .blocks
        .iter()
        .any(|block| matches!(block, MarkdownBlock::HorizontalRule)));
    assert!(parsed.blocks.iter().any(
        |block| matches!(block, MarkdownBlock::OrderedList { items } if items.len() == 2)
    ));
    assert!(parsed.blocks.iter().any(|block| matches!(
        block,
        MarkdownBlock::Image { source, raw, .. } if source == "Pasted image.png" && raw.contains("![[")
    )));
}

#[test]
fn first_level_one_heading_becomes_the_title_field() {
    let parsed = MarkdownParser::parse("## Sub\n\n# Main Title\n\n# Second\n");
    assert_eq!(parsed.field("title").as_deref(), Some("Main Title"));
}

#[test]
fn paragraph_lines_join_with_newlines_and_tables_split_cells() {
    let parsed = MarkdownParser::parse("one\ntwo\n\n| a | b |\n|---|---|\n| 1 | 2 |\n");
    assert_eq!(
        parsed.blocks[0],
        MarkdownBlock::Paragraph { text: "one\ntwo".to_string() }
    );
    assert_eq!(
        parsed.blocks[1],
        MarkdownBlock::Table {
            rows: vec![
                vec!["a".to_string(), "b".to_string()],
                vec!["1".to_string(), "2".to_string()]
            ]
        }
    );
    assert_eq!(parsed.blocks.len(), 2);
}

#[test]
fn checklists_and_managed_blocks_are_parsed() {
    let parsed = MarkdownParser::parse(
        "- [ ] open\n- [x] done\n<!-- bentolife:managed-block start name=\"summary\" -->\ninside\n<!-- bentolife:managed-block end -->\n",
    );
    match &parsed.blocks[0] {
        MarkdownBlock::Checklist { items } => {
            assert_eq!(items.len(), 2);
            assert_eq!(items[0].text, "open");
            assert!(!items[0].checked);
            assert!(items[1].checked);
        }
        other => panic!("unexpected block {:?}", other),
    }
    assert_eq!(
        parsed.blocks[1],
        MarkdownBlock::Managed { name: "summary".to_string(), content: "inside".to_string() }
    );
}

#[test]
fn unknown_blocks_tags_and_relationships_come_from_top_level_blocks() {
    let parsed = MarkdownParser::parse("# T\nTags: a, b\n![x](javascript:1)\nRelationships: [[N]]\nTags: c\n");
    let unknown: Vec<&MarkdownBlock> = parsed.blocks.iter().filter(|b| matches!(b, MarkdownBlock::Unknown { .. })).collect();
    assert_eq!(unknown.len(), parsed.unknown_blocks.len());
    let mut tags: Vec<String> = Vec::new();
    let mut links: Vec<String> = Vec::new();
    for b in &parsed.blocks {
        match b {
            MarkdownBlock::Tags { tags: t } => tags.extend(t.iter().cloned()),
            MarkdownBlock::Relationships { links: l } => links.extend(l.iter().cloned()),
            _ => {}
        }
    }
    assert_eq!(parsed.tags, tags);
    assert_eq!(parsed.relationships, links);
    assert_eq!(parsed.tags, vec!["a", "b", "c"]);
}
