use bentolife_core::markdown_parser::MarkdownParser;
use bentolife_core::module_schema::{
    apply_schema_descriptors, field_label_exec, normalize_field, ModuleSchema, ModuleSchemaField,
    ModuleSchemaView, ModuleSchemaViewDefinition, SchemaValue, WidgetConfigFieldDefinition,
    WidgetSizeDefinition, WidgetTypeDefinition,
};

fn s(v: &str) -> String {
    v.to_string()
}

fn field(id: &str, field_type: &str) -> ModuleSchemaField {
    ModuleSchemaField {
        id: s(id),
        label: None,
        field_type: Some(s(field_type)),
        aliases: Vec::new(),
        renderer: None,
        required: false,
        source: None,
        default_value: None,
        options: Vec::new(),
        validation: Vec::new(),
        extra: Vec::new(),
    }
}

fn base_schema() -> ModuleSchema {
    ModuleSchema {
        schema_version: 2,
        module_id: s("todos"),
        display_name: None,
        kind: Some(s("starter")),
        entity_type: s("todos"),
        data_path: None,
        index_path: None,
        default_view: None,
        enabled_by_default: None,
        fields: Vec::new(),
        renderers: Vec::new(),
        validation: Vec::new(),
        views: Vec::new(),
        widgets: Vec::new(),
        theme: Vec::new(),
        migration_version: None,
        extra: Vec::new(),
    }
}

fn invalid_kind_with_safe_kind() -> ModuleSchema {
    base_schema()
}

#[test]
fn parses_v4_schema_sections_and_preserves_unknown_keys_as_warnings() {
    let mut title = field("title", "text");
    title.required = true;
    title.source = Some(s("h1"));
    title.extra = vec![(s("unknown"), SchemaValue::Bool(true))];
    let schema = ModuleSchema {
        display_name: Some(s("Todos")),
        data_path: Some(s("modules/todos/data")),
        index_path: Some(s("modules/todos/INDEX.md")),
        default_view: Some(s("cards")),
        enabled_by_default: Some(true),
        fields: vec![title],
        renderers: vec![s("text"), s("mystery")],
        validation: vec![(s("unknown_fields"), SchemaValue::Text(s("warn_and_preserve")))],
        views: vec![ModuleSchemaView::Definition(ModuleSchemaViewDefinition {
            id: s("cards"),
            label: Some(s("Cards")),
            default_sort: None,
            visible_fields: Vec::new(),
            empty_state: None,
            extra: Vec::new(),
        })],
        theme: vec![
            (s("--not-real"), SchemaValue::Text(s("red"))),
            (s("--primary"), SchemaValue::Text(s("#123456"))),
        ],
        migration_version: Some(1),
        extra: vec![(s("future"), SchemaValue::Bool(true))],
        ..base_schema()
    };

    schema.validate().expect("valid schema");
    let diagnostics = schema.diagnostics();

    assert!(diagnostics
        .iter()
        .any(|warning| warning.code == "unknown_schema_key"));
    assert!(diagnostics
        .iter()
        .any(|warning| warning.code == "unknown_field_schema_key"));
    assert!(diagnostics
        .iter()
        .any(|warning| warning.message.contains("mystery")));
    assert!(diagnostics
        .iter()
        .any(|warning| warning.message.contains("--not-real")));
}

#[test]
fn rejects_invalid_kind_paths_and_view_ids() {
    let invalid_kind = ModuleSchema {
        kind: Some(s("marketplace")),
        ..base_schema()
    };
    assert!(invalid_kind.validate().is_err());

    let invalid_path = ModuleSchema {
        kind: Some(s("starter")),
        data_path: Some(s("../outside")),
        ..invalid_kind_with_safe_kind()
    };
    assert!(invalid_path.validate().is_err());

    let invalid_view = ModuleSchema {
        views: vec![ModuleSchemaView::Id(s("custom_component"))],
        ..invalid_kind_with_safe_kind()
    };
    assert!(invalid_view.validate().is_err());
}

#[test]
fn reads_v1_schema_without_requiring_v4_sections() {
    let mut title = field("title", "text");
    title.aliases = vec![s("name")];
    let schema = ModuleSchema {
        schema_version: 1,
        module_id: s("notes"),
        kind: None,
        entity_type: s("note"),
        fields: vec![title],
        ..base_schema()
    };

    schema.validate().expect("v1 read-compatible");

    assert_eq!(schema.schema_version, 1);
    assert!(schema.widgets.is_empty());
    assert!(schema.theme.is_empty());
    assert!(schema.views.is_empty());
}

#[test]
fn schema_with_valid_widget_passes_and_bad_sizes_fail() {
    let widget = WidgetTypeDefinition {
        id: s("todos.summary"),
        module_id: s("todos"),
        label: s("Summary"),
        description: None,
        renderer_id: s("todo_list"),
        default_size: WidgetSizeDefinition { width: 2, height: 2 },
        allowed_sizes: vec![WidgetSizeDefinition { width: 2, height: 2 }],
        config_schema: vec![(
            s("limit"),
            WidgetConfigFieldDefinition {
                label: None,
                field_type: s("number"),
                default_value: Some(SchemaValue::Number(s("5"))),
                min: Some(SchemaValue::Number(s("1"))),
                max: Some(SchemaValue::Number(s("10"))),
                min_above_max: false,
                options: Vec::new(),
                extra: Vec::new(),
            },
        )],
        extra: Vec::new(),
    };
    let schema = ModuleSchema {
        widgets: vec![widget],
        ..base_schema()
    };
    assert!(schema.validate().is_ok());
    let bad = WidgetSizeDefinition { width: 0, height: 2 };
    assert_eq!(
        bad.validate("todos.summary").err().as_deref(),
        Some("Widget type 'todos.summary' size must fit the 1..7 by 1..3 dashboard grid.")
    );
    assert!(WidgetSizeDefinition { width: 2, height: 2 }.validate("todos.summary").is_ok());
}

#[test]
fn normalizes_fields_and_labels() {
    assert_eq!(normalize_field("  Due_Date "), "due date");
    assert_eq!(field_label_exec("due_date"), "Due Date");
}

#[test]
fn schema_path_must_name_the_schema_file() {
    assert!(ModuleSchema::check_schema_path("modules/todos/module.schema.json").is_ok());
    assert_eq!(
        ModuleSchema::check_schema_path("modules/todos/schema.json").err().as_deref(),
        Some("Module schema path must point at module.schema.json.")
    );
}

#[test]
fn allowed_field_names_are_sorted_and_unique() {
    let mut title = field("Due_Date", "date");
    title.aliases = vec![s("due"), s("title")];
    let schema = ModuleSchema {
        fields: vec![title],
        ..base_schema()
    };
    assert_eq!(
        schema.allowed_field_names(),
        vec![
            s("body"),
            s("due"),
            s("due date"),
            s("name"),
            s("related"),
            s("relationships"),
            s("tags"),
            s("title"),
        ]
    );
}

#[test]
fn applying_a_schema_sets_descriptors_and_warns() {
    let mut status = field("status", "enum");
    status.options = vec![s("Open"), s("Done")];
    let mut owner = field("owner", "text");
    owner.required = true;
    let schema = ModuleSchema {
        fields: vec![status, owner],
        ..base_schema()
    };
    let mut entity = MarkdownParser::parse("# Task\n\nStatus: later\nColor: red\n");
    let warnings = apply_schema_descriptors(Ok(schema), &mut entity).expect("warnings");
    assert!(warnings.iter().any(|w| w.starts_with("Parsed module None")));
    assert!(warnings
        .iter()
        .any(|w| w == "Required todos field 'owner' is missing and the original Markdown is preserved."));
    assert!(warnings.iter().any(|w| w.contains("value 'later' is outside the approved options")));
    assert!(warnings
        .iter()
        .any(|w| w == "Unknown todos field 'color' is preserved as fallback content."));
    assert_eq!(entity.field_descriptors[0].id, "status");
    assert_eq!(entity.field_descriptors[0].value, "later");
    assert_eq!(entity.field_descriptors[1].id, "owner");
    assert!(entity
        .field_descriptors
        .iter()
        .any(|d| d.id == "color" && d.field_type == "unknown"));
}

#[test]
fn a_schema_that_did_not_load_gives_one_warning() {
    let mut entity = MarkdownParser::parse("# Task\n");
    let warnings =
        apply_schema_descriptors(Err(s("missing file")), &mut entity).expect("warnings");
    assert_eq!(
        warnings,
        vec![s("Module schema could not be loaded: missing file")]
    );
    assert!(entity.field_descriptors.is_empty());
}
