use bentolife_core::dashboard_widgets::{
    after_write, check_before_write, layouts_overlap, loaded_state, sparse_repair_layout,
    validate_layout, validate_no_layout_overlap, widget_instance_id, DashboardWidgetCreateRequest,
    DashboardWidgetService,
    DashboardWidgetInstance, DashboardWidgetLayout, DashboardWidgetState,
    DashboardWidgetUpdateRequest,
};
use bentolife_core::module_registry::{ModuleRegistry, RegistryState};
use bentolife_core::module_schema::{
    SchemaValue, WidgetConfigFieldDefinition, WidgetSizeDefinition, WidgetTypeDefinition,
};

fn size(width: u32, height: u32) -> WidgetSizeDefinition {
    WidgetSizeDefinition { width, height }
}

fn widget_type(id: &str, default: WidgetSizeDefinition, sizes: Vec<WidgetSizeDefinition>) -> WidgetTypeDefinition {
    WidgetTypeDefinition {
        id: id.to_string(),
        module_id: "todos".to_string(),
        label: id.to_string(),
        description: None,
        renderer_id: "todo_list".to_string(),
        default_size: default,
        allowed_sizes: sizes,
        config_schema: vec![(
            "range_days".to_string(),
            WidgetConfigFieldDefinition {
                label: None,
                field_type: "number".to_string(),
                default_value: Some(SchemaValue::Number("7".to_string())),
                min: None,
                max: None,
                min_above_max: false,
                options: Vec::new(),
                extra: Vec::new(),
            },
        )],
        extra: Vec::new(),
    }
}

fn registry() -> RegistryState {
    let mut modules = ModuleRegistry::core_modules();
    for module in &mut modules {
        if module.id == "todos" {
            module.widget_types = vec![
                widget_type("todos.upcoming", size(2, 1), vec![size(2, 1), size(2, 2), size(7, 3)]),
                widget_type("todos.today", size(2, 1), vec![size(2, 1), size(1, 1)]),
            ];
        }
    }
    RegistryState { modules }
}

fn request(widget: &str, layout: Option<DashboardWidgetLayout>) -> DashboardWidgetCreateRequest {
    DashboardWidgetCreateRequest {
        widget_type: widget.to_string(),
        module_id: "todos".to_string(),
        title: None,
        config: Vec::new(),
        layout,
        collapsed: false,
    }
}

fn at(column: u32, row: u32, width: u32, height: u32) -> DashboardWidgetLayout {
    DashboardWidgetLayout { column, row, width, height }
}

fn write(state: DashboardWidgetState, registry: &RegistryState) -> DashboardWidgetState {
    check_before_write(&state, registry).expect("valid state");
    let mut state = state;
    after_write(&mut state, registry);
    state
}

fn create(
    state: DashboardWidgetState,
    registry: &RegistryState,
    req: DashboardWidgetCreateRequest,
    id: &str,
) -> DashboardWidgetState {
    write(
        DashboardWidgetService::create_instance(state, registry, req, id.to_string()).expect("create"),
        registry,
    )
}

fn instance(id: &str, widget: &str, layout: DashboardWidgetLayout) -> DashboardWidgetInstance {
    DashboardWidgetInstance {
        instance_id: id.to_string(),
        widget_type: widget.to_string(),
        module_id: "todos".to_string(),
        title: None,
        config: Vec::new(),
        layout,
        collapsed: false,
        active: false,
        status: String::new(),
        warnings: Vec::new(),
    }
}

fn layouts(state: &DashboardWidgetState) -> Vec<(u32, u32, u32, u32)> {
    state
        .instances
        .iter()
        .map(|i| (i.layout.column, i.layout.row, i.layout.width, i.layout.height))
        .collect()
}

#[test]
fn places_new_widgets_in_first_available_grid_slot() {
    let registry = registry();
    let mut state = DashboardWidgetService::default_state();
    for n in 0..3 {
        state = create(state, &registry, request("todos.today", None), &format!("bl_widget_t{n}"));
    }
    assert_eq!(state.instances[0].layout.column, 1);
    assert_eq!(state.instances[0].layout.row, 1);
    assert_eq!(state.instances[1].layout.column, 3);
    assert_eq!(state.instances[1].layout.row, 1);
    assert_eq!(state.instances[2].layout.column, 5);
    assert_eq!(state.instances[2].layout.row, 1);
    assert!(!layouts_overlap(&state.instances[0].layout, &state.instances[1].layout));
    assert!(!layouts_overlap(&state.instances[1].layout, &state.instances[2].layout));
}

#[test]
fn creates_moves_resizes_collapses_duplicates_and_removes_widget_instances() {
    let registry = registry();
    let mut req = request("todos.upcoming", None);
    req.title = Some("Tasks This Week".to_string());
    let created = create(DashboardWidgetService::default_state(), &registry, req, "bl_widget_a");
    let instance_id = created.instances[0].instance_id.clone();
    assert_eq!(created.instances[0].status, "active");
    assert_eq!(created.instances[0].config.len(), 1);
    assert_eq!(created.instances[0].config[0].0, "range_days");
    assert!(matches!(&created.instances[0].config[0].1, SchemaValue::Number(n) if n == "7"));

    let (moved, _) = DashboardWidgetService::move_instance(created, &instance_id, 2, 3).expect("move");
    let moved = write(moved, &registry);
    assert_eq!(moved.instances[0].layout.column, 2);
    assert_eq!(moved.instances[0].layout.row, 3);

    let (resized, _) = DashboardWidgetService::resize_instance(moved, &registry, &instance_id, 2, 2).expect("resize");
    let resized = write(resized, &registry);
    assert_eq!(resized.instances[0].layout.height, 2);

    let collapsed = write(DashboardWidgetService::set_collapsed(resized, &instance_id, true).expect("collapse"), &registry);
    assert!(collapsed.instances[0].collapsed);

    let duplicated = write(
        DashboardWidgetService::duplicate_instance(collapsed, &registry, &instance_id, "bl_widget_b".to_string())
            .expect("duplicate"),
        &registry,
    );
    assert_eq!(duplicated.instances.len(), 2);
    assert_eq!(duplicated.instances[1].layout.column, 1);
    assert_eq!(duplicated.instances[1].layout.row, 1);
    assert_eq!(duplicated.instances[1].title.as_deref(), Some("Tasks This Week Copy"));

    let removed = write(DashboardWidgetService::remove_instance(duplicated, &instance_id).expect("remove"), &registry);
    assert_eq!(removed.instances.len(), 1);
    assert_eq!(
        DashboardWidgetService::remove_instance(removed, &instance_id).err().as_deref(),
        Some("Dashboard widget instance 'bl_widget_a' was not found.")
    );
}

#[test]
fn resize_rejects_collision_and_preserves_neighbor_layouts() {
    let registry = registry();
    let mut state = DashboardWidgetService::default_state();
    state = create(state, &registry, request("todos.upcoming", Some(at(1, 1, 2, 1))), "bl_widget_first");
    state = create(state, &registry, request("todos.upcoming", Some(at(3, 1, 2, 1))), "bl_widget_second");
    state = create(state, &registry, request("todos.upcoming", Some(at(1, 2, 2, 1))), "bl_widget_third");
    let before = layouts(&state);

    let error = DashboardWidgetService::resize_instance(state, &registry, "bl_widget_first", 2, 2)
        .err()
        .expect("collision rejected");
    assert!(error.contains("overlaps another widget"));

    let mut state = DashboardWidgetService::default_state();
    state = create(state, &registry, request("todos.upcoming", Some(at(1, 1, 2, 1))), "bl_widget_first");
    state = create(state, &registry, request("todos.upcoming", Some(at(3, 1, 2, 1))), "bl_widget_second");
    state = create(state, &registry, request("todos.upcoming", Some(at(1, 2, 2, 1))), "bl_widget_third");
    assert_eq!(layouts(&state), before);
    let move_error = DashboardWidgetService::move_instance(state, "bl_widget_first", 2, 1)
        .err()
        .expect("move collision rejected");
    assert!(move_error.contains("overlaps another widget"));

    let mut state = DashboardWidgetService::default_state();
    state = create(state, &registry, request("todos.upcoming", Some(at(1, 1, 2, 1))), "bl_widget_first");
    state = create(state, &registry, request("todos.upcoming", Some(at(3, 1, 2, 1))), "bl_widget_second");
    state = create(state, &registry, request("todos.upcoming", Some(at(1, 2, 2, 1))), "bl_widget_third");
    let (moved, operation) = DashboardWidgetService::move_instance(state, "bl_widget_first", 5, 2).expect("move");
    assert_eq!(moved.instances[0].layout.column, 5);
    assert_eq!(moved.instances[0].layout.row, 2);
    assert_eq!(operation.moved_widget_id.as_deref(), Some("bl_widget_first"));
    assert!(operation.affected_widget_ids.is_empty());
    assert_eq!(operation.reason, "moved");
}

#[test]
fn remove_all_then_add_starts_at_top_left() {
    let registry = registry();
    let state = create(
        DashboardWidgetService::default_state(),
        &registry,
        request("todos.today", Some(at(1, 8, 1, 1))),
        "bl_widget_first",
    );
    let state = write(DashboardWidgetService::remove_instance(state, "bl_widget_first").expect("remove"), &registry);
    let next = create(state, &registry, request("todos.today", None), "bl_widget_next");
    assert_eq!(next.instances[0].layout.column, 1);
    assert_eq!(next.instances[0].layout.row, 1);
}

#[test]
fn compact_layout_is_explicit_and_preserves_non_overlapping_order() {
    let registry = registry();
    let mut state = DashboardWidgetService::default_state();
    state = create(state, &registry, request("todos.today", Some(at(1, 4, 1, 1))), "bl_widget_first");
    state = create(state, &registry, request("todos.upcoming", Some(at(3, 4, 2, 1))), "bl_widget_second");
    assert_eq!(state.instances[0].layout.row, 4);
    let (compacted, operation) = DashboardWidgetService::compact_layout(state);
    let first_after = compacted
        .instances
        .iter()
        .find(|instance| instance.instance_id == "bl_widget_first")
        .expect("first");
    assert_eq!(first_after.layout.row, 1);
    assert_eq!(first_after.layout.column, 1);
    assert!(!layouts_overlap(&compacted.instances[0].layout, &compacted.instances[1].layout));
    assert_eq!(operation.reason, "compacted");
    assert_eq!(operation.affected_widget_ids, vec!["bl_widget_first", "bl_widget_second"]);
}

#[test]
fn v5_grid_accepts_seven_columns_and_three_row_widgets() {
    let registry = registry();
    let state = create(
        DashboardWidgetService::default_state(),
        &registry,
        request("todos.upcoming", Some(at(1, 1, 7, 3))),
        "bl_widget_wide",
    );
    assert_eq!(state.instances[0].layout.width, 7);
    assert_eq!(state.instances[0].layout.height, 3);
    assert!(validate_layout(&at(2, 1, 7, 1)).is_err());
    assert_eq!(
        validate_layout(&at(1, 1, 1, 4)).err().as_deref(),
        Some("Dashboard widget layout height must be 3 rows or less.")
    );
}

#[test]
fn recoverable_manual_layout_values_are_clamped_with_warning() {
    let mut parsed = DashboardWidgetService::default_state();
    parsed
        .instances
        .push(instance("bl_widget_clamp", "todos.upcoming", at(6, 0, 9, 8)));
    let state = loaded_state(Some(Ok(parsed)), true).expect("state");
    assert_eq!(state.instances[0].layout.column, 6);
    assert_eq!(state.instances[0].layout.row, 1);
    assert_eq!(state.instances[0].layout.width, 2);
    assert_eq!(state.instances[0].layout.height, 3);
    assert!(state.warnings.iter().any(|warning| warning.contains("clamped")));
}

#[test]
fn malformed_widgets_file_recovers_for_read_but_blocks_mutation() {
    let read = loaded_state(Some(Err("Invalid JSON at widgets.json: oops".to_string())), true)
        .expect("read");
    assert!(read.instances.is_empty());
    assert!(!read.warnings.is_empty());
    let error = loaded_state(Some(Err("Invalid JSON at widgets.json: oops".to_string())), false)
        .err()
        .expect("blocked");
    assert!(error.contains("Invalid JSON"));
    assert!(loaded_state(None, false).expect("missing").instances.is_empty());
}

#[test]
fn unavailable_widget_type_and_disabled_module_are_reported() {
    let mut registry = registry();
    let mut state = DashboardWidgetService::default_state();
    state
        .instances
        .push(instance("bl_widget_missing", "todos.missing", at(1, 1, 1, 1)));
    let state = write(state, &registry);
    assert_eq!(state.instances[0].status, "unavailable_widget_type");
    assert!(!state.instances[0].active);
    assert!(state.warnings.iter().any(|w| w.contains("unavailable widget type")));

    let created = create(DashboardWidgetService::default_state(), &registry, request("todos.today", None), "bl_widget_on");
    assert!(created.instances[0].active);
    for module in &mut registry.modules {
        if module.id == "todos" {
            module.enabled = false;
        }
    }
    let state = write(created, &registry);
    assert!(!state.instances[0].active);
    assert_eq!(state.instances[0].status, "inactive_module_disabled");
}

#[test]
fn sparse_rows_are_repaired_by_compacting() {
    let instances = vec![instance("bl_widget_sparse", "todos.today", at(1, 50, 1, 1))];
    let repaired = sparse_repair_layout(&instances).expect("repaired");
    assert_eq!(repaired[0].layout.row, 1);
    assert_eq!(repaired[0].layout.column, 1);
    let compact = vec![instance("bl_widget_ok", "todos.today", at(1, 1, 1, 1))];
    assert!(sparse_repair_layout(&compact).is_none());
}

#[test]
fn sparse_repair_preserves_order_and_prevents_overlap() {
    let instances = vec![
        instance("bl_widget_late", "todos.today", at(3, 20, 2, 1)),
        instance("bl_widget_early", "todos.today", at(1, 20, 2, 1)),
        instance("bl_widget_last", "todos.today", at(1, 40, 2, 1)),
    ];
    let repaired = sparse_repair_layout(&instances).expect("repaired");
    assert_eq!(repaired[0].instance_id, "bl_widget_early");
    assert_eq!(repaired[0].layout.row, 1);
    assert_eq!(repaired[1].instance_id, "bl_widget_late");
    assert_eq!(repaired[1].layout.row, 1);
    assert_eq!(repaired[2].instance_id, "bl_widget_last");
    assert!(validate_no_layout_overlap(&repaired, None).is_ok());
}

#[test]
fn updates_titles_configs_and_layouts() {
    let registry = registry();
    let state = create(DashboardWidgetService::default_state(), &registry, request("todos.upcoming", None), "bl_widget_u");
    let updated = DashboardWidgetService::update_instance(
        state,
        &registry,
        "bl_widget_u",
        DashboardWidgetUpdateRequest {
            title: Some("   ".to_string()),
            config: Some(vec![("range_days".to_string(), SchemaValue::Number("3".to_string()))]),
            layout: Some(at(3, 2, 2, 2)),
            collapsed: Some(true),
        },
    )
    .expect("update");
    assert_eq!(updated.instances[0].title, None);
    assert_eq!(updated.instances[0].layout.column, 3);
    assert!(updated.instances[0].collapsed);
    let error = DashboardWidgetService::update_instance(
        updated,
        &registry,
        "bl_widget_u",
        DashboardWidgetUpdateRequest {
            title: None,
            config: Some(vec![("range_days".to_string(), SchemaValue::Text("soon".to_string()))]),
            layout: None,
            collapsed: None,
        },
    )
    .err()
    .expect("bad config");
    assert_eq!(
        error,
        "Widget type 'todos.upcoming' config field 'range_days' does not match type 'number'."
    );
}

#[test]
fn creating_needs_an_enabled_module_and_an_allowed_size() {
    let registry = registry();
    let mut req = request("todos.today", None);
    req.module_id = "habits".to_string();
    req.widget_type = "habits.streak".to_string();
    assert_eq!(
        DashboardWidgetService::create_instance(DashboardWidgetService::default_state(), &registry, req, "bl_widget_x".to_string())
            .err()
            .as_deref(),
        Some("Module 'habits' must be enabled before adding widget 'habits.streak'.")
    );
    assert_eq!(
        DashboardWidgetService::create_instance(
            DashboardWidgetService::default_state(),
            &registry,
            request("todos.today", Some(at(1, 1, 3, 1))),
            "bl_widget_x".to_string()
        )
        .err()
        .as_deref(),
        Some("Widget type 'todos.today' does not allow size 3x1.")
    );
}

#[test]
fn widget_instance_ids_are_sanitized() {
    assert_eq!(widget_instance_id("todos.up-coming", 255), "bl_widget_todos_up_coming_ff");
}
