use bentolife_core::module_registry::{
    canonical_module_id, safe_id, ModuleDefinition, ModuleRegistry, ModuleRegistryService,
    RegistryState,
};

#[test]
fn core_modules_are_preinstalled_with_portable_storage_paths() {
    let modules = ModuleRegistry::core_modules();

    assert_eq!(
        modules
            .iter()
            .map(|module| module.id.as_str())
            .collect::<Vec<_>>(),
        vec![
            "navigator",
            "trash",
            "archive",
            "settings",
            "vault",
            "themes",
            "architect",
            "notes",
            "todos",
            "contacts",
            "habits"
        ]
    );
    assert_eq!(modules[8].default_path, "modules/todos/INDEX.md");
    assert_eq!(modules[9].kind, "optional");
    assert_eq!(
        modules[9].data_path.as_deref(),
        Some("modules/contacts/data")
    );
    assert_eq!(modules[1].index_path, "modules/trash/INDEX.md");
    assert_eq!(modules[2].index_path, "modules/archive/INDEX.md");
    assert!(!modules[10].enabled_by_default);
    assert!(modules
        .iter()
        .filter(|m| m.kind != "system")
        .all(|module| !module.default_path.contains(".bentolifelayout")));
    assert_eq!(modules[9].implementation_status, "implemented");
    assert_eq!(modules[10].implementation_status, "implemented");
    assert!(modules.iter().all(|module| module.available));
    assert!(modules.iter().all(|module| module.installed));
    let ids = modules
        .iter()
        .map(|module| module.id.as_str())
        .collect::<Vec<_>>();
    let mut unique_ids = ids.clone();
    unique_ids.sort_unstable();
    unique_ids.dedup();
    assert_eq!(ids.len(), unique_ids.len());
}

fn bad_module() -> ModuleDefinition {
    ModuleDefinition {
        id: "../bad".to_string(),
        display_name: "Bad".to_string(),
        kind: "starter".to_string(),
        document_type: "bad".to_string(),
        default_path: "../outside.md".to_string(),
        schema_path: None,
        index_path: "../outside.md".to_string(),
        data_path: None,
        default_view: "cards".to_string(),
        enabled_by_default: true,
        enabled: true,
        storage_kind: "bad".to_string(),
        capabilities: Vec::new(),
        implementation_status: "bad".to_string(),
        ..ModuleDefinition::default()
    }
}

#[test]
fn invalid_loaded_registry_is_rebuilt_from_core_modules() {
    let loaded = RegistryState {
        modules: vec![bad_module()],
    };
    let repaired = ModuleRegistryService::resolve_loaded_registry(
        "/vault",
        Some(Ok(loaded)),
        ModuleRegistry::core_modules(),
    )
    .expect("registry");
    assert!(repaired.modules.iter().any(|module| module.id == "notes"));
    assert!(!repaired.modules.iter().any(|module| module.id == "../bad"));
}

#[test]
fn legacy_todo_module_is_read_as_todos_keeping_its_enabled_state() {
    let mut modules = ModuleRegistry::core_modules();
    for module in &mut modules {
        if module.id == "todos" {
            module.id = "todo".to_string();
            module.enabled = false;
        }
    }
    let repaired = ModuleRegistryService::resolve_loaded_registry(
        "/vault",
        Some(Ok(RegistryState { modules })),
        ModuleRegistry::core_modules(),
    )
    .expect("registry");
    assert!(!repaired.modules.iter().any(|module| module.id == "todo"));
    let todos = repaired
        .modules
        .iter()
        .find(|module| module.id == "todos")
        .expect("todos");
    assert!(!todos.enabled);
    assert!(todos.installed);
    assert!(todos.available);
    assert_eq!(repaired.modules.len(), 11);
}

#[test]
fn unknown_safe_modules_are_kept_with_a_review_warning() {
    let mut modules = ModuleRegistry::core_modules();
    modules.push(ModuleDefinition {
        id: "projects".to_string(),
        display_name: "Projects".to_string(),
        kind: "optional".to_string(),
        document_type: "project".to_string(),
        default_path: "modules/projects/INDEX.md".to_string(),
        schema_path: None,
        index_path: "modules/projects/INDEX.md".to_string(),
        data_path: Some("modules/projects/data".to_string()),
        default_view: "cards".to_string(),
        enabled_by_default: false,
        enabled: false,
        storage_kind: "per_entity_markdown_documents".to_string(),
        capabilities: Vec::new(),
        implementation_status: "external".to_string(),
        ..ModuleDefinition::default()
    });
    let loaded = ModuleRegistryService::resolve_loaded_registry(
        "/vault",
        Some(Ok(RegistryState { modules })),
        ModuleRegistry::core_modules(),
    )
    .expect("registry");
    let projects = loaded
        .modules
        .iter()
        .find(|module| module.id == "projects")
        .expect("projects");
    assert!(projects
        .schema_warnings
        .iter()
        .any(|warning| warning.contains("needs review")));
    assert!(!projects.enabled);
}

#[test]
fn missing_registry_enables_modules_as_by_default() {
    let state =
        ModuleRegistryService::resolve_loaded_registry("/vault", None, ModuleRegistry::core_modules())
            .expect("registry");
    assert_eq!(state.modules.len(), 11);
    assert!(state.modules[0].enabled);
    assert!(!state.modules[9].enabled);
}

#[test]
fn registry_checks_report_the_first_problem() {
    let mut modules = ModuleRegistry::core_modules();
    modules.push(ModuleRegistry::core_modules().remove(7));
    assert_eq!(
        ModuleRegistryService::validate_registry("/vault", &RegistryState { modules })
            .err()
            .as_deref(),
        Some("Duplicate module ID 'notes'.")
    );
    let mut modules = ModuleRegistry::core_modules();
    modules[0].enabled = false;
    assert_eq!(
        ModuleRegistryService::validate_registry("/vault", &RegistryState { modules })
            .err()
            .as_deref(),
        Some("System module navigator cannot be disabled.")
    );
    assert_eq!(
        ModuleRegistryService::validate_registry(
            "/vault",
            &RegistryState {
                modules: vec![bad_module()]
            }
        )
        .err()
        .as_deref(),
        Some("Invalid module ID '../bad'.")
    );
}

#[test]
fn enabling_and_disabling_modules() {
    let mut state = RegistryState {
        modules: ModuleRegistry::core_modules(),
    };
    assert_eq!(
        ModuleRegistryService::set_module_enabled(&mut state, "trash", false)
            .err()
            .as_deref(),
        Some("System module trash cannot be disabled")
    );
    assert_eq!(
        ModuleRegistryService::set_module_enabled(&mut state, "habits", true),
        Ok(true)
    );
    assert!(state.modules[10].enabled);
    assert_eq!(
        ModuleRegistryService::set_module_enabled(&mut state, "todo", false),
        Ok(true)
    );
    assert!(!state.modules[8].enabled);
    assert_eq!(
        ModuleRegistryService::set_module_enabled(&mut state, "missing", true),
        Ok(false)
    );
}

#[test]
fn module_ids_are_canonical_and_safe() {
    assert_eq!(canonical_module_id("todo"), "todos");
    assert_eq!(canonical_module_id("notes"), "notes");
    assert!(safe_id("my-module_2"));
    assert!(!safe_id("Bad"));
    assert!(!safe_id(""));
}

#[test]
fn registry_lives_in_the_layout_modules_folder() {
    assert_eq!(
        ModuleRegistryService::registry_path("/vault"),
        "/vault/.bentolifelayout/modules/registry.json"
    );
}
