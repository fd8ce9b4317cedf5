use bentolife_core::theme::{ActiveThemeState, ThemeService};

#[test]
fn accepts_static_css_theme_data() {
    assert!(ThemeService::validate_css_theme(
        ":root { --background: #fff; --foreground: rgb(0 0 0); }"
    )
    .is_ok());
}

#[test]
fn rejects_executable_or_remote_css_patterns() {
    assert!(
        ThemeService::validate_css_theme("@import url('https://example.com/theme.css');")
            .is_err()
    );
    assert!(
        ThemeService::validate_css_theme(".x { background: url(javascript:alert(1)); }")
            .is_err()
    );
    assert!(ThemeService::validate_css_theme("<script>alert(1)</script>").is_err());
}

#[test]
fn parses_allowlisted_css_tokens_and_rejects_selectors_or_unknown_tokens() {
    let tokens = ThemeService::parse_css_tokens(
        ":root { --background: #ffffff; --shadow-soft: 0 1px 2px rgb(0 0 0 / 0.1); }",
    )
    .expect("tokens");

    assert_eq!(
        tokens.get("--background").map(String::as_str),
        Some("#ffffff")
    );
    assert!(ThemeService::parse_css_tokens(".card { color: red; }").is_err());
    assert!(ThemeService::parse_css_tokens(":root { --not-real: red; }").is_err());
}

#[test]
fn css_errors_name_the_rejected_pattern_and_the_first_bad_token() {
    assert_eq!(
        ThemeService::parse_css_tokens("a { b: url(x) }").err().as_deref(),
        Some("CSS theme contains a rejected executable or remote-loading pattern: url(.")
    );
    assert_eq!(
        ThemeService::parse_css_tokens("   ").err().as_deref(),
        Some("CSS theme is empty.")
    );
    assert_eq!(
        ThemeService::parse_css_tokens("--zz: red; --aa: blue;").err().as_deref(),
        Some("Theme token --aa is not allowlisted.")
    );
    assert_eq!(
        ThemeService::parse_css_tokens(":root { --primary: red } .x").err().as_deref(),
        Some("CSS token theme may not include selectors after the :root block.")
    );
    assert_eq!(
        ThemeService::parse_css_tokens("color: red").err().as_deref(),
        Some("CSS token themes may only contain custom properties.")
    );
}

#[test]
fn bare_declarations_and_later_values_win() {
    let tokens = ThemeService::parse_css_tokens("--primary: #111111; --primary: #222222;")
        .expect("tokens");
    assert_eq!(tokens.get("--primary").map(String::as_str), Some("#222222"));
    assert_eq!(tokens.entries.len(), 1);
}

#[test]
fn token_values_are_limited_to_static_characters() {
    assert!(bentolife_core::theme::validate_token_value("#abc").is_ok());
    assert!(bentolife_core::theme::validate_token_value("red !important").is_err());
    assert!(bentolife_core::theme::validate_token_value(&"a".repeat(181)).is_err());
    assert!(bentolife_core::theme::validate_token_value(&"a".repeat(180)).is_ok());
}

#[test]
fn module_theme_precedence_and_rollback() {
    let state = ThemeService::read_active_theme(None).expect("fresh state");
    let todos = ThemeService::effective_tokens_for_module(&state, Some("todos"));
    assert_eq!(
        todos.get("--todo-priority-emphasis").map(String::as_str),
        Some("#d7b46a")
    );

    let preview = ThemeService::preview_theme_tokens(
        &state,
        "module",
        Some("todos"),
        "modules/todos/theme/css/priority.css",
        ":root { --todo-priority-emphasis: #222222; }",
        false,
    )
    .expect("preview");
    assert!(preview.safe);
    assert_eq!(
        preview.effective_tokens.get("--todo-priority-emphasis").map(String::as_str),
        Some("#222222")
    );

    let applied = ThemeService::apply_theme_tokens(state, preview).expect("apply");
    assert!(applied.module_themes.contains_key("todos"));
    assert_eq!(
        ThemeService::effective_tokens_for_module(&applied, Some("todos"))
            .get("--todo-priority-emphasis")
            .map(String::as_str),
        Some("#222222")
    );
    assert_eq!(
        ThemeService::effective_tokens_for_module(&applied, Some("todos"))
            .get("--primary")
            .map(String::as_str),
        Some("#335c4a")
    );

    let rolled_back = ThemeService::rollback_theme(applied, "module", Some("todos")).expect("rollback");
    assert!(!rolled_back.module_themes.contains_key("todos"));
}

#[test]
fn json_themes_and_module_source_paths() {
    let tokens = bentolife_core::theme::parse_json_tokens("{\"--primary\": \"#123456\"}").expect("json");
    assert_eq!(tokens.get("--primary").map(String::as_str), Some("#123456"));
    assert!(bentolife_core::theme::parse_json_tokens("[1, 2]").is_err());

    let error = bentolife_core::theme::theme_source_check("module", Some("todos"), "modules/todos/unsafe.css")
        .expect_err("rejected");
    assert!(error.contains("modules/todos/theme/json/"));
    assert!(bentolife_core::theme::theme_source_check("workspace", None, "themes/../x.css").is_err());
    assert!(bentolife_core::theme::theme_source_check("module", Some("todos"), "modules/todos/theme/css/a.css").is_ok());
}

#[test]
fn scopes_normalise_and_module_ids_are_checked() {
    assert_eq!(bentolife_core::theme::normalize_scope(" Module ").as_deref(), Ok("module"));
    assert!(bentolife_core::theme::normalize_scope("page").is_err());
    assert_eq!(
        bentolife_core::theme::normalize_module_id("module", Some(" notes ")),
        Ok(Some("notes".to_string()))
    );
    assert!(bentolife_core::theme::normalize_module_id("module", Some("Notes")).is_err());
    assert_eq!(bentolife_core::theme::normalize_module_id("workspace", Some("x")), Ok(None));
    let fresh = ActiveThemeState::fresh();
    assert_eq!(fresh.workspace_theme.theme_id, "workspace");
}
