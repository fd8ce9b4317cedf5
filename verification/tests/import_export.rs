use bentolife_core::import_export::{
    is_executable_or_unexpected_extension, normalized_import_name, ImportExportService,
};

#[test]
fn validates_and_imports_static_css_theme_inside_vault() {
    let css = ":root { --background: #fff; }\n";
    let validation = ImportExportService::validate_theme_import(
        "/tmp/calm-theme.css",
        Some("calm-theme.css"),
        true,
        Ok(css.to_string()),
    );
    assert!(validation.safe);
    let result = ImportExportService::import_theme_file(validation, css).expect("import");
    assert!(result.validation.safe);
    assert!(result
        .stored_relative_path
        .starts_with(".bentolifelayout/themes/calm-theme-"));
    assert!(result.stored_relative_path.ends_with(".css"));
    assert_eq!(result.bytes_copied, css.len());
}

#[test]
fn rejects_unsafe_css_and_executable_file_types() {
    let css_validation = ImportExportService::validate_theme_import(
        "/tmp/unsafe.css",
        Some("unsafe.css"),
        true,
        Ok("@import url('https://example.com/x.css');".to_string()),
    );
    let js_validation = ImportExportService::validate_theme_import(
        "/tmp/theme.js",
        Some("theme.js"),
        true,
        Ok("alert(1)".to_string()),
    );
    assert!(!css_validation.safe);
    assert!(!js_validation.safe);
    assert_eq!(
        js_validation.message,
        "Imported layouts must be .json files and imported themes must be .css files."
    );
    assert!(ImportExportService::import_theme_file(js_validation, "alert(1)").is_err());
}

#[test]
fn rejects_malformed_layout_json() {
    let validation = ImportExportService::validate_layout_import(
        "/tmp/bad-layout.json",
        Some("bad-layout.json"),
        true,
        Err("Invalid JSON at /tmp/bad-layout.json: missing field".to_string()),
    );
    assert!(!validation.safe);
    assert!(validation.normalized_name.is_none());
}

#[test]
fn import_names_are_sanitized() {
    assert_eq!(
        normalized_import_name(Some("  My Shared Layout!!.JSON"), "json").as_deref(),
        Ok("my-shared-layout.json")
    );
    assert_eq!(
        normalized_import_name(Some("***.json"), "json").err().as_deref(),
        Some("Import file name must include at least one ASCII letter or number.")
    );
    assert_eq!(
        normalized_import_name(None, "json").err().as_deref(),
        Some("Import source must have a valid file name.")
    );
    assert!(is_executable_or_unexpected_extension("EXE"));
    assert!(!is_executable_or_unexpected_extension("json"));
}

#[test]
fn missing_sources_and_extensions_are_refused() {
    let missing = ImportExportService::validate_theme_import(
        "/tmp/gone.css",
        Some("gone.css"),
        false,
        Err("unreadable".to_string()),
    );
    assert_eq!(missing.message, "Import source file was not found.");
    let no_ext =
        ImportExportService::validate_theme_import("/tmp/theme", Some("theme"), true, Ok(String::new()));
    assert_eq!(no_ext.message, "Imported files must include a file extension.");
}

#[test]
fn widget_layout_exports_must_be_json() {
    assert_eq!(
        ImportExportService::check_widget_layout_export(Some("dashboard-widgets-export.json"))
            .as_deref(),
        Ok("dashboard-widgets-export.json")
    );
    assert_eq!(
        ImportExportService::check_widget_layout_export(Some("export.txt"))
            .err()
            .as_deref(),
        Some("Dashboard widget layout exports must be .json files.")
    );
    let result = ImportExportService::export_result("/tmp/x.json", "x.json".to_string(), 12);
    assert_eq!(result.validation.kind, "widget_layout_export");
    assert!(result.validation.safe);
    let validation = ImportExportService::validate_widget_layout_import(
        "/tmp/x.json",
        Some("x.json"),
        true,
        Ok(()),
    );
    assert!(validation.safe);
}
