pub mod text;
pub mod paths;
pub mod security;
pub mod import_policy;
pub mod import_export;
pub mod storage;
pub mod theme;
pub mod markdown_document;
pub mod layout_metadata;
pub mod document_identity;
pub mod document_metadata;
pub mod keyed;
pub mod workspace_metadata;
pub mod workspace_scanner;
pub mod markdown_parser;
pub mod ordered;
pub mod layout_folder;
pub mod dashboard;
pub mod vault;
pub mod markdown_assets;
pub mod habits;
pub mod record_text;
pub mod records;
pub mod contacts;
pub mod module_schema;
pub mod module_registry;
pub mod dashboard_widgets;
pub mod recovery;
pub mod record_files;
pub mod notes;
pub mod todo;
pub mod graph;
