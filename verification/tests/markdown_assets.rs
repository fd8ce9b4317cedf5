use bentolife_core::markdown_assets::{
    asset_name_stem, extension_for_mime, mime_for_asset_path, relative_markdown_link,
    resolve_markdown_asset_source, safe_file_stem, MarkdownAssetService,
};

const NOTE_PATH: &str = "modules/notes/data/asset-note.md";
const DOC: &str = "bl_doc_0123456789abcdef";

fn saved_path() -> String {
    let (module_id, extension) =
        MarkdownAssetService::check_asset_save("notes", "image/png", 4).expect("checked");
    MarkdownAssetService::check_asset_document(&module_id, NOTE_PATH).expect("document");
    let stem = asset_name_stem(Some("Paste.PNG"));
    MarkdownAssetService::asset_candidate_path(
        &module_id,
        DOC,
        "unix:1700000000",
        "0011223344556677",
        &stem,
        extension,
        0,
    )
}

#[test]
fn saves_note_image_asset_with_relative_markdown_link() {
    let path = saved_path();
    assert_eq!(
        path,
        "assets/notes/bl_doc_0123456789abcdef/unix-1700000000-00112233-paste.png"
    );
    let asset = MarkdownAssetService::asset_record(
        "notes".to_string(),
        DOC,
        NOTE_PATH,
        path.clone(),
        "0011223344556677".to_string(),
        4,
        "image/png",
    );
    assert!(asset.vault_relative_path.starts_with("assets/notes/"));
    assert!(asset.markdown_link.starts_with("../../../assets/notes/"));
}

#[test]
fn rejects_unsafe_mime_types() {
    assert_eq!(
        MarkdownAssetService::check_asset_save("notes", "image/svg+xml", 11)
            .err()
            .as_deref(),
        Some("Only pasted PNG, JPEG, and WEBP images are supported.")
    );
    assert_eq!(
        MarkdownAssetService::check_asset_save("notes", "image/png", 0)
            .err()
            .as_deref(),
        Some("Pasted image was empty.")
    );
}

#[test]
fn reads_note_image_asset_from_relative_markdown_link() {
    let path = saved_path();
    let link = relative_markdown_link(NOTE_PATH, &path).expect("link");
    let (module_id, rel, mime) =
        MarkdownAssetService::check_asset_read("notes", DOC, NOTE_PATH, &link).expect("read");
    assert_eq!(rel, path);
    assert_eq!(mime, "image/png");
    let read = MarkdownAssetService::asset_read_result(module_id, DOC, rel, mime, vec![137, 80, 78, 71])
        .expect("bytes");
    assert_eq!(read.bytes, vec![137, 80, 78, 71]);
    assert_eq!(read.byte_len, 4);
}

#[test]
fn rejects_asset_reads_outside_document_asset_folder() {
    let result = MarkdownAssetService::check_asset_read(
        "notes",
        DOC,
        NOTE_PATH,
        "../../../assets/notes/other_doc/image.png",
    );
    assert_eq!(
        result.err().as_deref(),
        Some("Markdown asset source is outside the document folder or document asset folder.")
    );
}

#[test]
fn asset_sources_resolve_inside_the_vault() {
    assert_eq!(
        resolve_markdown_asset_source(NOTE_PATH, "../../../assets/notes/x/a.png").as_deref(),
        Ok("assets/notes/x/a.png")
    );
    assert_eq!(
        resolve_markdown_asset_source(NOTE_PATH, "https://example.com/a.png")
            .err()
            .as_deref(),
        Some("Markdown asset source must be a safe vault-relative image path.")
    );
    assert_eq!(
        resolve_markdown_asset_source("a.md", "../x.png").err().as_deref(),
        Some("Markdown asset source must not escape the vault.")
    );
    assert_eq!(
        resolve_markdown_asset_source("a.md", "images/x.png").err().as_deref(),
        Some("Markdown asset source must resolve under assets/.")
    );
    assert_eq!(extension_for_mime(" Image/JPG ").as_deref(), Ok("jpg"));
    assert_eq!(mime_for_asset_path("a/b.JPEG").as_deref(), Ok("image/jpeg"));
    assert_eq!(safe_file_stem("  My Photo (1) "), "my-photo-1");
}

#[test]
fn saves_pasted_image_to_first_free_asset_path() {
    let taken = Vec::new();
    let asset = bentolife_core::markdown_assets::MarkdownAssetService::save_markdown_asset(
        "notes",
        "bl_doc_a",
        Some("My Photo.PNG"),
        "image/png",
        &[1, 2, 3],
        "modules/notes/data/a.md",
        &taken,
    )
    .expect("saved");
    assert!(asset.vault_relative_path.starts_with("assets/notes/bl_doc_a/"));
    assert!(asset.vault_relative_path.ends_with("-my-photo.png"));
    assert!(asset.markdown_link.starts_with("../../../assets/notes/bl_doc_a/"));
    assert_eq!(asset.byte_len, 3);
    let taken = vec![asset.vault_relative_path.clone()];
    let again = bentolife_core::markdown_assets::MarkdownAssetService::save_markdown_asset(
        "notes", "bl_doc_a", Some("My Photo.PNG"), "image/png", &[1, 2, 3], "modules/notes/data/a.md", &taken,
    )
    .expect("saved");
    assert!(again.vault_relative_path != asset.vault_relative_path || again.vault_relative_path.ends_with("-1.png"));
    let wrong = bentolife_core::markdown_assets::MarkdownAssetService::save_markdown_asset(
        "todos", "bl_doc_a", None, "image/png", &[1], "modules/notes/data/a.md", &Vec::new(),
    );
    assert_eq!(wrong.err().unwrap(), "Markdown asset module does not match the target document.");
}
