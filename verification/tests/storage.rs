use std::hash::{Hash, Hasher};
use bentolife_core::storage::hex_padded_exec;
use bentolife_core::storage::{
    content_hash, content_hash_bytes, current_timestamp_label, ensure_vault_relative_path,
    resolve_vault_relative_path,
};

#[test]
fn rejects_absolute_or_parent_relative_metadata_paths() {
    assert!(ensure_vault_relative_path("notes/daily.md").is_ok());
    assert!(ensure_vault_relative_path("../daily.md").is_err());
    assert!(ensure_vault_relative_path("C:/Users/Bento/file.md").is_err());
}

#[test]
fn hashes_labels_and_joins() {
    let h = content_hash("abc");
    assert_eq!(h.len(), 16);
    assert!(h.chars().all(|c| c.is_ascii_hexdigit() && !c.is_ascii_uppercase()));
    assert_eq!(h, content_hash("abc"));
    assert_ne!(h, content_hash("abd"));
    assert_eq!(content_hash_bytes(b"abc").len(), 16);
    let label = current_timestamp_label();
    assert!(label.starts_with("unix:"));
    assert!(label[5..].chars().all(|c| c.is_ascii_digit()));
    assert_eq!(resolve_vault_relative_path("/v", "a/b.md").unwrap(), "/v/a/b.md");
    assert_eq!(resolve_vault_relative_path("/v/", "a.md").unwrap(), "/v/a.md");
    assert_eq!(
        resolve_vault_relative_path("/v", "/etc/passwd").unwrap_err(),
        "Vault metadata paths must be vault-relative."
    );
}

#[test]
fn document_ids_use_required_prefix() {
    assert!(bentolife_core::storage::generate_document_id("notes/daily.md", 7).starts_with("bl_doc_"));
}

#[test]
fn content_hash_is_a_function_of_the_text() {
    let a = content_hash("# Test\n");
    assert_eq!(a, content_hash("# Test\n"));
    assert_ne!(a, content_hash("# Other\n"));
    assert_eq!(a.len(), 16);
    assert_eq!(hex_padded_exec(255, 4).into_iter().collect::<String>(), "00ff");
    let m = bentolife_core::document_metadata::DocumentMetadataService::create_default(
        "bl_doc_test",
        "notes/test.md",
        "# Test\n",
    )
    .expect("metadata");
    assert_eq!(m.content_hash, a);
}

#[test]
fn byte_hashes_match_the_slice_hash_and_depend_on_the_bytes() {
    let bytes: &[u8] = b"\x89PNG bytes";
    let mut hasher = std::collections::hash_map::DefaultHasher::new();
    bytes.hash(&mut hasher);
    assert_eq!(content_hash_bytes(bytes), format!("{:016x}", hasher.finish()));
    assert_eq!(content_hash_bytes(b"abc"), content_hash_bytes(b"abc"));
    assert_ne!(content_hash_bytes(b"abc"), content_hash_bytes(b"abd"));
    assert_eq!(bentolife_core::storage::document_id_for_digest(255), "bl_doc_00000000000000ff");
    assert!(bentolife_core::storage::generate_document_id("notes/a.md", 7).starts_with("bl_doc_"));
}
