use cratr::catalog::{catalog_listing, delete_response, listing_record, name_less_eq};
use cratr::preview::{preview_content, preview_gate, PreviewError, PREVIEW_LIMIT};

#[test]
fn listing_is_sorted_by_display_name() {
    let entries = vec![
        ("t3_zeta.txt".to_string(), 3u64),
        ("t1_alpha.png".to_string(), 1u64),
        ("t2_Beta.zip".to_string(), 2u64),
        ("noprefix".to_string(), 4u64),
    ];
    let files = catalog_listing(entries);
    let names: Vec<&str> = files.iter().map(|f| f.name.as_str()).collect();
    assert_eq!(names, vec!["Beta.zip", "alpha.png", "noprefix", "zeta.txt"]);
    assert_eq!(files[0].path, "t2_Beta.zip");
    assert_eq!(files[0].size, 2);
    assert_eq!(files[0].file_type, "archive");
    assert!(!files[0].can_preview);
    assert_eq!(files[1].file_type, "image");
}

#[test]
fn empty_listing() {
    assert!(catalog_listing(Vec::new()).is_empty());
}

#[test]
fn listing_record_fields() {
    let f = listing_record("abc_notes.md".to_string(), 42);
    assert_eq!(f.name, "notes.md");
    assert_eq!(f.path, "abc_notes.md");
    assert_eq!(f.size, 42);
    assert_eq!(f.file_type, "text");
    assert!(f.can_preview);
}

#[test]
fn name_order_is_by_code_point() {
    assert!(name_less_eq("a", "b"));
    assert!(name_less_eq("B", "a"));
    assert!(name_less_eq("ab", "abc"));
    assert!(!name_less_eq("abc", "ab"));
    assert!(name_less_eq("", ""));
    assert!(name_less_eq("same", "same"));
}

#[test]
fn delete_twice() {
    let first = delete_response(true);
    assert!(first.success);
    assert_eq!(first.message, "File deleted successfully");
    let second = delete_response(false);
    assert!(!second.success);
    assert_eq!(second.message, "File not found");
}

#[test]
fn archive_is_never_previewable() {
    assert_eq!(preview_gate("x_backup.zip"), Err(PreviewError::NotPreviewable));
    assert_eq!(preview_gate("x_photo.png"), Err(PreviewError::NotPreviewable));
    assert_eq!(preview_gate("x_report.pdf"), Err(PreviewError::NotPreviewable));
    assert_eq!(preview_gate("x_main.rs"), Ok("main.rs".to_string()));
    assert_eq!(preview_gate("x_notes.TXT"), Ok("notes.TXT".to_string()));
    assert_eq!(
        PreviewError::NotPreviewable.message(),
        "File cannot be previewed as text"
    );
    assert_eq!(PreviewError::ReadError.message(), "Failed to read file");
}

#[test]
fn long_text_preview_is_cut_at_ten_kib() {
    let content = "a".repeat(20000);
    let out = preview_content("big.txt", &content);
    let marker = "...\n\n[Content truncated - showing first 10KB of big.txt]";
    assert_eq!(PREVIEW_LIMIT, 10240);
    assert_eq!(out.len(), 10240 + marker.len());
    assert_eq!(&out[..10240], &content[..10240]);
    assert_eq!(&out[10240..], marker);
}

#[test]
fn short_text_preview_is_verbatim() {
    let content = "line\n".repeat(1000);
    assert_eq!(content.len(), 5000);
    assert_eq!(preview_content("small.txt", &content), content);
    let exact = "b".repeat(10240);
    assert_eq!(preview_content("exact.txt", &exact), exact);
}

#[test]
fn preview_cut_respects_character_boundaries() {
    let content = "€".repeat(5000);
    let out = preview_content("euro.txt", &content);
    let head = &out[..10239];
    assert_eq!(head, "€".repeat(3413));
    assert!(out[10239..].starts_with("...\n\n[Content truncated"));
}
