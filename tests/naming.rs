use cratr::classify::{classify, get_file_type_and_preview, Category};
use cratr::namer::{display_name_of, make_storage_id, new_storage_id, sanitize_filename};

#[test]
fn sanitize_strips_separators_and_leading_dots() {
    assert_eq!(sanitize_filename("../../etc/passwd"), "etcpasswd");
    assert_eq!(sanitize_filename("..\\..\\boot.ini"), "boot.ini");
    assert_eq!(sanitize_filename(".hidden"), "hidden");
    assert_eq!(sanitize_filename("..."), "");
    assert_eq!(sanitize_filename("my report (final).pdf"), "myreportfinal.pdf");
}

#[test]
fn sanitize_keeps_allowed_characters() {
    assert_eq!(sanitize_filename("a-b_c.d"), "a-b_c.d");
    assert_eq!(sanitize_filename("café.txt"), "café.txt");
    assert_eq!(sanitize_filename("x..y"), "x..y");
}

#[test]
fn sanitize_output_has_no_separator_or_leading_dot() {
    for raw in ["/a/b", "\\\\server\\share", "./.x", "..//..", "a/.b", "/.../c"] {
        let s = sanitize_filename(raw);
        assert!(!s.contains('/'));
        assert!(!s.contains('\\'));
        assert!(!s.starts_with('.'));
    }
}

#[test]
fn storage_id_joins_token_and_name() {
    assert_eq!(make_storage_id("tok", "a.txt"), "tok_a.txt");
    assert_eq!(make_storage_id("tok", ""), "tok_");
}

#[test]
fn new_storage_ids_round_trip_and_differ() {
    let a = new_storage_id("notes.txt");
    let b = new_storage_id("notes.txt");
    assert_ne!(a, b);
    assert_eq!(a.len(), 36 + 1 + "notes.txt".len());
    assert_eq!(display_name_of(&a), "notes.txt");
    assert_eq!(display_name_of(&b), "notes.txt");
    let token = &a[..36];
    assert!(token.chars().all(|c| c.is_ascii_hexdigit() && !c.is_ascii_uppercase() || c == '-'));
}

#[test]
fn display_name_splits_at_first_underscore() {
    assert_eq!(display_name_of("abc_def_g.txt"), "def_g.txt");
    assert_eq!(display_name_of("plain.txt"), "plain.txt");
    assert_eq!(display_name_of("abc_"), "");
}

#[test]
fn display_name_of_sanitized_name_with_underscore() {
    let safe = sanitize_filename("my_file.rs");
    let id = make_storage_id("0123abcd-0000-4000-8000-0123456789ab", &safe);
    assert_eq!(display_name_of(&id), "my_file.rs");
}

#[test]
fn classify_table_rows() {
    assert_eq!(classify("a.jpg"), Category::Image);
    assert_eq!(classify("a.ico"), Category::Image);
    assert_eq!(classify("a.mkv"), Category::Video);
    assert_eq!(classify("a.flac"), Category::Audio);
    assert_eq!(classify("a.yaml"), Category::Text);
    assert_eq!(classify("a.bash"), Category::Code);
    assert_eq!(classify("a.c"), Category::Code);
    assert_eq!(classify("a.pdf"), Category::Pdf);
    assert_eq!(classify("a.7z"), Category::Archive);
    assert_eq!(classify("a.pptx"), Category::Document);
    assert_eq!(classify("a.exe"), Category::Unknown);
}

#[test]
fn classify_without_extension_is_unknown() {
    assert_eq!(classify("README"), Category::Unknown);
    assert_eq!(classify("trailing."), Category::Unknown);
    assert_eq!(classify(""), Category::Unknown);
}

#[test]
fn classify_uses_last_extension() {
    assert_eq!(classify("backup.tar.gz"), Category::Archive);
    assert_eq!(classify("notes.txt.zip"), Category::Archive);
}

#[test]
fn classify_ignores_case() {
    assert_eq!(classify("report.PDF"), classify("report.pdf"));
    assert_eq!(classify("Photo.JpEg"), Category::Image);
}

#[test]
fn file_type_and_preview_flags() {
    assert_eq!(get_file_type_and_preview("a.png"), ("image".to_string(), true));
    assert_eq!(get_file_type_and_preview("a.md"), ("text".to_string(), true));
    assert_eq!(get_file_type_and_preview("a.pdf"), ("pdf".to_string(), true));
    assert_eq!(get_file_type_and_preview("a.zip"), ("archive".to_string(), false));
    assert_eq!(get_file_type_and_preview("a.docx"), ("document".to_string(), false));
    assert_eq!(get_file_type_and_preview("a"), ("unknown".to_string(), false));
}
