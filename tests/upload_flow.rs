use cratr::upload::{success_message, UploadError, UploadLimits, UploadSession};

const TOKEN: &str = "00000000-0000-4000-8000-000000000000";

#[test]
fn eleventh_file_is_refused() {
    let limits = UploadLimits::standard();
    let mut s = UploadSession::new(limits);
    for i in 0..10 {
        let id = s.begin_part_with_token(&format!("f{}.txt", i), TOKEN).unwrap();
        assert_eq!(id, format!("{}_f{}.txt", TOKEN, i));
        s.add_chunk(5).unwrap();
        s.end_part();
    }
    assert_eq!(s.accepted.len(), 10);
    assert_eq!(s.begin_part("f10.txt"), Err(UploadError::TooManyFiles));
    assert_eq!(s.accepted.len(), 10);
    assert!(s.current.is_none());
    assert_eq!(UploadError::TooManyFiles.message(limits), "Maximum 10 files allowed");
}

#[test]
fn file_over_the_size_limit_is_dropped() {
    let limits = UploadLimits { max_file_size: 100, max_file_count: 10 };
    let mut s = UploadSession::new(limits);
    s.begin_part("big.bin").unwrap();
    assert_eq!(s.add_chunk(60), Ok(()));
    assert_eq!(s.add_chunk(41), Err(UploadError::FileTooLarge));
    assert!(s.current.is_none());
    assert!(s.accepted.is_empty());
}

#[test]
fn file_exactly_at_the_size_limit_is_kept() {
    let limits = UploadLimits { max_file_size: 100, max_file_count: 10 };
    let mut s = UploadSession::new(limits);
    s.begin_part_with_token("exact.txt", TOKEN).unwrap();
    assert_eq!(s.add_chunk(100), Ok(()));
    s.end_part();
    let files = s.finish().unwrap();
    assert_eq!(files.len(), 1);
    assert_eq!(files[0].name, "exact.txt");
    assert_eq!(files[0].path, format!("{}_exact.txt", TOKEN));
    assert_eq!(files[0].size, 100);
    assert_eq!(files[0].file_type, "text");
    assert!(files[0].can_preview);
}

#[test]
fn huge_chunk_does_not_overflow() {
    let limits = UploadLimits::standard();
    let mut s = UploadSession::new(limits);
    s.begin_part("a.bin").unwrap();
    s.add_chunk(10).unwrap();
    assert_eq!(s.add_chunk(u64::MAX), Err(UploadError::FileTooLarge));
}

#[test]
fn earlier_files_stay_when_a_later_one_fails() {
    let limits = UploadLimits { max_file_size: 10, max_file_count: 10 };
    let mut s = UploadSession::new(limits);
    s.begin_part("one.txt").unwrap();
    s.add_chunk(3).unwrap();
    s.end_part();
    s.begin_part("two.txt").unwrap();
    assert_eq!(s.add_chunk(11), Err(UploadError::FileTooLarge));
    assert_eq!(s.accepted.len(), 1);
    assert_eq!(s.accepted[0].name, "one.txt");
}

#[test]
fn request_without_files_fails() {
    let s = UploadSession::new(UploadLimits::standard());
    assert_eq!(s.finish().unwrap_err(), UploadError::NoFiles);
    assert_eq!(UploadError::NoFiles.message(UploadLimits::standard()), "No files were uploaded");
}

#[test]
fn upload_sanitizes_names() {
    let mut s = UploadSession::new(UploadLimits::standard());
    let id = s.begin_part_with_token("../secret/.env", TOKEN).unwrap();
    assert_eq!(id, format!("{}_secret.env", TOKEN));
    s.end_part();
    let files = s.finish().unwrap();
    assert_eq!(files[0].name, "secret.env");
    assert_eq!(files[0].size, 0);
    assert_eq!(files[0].file_type, "unknown");
}

#[test]
fn upload_messages() {
    let limits = UploadLimits::standard();
    assert_eq!(
        UploadError::FileTooLarge.message(limits),
        "File too large. Maximum size is 16384 MB"
    );
    assert_eq!(success_message(3), "Successfully uploaded 3 file(s)");
    assert_eq!(success_message(0), "Successfully uploaded 0 file(s)");
}
