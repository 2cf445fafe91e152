use cratr::probe::parse_disk_space;
use cratr::storage::{disk_space_or_fallback, format_bytes, storage_summary, storage_total};

#[test]
fn format_bytes_units() {
    assert_eq!(format_bytes(0), "0 B");
    assert_eq!(format_bytes(1023), "1023 B");
    assert_eq!(format_bytes(1024), "1.0 KB");
    assert_eq!(format_bytes(1536), "1.5 KB");
    assert_eq!(format_bytes(1048576), "1.0 MB");
    assert_eq!(format_bytes(5 * 1073741824), "5.0 GB");
    assert_eq!(format_bytes(1099511627776), "1024.0 GB");
}

#[test]
fn format_bytes_rounding() {
    assert_eq!(format_bytes(1280), "1.2 KB");
    assert_eq!(format_bytes(1331), "1.3 KB");
    assert_eq!(format_bytes(1048575), "1024.0 KB");
    assert_eq!(format_bytes(u64::MAX), "17179869184.0 GB");
}

#[test]
fn totals_add_up_and_saturate() {
    assert_eq!(storage_total(&vec![1, 2, 3]), 6);
    assert_eq!(storage_total(&vec![]), 0);
    assert_eq!(storage_total(&vec![u64::MAX, 5]), u64::MAX);
}

#[test]
fn summary_figures() {
    let s = storage_summary(&vec![1024, 512], 100, 400);
    assert_eq!(s.used_bytes, 1536);
    assert_eq!(s.total_files, 2);
    assert_eq!(s.formatted_used, "1.5 KB");
    assert_eq!(s.max_size_mb, 1048576);
    assert_eq!(s.disk_used_bytes, 300);
    assert_eq!(s.formatted_disk_free, "100 B");
    assert_eq!(s.formatted_disk_total, "400 B");
    let odd = storage_summary(&vec![], 500, 400);
    assert_eq!(odd.disk_used_bytes, 0);
}

#[test]
fn df_report_is_read() {
    let out = "Filesystem     1K-blocks     Used Available Use% Mounted on\n/dev/sda1      102400000 51200000  40960000  56% /\n";
    assert_eq!(parse_disk_space(out), Some((40960000 * 1024, 102400000 * 1024)));
    let crlf = "head\r\nfs 10 2 +8 20% /\r\n";
    assert_eq!(parse_disk_space(crlf), Some((8 * 1024, 10 * 1024)));
}

#[test]
fn df_report_without_figures_is_refused() {
    assert_eq!(parse_disk_space(""), None);
    assert_eq!(parse_disk_space("only a header\n"), None);
    assert_eq!(parse_disk_space("h\nfs 10 2\n"), None);
    assert_eq!(parse_disk_space("h\nfs ten 2 8\n"), None);
    assert_eq!(parse_disk_space("h\nfs 10 2 -8\n"), None);
    assert_eq!(parse_disk_space("h\nfs 99999999999999999999 2 8\n"), None);
    assert_eq!(parse_disk_space("h\nfs 18014398509481984 2 8\n"), None);
}

#[test]
fn fallback_when_probe_fails() {
    assert_eq!(disk_space_or_fallback(None), (268435456000, 536870912000));
    assert_eq!(disk_space_or_fallback(Some((1, 2))), (1, 2));
}
