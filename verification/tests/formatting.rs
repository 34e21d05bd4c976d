use autonomous_orchestrator::format_bytes;
use autonomous_orchestrator::format_duration;

#[test]
fn test_format_duration() {
    assert_eq!(format_duration(0), "0s");
    assert_eq!(format_duration(59), "59s");
    assert_eq!(format_duration(60), "1m 0s");
    assert_eq!(format_duration(3661), "1h 1m");
    assert_eq!(format_duration(86400), "1d 0h 0m");
}

#[test]
fn test_format_bytes() {
    assert_eq!(format_bytes(0), "0.00 B");
    assert_eq!(format_bytes(1024), "1.00 KB");
    assert_eq!(format_bytes(1048576), "1.00 MB");
}

#[test]
fn test_format_duration_negative_seconds() {
    assert_eq!(format_duration(-5), "-5s");
    assert_eq!(format_duration(-61), "-1s");
    assert_eq!(format_duration(-60), "0s");
}

#[test]
fn test_format_bytes_partial_units() {
    assert_eq!(format_bytes(1536), "1.50 KB");
    assert_eq!(format_bytes(1023), "1023.00 B");
    assert_eq!(format_bytes(1099511627776), "1.00 TB");
}
