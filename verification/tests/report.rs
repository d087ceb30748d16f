use port_scanner::report::{format_list, format_seconds, utc_timestamp, ScanReport};

fn report(entries: &[&str], elapsed_nanos: u64) -> ScanReport {
    let ports = vec![0; entries.len()];
    let entries = entries.iter().map(|entry| entry.to_string()).collect();
    ScanReport::new(String::from("example.org"), ports, entries, elapsed_nanos)
}

#[test]
fn list_is_written_as_debug_does() {
    assert_eq!(format_list(&vec![]), "[]");
    assert_eq!(format_list(&vec![String::from("80 http")]), "[\"80 http\"]");
    assert_eq!(
        format_list(&vec![String::from("80 http"), String::from("8081 "), String::from("22 ssh")]),
        "[\"80 http\", \"8081 \", \"22 ssh\"]"
    );
}

#[test]
fn list_escapes_what_debug_escapes() {
    let items = vec![String::from("1 a\"b"), String::from("2 c\\d"), String::from("3 e\nf")];
    assert_eq!(format_list(&items), format!("{:?}", items));
    assert_eq!(format_list(&items), "[\"1 a\\\"b\", \"2 c\\\\d\", \"3 e\\nf\"]");
}

#[test]
fn seconds_are_written_exactly() {
    assert_eq!(format_seconds(0), "0");
    assert_eq!(format_seconds(1), "0.000000001");
    assert_eq!(format_seconds(500_000_000), "0.5");
    assert_eq!(format_seconds(1_000_000_000), "1");
    assert_eq!(format_seconds(1_500_000_000), "1.5");
    assert_eq!(format_seconds(12_000_000), "0.012");
    assert_eq!(format_seconds(2_123_456_789), "2.123456789");
    assert_eq!(format_seconds(10_010_000_000), "10.01");
    assert_eq!(format_seconds(999_999_999), "0.999999999");
    assert_eq!(format_seconds(u64::MAX), "18446744073.709551615");
}

#[test]
fn timestamp_of_the_epoch() {
    assert_eq!(utc_timestamp(0), Some(String::from("1970-01-01 00:00:00")));
    assert_eq!(utc_timestamp(1431648000), Some(String::from("2015-05-15 00:00:00")));
    assert_eq!(utc_timestamp(1700000000), Some(String::from("2023-11-14 22:13:20")));
    assert_eq!(utc_timestamp(-1), Some(String::from("1969-12-31 23:59:59")));
}

#[test]
fn timestamp_out_of_range() {
    assert_eq!(utc_timestamp(i64::MAX), None);
    assert_eq!(utc_timestamp(i64::MIN), None);
}

#[test]
fn report_keeps_what_it_was_given() {
    let made = ScanReport::new(
        String::from("example.org"),
        vec![443, 80],
        vec![String::from("443 https"), String::from("80 http")],
        42,
    );
    assert_eq!(made.hostname(), "example.org");
    assert_eq!(made.ports(), &vec![443, 80]);
    assert_eq!(made.open_ports(), &vec![String::from("443 https"), String::from("80 http")]);
    assert_eq!(made.elapsed_nanos(), 42);
}

#[test]
fn line_for_the_output_file() {
    let made = report(&["80 http", "8081 "], 0);
    assert_eq!(
        made.report_line("2024-01-02 03:04:05"),
        "[2024-01-02 03:04:05] <example.org> Open Ports: [\"80 http\", \"8081 \"]\n"
    );
    assert_eq!(report(&[], 0).report_line("t"), "[t] <example.org> Open Ports: []\n");
}

#[test]
fn line_stamped_with_a_time() {
    let made = report(&["22 ssh"], 0);
    assert_eq!(
        made.stamped_line(0),
        Some(String::from("[1970-01-01 00:00:00] <example.org> Open Ports: [\"22 ssh\"]\n"))
    );
    assert_eq!(made.stamped_line(i64::MAX), None);
}

#[test]
fn summary_on_the_console() {
    assert_eq!(
        report(&["80 http"], 1_250_000_000).summary(),
        "\nOpen Ports: [\"80 http\"] \nPort scanning has been completed in 1.25 second(s)!"
    );
    assert_eq!(
        report(&[], 3_000_000_000).summary(),
        "\nOpen Ports: [] \nPort scanning has been completed in 3 second(s)!"
    );
}
