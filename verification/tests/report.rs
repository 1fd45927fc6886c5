use network_analyzer::flow_table::FlowRecord;
use network_analyzer::packet::{FlowKey, Protocol};
use network_analyzer::report::{report_path, write_report};

const RULE: &str = "------------------------------------------------------------------------------------------------------------------------------\n";
const TITLES: &str = "| Src IP address   | Dst IP address   | Src port| Dst port| Proto| Bytes      | Initial timestamp    | Final timestamp      |\n";

fn key(
    src: &str,
    dst: &str,
    sport: Option<u16>,
    dport: Option<u16>,
    proto: Protocol,
) -> FlowKey {
    FlowKey {
        source_ip: src.to_string(),
        destination_ip: dst.to_string(),
        source_port: sport,
        destination_port: dport,
        protocol: proto,
    }
}

#[test]
fn empty_snapshot_renders_banner_only() {
    let snap: Vec<(FlowKey, FlowRecord)> = Vec::new();
    let text = write_report(&snap);
    assert_eq!(text, format!("{}{}{}", RULE, TITLES, RULE));
}

#[test]
fn one_row_renders_exactly() {
    let snap = vec![(
        key("1.2.3.4", "5.6.7.8", Some(1000), Some(53), Protocol::Udp),
        FlowRecord { total_bytes: 120, first_seen: 0, last_seen: 1_600_000_000 },
    )];
    let text = write_report(&snap);
    let expected_row = format!(
        "| {:<18}| {:<18}| {:<8}| {:<8}| {:<6}| {:<12}| {:<22}| {:<22}|\n",
        "1.2.3.4",
        "5.6.7.8",
        "1000",
        "53",
        "Udp",
        "120",
        "1970-01-01 00:00:00",
        "2020-09-13 12:26:40",
    );
    assert_eq!(text, format!("{}{}{}{}", RULE, TITLES, RULE, expected_row));
}

#[test]
fn absent_port_renders_as_dash() {
    let snap = vec![(
        key("9.9.9.9", "8.8.8.8", None, Some(443), Protocol::Tcp),
        FlowRecord { total_bytes: 7, first_seen: 1, last_seen: 1 },
    )];
    let text = write_report(&snap);
    let expected_row = format!(
        "| {:<18}| {:<18}| {:<8}| {:<8}| {:<6}| {:<12}| {:<22}| {:<22}|\n",
        "9.9.9.9",
        "8.8.8.8",
        "-",
        "443",
        "Tcp",
        "7",
        "1970-01-01 00:00:01",
        "1970-01-01 00:00:01",
    );
    assert_eq!(text, format!("{}{}{}{}", RULE, TITLES, RULE, expected_row));
}

#[test]
fn rows_keep_snapshot_order() {
    let snap = vec![
        (
            key("1.1.1.1", "2.2.2.2", Some(1), Some(2), Protocol::Udp),
            FlowRecord { total_bytes: 1, first_seen: 0, last_seen: 0 },
        ),
        (
            key("3.3.3.3", "4.4.4.4", Some(3), Some(4), Protocol::Tcp),
            FlowRecord { total_bytes: 2, first_seen: 0, last_seen: 0 },
        ),
    ];
    let text = write_report(&snap);
    let first = text.find("1.1.1.1").unwrap();
    let second = text.find("3.3.3.3").unwrap();
    assert!(first < second);
}

#[test]
fn wide_counter_is_rendered_in_full() {
    let snap = vec![(
        key("1.1.1.1", "2.2.2.2", Some(65535), Some(65535), Protocol::Udp),
        FlowRecord { total_bytes: 18_446_744_073_709_551_615, first_seen: 0, last_seen: 0 },
    )];
    let text = write_report(&snap);
    assert!(text.contains("18446744073709551615"));
    assert!(text.contains("| 65535   | 65535   "));
}

#[test]
fn report_path_is_derived_from_name() {
    assert_eq!(report_path("capture_1"), "report/capture_1.txt");
    assert_eq!(report_path(""), "report/.txt");
}
