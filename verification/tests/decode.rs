use network_analyzer::decode::{packet_from_headers, parse_packet};
use network_analyzer::packet::Protocol;

fn ethernet(ethertype: [u8; 2], payload: &[u8]) -> Vec<u8> {
    let mut frame = vec![0x02, 0x00, 0x00, 0x00, 0x00, 0x01, 0x02, 0x00, 0x00, 0x00, 0x00, 0x02];
    frame.extend_from_slice(&ethertype);
    frame.extend_from_slice(payload);
    frame
}

fn ipv4(protocol: u8, src: [u8; 4], dst: [u8; 4], payload: &[u8]) -> Vec<u8> {
    let total_len = (20 + payload.len()) as u16;
    let mut h = vec![
        0x45,
        0x00,
        (total_len >> 8) as u8,
        (total_len & 0xff) as u8,
        0x00,
        0x00,
        0x00,
        0x00,
        0x40,
        protocol,
        0x00,
        0x00,
    ];
    h.extend_from_slice(&src);
    h.extend_from_slice(&dst);
    h.extend_from_slice(payload);
    h
}

fn udp(sport: u16, dport: u16) -> Vec<u8> {
    vec![
        (sport >> 8) as u8,
        (sport & 0xff) as u8,
        (dport >> 8) as u8,
        (dport & 0xff) as u8,
        0x00,
        0x08,
        0x00,
        0x00,
    ]
}

fn tcp(sport: u16, dport: u16) -> Vec<u8> {
    let mut h = vec![
        (sport >> 8) as u8,
        (sport & 0xff) as u8,
        (dport >> 8) as u8,
        (dport & 0xff) as u8,
    ];
    h.extend_from_slice(&[0, 0, 0, 0, 0, 0, 0, 0, 0x50, 0x00, 0x00, 0x10, 0x00, 0x00, 0x00, 0x00]);
    h
}

#[test]
fn udp_frame_parses_to_packet() {
    let frame = ethernet([0x08, 0x00], &ipv4(17, [1, 2, 3, 4], [5, 6, 7, 8], &udp(1000, 53)));
    let p = parse_packet(&frame, 100, frame.len() as u32).unwrap();
    assert_eq!(p.source_ip, "1.2.3.4");
    assert_eq!(p.destination_ip, "5.6.7.8");
    assert_eq!(p.source_port, Some(1000));
    assert_eq!(p.destination_port, Some(53));
    assert_eq!(p.protocol, Protocol::Udp);
    assert_eq!(p.size, frame.len() as u64);
    assert_eq!(p.timestamp, 100);
}

#[test]
fn tcp_frame_parses_to_packet() {
    let frame = ethernet(
        [0x08, 0x00],
        &ipv4(6, [192, 168, 1, 1], [10, 0, 0, 7], &tcp(8080, 80)),
    );
    let p = parse_packet(&frame, 7, frame.len() as u32).unwrap();
    assert_eq!(p.source_ip, "192.168.1.1");
    assert_eq!(p.destination_ip, "10.0.0.7");
    assert_eq!(p.source_port, Some(8080));
    assert_eq!(p.destination_port, Some(80));
    assert_eq!(p.protocol, Protocol::Tcp);
}

#[test]
fn icmp_frame_is_dropped() {
    let icmp_echo = [8u8, 0, 0, 0, 0, 0, 0, 0];
    let frame = ethernet([0x08, 0x00], &ipv4(1, [1, 1, 1, 1], [2, 2, 2, 2], &icmp_echo));
    assert!(parse_packet(&frame, 0, frame.len() as u32).is_none());
}

#[test]
fn undecodable_frame_is_dropped() {
    assert!(parse_packet(&[], 0, 0).is_none());
    assert!(parse_packet(&[0x01, 0x02, 0x03], 0, 3).is_none());
}

#[test]
fn headers_without_transport_make_no_packet() {
    let ips = Some((vec![1, 2, 3, 4], vec![5, 6, 7, 8]));
    assert!(packet_from_headers(ips, None, 0, 10).is_none());
}

#[test]
fn headers_without_ip_make_no_packet() {
    assert!(packet_from_headers(None, Some((true, 1, 2)), 0, 10).is_none());
}

#[test]
fn headers_build_the_exact_packet() {
    let ips = Some((vec![10, 0, 0, 1], vec![10, 0, 0, 2]));
    let p = packet_from_headers(ips, Some((false, 443, 50000)), 55, 1500).unwrap();
    assert_eq!(p.source_ip, "10.0.0.1");
    assert_eq!(p.destination_ip, "10.0.0.2");
    assert_eq!(p.source_port, Some(443));
    assert_eq!(p.destination_port, Some(50000));
    assert_eq!(p.protocol, Protocol::Tcp);
    assert_eq!(p.timestamp, 55);
    assert_eq!(p.size, 1500);
}

#[test]
fn sixteen_byte_addresses_render_dotted_too() {
    let src: Vec<u8> = vec![0, 0, 0, 0, 0, 0, 0, 0, 0, 0, 0, 0, 0, 0, 0, 1];
    let dst: Vec<u8> = vec![32, 1, 13, 184, 0, 0, 0, 0, 0, 0, 0, 0, 0, 0, 0, 2];
    let p = packet_from_headers(Some((src, dst)), Some((true, 546, 547)), 3, 90).unwrap();
    assert_eq!(p.source_ip, "0.0.0.0.0.0.0.0.0.0.0.0.0.0.0.1");
    assert_eq!(p.destination_ip, "32.1.13.184.0.0.0.0.0.0.0.0.0.0.0.2");
    assert_eq!(p.protocol, Protocol::Udp);
}
