use network_guardian::models::IpAddress;
use network_guardian::packet_capture::{
    parse_packet, parse_packet_at, parse_ports_ipv4, parse_ports_ipv6, pick_device, CaptureError,
    CaptureLoop, ParseError, Protocol,
};

fn ipv4_header(protocol: u8, len: usize) -> Vec<u8> {
    let mut data = vec![0u8; len];
    data[0] = 0x45;
    data[9] = protocol;
    data[12..16].copy_from_slice(&[192, 168, 1, 10]);
    data[16..20].copy_from_slice(&[8, 8, 4, 4]);
    data
}

fn ipv6_header(next_header: u8, len: usize) -> Vec<u8> {
    let mut data = vec![0u8; len];
    data[0] = 0x60;
    data[6] = next_header;
    data[8] = 0xfe;
    data[9] = 0x80;
    data[23] = 1;
    data[24] = 0x20;
    data[25] = 0x01;
    data[39] = 2;
    data
}

#[test]
fn every_buffer_under_twenty_bytes_is_too_short() {
    for len in 0..20 {
        let mut data = vec![0x45u8; len];
        if len > 0 {
            data[0] = 0x45;
        }
        assert_eq!(parse_packet(&data), Err(ParseError::TooShort));
        assert_eq!(parse_packet_at(&data, 5), Err(ParseError::TooShort));
    }
}

#[test]
fn twenty_byte_ipv4_addresses_are_the_fixed_bytes() {
    let data = ipv4_header(6, 20);
    let p = parse_packet_at(&data, 42).unwrap();
    assert_eq!(p.src_ip, Some(IpAddress::v4(192, 168, 1, 10)));
    assert_eq!(p.dst_ip, Some(IpAddress::v4(8, 8, 4, 4)));
    assert_eq!(p.src_port, None);
    assert_eq!(p.dst_port, None);
    assert_eq!(p.protocol, Protocol::Tcp);
    assert_eq!(p.length, 20);
    assert_eq!(p.timestamp, 42);
}

#[test]
fn tcp_and_udp_ports_are_big_endian() {
    for proto in [6u8, 17u8] {
        let mut data = ipv4_header(proto, 24);
        data[20..24].copy_from_slice(&[0xd4, 0x31, 0x00, 0x35]);
        let p = parse_packet_at(&data, 0).unwrap();
        assert_eq!(p.src_port, Some(54321));
        assert_eq!(p.dst_port, Some(53));
    }
    let p = parse_packet_at(&ipv4_header(17, 24), 0).unwrap();
    assert_eq!(p.protocol, Protocol::Udp);
}

#[test]
fn ports_absent_for_short_buffers_and_other_protocols() {
    let p = parse_packet_at(&ipv4_header(6, 23), 0).unwrap();
    assert_eq!((p.src_port, p.dst_port), (None, None));
    let mut icmp = ipv4_header(1, 28);
    icmp[20..24].copy_from_slice(&[1, 2, 3, 4]);
    let p = parse_packet_at(&icmp, 0).unwrap();
    assert_eq!((p.src_port, p.dst_port), (None, None));
    assert_eq!(p.protocol, Protocol::Icmp);
    assert_eq!(parse_ports_ipv4(6, &ipv4_header(6, 23)), (Protocol::Tcp, None, None));
}

#[test]
fn unknown_protocol_degrades_to_other() {
    let p = parse_packet_at(&ipv4_header(47, 40), 0).unwrap();
    assert_eq!(p.protocol, Protocol::Other(47));
    assert_eq!(p.protocol.label(), "OTHER(47)");
    assert_eq!(Protocol::Icmpv6.label(), "ICMPv6");
    assert_eq!(Protocol::Tcp.label(), "TCP");
}

#[test]
fn ipv6_needs_forty_bytes() {
    let full = ipv6_header(6, 40);
    assert_eq!(parse_packet_at(&full[..39], 0), Err(ParseError::TooShort));
    let p = parse_packet_at(&ipv6_header(58, 40), 0).unwrap();
    assert_eq!(p.src_ip, Some(IpAddress::V6(0xfe80_0000_0000_0000_0000_0000_0000_0001)));
    assert_eq!(p.dst_ip, Some(IpAddress::V6(0x2001_0000_0000_0000_0000_0000_0000_0002)));
    assert_eq!(p.protocol, Protocol::Icmpv6);
    assert_eq!((p.src_port, p.dst_port), (None, None));
}

#[test]
fn ipv6_ports_need_forty_eight_bytes() {
    let mut data = ipv6_header(17, 48);
    data[40..44].copy_from_slice(&[0x01, 0xbb, 0xc0, 0x00]);
    let p = parse_packet_at(&data, 0).unwrap();
    assert_eq!((p.src_port, p.dst_port), (Some(443), Some(49152)));
    let short = &data[..47];
    assert_eq!(parse_ports_ipv6(17, short), (Protocol::Udp, None, None));
    assert_eq!(parse_ports_ipv6(1, &data), (Protocol::Other(1), None, None));
}

#[test]
fn parse_with_clock_matches_parse_at_its_timestamp() {
    let data = ipv4_header(17, 24);
    let p = parse_packet(&data).unwrap();
    assert!(p.timestamp > 0);
    assert_eq!(Ok(p), parse_packet_at(&data, p.timestamp));
}

#[test]
fn other_versions_are_unsupported() {
    let mut data = ipv4_header(6, 40);
    data[0] = 0x55;
    assert_eq!(parse_packet(&data), Err(ParseError::UnsupportedVersion));
    data[0] = 0x00;
    assert_eq!(parse_packet_at(&data, 0), Err(ParseError::UnsupportedVersion));
}

#[test]
fn packet_summaries() {
    let mut data = ipv4_header(6, 24);
    data[20..24].copy_from_slice(&[0xd4, 0x31, 0x01, 0xbb]);
    let p = parse_packet_at(&data, 0).unwrap();
    assert_eq!(p.summary(), "192.168.1.10:54321 -> 8.8.4.4:443");
    let q = parse_packet_at(&ipv4_header(1, 20), 0).unwrap();
    assert_eq!(q.summary(), "192.168.1.10 -> 8.8.4.4 (ICMP)");
}

#[test]
fn device_preference_order() {
    let descs = vec![
        Some("Monitor mode adapter".to_string()),
        None,
        Some("Intel(R) Wireless-AC 9560".to_string()),
    ];
    assert_eq!(pick_device(&descs), Some(2));
    let descs = vec![Some("Monitor adapter".to_string()), Some("Ethernet".to_string())];
    assert_eq!(pick_device(&descs), Some(1));
    let descs = vec![Some("Monitor a".to_string()), Some("Monitor b".to_string())];
    assert_eq!(pick_device(&descs), Some(0));
    assert_eq!(pick_device(&vec![Some("Monitor".to_string()), None]), Some(1));
    assert_eq!(pick_device(&Vec::new()), None);
}

#[test]
fn capture_loop_counts_frames_and_timeouts() {
    let mut state = CaptureLoop::new();
    for _ in 0..9 {
        assert!(!state.on_timeout());
    }
    assert!(state.on_timeout());
    assert_eq!(state.timeouts, 10);
    let frame = ipv4_header(17, 20);
    let out = state.on_frame(&frame, 3);
    assert_eq!(state.timeouts, 0);
    assert_eq!(state.packet_count, 1);
    assert!(!out.pause);
    assert_eq!(out.packet, parse_packet_at(&frame, 3).ok());
    let junk = [0u8; 4];
    for _ in 1..99 {
        state.on_frame(&junk, 0);
    }
    let out = state.on_frame(&junk, 0);
    assert_eq!(state.packet_count, 100);
    assert!(out.pause);
    assert_eq!(out.packet, None);
}

#[test]
fn only_timeouts_are_benign() {
    assert!(!CaptureError::Timeout.is_fatal());
    assert!(CaptureError::DeviceUnavailable.is_fatal());
    assert!(CaptureError::PermissionDenied.is_fatal());
    assert!(CaptureError::Io.is_fatal());
}
