use rust_net_sniffer::{classify_ethertype, decode_frame, format_mac, mac_to_string, PayloadKind};

fn sample_frame() -> Vec<u8> {
    vec![
        0xde, 0xf0, 0x12, 0x34, 0x45, 0x67, // destination
        0x12, 0x34, 0x56, 0x78, 0x9a, 0xbc, // source
        0x86, 0xdd, // ethertype
        0x01, 0x02, 0x03, // payload
    ]
}

#[test]
fn short_buffers_do_not_decode() {
    for len in 0..14 {
        let buf = vec![0xffu8; len];
        assert!(decode_frame(&buf).is_none(), "length {}", len);
    }
}

#[test]
fn header_only_frame_has_empty_payload() {
    let buf = vec![1u8, 2, 3, 4, 5, 6, 7, 8, 9, 10, 11, 12, 0x08, 0x06];
    let f = decode_frame(&buf).unwrap();
    assert_eq!(f.destination, [1, 2, 3, 4, 5, 6]);
    assert_eq!(f.source, [7, 8, 9, 10, 11, 12]);
    assert_eq!(f.ethertype, 0x0806);
    assert!(f.payload.is_empty());
    assert_eq!(f.total_len, 14);
}

#[test]
fn frame_fields_come_from_fixed_offsets() {
    let buf = sample_frame();
    let f = decode_frame(&buf).unwrap();
    assert_eq!(f.destination, [0xde, 0xf0, 0x12, 0x34, 0x45, 0x67]);
    assert_eq!(f.source, [0x12, 0x34, 0x56, 0x78, 0x9a, 0xbc]);
    assert_eq!(f.ethertype, 0x86dd);
    assert_eq!(f.payload, &[0x01, 0x02, 0x03][..]);
    assert_eq!(f.total_len, 17);
    assert_eq!(classify_ethertype(f.ethertype), PayloadKind::Ipv6);
}

#[test]
fn ethertype_classification() {
    assert_eq!(classify_ethertype(0x0800), PayloadKind::Ipv4);
    assert_eq!(classify_ethertype(0x86DD), PayloadKind::Ipv6);
    assert_eq!(classify_ethertype(0x0806), PayloadKind::Arp);
    assert_eq!(classify_ethertype(0x0842), PayloadKind::Unknown);
    assert_eq!(classify_ethertype(0x0000), PayloadKind::Unknown);
    assert_eq!(classify_ethertype(0xffff), PayloadKind::Unknown);
}

#[test]
fn format_mac_groups_pairs() {
    assert_eq!(format_mac("000c296810f2"), "00:0c:29:68:10:f2");
    assert_eq!(format_mac(""), "");
    assert_eq!(format_mac("ab"), "ab");
    assert_eq!(format_mac("abc"), "ab:c");
}

#[test]
fn format_mac_chunks_utf8_bytes() {
    assert_eq!(format_mac("a\u{e9}"), "");
    assert_eq!(format_mac("\u{e9}a"), "\u{e9}:a");
    assert_eq!(format_mac("\u{e9}\u{e9}ab"), "\u{e9}:\u{e9}:ab");
    assert_eq!(format_mac("ab\u{20ac}"), "");
    assert_eq!(format_mac("\u{e9}"), "\u{e9}");
}

#[test]
fn mac_rendering_is_lowercase_hex() {
    assert_eq!(mac_to_string(&[0x00, 0x0c, 0x29, 0x68, 0x10, 0xf2]), "00:0c:29:68:10:f2");
    assert_eq!(mac_to_string(&[0xDE, 0xAD, 0xBE, 0xEF, 0x00, 0x01]), "de:ad:be:ef:00:01");
    assert_eq!(mac_to_string(&[]), "");
}

#[test]
fn mac_text_round_trip() {
    let macs: [[u8; 6]; 3] = [
        [0x00, 0x0c, 0x29, 0x68, 0x10, 0xf2],
        [0xff, 0xff, 0xff, 0xff, 0xff, 0xff],
        [0x01, 0x23, 0x45, 0x67, 0x89, 0xab],
    ];
    for mac in macs.iter() {
        let text = mac_to_string(mac);
        let stripped: String = text.chars().filter(|c| *c != ':').collect();
        assert_eq!(hex::decode(stripped).unwrap(), mac.to_vec());
    }
}
