use rorserver::net::{
    decode_header, encode_packet, parse_user_info, build_user_info, Header, MessageType,
    ServerInfo, WireError, HEADER_BYTES, SERVER_INFO_BYTES, USER_INFO_BYTES,
};
use rorserver::Config;

fn default_config() -> Config {
    Config::default()
}

#[test]
fn short_datagrams_are_malformed_headers() {
    for n in 0..16 {
        let data = vec![0u8; n];
        let r = decode_header(&data);
        assert!(matches!(r, Err(WireError::MalformedHeader)));
    }
}

#[test]
fn unknown_tag_is_malformed_header() {
    // tag 9999 is not an enumerated command
    let mut data = 9999u32.to_le_bytes().to_vec();
    data.extend_from_slice(&[0u8; 12]);
    assert!(matches!(decode_header(&data), Err(WireError::MalformedHeader)));
    // one past the last enumerated value
    let mut data = 1036u32.to_le_bytes().to_vec();
    data.extend_from_slice(&[0u8; 12]);
    assert!(matches!(decode_header(&data), Err(WireError::MalformedHeader)));
}

#[test]
fn header_round_trips_through_encode_and_decode() {
    let cases = [
        Header { command: MessageType::Hello, source: -1, streamid: 0, size: 0 },
        Header { command: MessageType::UserInfo, source: 12345, streamid: 77, size: 359 },
        Header { command: MessageType::NetQuality, source: i32::MIN, streamid: u32::MAX, size: i32::MAX },
        Header { command: MessageType::WrongVer, source: i32::MAX, streamid: 1, size: i32::MIN },
    ];
    for h in cases {
        let bytes = h.encode();
        assert_eq!(bytes.len(), HEADER_BYTES);
        let (back, payload) = decode_header(&bytes).expect("a valid header must decode");
        assert_eq!(back, h);
        assert!(payload.is_empty());
    }
}

#[test]
fn header_wire_layout_is_little_endian() {
    let h = Header { command: MessageType::Hello, source: -1, streamid: 2, size: 3 };
    let bytes = h.encode();
    assert_eq!(
        bytes,
        vec![
            0x01, 0x04, 0x00, 0x00, // 1025
            0xff, 0xff, 0xff, 0xff, // -1
            0x02, 0x00, 0x00, 0x00, // 2
            0x03, 0x00, 0x00, 0x00, // 3
        ]
    );
}

#[test]
fn message_type_tags_are_wire_stable() {
    let pairs = [
        (MessageType::Hello, 1025),
        (MessageType::Full, 1026),
        (MessageType::WrongPw, 1027),
        (MessageType::WrongVer, 1028),
        (MessageType::Banned, 1029),
        (MessageType::Welcome, 1030),
        (MessageType::Version, 1031),
        (MessageType::ServerSettings, 1032),
        (MessageType::UserInfo, 1033),
        (MessageType::MasterInfo, 1034),
        (MessageType::NetQuality, 1035),
    ];
    for (m, t) in pairs {
        assert_eq!(m.tag(), t);
        assert_eq!(MessageType::from_tag(t), Some(m));
    }
    assert_eq!(MessageType::from_tag(1024), None);
    assert_eq!(MessageType::from_tag(1036), None);
    assert_eq!(MessageType::from_tag(0), None);
}

#[test]
fn encode_packet_prepends_header_and_caps_payload() {
    let payload = vec![0xaau8; 100];
    let pkt = encode_packet(MessageType::Welcome, -1, 9, &payload).expect("within the cap");
    assert_eq!(pkt.len(), 16 + 100);
    let (h, rest) = decode_header(&pkt).unwrap();
    assert_eq!(h.command, MessageType::Welcome);
    assert_eq!(h.source, -1);
    assert_eq!(h.streamid, 9);
    assert_eq!(h.size, 100);
    assert_eq!(rest, &payload[..]);

    let at_cap = vec![0u8; 8192];
    assert!(encode_packet(MessageType::Hello, 0, 0, &at_cap).is_ok());
    let over_cap = vec![0u8; 8193];
    assert!(matches!(
        encode_packet(MessageType::Hello, 0, 0, &over_cap),
        Err(WireError::PayloadTooLarge)
    ));
}

#[test]
fn server_info_truncates_long_strings_to_field_width() {
    let mut conf = default_config();
    conf.s_terrain_name = "t".repeat(500);
    conf.s_server_name = "n".repeat(129);
    let s = ServerInfo::build(&conf);
    assert_eq!(s.terrain.len(), 128);
    assert_eq!(s.terrain, vec![b't'; 128]);
    assert_eq!(s.server_name.len(), 128);
    assert_eq!(s.server_name, vec![b'n'; 128]);
    // adjacent fields keep their own width and content
    assert_eq!(s.protocol_version.len(), 20);
    assert_eq!(&s.protocol_version[..11], b"RoRnet_2.44");
    assert_eq!(&s.protocol_version[11..], &[0u8; 9][..]);
    assert_eq!(s.info.len(), 4096);
}

#[test]
fn server_info_packet_layout() {
    let conf = default_config();
    let bytes = ServerInfo::build_packet(&conf);
    assert_eq!(bytes.len(), SERVER_INFO_BYTES);
    // protocol version at offset 0, zero-padded to 20
    assert_eq!(&bytes[..11], b"RoRnet_2.44");
    assert_eq!(&bytes[11..20], &[0u8; 9][..]);
    // terrain at offset 20
    assert_eq!(&bytes[20..23], b"any");
    assert_eq!(bytes[23], 0);
    // server name at offset 148
    assert_eq!(&bytes[148..164], b"rust server test");
    // password flag at offset 276: the default config has a password
    assert_eq!(bytes[276], 1);
    // info block is all zeros
    assert!(bytes[277..].iter().all(|b| *b == 0));
}

#[test]
fn server_info_password_flag_follows_config() {
    let mut conf = default_config();
    conf.s_public_password = String::new();
    let s = ServerInfo::build(&conf);
    assert_eq!(s.has_password, 0);
    conf.s_public_password = "secret".to_string();
    let s = ServerInfo::build(&conf);
    assert_eq!(s.has_password, 1);
}

#[test]
fn user_info_round_trips_and_truncates() {
    let u = build_user_info(
        7,
        -1,
        3,
        4,
        &"u".repeat(60), // longer than the 40-byte field
        "token",
        "pw",
        "en",
        "client",
        "2022.04",
        "guid",
        "normal",
        "opts",
    );
    assert_eq!(u.username.len(), 40);
    assert_eq!(u.username, vec![b'u'; 40]);
    assert_eq!(&u.usertoken[..5], b"token");
    assert_eq!(&u.usertoken[5..], &[0u8; 35][..]);
    let bytes = u.encode();
    assert_eq!(bytes.len(), USER_INFO_BYTES);
    let back = parse_user_info(&bytes).expect("a well-formed payload must parse");
    assert_eq!(back.uniqueid, 7);
    assert_eq!(back.authstatus, -1);
    assert_eq!(back.slotnum, 3);
    assert_eq!(back.colournum, 4);
    assert_eq!(back.username, u.username);
    assert_eq!(back.sessionoptions, u.sessionoptions);
}

#[test]
fn user_info_wrong_length_is_malformed_payload() {
    assert!(matches!(parse_user_info(&[]), Err(WireError::MalformedPayload)));
    assert!(matches!(parse_user_info(&vec![0u8; 358]), Err(WireError::MalformedPayload)));
    assert!(matches!(parse_user_info(&vec![0u8; 360]), Err(WireError::MalformedPayload)));
    assert!(parse_user_info(&vec![0u8; 359]).is_ok());
}
