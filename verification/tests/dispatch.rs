use rorserver::listener::{ClientState, ClientTable, DispatchAction, PeerAddr};
use rorserver::net::{build_user_info, encode_packet, MessageType, SERVER_INFO_BYTES};
use rorserver::{Config, RORNET_VERSION};

fn conf() -> Config {
    Config::default()
}

fn addr(n: u16) -> PeerAddr {
    PeerAddr { ip: 0x7f000001, port: 12000 + n }
}

fn hello_packet(version: &[u8]) -> Vec<u8> {
    encode_packet(MessageType::Hello, -1, 0, version).unwrap()
}

fn userinfo_packet() -> Vec<u8> {
    let u = build_user_info(1, 0, 0, 0, "bob", "t", "", "en", "ror", "2022", "g", "normal", "");
    encode_packet(MessageType::UserInfo, 1, 0, &u.encode()).unwrap()
}

#[test]
fn short_datagram_creates_nothing_and_replies_nothing() {
    let c = conf();
    let mut t = ClientTable::new();
    for n in 0..16 {
        let act = t.process_client_data(&c, addr(1), &vec![0u8; n], 0);
        assert!(matches!(act, DispatchAction::Ignore));
        assert_eq!(t.len(), 0);
    }
}

#[test]
fn garbage_tag_is_dropped_silently() {
    let c = conf();
    let mut t = ClientTable::new();
    let mut data = 4242u32.to_le_bytes().to_vec();
    data.extend_from_slice(&[0u8; 20]);
    let act = t.process_client_data(&c, addr(1), &data, 0);
    assert!(matches!(act, DispatchAction::Ignore));
    assert_eq!(t.len(), 0);
}

#[test]
fn hello_with_correct_version_creates_one_pending_client() {
    let c = conf();
    let mut t = ClientTable::new();
    let a = addr(1);
    let act = t.process_client_data(&c, a, &hello_packet(RORNET_VERSION.as_bytes()), 5);
    assert_eq!(t.len(), 1);
    let rec = t.lookup(a.key()).expect("the sender must now be in the table");
    assert_eq!(rec.state, ClientState::Pending);
    assert_eq!(rec.ipaddr, a);
    assert!(rec.user.is_none());
    assert_eq!(rec.created_at, 5);
    match act {
        DispatchAction::Reply(cmd, source, streamid, payload) => {
            assert_eq!(cmd, MessageType::Hello);
            assert_eq!(source, 0);
            assert_eq!(streamid, 0);
            assert_eq!(payload.len(), SERVER_INFO_BYTES);
            assert_eq!(&payload[..11], b"RoRnet_2.44");
        },
        _ => panic!("a valid Hello must be answered with a ServerInfo reply"),
    }
}

#[test]
fn hello_with_wrong_version_creates_no_client() {
    let c = conf();
    let mut t = ClientTable::new();
    let act = t.process_client_data(&c, addr(1), &hello_packet(b"RoRnet_2.43"), 0);
    assert_eq!(t.len(), 0);
    match act {
        DispatchAction::Reply(cmd, source, streamid, payload) => {
            assert_eq!(cmd, MessageType::WrongVer);
            assert_eq!(source, 0);
            assert_eq!(streamid, 0);
            assert!(payload.is_empty());
        },
        _ => panic!("a wrong version must be answered with exactly one WrongVer reply"),
    }
}

#[test]
fn first_packet_not_hello_is_rejected_with_wrong_ver() {
    let c = conf();
    let mut t = ClientTable::new();
    let pkt = encode_packet(MessageType::Version, 0, 0, &[]).unwrap();
    let act = t.process_client_data(&c, addr(1), &pkt, 0);
    assert_eq!(t.len(), 0);
    assert!(matches!(act, DispatchAction::Reply(MessageType::WrongVer, 0, 0, _)));
}

#[test]
fn pending_client_with_userinfo_becomes_connected() {
    let c = conf();
    let mut t = ClientTable::new();
    let a = addr(1);
    t.process_client_data(&c, a, &hello_packet(RORNET_VERSION.as_bytes()), 3);
    let act = t.process_client_data(&c, a, &userinfo_packet(), 4);
    assert!(matches!(act, DispatchAction::Ignore));
    assert_eq!(t.len(), 1);
    let rec = t.lookup(a.key()).unwrap();
    assert_eq!(rec.state, ClientState::Connected);
    let user = rec.user.as_ref().expect("the parsed UserInfo must be stored");
    assert_eq!(&user.username[..3], b"bob");
    assert_eq!(rec.created_at, 3, "promotion keeps the creation stamp");
}

#[test]
fn pending_client_with_other_packet_is_evicted() {
    let c = conf();
    let mut t = ClientTable::new();
    let a = addr(1);
    t.process_client_data(&c, a, &hello_packet(RORNET_VERSION.as_bytes()), 0);
    assert_eq!(t.len(), 1);
    let pkt = encode_packet(MessageType::NetQuality, 1, 0, &[1, 2, 3]).unwrap();
    let act = t.process_client_data(&c, a, &pkt, 1);
    assert!(matches!(act, DispatchAction::Ignore));
    assert_eq!(t.len(), 0);
    assert!(t.lookup(a.key()).is_none());
}

#[test]
fn pending_client_with_malformed_userinfo_is_evicted() {
    let c = conf();
    let mut t = ClientTable::new();
    let a = addr(1);
    t.process_client_data(&c, a, &hello_packet(RORNET_VERSION.as_bytes()), 0);
    // right command, wrong payload length
    let pkt = encode_packet(MessageType::UserInfo, 1, 0, &[0u8; 100]).unwrap();
    t.process_client_data(&c, a, &pkt, 1);
    assert_eq!(t.len(), 0);
}

#[test]
fn connected_client_traffic_is_forwarded() {
    let c = conf();
    let mut t = ClientTable::new();
    let a = addr(1);
    t.process_client_data(&c, a, &hello_packet(RORNET_VERSION.as_bytes()), 0);
    t.process_client_data(&c, a, &userinfo_packet(), 0);
    let pkt = encode_packet(MessageType::NetQuality, 1, 7, &[9]).unwrap();
    let act = t.process_client_data(&c, a, &pkt, 1);
    match act {
        DispatchAction::Forward(h) => {
            assert_eq!(h.command, MessageType::NetQuality);
            assert_eq!(h.streamid, 7);
            assert_eq!(h.size, 1);
        },
        _ => panic!("a Connected peer's traffic must go to gameplay processing"),
    }
    assert_eq!(t.len(), 1);
    assert_eq!(t.lookup(a.key()).unwrap().state, ClientState::Connected);
}

#[test]
fn distinct_addresses_keep_independent_records() {
    let c = conf();
    let mut t = ClientTable::new();
    let a = addr(1);
    let b = addr(2);
    t.process_client_data(&c, a, &hello_packet(RORNET_VERSION.as_bytes()), 0);
    t.process_client_data(&c, b, &hello_packet(RORNET_VERSION.as_bytes()), 0);
    assert_eq!(t.len(), 2);
    // interleaved traffic: b finishes its handshake, a is evicted
    t.process_client_data(&c, b, &userinfo_packet(), 1);
    let pkt = encode_packet(MessageType::Version, 0, 0, &[]).unwrap();
    t.process_client_data(&c, a, &pkt, 1);
    assert!(t.lookup(a.key()).is_none(), "a's eviction must not touch b");
    let rec_b = t.lookup(b.key()).expect("b's record must survive a's traffic");
    assert_eq!(rec_b.state, ClientState::Connected);
    assert_eq!(rec_b.ipaddr, b);
}

#[test]
fn sweep_evicts_only_expired_pending_clients() {
    let c = conf();
    let mut t = ClientTable::new();
    let stale = addr(1);
    let fresh = addr(2);
    let connected = addr(3);
    t.process_client_data(&c, stale, &hello_packet(RORNET_VERSION.as_bytes()), 0);
    t.process_client_data(&c, fresh, &hello_packet(RORNET_VERSION.as_bytes()), 190);
    t.process_client_data(&c, connected, &hello_packet(RORNET_VERSION.as_bytes()), 0);
    t.process_client_data(&c, connected, &userinfo_packet(), 0);
    assert_eq!(t.len(), 3);
    t.sweep_expired(200, 100);
    assert_eq!(t.len(), 2);
    assert!(t.lookup(stale.key()).is_none(), "an abandoned handshake must expire");
    assert!(t.lookup(fresh.key()).is_some(), "a fresh handshake must survive the sweep");
    assert!(t.lookup(connected.key()).is_some(), "Connected records never expire");
}

#[test]
fn sweep_at_exact_timeout_keeps_the_record() {
    let c = conf();
    let mut t = ClientTable::new();
    let a = addr(1);
    t.process_client_data(&c, a, &hello_packet(RORNET_VERSION.as_bytes()), 100);
    t.sweep_expired(200, 100);
    assert_eq!(t.len(), 1, "created_at + timeout == now is not yet expired");
    t.sweep_expired(201, 100);
    assert_eq!(t.len(), 0);
}

#[test]
fn peer_addr_keys_are_distinct() {
    let a = PeerAddr { ip: 1, port: 0 };
    let b = PeerAddr { ip: 0, port: 1 };
    let c = PeerAddr { ip: 0, port: 0 };
    assert_ne!(a.key(), b.key());
    assert_ne!(a.key(), c.key());
    assert_ne!(b.key(), c.key());
    assert_eq!(a.key(), 0x10000);
    assert_eq!(b.key(), 1);
}
