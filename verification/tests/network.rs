use hmac::Mac;
use sharectrl::config::IceServer;
use sharectrl::driver::{route_in, route_out};
use sharectrl::ice::{
    base_for, ice_config_from, local_host_candidates, resolve_all, stun_hostport, Interface,
    RelaySearch, RelayStep, StunOutcome, StunWait, TurnServer,
};
use sharectrl::stun::{
    binding_request, parse_message, parse_stun_mapped_address, Endpoint, IpAddress, MsgBuilder,
    ATTR_DATA, ATTR_ERROR_CODE, ATTR_LIFETIME, ATTR_MESSAGE_INTEGRITY, ATTR_NONCE, ATTR_REALM,
    ATTR_USERNAME, ATTR_XOR_MAPPED_ADDRESS, ATTR_XOR_PEER_ADDRESS, ATTR_XOR_RELAYED_ADDRESS,
};
use sharectrl::turn::{
    long_term_key, new_tid, tid_of, AllocateStep, Allocating, ReplyOutcome, ReplyWait,
    TurnAllocation, ALLOCATE_ERR, ALLOCATE_OK, ALLOCATE_REQ, CREATE_PERM_REQ, DATA_INDICATION, REFRESH_ERR,
    REFRESH_REQ, SEND_INDICATION,
};

fn v4(a: u8, b: u8, c: u8, d: u8, port: u16) -> Endpoint {
    Endpoint { ip: IpAddress::V4([a, b, c, d]), port }
}

fn v6(first: u8, second: u8, port: u16) -> Endpoint {
    let mut o = [7u8; 16];
    o[0] = first;
    o[1] = second;
    Endpoint { ip: IpAddress::V6(o), port }
}

fn relay() -> TurnAllocation {
    TurnAllocation::finish_alloc(
        v4(192, 0, 2, 1, 3478),
        v4(192, 0, 2, 1, 49152),
        "user",
        "realm",
        b"nonce",
        "pass",
        600,
        1_000,
    )
}

#[test]
fn transaction_ids_are_made_of_their_bytes() {
    let bytes: Vec<u8> = (1..=12).collect();
    assert_eq!(tid_of(&bytes), [1, 2, 3, 4, 5, 6, 7, 8, 9, 10, 11, 12]);
    assert_ne!(new_tid(), new_tid());
}

#[test]
fn parses_xor_mapped_address_ipv4() {
    let tid = [7u8; 12];
    let port: u16 = 12345;
    let magic: u32 = 0x2112_A442;
    let mb = magic.to_be_bytes();
    let mut msg = Vec::new();
    msg.extend_from_slice(&0x0101u16.to_be_bytes());
    msg.extend_from_slice(&12u16.to_be_bytes());
    msg.extend_from_slice(&magic.to_be_bytes());
    msg.extend_from_slice(&tid);
    msg.extend_from_slice(&0x0020u16.to_be_bytes());
    msg.extend_from_slice(&8u16.to_be_bytes());
    msg.push(0x00);
    msg.push(0x01);
    msg.extend_from_slice(&(port ^ 0x2112).to_be_bytes());
    let o = [203u8, 0, 113, 5];
    msg.extend_from_slice(&[o[0] ^ mb[0], o[1] ^ mb[1], o[2] ^ mb[2], o[3] ^ mb[3]]);

    let got = parse_stun_mapped_address(&msg, &tid).unwrap();
    assert_eq!(got, v4(203, 0, 113, 5, port));
}

#[test]
fn rejects_non_success_response() {
    let mut msg = vec![0u8; 20];
    msg[0..2].copy_from_slice(&0x0001u16.to_be_bytes());
    assert!(parse_stun_mapped_address(&msg, &[0u8; 12]).is_none());
}

#[test]
fn plain_mapped_address_is_a_fallback() {
    let tid = [1u8; 12];
    let mut b = MsgBuilder::new(0x0101, &tid);
    b.attr_bytes(0x0001, &[0, 1, 0x30, 0x39, 10, 0, 0, 1]);
    let plain = b.finish();
    assert_eq!(parse_stun_mapped_address(&plain, &tid), Some(v4(10, 0, 0, 1, 12345)));
    let mut b = MsgBuilder::new(0x0101, &tid);
    b.attr_bytes(0x0001, &[0, 1, 0x30, 0x39, 10, 0, 0, 1]);
    b.attr_xor_addr(ATTR_XOR_MAPPED_ADDRESS, v6(0x20, 1, 99), &tid);
    let both = b.finish();
    assert_eq!(parse_stun_mapped_address(&both, &tid), Some(v6(0x20, 1, 99)));
}

#[test]
fn xor_addr_roundtrip_v4() {
    let tid = new_tid();
    let addr = v4(203, 0, 113, 7, 54321);
    let mut b = MsgBuilder::new(SEND_INDICATION, &tid);
    b.attr_xor_addr(ATTR_XOR_PEER_ADDRESS, addr, &tid);
    let msg = b.finish();
    let (mtype, rtid, attrs) = parse_message(&msg).unwrap();
    assert_eq!(mtype, SEND_INDICATION);
    assert_eq!(rtid, tid);
    assert_eq!(attrs.get_xor_addr(ATTR_XOR_PEER_ADDRESS, &tid), Some(addr));
}

#[test]
fn data_indication_roundtrip() {
    let tid = new_tid();
    let peer = v4(198, 51, 100, 9, 4242);
    let payload = vec![1u8, 2, 3, 4, 5];
    let mut b = MsgBuilder::new(DATA_INDICATION, &tid);
    b.attr_xor_addr(ATTR_XOR_PEER_ADDRESS, peer, &tid);
    b.attr_bytes(ATTR_DATA, &payload);
    let msg = b.finish();

    let (got_peer, got_data) = relay().handle_server_packet(&msg).unwrap();
    assert_eq!(got_peer, peer);
    assert_eq!(got_data, payload);
}

#[test]
fn integrity_appends_24_bytes_and_patches_length() {
    let tid = new_tid();
    let key = long_term_key("u", "r", "p");
    let mut b = MsgBuilder::new(ALLOCATE_REQ, &tid);
    b.attr_requested_transport_udp();
    let before = 20 + 8;
    let msg = b.finish_with_integrity(&key);
    assert_eq!(msg.len(), before + 24);
    let mlen = u16::from_be_bytes([msg[2], msg[3]]) as usize;
    assert_eq!(20 + mlen, msg.len());
}

#[test]
fn error_code_parses() {
    let tid = new_tid();
    let mut b = MsgBuilder::new(ALLOCATE_ERR, &tid);
    b.attr_bytes(ATTR_ERROR_CODE, &[0, 0, 4, 38]);
    let (_, _, attrs) = parse_message(&b.finish()).unwrap();
    assert_eq!(attrs.get_error_code(), Some(438));
}

#[test]
fn long_term_key_is_the_md5_of_the_credentials() {
    // The key of the example in RFC 5389, section 15.4.
    let key = long_term_key("user", "realm", "pass");
    assert_eq!(
        key,
        [0x84, 0x93, 0xfb, 0xc5, 0x3b, 0xa5, 0x82, 0xfb, 0x4c, 0x04, 0x4c, 0x45, 0x6b, 0xdc, 0x40, 0xeb]
    );
}

#[test]
fn integrity_is_the_hmac_of_the_message() {
    let tid = [3u8; 12];
    let key = [9u8; 16];
    let mut b = MsgBuilder::new(REFRESH_REQ, &tid);
    b.attr_str(ATTR_USERNAME, "héllo");
    let msg = b.finish_with_integrity(&key);
    let body = &msg[..msg.len() - 24];
    let mut mac = hmac::Hmac::<sha1::Sha1>::new_from_slice(&key).unwrap();
    mac.update(body);
    let tag = mac.finalize().into_bytes();
    assert_eq!(&msg[msg.len() - 20..], &tag[..]);
    let (_, _, attrs) = parse_message(&msg).unwrap();
    assert_eq!(attrs.get_string(ATTR_USERNAME).as_deref(), Some("héllo"));
    assert_eq!(attrs.get_bytes(ATTR_MESSAGE_INTEGRITY).unwrap(), tag.to_vec());
    assert_eq!(attrs.get_bytes(ATTR_NONCE), None);
}

#[test]
fn message_bytes_are_exact() {
    let tid = [1u8; 12];
    let mut b = MsgBuilder::new(0x0003, &tid);
    b.attr_bytes(0x0015, &[0xaa, 0xbb, 0xcc, 0xdd, 0xee]);
    let msg = b.finish();
    let mut want = vec![0x00, 0x03, 0x00, 12, 0x21, 0x12, 0xa4, 0x42];
    want.extend_from_slice(&tid);
    want.extend_from_slice(&[0x00, 0x15, 0x00, 5, 0xaa, 0xbb, 0xcc, 0xdd, 0xee, 0, 0, 0]);
    assert_eq!(msg, want);
    assert_eq!(binding_request(&tid)[..4], [0, 1, 0, 0]);
    assert_eq!(binding_request(&tid).len(), 20);
}

#[test]
fn other_packets_are_no_messages() {
    assert!(parse_message(&[0; 19]).is_none());
    assert!(parse_message(&[0; 20]).is_none());
    let mut m = binding_request(&[0; 12]);
    m[0] = 0x80;
    assert!(parse_message(&m).is_none());
    // An attribute that does not fit ends the list.
    let mut b = MsgBuilder::new(1, &[0; 12]);
    b.attr_bytes(ATTR_LIFETIME, &600u32.to_be_bytes());
    let mut m = b.finish();
    m.extend_from_slice(&[0, 9, 0, 50, 1]);
    m[3] = 13;
    let (_, _, attrs) = parse_message(&m).unwrap();
    assert_eq!(attrs.get_lifetime(), Some(600));
    assert_eq!(attrs.get_error_code(), None);
}

#[test]
fn allocation_handshake() {
    let server = v4(192, 0, 2, 1, 3478);
    let first = Allocating::start(server, "user", "pass");
    let req = first.request();
    let (mtype, tid, attrs) = parse_message(&req).unwrap();
    assert_eq!(mtype, ALLOCATE_REQ);
    assert_eq!(tid, first.tid());
    assert_eq!(attrs.get_bytes(0x0019), Some(vec![17, 0, 0, 0]));
    assert_eq!(attrs.get_string(ATTR_USERNAME), None);

    // The server wants credentials.
    let mut b = MsgBuilder::new(ALLOCATE_ERR, &tid);
    b.attr_bytes(ATTR_ERROR_CODE, &[0, 0, 4, 1]);
    b.attr_str(ATTR_REALM, "realm");
    b.attr_bytes(ATTR_NONCE, b"n1");
    let mut wait = ReplyWait::new(server, tid);
    let stranger = wait.on_packet(v4(1, 2, 3, 4, 5), &[0; 30]);
    assert!(matches!(stranger, ReplyOutcome::Waiting));
    let (mtype, attrs) = match wait.on_packet(server, &b.finish()) {
        ReplyOutcome::Reply(mtype, attrs) => (mtype, attrs),
        _ => panic!("no reply"),
    };
    let second = match first.reply(mtype, &attrs, 0) {
        AllocateStep::Again(a) => a,
        _ => panic!("no second request"),
    };
    let req = second.request();
    let (_, tid2, attrs) = parse_message(&req).unwrap();
    assert_eq!(attrs.get_string(ATTR_USERNAME).as_deref(), Some("user"));
    assert_eq!(attrs.get_string(ATTR_REALM).as_deref(), Some("realm"));
    assert_eq!(attrs.get_bytes(ATTR_NONCE), Some(b"n1".to_vec()));
    assert!(attrs.get_bytes(ATTR_MESSAGE_INTEGRITY).is_some());

    // The server allocates.
    let mut b = MsgBuilder::new(ALLOCATE_OK, &tid2);
    b.attr_xor_addr(ATTR_XOR_RELAYED_ADDRESS, v4(192, 0, 2, 1, 50000), &tid2);
    b.attr_bytes(ATTR_LIFETIME, &10u32.to_be_bytes());
    let (mtype, _, attrs) = parse_message(&b.finish()).unwrap();
    let mut ready = match second.reply(mtype, &attrs, 5_000) {
        AllocateStep::Ready(r) => r,
        _ => panic!("no allocation"),
    };
    assert_eq!(ready.relayed(), v4(192, 0, 2, 1, 50000));
    assert_eq!(ready.server(), server);
    // Ten seconds count as a minute, so the refresh is due after half of one.
    assert!(ready.tick(34_999).is_none());
    assert!(ready.tick(35_000).is_some());
    assert!(ready.tick(35_001).is_none());
}

#[test]
fn a_refused_allocation_fails() {
    let server = v4(192, 0, 2, 1, 3478);
    let a = Allocating::start(server, "u", "p");
    let tid = a.tid();
    // A refusal without a realm.
    let (mtype, _, attrs) = parse_message(&MsgBuilder::new(ALLOCATE_ERR, &tid).finish()).unwrap();
    assert!(matches!(a.reply(mtype, &attrs, 0), AllocateStep::Failed));
    let mut wait = ReplyWait::new(server, tid);
    for _ in 0..4 {
        assert!(matches!(wait.on_packet(server, &[]), ReplyOutcome::Waiting));
    }
    assert!(matches!(wait.on_packet(server, &[]), ReplyOutcome::GaveUp));
}

#[test]
fn permissions_are_asked_for_once_in_a_while() {
    let mut a = relay();
    let peer = v4(198, 51, 100, 9, 4242);
    let out = a.send_via_relay(peer, b"x", 1_000);
    assert_eq!(out.len(), 2);
    assert_eq!(parse_message(&out[0]).unwrap().0, CREATE_PERM_REQ);
    let (mtype, tid, attrs) = parse_message(&out[1]).unwrap();
    assert_eq!(mtype, SEND_INDICATION);
    assert_eq!(attrs.get_xor_addr(ATTR_XOR_PEER_ADDRESS, &tid), Some(peer));
    assert_eq!(attrs.get_bytes(ATTR_DATA), Some(b"x".to_vec()));
    // Another port of the same machine needs no permission of its own.
    assert_eq!(a.send_via_relay(v4(198, 51, 100, 9, 1), b"y", 240_999).len(), 1);
    assert_eq!(a.send_via_relay(peer, b"z", 241_000).len(), 2);
}

#[test]
fn a_stale_nonce_renews_everything() {
    let mut a = relay();
    let peer = v4(198, 51, 100, 9, 4242);
    a.send_via_relay(peer, b"x", 1_000);
    assert!(a.tick(1_500).is_none());
    let mut b = MsgBuilder::new(REFRESH_ERR, &[5; 12]);
    b.attr_bytes(ATTR_ERROR_CODE, &[0, 0, 4, 38]);
    b.attr_bytes(ATTR_NONCE, b"fresh");
    b.attr_str(ATTR_REALM, "other");
    assert!(a.handle_server_packet(&b.finish()).is_none());
    let refresh = a.tick(1_600).unwrap();
    let (_, _, attrs) = parse_message(&refresh).unwrap();
    assert_eq!(attrs.get_bytes(ATTR_NONCE), Some(b"fresh".to_vec()));
    assert_eq!(attrs.get_string(ATTR_REALM).as_deref(), Some("other"));
    assert_eq!(attrs.get_lifetime(), Some(600));
    assert_eq!(a.send_via_relay(peer, b"x", 1_700).len(), 2);
    // Any other error changes nothing.
    let mut b = MsgBuilder::new(REFRESH_ERR, &[5; 12]);
    b.attr_bytes(ATTR_ERROR_CODE, &[0, 0, 4, 0]);
    b.attr_bytes(ATTR_NONCE, b"no");
    a.handle_server_packet(&b.finish());
    assert!(a.tick(1_800).is_none());
}

#[test]
fn datagrams_are_routed() {
    let peer = v4(198, 51, 100, 9, 4242);
    let local = v4(10, 0, 0, 2, 6000);
    let mut turn = Some(relay());
    let (to, out) = route_out(&mut turn, local, peer, b"hi", 1_000, &[1; 12], &[2; 12]);
    assert_eq!(to, peer);
    assert_eq!(out, vec![b"hi".to_vec()]);
    let relayed = v4(192, 0, 2, 1, 49152);
    let (to, out) = route_out(&mut turn, relayed, peer, b"hi", 1_000, &[1; 12], &[2; 12]);
    assert_eq!(to, v4(192, 0, 2, 1, 3478));
    assert_eq!(out.len(), 2);

    let (from, dest, data) = route_in(&mut turn, peer, local, b"yo").unwrap();
    assert_eq!((from, dest, data), (peer, local, b"yo".to_vec()));
    let tid = [4u8; 12];
    let mut b = MsgBuilder::new(DATA_INDICATION, &tid);
    b.attr_xor_addr(ATTR_XOR_PEER_ADDRESS, peer, &tid);
    b.attr_bytes(ATTR_DATA, b"yo");
    let wrapped = b.finish();
    let got = route_in(&mut turn, v4(192, 0, 2, 1, 3478), local, &wrapped).unwrap();
    assert_eq!(got, (peer, relayed, b"yo".to_vec()));
    assert!(route_in(&mut turn, v4(192, 0, 2, 1, 3478), local, b"junk").is_none());
}

fn server(urls: &str, user: Option<&str>) -> IceServer {
    IceServer {
        urls: urls.to_string(),
        username: user.map(|s| s.to_string()),
        credential: user.map(|_| "secret".to_string()),
    }
}

#[test]
fn servers_are_sorted() {
    let c = ice_config_from(&[
        server("stun:stun.cloudflare.com:3478", None),
        server("turn:relay.example:5349?transport=udp", Some("u")),
        server("turn:relay.example?transport=tcp", Some("u")),
        server("turn:plain.example", None),
        server("turns:tls.example", None),
        server("stuns:other.example", None),
        server("http://nothing", None),
    ]);
    assert_eq!(
        c.stun_urls,
        vec![
            "stun:stun.cloudflare.com:3478",
            "stuns:other.example",
            "stun:stun.l.google.com:19302",
            "stun:stun1.l.google.com:19302",
        ]
    );
    let turn: Vec<(&str, &str, &str)> = c
        .turn_servers
        .iter()
        .map(|t| (t.hostport.as_str(), t.username.as_str(), t.credential.as_str()))
        .collect();
    assert_eq!(
        turn,
        vec![("relay.example:5349", "u", "secret"), ("plain.example:3478", "", "")]
    );
    assert_eq!(stun_hostport("stun:a:1?x"), "a:1");
    assert_eq!(stun_hostport("stuns:b:2&y"), "b:2");
    assert_eq!(stun_hostport("c:3"), "c:3");
}

#[test]
fn addresses_of_the_sockets_family_come_first() {
    let a = v4(1, 2, 3, 4, 5);
    let b = v6(0x20, 1, 5);
    assert_eq!(resolve_all(vec![b, a], true), vec![a]);
    assert_eq!(resolve_all(vec![b], true), vec![b]);
    assert_eq!(resolve_all(vec![a, b], false), vec![b]);
    assert_eq!(base_for(&[b, a], &v4(9, 9, 9, 9, 1)), Some(a));
    assert_eq!(base_for(&[b], &v4(9, 9, 9, 9, 1)), None);
}

#[test]
fn only_routable_addresses_are_offered() {
    let ifaces = [
        Interface { ip: IpAddress::V4([127, 0, 0, 1]), loopback: true },
        Interface { ip: v6(0xfe, 0x80, 0).ip, loopback: false },
        Interface { ip: v6(0xfe, 0xbf, 0).ip, loopback: false },
        Interface { ip: v6(0xfe, 0xc0, 0).ip, loopback: false },
        Interface { ip: IpAddress::V4([10, 0, 0, 2]), loopback: false },
    ];
    assert_eq!(
        local_host_candidates(&ifaces, 77),
        vec![v6(0xfe, 0xc0, 77), v4(10, 0, 0, 2, 77)]
    );
    assert_eq!(local_host_candidates(&ifaces[..3], 77), vec![v4(127, 0, 0, 1, 77)]);
}

#[test]
fn stun_answers_are_waited_for() {
    let s = v4(1, 1, 1, 1, 3478);
    let tid = [9u8; 12];
    let mut w = StunWait::new(s, tid);
    assert!(matches!(w.on_packet(v4(2, 2, 2, 2, 1), &[]), StunOutcome::Waiting));
    let mut b = MsgBuilder::new(0x0101, &tid);
    b.attr_xor_addr(ATTR_XOR_MAPPED_ADDRESS, v4(5, 6, 7, 8, 9), &tid);
    match w.on_packet(s, &b.finish()) {
        StunOutcome::Mapped(e) => assert_eq!(e, v4(5, 6, 7, 8, 9)),
        other => panic!("{other:?}"),
    }
    assert!(matches!(w.on_packet(s, &[]), StunOutcome::GaveUp));
}

#[test]
fn relays_are_tried_in_order() {
    let t = |h: &str| TurnServer {
        hostport: h.to_string(),
        username: format!("{h}-user"),
        credential: String::new(),
    };
    let mut s = RelaySearch::new(vec![t("a"), t("b")]);
    assert!(matches!(s.step(), RelayStep::Resolve(h) if h == "a"));
    s.resolved(vec![], true);
    assert!(matches!(s.step(), RelayStep::Resolve(h) if h == "b"));
    s.resolved(vec![v4(1, 1, 1, 1, 1), v6(0x20, 1, 1), v4(2, 2, 2, 2, 2)], true);
    for want in [v4(1, 1, 1, 1, 1), v4(2, 2, 2, 2, 2)] {
        match s.step() {
            RelayStep::Allocate { server, username, .. } => {
                assert_eq!(server, want);
                assert_eq!(username, "b-user");
            }
            other => panic!("{other:?}"),
        }
        s.refused();
    }
    assert!(matches!(s.step(), RelayStep::GiveUp));
}

#[test]
fn a_relay_of_no_use_ends_its_server() {
    let t = |h: &str| TurnServer {
        hostport: h.to_string(),
        username: String::new(),
        credential: String::new(),
    };
    let mut s = RelaySearch::new(vec![t("a"), t("b")]);
    s.step();
    s.resolved(vec![v4(1, 1, 1, 1, 1), v4(2, 2, 2, 2, 2)], true);
    assert!(matches!(s.step(), RelayStep::Allocate { .. }));
    s.unusable();
    assert!(matches!(s.step(), RelayStep::Resolve(h) if h == "b"));
}
