use lan_cat::config::{Config, CursorConfig, Peer};
use lan_cat::float::Double;
use lan_cat::input::packet::{
    decrypt, encrypt, is_cursor_peer, packet_nonce, session_keys, static_shared, TransportError,
};
use lan_cat::input::protocol::{InputMessage, PointerInput};
use lan_cat::input::transport::{Address, Endpoint, Received, Route, Wire};
use lan_cat::input::window::accept_sequence;
use lan_cat::network::device_id;

fn cursor_config() -> Config {
    let mut config = Config::create(Some("local".to_owned())).unwrap();
    config.private_key = "00".repeat(32);
    config.public_key = "11".repeat(32);
    config.peers.insert(
        "peer".to_owned(),
        Peer { name: "peer".to_owned(), public_key: "22".repeat(32) },
    );
    config.cursor = CursorConfig { enabled: true };
    config
}

#[test]
fn replay_window_accepts_reordered_packets_once() {
    let (mut highest, mut window) = (0, 0);
    assert!(accept_sequence(&mut highest, &mut window, 10));
    assert!(accept_sequence(&mut highest, &mut window, 8));
    assert!(!accept_sequence(&mut highest, &mut window, 8));
    assert!(!accept_sequence(&mut highest, &mut window, 0));
    assert!(accept_sequence(&mut highest, &mut window, 75));
    assert!(!accept_sequence(&mut highest, &mut window, 10));
}

#[test]
fn replay_window_reaches_back_63_numbers() {
    let (mut highest, mut window) = (0, 0);
    assert!(accept_sequence(&mut highest, &mut window, 100));
    assert!(accept_sequence(&mut highest, &mut window, 37));
    assert!(!accept_sequence(&mut highest, &mut window, 36));
    assert!(accept_sequence(&mut highest, &mut window, u64::MAX));
    assert!(!accept_sequence(&mut highest, &mut window, u64::MAX));
}

#[test]
fn directional_keys_match_opposite_ends() {
    let shared = [7; 32];
    let ephemeral = [9; 32];
    let nonce_a = [1; 16];
    let nonce_b = [2; 16];
    let (a_send, a_receive) = session_keys(&shared, ephemeral, "a", "b", &nonce_a, &nonce_b);
    let (b_send, b_receive) = session_keys(&shared, ephemeral, "b", "a", &nonce_b, &nonce_a);
    assert_eq!(a_send, b_receive);
    assert_eq!(a_receive, b_send);
    assert_ne!(a_send, a_receive);
}

#[test]
fn encrypted_packet_authenticates_sender_and_sequence() {
    let key = [4; 32];
    let encrypted = encrypt(&key, "peer-a", 8, b"motion").unwrap();
    assert_eq!(decrypt(&key, "peer-a", 8, &encrypted).unwrap(), b"motion");
    assert!(decrypt(&key, "peer-a", 9, &encrypted).is_err());
    assert!(decrypt(&key, "peer-b", 8, &encrypted).is_err());
    assert!(decrypt(&[5; 32], "peer-a", 8, &encrypted).is_err());
    assert_ne!(&encrypted[..6], b"motion");
}

#[test]
fn nonces_hold_the_sequence() {
    assert_ne!(packet_nonce(1), packet_nonce(2));
    assert_eq!(packet_nonce(0x0102)[10..], [1, 2]);
}

#[test]
fn unpaired_peer_loses_cursor_trust_immediately() {
    let mut cfg = cursor_config();
    assert!(is_cursor_peer(&cfg, "peer"));

    cfg.peers.remove("peer");
    assert!(!is_cursor_peer(&cfg, "peer"));
}

#[test]
fn disabled_sharing_trusts_nobody() {
    let mut cfg = cursor_config();
    cfg.cursor = CursorConfig { enabled: false };
    assert!(!is_cursor_peer(&cfg, "peer"));
}

const HERE: Address = Address { is_v6: false, ip: 1, port: 4242, flow: 0, scope: 0 };
const THERE: Address = Address { is_v6: false, ip: 2, port: 4242, flow: 0, scope: 0 };

/// Two devices that trust each other and share input, with their ids.
fn pair() -> (Config, Config, String, String) {
    let mut a = Config::create(Some("a".into())).unwrap();
    let mut b = Config::create(Some("b".into())).unwrap();
    let a_id = device_id(&a.public_key().unwrap());
    let b_id = device_id(&b.public_key().unwrap());
    a.peers.insert(b_id.clone(), Peer { name: "b".into(), public_key: b.public_key.clone() });
    b.peers.insert(a_id.clone(), Peer { name: "a".into(), public_key: a.public_key.clone() });
    a.cursor = CursorConfig { enabled: true };
    b.cursor = CursorConfig { enabled: true };
    (a, b, a_id, b_id)
}

/// Both ends of a session between them.
fn joined(a: &Config, b: &Config, a_id: &str, b_id: &str) -> (Endpoint, Endpoint) {
    let mut one = Endpoint::new(a_id.to_owned());
    let mut two = Endpoint::new(b_id.to_owned());
    let hello = one.discovered(a, b_id, THERE).unwrap();
    assert_eq!(hello.addr, THERE);
    let Ok(Received::Session { peer, reply: Some(reply) }) = two.receive(b, HERE, hello.wire)
    else {
        panic!("no session");
    };
    assert_eq!(peer, a_id);
    let Ok(Received::Session { peer, .. }) = one.receive(a, THERE, reply) else {
        panic!("no session");
    };
    assert_eq!(peer, b_id);
    (one, two)
}

fn ping() -> InputMessage {
    InputMessage::Ping
}

#[test]
fn shared_secrets_agree() {
    let (a, b, a_id, b_id) = pair();
    assert_eq!(static_shared(&a, &b_id).unwrap(), static_shared(&b, &a_id).unwrap());
    assert_eq!(static_shared(&a, "nobody"), Err(TransportError::NotPaired));
    let cfg = cursor_config();
    assert!(static_shared(&cfg, "peer").is_ok());
}

#[test]
fn sealed_packets_are_opened_once() {
    let (a, b, a_id, b_id) = pair();
    let (mut one, mut two) = joined(&a, &b, &a_id, &b_id);
    assert_eq!(one.route(&a, &b_id, ping()), Route::Session);
    let packet = one.seal(&b_id, ping(), b"content").unwrap();
    let again = match &packet.wire {
        Wire::Data { version, sender, sequence, ciphertext } => Wire::Data {
            version: *version,
            sender: sender.clone(),
            sequence: *sequence,
            ciphertext: ciphertext.clone(),
        },
        _ => panic!("no data"),
    };
    assert_eq!(
        two.receive(&b, HERE, packet.wire),
        Ok(Received::Content { peer: a_id.clone(), plain: b"content".to_vec() })
    );
    assert_eq!(two.receive(&b, HERE, again), Err(TransportError::Duplicate));
}

#[test]
fn strangers_and_forgeries_are_refused() {
    let (a, b, a_id, b_id) = pair();
    let (mut one, mut two) = joined(&a, &b, &a_id, &b_id);
    let packet = one.seal(&b_id, ping(), b"content").unwrap();
    let Wire::Data { version, sender, sequence, mut ciphertext } = packet.wire else {
        panic!("no data");
    };
    ciphertext[0] ^= 1;
    let forged = Wire::Data { version, sender, sequence, ciphertext };
    assert_eq!(two.receive(&b, HERE, forged), Err(TransportError::Authentication));

    let mut unpaired = b.clone();
    unpaired.peers.remove(&a_id);
    let packet = one.seal(&b_id, ping(), b"content").unwrap();
    assert_eq!(
        two.receive(&unpaired, HERE, packet.wire).err(),
        Some(TransportError::UnknownPeer)
    );
    assert_eq!(one.seal("nobody", ping(), b"x"), Err(TransportError::NoSession));
}

#[test]
fn hellos_are_authenticated() {
    let (a, b, a_id, b_id) = pair();
    let mut one = Endpoint::with_keys(a_id.clone(), [3; 32], [4; 16]);
    let mut two = Endpoint::new(b_id.clone());
    let Ok(Wire::Hello { version, sender, ephemeral, nonce, response, mut tag }) =
        one.hello(&a, &b_id, false)
    else {
        panic!("no hello");
    };
    assert_eq!(sender, a_id);
    assert_eq!(nonce, [4; 16]);
    tag[0] ^= 1;
    let forged = Wire::Hello { version, sender, ephemeral, nonce, response, tag };
    assert_eq!(two.receive(&b, HERE, forged), Err(TransportError::HelloAuthentication));
    let _ = one.greet(&a, &b_id);
}

#[test]
fn messages_wait_for_a_session() {
    let (a, b, a_id, b_id) = pair();
    let mut one = Endpoint::new(a_id.clone());
    assert_eq!(one.route(&a, "nobody", ping()), Route::Nowhere);
    assert_eq!(one.route(&a, &b_id, ping()), Route::Wait);
    let move_it = InputMessage::Pointer(PointerInput::Motion {
        dx: Double { bits: 0 },
        dy: Double { bits: 0 },
    });
    let _ = one.route(&a, &b_id, move_it);
    let hello = one.discovered(&a, &b_id, THERE).unwrap();
    assert!(matches!(one.route(&a, &b_id, InputMessage::Ack), Route::Hello(_)));
    assert!(one.flush_pending(&b_id).is_empty());
    let mut two = Endpoint::new(b_id.clone());
    let Ok(Received::Session { reply: Some(reply), .. }) = two.receive(&b, HERE, hello.wire) else {
        panic!("no session");
    };
    one.receive(&a, THERE, reply).unwrap();
    assert_eq!(one.flush_pending(&b_id), vec![ping(), move_it, InputMessage::Ack]);
    assert!(one.flush_pending(&b_id).is_empty());

    let (mut one, _) = joined(&a, &b, &a_id, &b_id);
    one.disconnect(&b_id);
    assert_eq!(one.seal(&b_id, ping(), b"x"), Err(TransportError::NoSession));
}

#[test]
fn unpaired_sessions_end_with_a_tick() {
    let (a, b, a_id, b_id) = pair();
    let (mut one, _) = joined(&a, &b, &a_id, &b_id);
    let mut unpaired = a.clone();
    unpaired.peers.remove(&b_id);
    one.tick(&unpaired);
    assert_eq!(one.seal(&b_id, ping(), b"x"), Err(TransportError::NoSession));
}
