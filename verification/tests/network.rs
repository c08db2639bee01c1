use lan_cat::config::{Config, ConfigError, Peer};
use lan_cat::input::transport::Address;
use lan_cat::network::frame::{fragment, Assembly, FrameError, CHUNK_CONTENT};
use lan_cat::network::{
    announced_host, check_pairing, code_text, conclude_pairing, confirms, decrypt_record,
    device_id, dials, encrypt_record, finish_handshake, handshake_message, handshake_payload,
    handshake_size, own_identity, pairing_code, pairing_facts, parse_preface, plan_connection,
    plan_pairing, record_size, resolved_peer, service_addr, start_connection, start_pairing,
    validate_identity, Identity, NetworkError, Turn,
};

fn test_config(name: &str) -> Config {
    Config::create(Some(name.into())).unwrap()
}

fn as_peer(config: &Config) -> Peer {
    Peer { name: config.name.clone(), public_key: config.public_key.clone() }
}

/// Runs a handshake between two ends, taking turns as planned. Returns what each
/// end read last.
fn shake(
    left: &mut snow::HandshakeState,
    right: &mut snow::HandshakeState,
    turns: &[Turn],
    left_payload: &[u8],
    right_payload: &[u8],
) -> (Vec<u8>, Vec<u8>) {
    let mut left_read = Vec::new();
    let mut right_read = Vec::new();
    for turn in turns {
        match turn {
            Turn::Write | Turn::WriteIdentity => {
                let payload: &[u8] = if *turn == Turn::Write { &[] } else { left_payload };
                let message = handshake_message(left, payload).unwrap();
                right_read = handshake_payload(right, &message).unwrap();
            }
            Turn::Read | Turn::ReadIdentity => {
                let payload: &[u8] = if *turn == Turn::Read { &[] } else { right_payload };
                let message = handshake_message(right, payload).unwrap();
                left_read = handshake_payload(left, &message).unwrap();
            }
        }
    }
    (left_read, right_read)
}

fn connected() -> (snow::TransportState, snow::TransportState) {
    let left = test_config("left");
    let right = test_config("right");
    let mut a = start_connection(&left, &as_peer(&right), true).unwrap();
    let mut b = start_connection(&right, &as_peer(&left), false).unwrap();
    shake(&mut a, &mut b, &plan_connection(true), &[], &[]);
    (finish_handshake(a).unwrap(), finish_handshake(b).unwrap())
}

#[test]
fn stable_device_id_and_code() {
    assert_eq!(device_id(&[7; 32]), device_id(&[7; 32]));
    assert!(pairing_code(&[0xff; 32]) < 1_000_000);
}

#[test]
fn device_ids_are_hashes() {
    let id = device_id(&[7; 32]);
    assert_eq!(id, hex::encode(&blake3::hash(&[7; 32]).as_bytes()[..16]));
    assert_eq!(id.len(), 32);
    assert_ne!(id, device_id(&[8; 32]));
}

#[test]
fn codes_have_six_digits() {
    assert_eq!(pairing_code(&[0, 0, 0, 42, 9]), 42);
    assert_eq!(pairing_code(&[0xff, 0xff, 0xff, 0xff]), 4_294_967_295_u32 % 1_000_000);
    assert_eq!(code_text(42), "000042");
    assert_eq!(code_text(987_654), "987654");
}

#[test]
fn pairing_exchanges_identities_and_a_code() {
    let left = test_config("left");
    let right = test_config("right");
    let mut a = start_pairing(&left, true).unwrap();
    let mut b = start_pairing(&right, false).unwrap();
    let (left_read, right_read) =
        shake(&mut a, &mut b, &plan_pairing(true), b"left identity", b"right identity");
    assert_eq!(left_read, b"right identity");
    assert_eq!(right_read, b"left identity");

    let (key_of_right, code_a) = pairing_facts(&a);
    let (key_of_left, code_b) = pairing_facts(&b);
    assert_eq!(code_a, code_b);
    assert_eq!(key_of_right.as_deref(), Some(&right.public_key().unwrap()[..]));
    assert_eq!(key_of_left.as_deref(), Some(&left.public_key().unwrap()[..]));

    let identity = own_identity(&right).unwrap();
    assert_eq!(check_pairing(&identity, &key_of_right), Ok(()));
    assert_eq!(check_pairing(&identity, &key_of_left), Err(NetworkError::IdentityMismatch));
    assert_eq!(check_pairing(&identity, &None), Err(NetworkError::MissingStaticKey));

    let mut session_a = finish_handshake(a).unwrap();
    let mut session_b = finish_handshake(b).unwrap();
    let record = encrypt_record(&mut session_a, &[1]).unwrap();
    let confirmation = decrypt_record(&mut session_b, &record).unwrap();
    let (id, peer) =
        conclude_pairing(identity, &key_of_right.unwrap(), true, &confirmation).unwrap();
    assert_eq!(id, device_id(&right.public_key().unwrap()));
    assert_eq!(peer, as_peer(&right));
}

#[test]
fn both_ends_must_confirm() {
    let identity = || Identity { version: 1, id: "id".into(), name: "n".into() };
    assert!(conclude_pairing(identity(), &[1], true, &[1]).is_ok());
    assert_eq!(conclude_pairing(identity(), &[1], false, &[1]), Err(NetworkError::Rejected));
    assert_eq!(conclude_pairing(identity(), &[1], true, &[0]), Err(NetworkError::Rejected));
    assert_eq!(conclude_pairing(identity(), &[1], true, &[]), Err(NetworkError::Rejected));
    assert_eq!(conclude_pairing(identity(), &[1], true, &[1, 1]), Err(NetworkError::Rejected));
    for yes in ["y", "Y\n", " yes ", "YES"] {
        assert!(confirms(yes));
    }
    for no in ["", "n", "Yes", "yy"] {
        assert!(!confirms(no));
    }
}

#[test]
fn identities_are_checked() {
    let identity = |version, name: &str| Identity { version, id: "id".into(), name: name.into() };
    assert_eq!(validate_identity(&identity(1, "n")), Ok(()));
    assert_eq!(validate_identity(&identity(2, "n")), Err(NetworkError::UnsupportedPairing(2)));
    assert_eq!(validate_identity(&identity(1, "")), Err(NetworkError::InvalidPeerName));
    assert_eq!(
        validate_identity(&identity(1, &"x".repeat(64))),
        Err(NetworkError::InvalidPeerName)
    );
    assert_eq!(validate_identity(&identity(1, &"\u{e9}".repeat(63))), Ok(()));
    assert_eq!(
        validate_identity(&identity(1, &"\u{e9}".repeat(64))),
        Err(NetworkError::InvalidPeerName)
    );
}

#[test]
fn one_device_dials() {
    assert!(dials("a", "b"));
    assert!(!dials("b", "a"));
    assert!(!dials("a", "a"));
}

#[test]
fn prefaces_are_hexadecimal() {
    assert_eq!(parse_preface(b"00aAfF99"), Ok("00aaff99".to_owned()));
    assert_eq!(parse_preface(b"00xx"), Err(NetworkError::InvalidPreface));
}

#[test]
fn sizes_are_limited() {
    assert_eq!(handshake_size(4096), Ok(4096));
    assert_eq!(handshake_size(4097), Err(NetworkError::HandshakeTooLarge));
    assert_eq!(record_size(60_032), Ok(60_032));
    assert_eq!(record_size(60_033), Err(NetworkError::RecordTooLarge));
}

#[test]
fn connections_need_the_peers_key() {
    let left = test_config("left");
    let right = test_config("right");
    let bad = |key: &str| Peer { name: "n".into(), public_key: key.into() };
    assert_eq!(
        start_connection(&left, &bad("zz"), true).err(),
        Some(NetworkError::PeerKeyNotHex)
    );
    assert_eq!(
        start_connection(&left, &bad(&"00".repeat(57)), true).err(),
        Some(NetworkError::PeerKeyLength)
    );
    // A stranger's handshake is refused.
    let stranger = test_config("stranger");
    let mut a = start_connection(&stranger, &as_peer(&right), true).unwrap();
    let mut b = start_connection(&right, &as_peer(&left), false).unwrap();
    let message = handshake_message(&mut a, &[]).unwrap();
    assert_eq!(handshake_payload(&mut b, &message), Err(NetworkError::Handshake));
}

#[test]
fn records_arrive_in_order_and_once() {
    let (mut a, mut b) = connected();
    let first = encrypt_record(&mut a, b"first").unwrap();
    let second = encrypt_record(&mut a, b"second").unwrap();
    assert_ne!(&first[..5], b"first");
    assert_eq!(first.len(), 5 + 16);
    assert_eq!(decrypt_record(&mut b, &second), Err(NetworkError::Decryption));
    assert_eq!(decrypt_record(&mut b, &first).unwrap(), b"first");
    assert_eq!(decrypt_record(&mut b, &first), Err(NetworkError::Decryption));
    assert_eq!(decrypt_record(&mut b, &second).unwrap(), b"second");
    let back = encrypt_record(&mut b, b"back").unwrap();
    assert_eq!(decrypt_record(&mut a, &back).unwrap(), b"back");
    assert_eq!(
        encrypt_record(&mut a, &vec![0; 70_000]),
        Err(NetworkError::Encryption)
    );
}

#[test]
fn connection_carries_a_large_message() {
    let (mut a, mut b) = connected();
    let message: Vec<u8> = (0..16 * 1024 * 1024_usize).map(|i| (i % 251) as u8).collect();
    let mut assembly = Assembly::new();
    let chunks = fragment(&message, 7);
    let last = chunks.len() - 1;
    for (i, chunk) in chunks.iter().enumerate() {
        let record = encrypt_record(&mut a, chunk).unwrap();
        assert!(record_size(record.len() as u32).is_ok());
        let plain = decrypt_record(&mut b, &record).unwrap();
        assert_eq!(assembly.accept(&plain), Ok(i == last));
    }
    assert!(assembly.all == message);
}

#[test]
fn chunks_have_headers() {
    assert_eq!(fragment(&[], 1).len(), 0);
    let chunks = fragment(&vec![9; CHUNK_CONTENT + 1], 0x0102);
    assert_eq!(chunks.len(), 2);
    assert_eq!(&chunks[0][..16], &[0, 0, 0, 0, 0, 0, 1, 2, 0, 0, 0, 0, 0, 0, 0, 2]);
    assert_eq!(&chunks[1][..16], &[0, 0, 0, 0, 0, 0, 1, 2, 0, 0, 0, 1, 0, 0, 0, 2]);
    assert_eq!(chunks[0].len(), 60_000);
    assert_eq!(&chunks[1][16..], &[9]);
}

#[test]
fn chunks_out_of_place_are_refused() {
    let chunks = fragment(&vec![9; CHUNK_CONTENT + 1], 1);
    let other = fragment(&vec![9; CHUNK_CONTENT + 1], 2);
    let mut assembly = Assembly::new();
    assert_eq!(assembly.accept(&chunks[0][..15]), Err(FrameError::ShortChunk));
    assert_eq!(assembly.accept(&chunks[1]), Err(FrameError::WrongSequence));
    assert_eq!(assembly.accept(&chunks[0]), Ok(false));
    assert_eq!(assembly.accept(&other[1]), Err(FrameError::WrongSequence));
    assert_eq!(assembly.accept(&chunks[1]), Ok(true));

    let mut endless = chunks[0].clone();
    endless[12..16].copy_from_slice(&[0, 0, 2, 1]);
    assert_eq!(Assembly::new().accept(&endless), Err(FrameError::WrongSequence));
    endless[12..16].copy_from_slice(&[0, 0, 0, 0]);
    assert_eq!(Assembly::new().accept(&endless), Err(FrameError::WrongSequence));

    let mut full = Assembly { all: vec![0; 17_039_360], group: None, index: 0 };
    assert_eq!(full.accept(&chunks[0]), Err(FrameError::TooLarge));
}

fn address(is_v6: bool, ip: u128) -> Address {
    Address { is_v6, ip, port: 0, flow: 0, scope: 0 }
}

#[test]
fn services_are_reached_over_the_older_protocol_first() {
    let six = address(true, 1);
    let four = address(false, 2);
    assert_eq!(service_addr(&vec![], 9), None);
    assert_eq!(service_addr(&vec![six, four], 9).unwrap().ip, 2);
    assert_eq!(service_addr(&vec![six, four], 9).unwrap().port, 9);
    assert_eq!(service_addr(&vec![six, address(true, 3)], 9).unwrap().ip, 1);
    let known = || Some("1".to_owned());
    assert_eq!(resolved_peer(known(), Some("p".into()), &vec![six], 9).unwrap().0, "p");
    assert_eq!(resolved_peer(Some("2".into()), Some("p".into()), &vec![six], 9), None);
    assert_eq!(resolved_peer(None, Some("p".into()), &vec![six], 9), None);
    assert_eq!(resolved_peer(known(), None, &vec![six], 9), None);
    assert_eq!(resolved_peer(known(), Some("p".into()), &vec![], 9), None);
}

#[test]
fn announced_hosts_are_cut() {
    assert_eq!(announced_host("abc"), "abc.local.");
    assert_eq!(announced_host(&"a".repeat(40)), format!("{}.local.", "a".repeat(32)));
}

#[test]
fn handshake_messages_have_known_lengths() {
    let left = test_config("left");
    let right = test_config("right");
    let mut a = start_pairing(&left, true).unwrap();
    let mut b = start_pairing(&right, false).unwrap();
    assert_eq!(handshake_message(&mut a, &vec![0; 65_536]), Err(NetworkError::Handshake));
    assert_eq!(handshake_message(&mut a, &vec![0; 65_504]), Err(NetworkError::Handshake));
    let first = handshake_message(&mut a, b"abc").unwrap();
    assert_eq!(first.len(), 3 + 32);
    handshake_payload(&mut b, &first).unwrap();
    assert_eq!(pairing_facts(&a).1, pairing_facts(&b).1);
    let second = handshake_message(&mut b, b"abc").unwrap();
    assert_eq!(second.len(), 3 + 96);
    handshake_payload(&mut a, &second).unwrap();
    assert_eq!(pairing_facts(&a).1, pairing_facts(&b).1);
    let seen = pairing_facts(&a).1;
    assert_eq!(handshake_message(&mut a, &vec![0; 65_472]), Err(NetworkError::Handshake));
    assert_eq!(pairing_facts(&a).1, seen);
    let third = handshake_message(&mut a, &vec![0; 65_471]).unwrap();
    assert_eq!(third.len(), 65_535);

    let mut a = start_connection(&left, &as_peer(&right), true).unwrap();
    let mut b = start_connection(&right, &as_peer(&left), false).unwrap();
    let first = handshake_message(&mut a, &[]).unwrap();
    assert_eq!(first.len(), 48);
    handshake_payload(&mut b, &first).unwrap();
    assert_eq!(handshake_message(&mut b, &[1]).unwrap().len(), 49);
}

#[test]
fn handshakes_take_turns() {
    let left = test_config("left");
    let right = test_config("right");
    let mut a = start_connection(&left, &as_peer(&right), true).unwrap();
    let mut b = start_connection(&right, &as_peer(&left), false).unwrap();
    assert_eq!(handshake_message(&mut b, &[]), Err(NetworkError::Handshake));
    let first = handshake_message(&mut a, b"hello").unwrap();
    assert_eq!(handshake_message(&mut a, &[]), Err(NetworkError::Handshake));
    assert_eq!(handshake_payload(&mut b, &first).unwrap(), b"hello");
    assert_eq!(handshake_payload(&mut b, &first), Err(NetworkError::Handshake));
    let early = start_pairing(&left, true).unwrap();
    assert_eq!(finish_handshake(early).err(), Some(NetworkError::Handshake));
    let second = handshake_message(&mut b, &[]).unwrap();
    assert_eq!(handshake_payload(&mut a, &second).unwrap(), b"");
    assert_eq!(handshake_message(&mut a, &[]), Err(NetworkError::Handshake));
    assert!(finish_handshake(a).is_ok());
    assert!(finish_handshake(b).is_ok());

    let mut broken = test_config("broken");
    broken.private_key = "zz".into();
    assert_eq!(
        start_pairing(&broken, true).err(),
        Some(NetworkError::Identity(ConfigError::PrivateKeyNotHex))
    );
    broken.public_key = "00".into();
    assert_eq!(
        own_identity(&broken).err(),
        Some(NetworkError::Identity(ConfigError::PublicKeyLength))
    );
}
