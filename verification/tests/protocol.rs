use lan_cat::ordering::VersionVector;
use lan_cat::protocol::{
    validate_text, ClipboardEvent, ClipboardFile, ClipboardPayload, ProtocolError, MAX_FILES,
    MAX_PAYLOAD_BYTES, MAX_TEXT_BYTES, PROTOCOL_VERSION,
};

fn file(name: &str, data: &[u8]) -> ClipboardFile {
    ClipboardFile { name: name.to_owned(), data: data.to_vec() }
}

fn with_files(files: Vec<ClipboardFile>) -> ClipboardPayload {
    ClipboardPayload { files, ..Default::default() }
}

#[test]
fn event_detects_tamper() {
    let mut clock = VersionVector::default();
    let seq = clock.increment("one");
    let mut event =
        ClipboardEvent::new("one".into(), seq, clock, ClipboardPayload::text("hello".into()))
            .unwrap();
    assert!(event.validate().is_ok());
    event.payload.text.as_mut().unwrap().push('!');
    assert!(event.validate().is_err());
}

#[test]
fn text_limit_enforced() {
    assert!(validate_text("").is_err());
    assert!(validate_text(&"x".repeat(MAX_TEXT_BYTES + 1)).is_err());
}

#[test]
fn text_at_the_limit_is_accepted() {
    assert_eq!(validate_text(""), Err(ProtocolError::EmptyText));
    assert_eq!(validate_text(&"x".repeat(MAX_TEXT_BYTES)), Ok(()));
    assert_eq!(
        validate_text(&"x".repeat(MAX_TEXT_BYTES + 1)),
        Err(ProtocolError::TextTooLarge)
    );
}

#[test]
fn protocol_constants() {
    assert_eq!(PROTOCOL_VERSION, 4);
    assert_eq!(MAX_PAYLOAD_BYTES, 16 * 1024 * 1024);
    assert_eq!(MAX_FILES, 64);
}

#[test]
fn payload_faults() {
    assert_eq!(ClipboardPayload::default().validate(), Err(ProtocolError::EmptyPayload));
    assert_eq!(
        ClipboardPayload::text("x".repeat(MAX_PAYLOAD_BYTES + 1)).validate(),
        Err(ProtocolError::PayloadTooLarge)
    );
    assert_eq!(ClipboardPayload::text("x".repeat(MAX_PAYLOAD_BYTES)).validate(), Ok(()));
    let many = (0..65).map(|i| file(&format!("f{i}"), b"x")).collect();
    assert_eq!(with_files(many).validate(), Err(ProtocolError::TooManyFiles));
    let enough = (0..64).map(|i| file(&format!("f{i}"), b"x")).collect();
    assert_eq!(with_files(enough).validate(), Ok(()));
    assert_eq!(
        with_files(vec![file("../a", b"x")]).validate(),
        Err(ProtocolError::InvalidFileName)
    );
    assert_eq!(
        with_files(vec![file("a", b"x"), file("a", b"y")]).validate(),
        Err(ProtocolError::DuplicateFileName)
    );
}

#[test]
fn event_faults() {
    let mut clock = VersionVector::default();
    let sequence = clock.increment("one");
    let event = ClipboardEvent::new(
        "one".into(),
        sequence,
        clock,
        ClipboardPayload::text("hello".into()),
    )
    .unwrap();
    assert_eq!(event.validate(), Ok(()));
    assert_eq!(event.digest, event.payload.digest());

    let mut late = event.clone();
    late.sequence = 2;
    assert_eq!(late.validate(), Err(ProtocolError::SequenceMismatch));

    let mut stolen = event.clone();
    stolen.origin = "two".into();
    assert_eq!(stolen.validate(), Err(ProtocolError::SequenceMismatch));

    let mut changed = event.clone();
    changed.digest[0] ^= 1;
    assert_eq!(changed.validate(), Err(ProtocolError::DigestMismatch));

    assert!(ClipboardEvent::new(
        "one".into(),
        1,
        VersionVector::default(),
        ClipboardPayload::default()
    )
    .is_err());
}

#[test]
fn event_ids_are_random_uuids() {
    let made = || {
        ClipboardEvent::new(
            "one".into(),
            1,
            VersionVector::default(),
            ClipboardPayload::text("x".into()),
        )
        .unwrap()
        .id
    };
    let (a, b) = (made(), made());
    assert_ne!(a, b);
    assert_eq!((a >> 76) & 0xf, 4);
    assert_eq!((a >> 62) & 0x3, 2);
}

#[test]
fn digest_is_blake3_of_the_framed_parts() {
    let text = ClipboardPayload::text("x".into());
    let html = ClipboardPayload { html: Some("x".into()), ..Default::default() };
    assert_ne!(text.digest(), html.digest());
    assert_eq!(text.digest(), ClipboardPayload::text("x".into()).digest());
    let a = with_files(vec![file("ab", b"c")]);
    let b = with_files(vec![file("a", b"bc")]);
    assert_ne!(a.digest(), b.digest());
    assert_ne!(text.digest(), [0_u8; 32]);
}

#[test]
fn payloads_are_compared_by_content() {
    let a = with_files(vec![file("a", b"one")]);
    assert!(a.same(&a.clone()));
    assert!(!a.same(&with_files(vec![file("a", b"two")])));
    assert!(!a.same(&ClipboardPayload::text("a".into())));
}
