use lan_cat::clipboard::Change;
use lan_cat::config::{Config, Peer};
use lan_cat::daemon::peers::{accepts, newcomer, relay, should_dial, Backoff, Relay};
use lan_cat::daemon::requests::{
    find_peer, pause, peer_list, resume, status, unpair, Control,
};
use lan_cat::daemon::{accepts_greeting, Notice, Reception, Recent, Sync};
use lan_cat::ordering::VersionVector;
use lan_cat::protocol::{ClipboardEvent, ClipboardPayload, Message, ProtocolError};
use lan_cat::strmap::StrMap;

fn trusted(ids: &[&str]) -> StrMap<Peer> {
    let mut peers = StrMap::new();
    for id in ids {
        peers.insert(
            (*id).to_owned(),
            Peer { name: format!("name-{id}"), public_key: "00".repeat(32) },
        );
    }
    peers
}

fn names(ids: &[&str]) -> StrMap<()> {
    let mut map = StrMap::new();
    for id in ids {
        map.insert((*id).to_owned(), ());
    }
    map
}

fn daemon(id: &str) -> Sync {
    Sync::new(id.into(), VersionVector::default())
}

fn text(value: &str) -> ClipboardPayload {
    ClipboardPayload::text(value.into())
}

fn holds(sync: &Sync) -> Option<String> {
    sync.current.as_ref().and_then(|event| event.payload.text.clone())
}

#[test]
fn copies_reach_a_trusting_peer_once() {
    let mut a = daemon("a");
    let mut b = daemon("b");
    let event = a.copy(text("hello")).unwrap();
    assert_eq!(event.origin, "a");
    assert_eq!(event.sequence, 1);
    let peers = trusted(&["a"]);
    assert_eq!(b.receive(&peers, false, event.clone()), Reception::Applied(event.clone()));
    assert_eq!(holds(&b).as_deref(), Some("hello"));
    assert_eq!(b.receive(&peers, false, event), Reception::Ignored);
}

#[test]
fn faulty_copies_are_refused() {
    let mut a = daemon("a");
    assert_eq!(a.copy(ClipboardPayload::default()), Err(ProtocolError::EmptyPayload));
    assert_eq!(a.current, None);
    assert_eq!(a.copy(text("x")).unwrap().sequence, 2);
}

#[test]
fn untrusted_invalid_and_paused_events_change_nothing() {
    let mut a = daemon("a");
    let mut b = daemon("b");
    let event = a.copy(text("hello")).unwrap();
    assert_eq!(b.receive(&trusted(&["c"]), false, event.clone()), Reception::Untrusted);
    assert_eq!(b.receive(&trusted(&["a"]), true, event.clone()), Reception::Ignored);
    let mut forged = event.clone();
    forged.sequence = 9;
    assert_eq!(
        b.receive(&trusted(&["a"]), false, forged),
        Reception::Invalid(ProtocolError::SequenceMismatch)
    );
    assert_eq!(b.current, None);
    assert_eq!(b.clock, VersionVector::default());
    assert!(matches!(b.receive(&trusted(&["a"]), false, event), Reception::Applied(_)));
}

#[test]
fn concurrent_copies_converge() {
    let mut a = daemon("a");
    let mut b = daemon("b");
    let of_a = a.copy(text("from a")).unwrap();
    let of_b = b.copy(text("from b")).unwrap();
    let peers = trusted(&["a", "b"]);
    assert_eq!(a.receive(&peers, false, of_b.clone()), Reception::Applied(of_b.clone()));
    assert_eq!(b.receive(&peers, false, of_a.clone()), Reception::Passed(of_a.clone()));
    assert_eq!(holds(&a), holds(&b));
    assert_eq!(holds(&a).as_deref(), Some("from b"));

    let mut c = daemon("c");
    c.receive(&peers, false, of_a.clone());
    c.receive(&peers, false, of_b.clone());
    let mut d = daemon("d");
    d.receive(&peers, false, of_b);
    d.receive(&peers, false, of_a);
    assert_eq!(holds(&c), holds(&d));
}

#[test]
fn later_copy_beats_what_was_received() {
    let mut a = daemon("a");
    let mut b = daemon("b");
    let peers = trusted(&["a", "b"]);
    let first = b.copy(text("first")).unwrap();
    a.receive(&peers, false, first);
    let second = a.copy(text("second")).unwrap();
    assert!(matches!(b.receive(&peers, false, second), Reception::Applied(_)));
    assert_eq!(holds(&b).as_deref(), Some("second"));
}

#[test]
fn pausing_discards_and_resuming_starts_anew() {
    let mut a = daemon("a");
    a.copy(text("old")).unwrap();
    assert!(a.replay().is_some());
    a.pause();
    assert_eq!(a.replay(), None);
    assert!(a.current.is_some());
    a.resume();
    assert_eq!(a.replay(), None);
    assert_eq!(a.current, None);
}

#[test]
fn copies_are_discarded_while_paused() {
    let mut a = daemon("a");
    a.copy(text("old")).unwrap();
    let clock = a.clock.clone();
    assert_eq!(a.notice(true, Change::Payload(text("new"))), Ok(Notice::Ignored));
    assert_eq!(
        a.notice(true, Change::Payload(ClipboardPayload::default())),
        Ok(Notice::Ignored)
    );
    assert_eq!(a.notice(true, Change::Files(vec![b"/f".to_vec()])), Ok(Notice::Ignored));
    assert_eq!(a.clock, clock);
    assert_eq!(holds(&a).as_deref(), Some("old"));

    assert_eq!(
        a.notice(false, Change::Files(vec![b"/f".to_vec()])),
        Ok(Notice::Ask(vec![b"/f".to_vec()]))
    );
    assert_eq!(a.clock, clock);
    let Ok(Notice::Made(event)) = a.notice(false, Change::Payload(text("new"))) else {
        panic!("no event");
    };
    assert_eq!((event.origin.as_str(), event.sequence), ("a", 2));
    assert_eq!(holds(&a).as_deref(), Some("new"));
    assert_eq!(
        a.notice(false, Change::Payload(ClipboardPayload::default())),
        Err(ProtocolError::EmptyPayload)
    );
}

#[test]
fn events_have_random_identifiers() {
    let mut a = daemon("a");
    let first = a.copy(text("x")).unwrap().id;
    let second = a.copy(text("x")).unwrap().id;
    assert_ne!(first, second);
    for id in [first, second] {
        assert_eq!((id >> 76) & 0xf, 4);
        assert_eq!((id >> 62) & 3, 2);
    }
}

#[test]
fn the_oldest_event_is_forgotten() {
    let mut recent = Recent::new();
    for id in 0..4096_u128 {
        recent.remember(id);
    }
    assert!(recent.contains(0));
    recent.remember(4096);
    assert!(!recent.contains(0));
    assert!(recent.contains(1));
    assert!(recent.contains(4096));
    assert_eq!(recent.order.len(), 4096);
}

#[test]
fn greetings_name_version_and_device() {
    let a = daemon("a");
    let hello = a.greeting();
    assert!(accepts_greeting(&hello, "a"));
    assert!(!accepts_greeting(&hello, "b"));
    assert!(!accepts_greeting(&Message::Hello { version: 3, device_id: "a".into() }, "a"));
    assert!(!accepts_greeting(&Message::Ping, "a"));
}

#[test]
fn one_connection_per_pair() {
    assert!(accepts("b", "a"));
    assert!(!accepts("a", "b"));
    assert!(should_dial("a", "b", &names(&[]), &trusted(&["b"])));
    assert!(!should_dial("b", "a", &names(&[]), &trusted(&["a"])));
    assert!(!should_dial("a", "b", &names(&["b"]), &trusted(&["b"])));
    assert!(!should_dial("a", "b", &names(&[]), &trusted(&["c"])));
    assert!(newcomer("a", &names(&[]), &trusted(&["a"])).is_some());
    assert!(newcomer("a", &names(&["a"]), &trusted(&["a"])).is_none());
    assert!(newcomer("a", &names(&[]), &trusted(&["b"])).is_none());
}

#[test]
fn waits_double_up_to_a_minute() {
    let mut backoff = Backoff::new();
    let waits: Vec<u64> = (0..8).map(|_| backoff.wait()).collect();
    assert_eq!(waits, vec![1, 2, 4, 8, 16, 32, 60, 60]);
    backoff.connected();
    assert_eq!(backoff.wait(), 1);
}

#[test]
fn messages_are_not_sent_back() {
    let peers = trusted(&["a"]);
    assert_eq!(relay(&Some("a".into()), &None, "a", &peers), Relay::Skip);
    assert_eq!(relay(&Some("b".into()), &None, "a", &peers), Relay::Send);
    assert_eq!(relay(&None, &None, "a", &peers), Relay::Send);
    assert_eq!(relay(&None, &None, "c", &peers), Relay::Unpaired);
    assert_eq!(relay(&None, &Some("a".into()), "a", &peers), Relay::Send);
    assert_eq!(relay(&None, &Some("b".into()), "a", &peers), Relay::Skip);
    assert_eq!(relay(&None, &Some("b".into()), "c", &peers), Relay::Skip);
    assert_eq!(relay(&None, &Some("c".into()), "c", &peers), Relay::Unpaired);
}

#[test]
fn requests_are_answered() {
    let mut cfg = Config::create(Some("n".into())).unwrap();
    cfg.peers = trusted(&["aa11", "ab22", "bb33"]);
    assert_eq!(
        status(&cfg, "test", 2).message,
        "running; backend=test; paired=3; connected=2"
    );
    let (response, control) = pause(&mut cfg);
    assert!(response.ok && cfg.paused);
    assert_eq!(control, Control::Pause);
    assert_eq!(response.message, "Synchronization paused; queued content discarded.");
    assert_eq!(
        status(&cfg, "test", 0).message,
        "paused; backend=test; paired=3; connected=0"
    );
    let (response, control) = resume(&mut cfg);
    assert!(response.ok && !cfg.paused);
    assert_eq!(control, Control::Resume);
    assert_eq!(response.message, "Synchronization resumed from current clipboard baseline.");
}

#[test]
fn unpairing_needs_one_match() {
    let mut cfg = Config::create(Some("n".into())).unwrap();
    cfg.peers = trusted(&["aa11", "ab22", "bb33"]);
    assert_eq!(find_peer(&cfg.peers, "b").as_deref(), Some("bb33"));
    assert_eq!(find_peer(&cfg.peers, "a"), None);
    let (response, control) = unpair(&mut cfg, "a");
    assert!(!response.ok);
    assert_eq!(control, None);
    assert_eq!(response.message, "peer ID must uniquely match one trusted peer");
    assert_eq!(unpair(&mut cfg, "x").1, None);
    let (response, control) = unpair(&mut cfg, "ab");
    assert!(response.ok);
    assert_eq!(control, Some(Control::Wake));
    assert_eq!(response.message, "Unpaired ab22.");
    assert!(!cfg.peers.contains_key("ab22"));
    assert_eq!(cfg.peers.len(), 2);
    assert_eq!(relay(&None, &None, "ab22", &cfg.peers), Relay::Unpaired);
}

#[test]
fn peers_are_listed_with_their_state() {
    let mut cfg = Config::create(Some("n".into())).unwrap();
    cfg.peers = trusted(&["b", "a"]);
    let list = peer_list(&cfg, &names(&["b"]));
    assert_eq!(list.len(), 2);
    assert_eq!((list[0].id.as_str(), list[0].connected), ("a", false));
    assert_eq!((list[1].id.as_str(), list[1].connected), ("b", true));
    assert_eq!(list[1].name, "name-b");
}

#[test]
fn events_of_others_are_passed_on_unchanged() {
    let mut origin = daemon("o");
    let event: ClipboardEvent = origin.copy(text("x")).unwrap();
    let mut relay_daemon = daemon("r");
    let peers = trusted(&["o"]);
    let Reception::Applied(passed) = relay_daemon.receive(&peers, false, event.clone()) else {
        panic!("not applied");
    };
    assert_eq!(passed, event);
    let mut last = daemon("z");
    assert_eq!(last.receive(&peers, false, passed), Reception::Applied(event));
}
