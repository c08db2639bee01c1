use lan_cat::gui::{can_share, choose_peer, peer_label, CopyPrompt, PromptKeys};
use lan_cat::ipc::{fits, PeerView};

fn peer(id: &str, connected: bool) -> PeerView {
    PeerView { id: id.into(), name: format!("name-{id}"), connected }
}

const NO_KEYS: PromptKeys =
    PromptKeys { escape: false, up: false, down: false, tab: false, confirm: false };

#[test]
fn the_wanted_peer_comes_before_a_connected_one() {
    let peers = vec![peer("aa", false), peer("ab", true), peer("bb", true)];
    assert_eq!(choose_peer(&peers, &None), Some(1));
    assert_eq!(choose_peer(&peers, &Some("b".into())), Some(2));
    assert_eq!(choose_peer(&peers, &Some("a".into())), Some(0));
    assert_eq!(choose_peer(&peers, &Some("x".into())), Some(1));
    assert_eq!(choose_peer(&vec![peer("a", false)], &None), None);
}

#[test]
fn only_connected_peers_get_files() {
    let peers = vec![peer("a", false), peer("b", true)];
    assert!(!can_share(&peers, None, 1));
    assert!(!can_share(&peers, Some(0), 1));
    assert!(can_share(&peers, Some(1), 1));
    assert!(!can_share(&peers, Some(1), 0));
    assert!(!can_share(&peers, Some(2), 1));
    assert_eq!(peer_label(&peers[0]), "name-a (offline)");
    assert_eq!(peer_label(&peers[1]), "name-b");
}

#[test]
fn copying_sends_nothing_by_default() {
    let mut prompt = CopyPrompt::new();
    assert!(!prompt.select(PromptKeys { confirm: true, ..NO_KEYS }));
    let action = prompt.act(true, false, false);
    assert!(action.close && !action.send);
    assert!(prompt.select(PromptKeys { escape: true, down: true, ..NO_KEYS }));
    assert!(!prompt.sync);
    assert!(!prompt.select(PromptKeys { down: true, ..NO_KEYS }));
    assert!(prompt.sync);
    let action = prompt.act(true, false, false);
    assert!(!action.close && action.send);
    prompt.select(PromptKeys { tab: true, ..NO_KEYS });
    assert!(!prompt.sync);
    prompt.select(PromptKeys { tab: true, ..NO_KEYS });
    prompt.select(PromptKeys { up: true, ..NO_KEYS });
    assert!(!prompt.sync);
    assert!(prompt.act(false, true, false).close);
    assert!(prompt.act(false, false, true).send);
}

#[test]
fn long_requests_are_refused() {
    assert!(fits(&"x".repeat(4096)));
    assert!(!fits(&"x".repeat(4097)));
    assert!(!fits(&"ü".repeat(2049)));
}
