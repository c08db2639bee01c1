//! The windows: which peer is chosen, what may be sent, and what the keys do.

use vstd::prelude::*;

use crate::daemon::requests;
use crate::ipc::PeerView;
use crate::protocol;
use crate::text;

verus! {

/// Whether a place is the first in a list at which something holds.
pub open spec fn is_first(peers: Seq<PeerView>, at: int, holds: spec_fn(PeerView) -> bool) -> bool {
    &&& 0 <= at < peers.len()
    &&& holds(peers[at])
    &&& forall|j: int| 0 <= j < at ==> !holds(#[trigger] peers[j])
}

/// Whether nothing in a list has something hold.
pub open spec fn holds_nowhere(peers: Seq<PeerView>, holds: spec_fn(PeerView) -> bool) -> bool {
    forall|j: int| 0 <= j < peers.len() ==> !holds(#[trigger] peers[j])
}

/// The peers whose id begins with what was asked for.
pub open spec fn wanted(prefix: Option<Seq<char>>) -> spec_fn(PeerView) -> bool {
    |peer: PeerView| prefix matches Some(prefix) && requests::begins(peer.id@, prefix)
}

/// The peers that are connected.
pub open spec fn connected() -> spec_fn(PeerView) -> bool {
    |peer: PeerView| peer.connected
}

/// Whether a peer is the one that is selected at first.
pub open spec fn selects(
    peers: Seq<PeerView>,
    preferred: Option<Seq<char>>,
    selected: Option<usize>,
) -> bool {
    let asked = wanted(preferred);
    match selected {
        Some(at) => is_first(peers, at as int, asked) || (holds_nowhere(peers, asked) && is_first(
            peers,
            at as int,
            connected(),
        )),
        None => holds_nowhere(peers, asked) && holds_nowhere(peers, connected()),
    }
}

/// The peer that is selected at first: the first whose id begins with what was
/// asked for, else the first that is connected.
pub fn choose_peer(peers: &Vec<PeerView>, preferred: &Option<String>) -> (selected: Option<usize>)
    ensures
        selects(peers@, protocol::words_of(*preferred), selected),
{
    let ghost asked = wanted(protocol::words_of(*preferred));
    let mut online: Option<usize> = None;
    let mut i: usize = 0;
    while i < peers.len()
        invariant
            i <= peers@.len(),
            asked == wanted(protocol::words_of(*preferred)),
            forall|j: int| 0 <= j < i ==> !asked(#[trigger] peers@[j]),
            match online {
                Some(at) => at < i && is_first(peers@, at as int, connected()),
                None => forall|j: int| 0 <= j < i ==> !(#[trigger] peers@[j]).connected,
            },
        decreases peers@.len() - i,
    {
        let matched = match preferred {
            Some(prefix) => text::str_starts_with(peers[i].id.as_str(), prefix.as_str()),
            None => false,
        };
        if matched {
            assert(is_first(peers@, i as int, asked));
            return Some(i);
        }
        assert(!asked(peers@[i as int]));
        if online.is_none() && peers[i].connected {
            online = Some(i);
            assert(is_first(peers@, i as int, connected()));
        }
        i = i + 1;
    }
    online
}

/// What a peer is called in the list.
pub open spec fn label_of(name: Seq<char>, connected: bool) -> Seq<char> {
    name + if connected {
        Seq::<char>::empty()
    } else {
        " (offline)"@
    }
}

/// What a peer is called in the list.
pub fn peer_label(peer: &PeerView) -> (label: String)
    ensures
        label@ == label_of(peer.name@, peer.connected),
{
    let mut label = peer.name.clone();
    if !peer.connected {
        label.append(" (offline)");
    }
    assert(peer.connected ==> label@ =~= peer.name@ + Seq::<char>::empty());
    label
}

/// Whether files can be sent.
pub open spec fn may_send(peers: Seq<PeerView>, selected: Option<usize>, files: usize) -> bool {
    files > 0 && (selected matches Some(at) && at < peers.len() && peers[at as int].connected)
}

/// Whether files can be sent: there are some, and a connected peer is selected.
pub fn can_share(peers: &Vec<PeerView>, selected: Option<usize>, files: usize) -> (enabled: bool)
    ensures
        enabled == may_send(peers@, selected, files),
{
    match selected {
        Some(at) => files > 0 && at < peers.len() && peers[at].connected,
        None => false,
    }
}

/// What the user did in the window that asks about copied files.
#[derive(Clone, Copy, Debug, PartialEq, Eq, Structural)]
pub struct PromptKeys {
    pub escape: bool,
    pub up: bool,
    pub down: bool,
    pub tab: bool,
    pub confirm: bool,
}

/// The window that asks about copied files.
#[derive(Clone, Copy, Debug, PartialEq, Eq, Structural)]
pub struct CopyPrompt {
    /// Whether the second choice is selected: to send the files.
    pub sync: bool,
}

/// What the window does.
#[derive(Clone, Copy, Debug, PartialEq, Eq, Structural)]
pub struct PromptAction {
    /// It closes, and nothing is sent.
    pub close: bool,
    /// The files are sent.
    pub send: bool,
}

impl CopyPrompt {
    /// The choice after some keys: up selects the first, down the second, and
    /// the tabulator the other one.
    pub open spec fn moved(self, keys: PromptKeys) -> bool {
        let after_up = self.sync && !keys.up;
        let after_down = after_up || keys.down;
        if keys.tab {
            !after_down
        } else {
            after_down
        }
    }

    /// The choice after some keys, one of which may close the window.
    pub open spec fn selected(self, keys: PromptKeys) -> bool {
        if keys.escape {
            self.sync
        } else {
            self.moved(keys)
        }
    }

    /// The first choice is selected: to send nothing.
    pub fn new() -> (prompt: Self)
        ensures
            !prompt.sync,
    {
        CopyPrompt { sync: false }
    }

    /// Takes in the keys that move the selection. Escape closes the window and
    /// leaves the selection alone.
    pub fn select(&mut self, keys: PromptKeys) -> (closed: bool)
        ensures
            closed == keys.escape,
            final(self).sync == old(self).selected(keys),
    {
        if keys.escape {
            return true;
        }
        if keys.up {
            self.sync = false;
        }
        if keys.down {
            self.sync = true;
        }
        if keys.tab {
            self.sync = !self.sync;
        }
        false
    }

    /// What a click on one of the choices or the key that confirms the selected
    /// one does.
    pub open spec fn answered(self, confirm: bool, normal: bool, sync: bool) -> PromptAction {
        PromptAction {
            close: normal || (confirm && !self.sync),
            send: sync || (confirm && self.sync),
        }
    }

    /// What a click on one of the choices or the key that confirms the selected
    /// one does.
    pub fn act(&self, confirm: bool, normal: bool, sync: bool) -> (action: PromptAction)
        ensures
            action == self.answered(confirm, normal, sync),
    {
        PromptAction {
            close: normal || (confirm && !self.sync),
            send: sync || (confirm && self.sync),
        }
    }
}

/// Unless the user moves to the second choice or clicks on it, nothing is sent,
/// and confirming closes the window.
pub proof fn law_default_sends_nothing(prompt: CopyPrompt, keys: PromptKeys, normal: bool)
    requires
        !prompt.sync,
        !keys.down,
        !keys.tab,
    ensures
        !prompt.moved(keys),
        ({
            let after = CopyPrompt { sync: prompt.moved(keys) };
            &&& !after.answered(keys.confirm, normal, false).send
            &&& keys.confirm ==> after.answered(keys.confirm, normal, false).close
        }),
{
}

/// The peer that is asked for is selected if there is one, connected or not; else the
/// first that is connected; else none.
pub proof fn law_asked_for_peer_is_selected(
    peers: Seq<PeerView>,
    preferred: Option<Seq<char>>,
    selected: Option<usize>,
    at: int,
)
    requires
        selects(peers, preferred, selected),
        0 <= at < peers.len(),
    ensures
        preferred is Some && requests::begins(peers[at].id@, preferred->0) ==> selected is Some
            && selected->0 <= at && requests::begins(
            peers[selected->0 as int].id@,
            preferred->0,
        ),
        peers[at].connected ==> selected is Some,
        preferred is None && peers[at].connected ==> selected->0 <= at
            && peers[selected->0 as int].connected,
        selected is Some ==> selected->0 < peers.len() && (peers[selected->0 as int].connected || (
        preferred is Some && requests::begins(peers[selected->0 as int].id@, preferred->0))),
{
    let asked = wanted(preferred);
    let online = connected();
    assert(asked(peers[at]) == (preferred is Some && requests::begins(
        peers[at].id@,
        preferred->0,
    )));
    assert(online(peers[at]) == peers[at].connected);
    if selected is Some {
        let i = selected->0 as int;
        assert(asked(peers[i]) == (preferred is Some && requests::begins(
            peers[i].id@,
            preferred->0,
        )));
        assert(online(peers[i]) == peers[i].connected);
    }
}

/// Only a peer that is not connected is marked so, behind its name.
pub proof fn law_labels_start_with_the_name(name: Seq<char>, connected: bool)
    ensures
        connected ==> label_of(name, connected) == name,
        !connected ==> label_of(name, connected) == name + " (offline)"@,
        !connected ==> label_of(name, connected).len() == name.len() + 10,
{
    reveal_strlit(" (offline)");
    assert(name + Seq::<char>::empty() =~= name);
}

/// Files are sent only to a peer that is selected and connected, and only if there are
/// any.
pub proof fn law_only_connected_peers_are_sent_to(
    peers: Seq<PeerView>,
    at: usize,
    files: usize,
)
    requires
        at < peers.len(),
    ensures
        may_send(peers, Some(at), files) <==> files > 0 && peers[at as int].connected,
        !may_send(peers, None, files),
{
}

/// Up selects the first choice, down the second, and the tabulator the other one; escape
/// leaves the choice alone.
pub proof fn law_keys_move_the_choice(prompt: CopyPrompt, keys: PromptKeys)
    ensures
        keys.escape ==> prompt.selected(keys) == prompt.sync,
        !keys.escape && keys.up && !keys.down && !keys.tab ==> !prompt.selected(keys),
        !keys.escape && keys.down && !keys.tab ==> prompt.selected(keys),
        !keys.escape && keys.tab && !keys.up && !keys.down ==> prompt.selected(keys)
            == !prompt.sync,
        !keys.up && !keys.down && !keys.tab ==> prompt.selected(keys) == prompt.sync,
{
}

/// A click does what it says; confirming does what is selected: it sends the files or
/// closes the window, and never both.
pub proof fn law_choice_is_carried_out(prompt: CopyPrompt, confirm: bool, normal: bool, sync: bool)
    ensures
        sync ==> prompt.answered(confirm, normal, sync).send,
        normal ==> prompt.answered(confirm, normal, sync).close,
        confirm && !normal && !sync ==> prompt.answered(confirm, normal, sync).send == prompt.sync
            && prompt.answered(confirm, normal, sync).close == !prompt.sync,
        !confirm && !normal && !sync ==> !prompt.answered(confirm, normal, sync).send
            && !prompt.answered(confirm, normal, sync).close,
        !sync && !confirm ==> !prompt.answered(confirm, normal, sync).send,
{
}

} // verus!
