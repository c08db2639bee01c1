//! What the daemon does when it is asked on its socket.

use vstd::prelude::*;

use crate::config::{Config, Peer};
use crate::ipc::{PeerView, Response};
use crate::strmap::StrMap;
use crate::text;

verus! {

/// What has to be done with an answer once the configuration is saved.
#[derive(Clone, Copy, Debug, PartialEq, Eq, Structural)]
pub enum Control {
    Pause,
    Resume,
    /// Wake all connections up, so that they see who is trusted.
    Wake,
}

/// The state of the daemon in words.
pub open spec fn status_text(
    paused: bool,
    backend: Seq<char>,
    paired: nat,
    connected: nat,
) -> Seq<char> {
    (if paused {
        "paused"@
    } else {
        "running"@
    }) + "; backend="@ + backend + "; paired="@ + text::decimal(paired) + "; connected="@
        + text::decimal(connected)
}

/// Reports the state of the daemon.
pub fn status(config: &Config, backend: &str, connected: usize) -> (response: Response)
    ensures
        response.ok,
        response.data is None,
        response.message@ == status_text(
            config.paused,
            backend@,
            config.peers.key_order().len(),
            connected as nat,
        ),
{
    let mut message = if config.paused {
        "paused".to_owned()
    } else {
        "running".to_owned()
    };
    message.append("; backend=");
    message.append(backend);
    message.append("; paired=");
    message.append(text::number_text(config.peers.len() as u128).as_str());
    message.append("; connected=");
    message.append(text::number_text(connected as u128).as_str());
    Response { ok: true, message, data: None }
}

/// Whether the synchronisation is paused, and the answer says so.
pub open spec fn pauses(before: Config, after: Config, answer: (Response, Control)) -> bool {
    &&& after == (Config { paused: true, ..before })
    &&& answer.0.ok
    &&& answer.0.data is None
    &&& answer.0.message@ == "Synchronization paused; queued content discarded."@
    &&& answer.1 == Control::Pause
}

/// Whether the synchronisation is resumed, and the answer says so.
pub open spec fn resumes(before: Config, after: Config, answer: (Response, Control)) -> bool {
    &&& after == (Config { paused: false, ..before })
    &&& answer.0.ok
    &&& answer.0.data is None
    &&& answer.0.message@ == "Synchronization resumed from current clipboard baseline."@
    &&& answer.1 == Control::Resume
}

/// Pauses the synchronisation.
pub fn pause(config: &mut Config) -> (answer: (Response, Control))
    ensures
        pauses(*old(config), *final(config), answer),
{
    config.paused = true;
    (
        Response {
            ok: true,
            message: "Synchronization paused; queued content discarded.".to_owned(),
            data: None,
        },
        Control::Pause,
    )
}

/// Resumes the synchronisation.
pub fn resume(config: &mut Config) -> (answer: (Response, Control))
    ensures
        resumes(*old(config), *final(config), answer),
{
    config.paused = false;
    (
        Response {
            ok: true,
            message: "Synchronization resumed from current clipboard baseline.".to_owned(),
            data: None,
        },
        Control::Resume,
    )
}

/// Whether a text begins with another, byte by byte.
pub open spec fn begins(text: Seq<char>, prefix: Seq<char>) -> bool {
    text::bytes_of(prefix).is_prefix_of(text::bytes_of(text))
}

/// Whether exactly one trusted peer has an id that begins with a prefix, and it
/// is this one.
pub open spec fn only_match<T>(peers: Map<Seq<char>, T>, prefix: Seq<char>, id: Seq<char>) -> bool {
    &&& peers.dom().contains(id)
    &&& begins(id, prefix)
    &&& forall|other: Seq<char>|
        #[trigger] peers.dom().contains(other) && begins(other, prefix) ==> other == id
}

/// The one trusted peer whose id begins with a prefix, if it is the only one.
pub fn find_peer(peers: &StrMap<Peer>, prefix: &str) -> (found: Option<String>)
    ensures
        match found {
            Some(id) => only_match(peers@, prefix@, id@),
            None => !exists|id: Seq<char>| only_match(peers@, prefix@, id),
        },
{
    let n: usize = peers.len();
    let ghost keys = peers.key_order();
    let mut found: Option<String> = None;
    let mut at: Ghost<int> = Ghost(0);
    let mut i: usize = 0;
    while i < n
        invariant
            i <= n,
            n == keys.len(),
            keys == peers.key_order(),
            keys.no_duplicates(),
            keys.to_set() == peers@.dom(),
            match found {
                Some(id) => 0 <= at@ < i && keys[at@] == id@ && begins(id@, prefix@)
                    && forall|j: int|
                    0 <= j < i && begins(#[trigger] keys[j], prefix@) ==> j == at@,
                None => forall|j: int| 0 <= j < i ==> !begins(#[trigger] keys[j], prefix@),
            },
        decreases n - i,
    {
        let key = peers.key_at(i);
        if text::str_starts_with(key, prefix) {
            match &found {
                Some(_) => {
                    proof {
                        assert(keys[at@] != keys[i as int]);
                        assert forall|id: Seq<char>| !only_match(peers@, prefix@, id) by {
                            assert(keys.to_set().contains(keys[at@]));
                            assert(keys.to_set().contains(keys[i as int]));
                            assert(peers@.dom().contains(keys[at@]));
                            assert(peers@.dom().contains(keys[i as int]));
                        }
                    }
                    return None;
                },
                None => {
                    found = Some(key.to_owned());
                    proof {
                        at@ = i as int;
                    }
                },
            }
        }
        i = i + 1;
    }
    proof {
        assert forall|other: Seq<char>| #[trigger]
            peers@.dom().contains(other) && begins(other, prefix@) implies found matches Some(id)
            && other == id@ by {
            assert(keys.to_set().contains(other));
            let j = keys.index_of(other);
            assert(keys[j] == other);
        }
        if found is Some {
            assert(keys.to_set().contains(keys[at@]));
        }
    }
    found
}

/// Whether the trusted peer whose id begins with a prefix is forgotten, and the answer
/// says so.
pub open spec fn unpairs(
    before: Map<Seq<char>, Peer>,
    prefix: Seq<char>,
    after: Map<Seq<char>, Peer>,
    answer: (Response, Option<Control>),
) -> bool {
    match answer.1 {
        Some(control) => {
            &&& control == Control::Wake
            &&& exists|id: Seq<char>|
                {
                    &&& #[trigger] only_match(before, prefix, id)
                    &&& after == before.remove(id)
                    &&& answer.0.message@ == "Unpaired "@ + id + "."@
                }
            &&& answer.0.ok
        },
        None => {
            &&& !exists|id: Seq<char>| only_match(before, prefix, id)
            &&& after == before
            &&& answer.0.message@ == "peer ID must uniquely match one trusted peer"@
            &&& !answer.0.ok
        },
    }
}

/// Forgets the trusted peer whose id begins with a prefix. A prefix that no
/// peer or several have is refused.
pub fn unpair(config: &mut Config, prefix: &str) -> (answer: (Response, Option<Control>))
    ensures
        unpairs(old(config).peers@, prefix@, final(config).peers@, answer),
        answer.0.data is None,
        final(config).version == old(config).version,
        final(config).name == old(config).name,
        final(config).private_key == old(config).private_key,
        final(config).public_key == old(config).public_key,
        final(config).paused == old(config).paused,
        final(config).cursor == old(config).cursor,
        final(config).clock == old(config).clock,
{
    match find_peer(&config.peers, prefix) {
        None => (
            Response {
                ok: false,
                message: "peer ID must uniquely match one trusted peer".to_owned(),
                data: None,
            },
            None,
        ),
        Some(id) => {
            config.peers.remove(id.as_str());
            let mut message = "Unpaired ".to_owned();
            message.append(id.as_str());
            message.append(".");
            (Response { ok: true, message, data: None }, Some(Control::Wake))
        },
    }
}

/// Whether a list is that of the trusted peers, in an order of their ids, and says which
/// of them are connected.
pub open spec fn lists(
    list: Seq<PeerView>,
    order: Seq<Seq<char>>,
    peers: Map<Seq<char>, Peer>,
    active: Set<Seq<char>>,
) -> bool {
    &&& list.len() == order.len()
    &&& forall|i: int|
        0 <= i < list.len() ==> {
            &&& (#[trigger] list[i]).id@ == order[i]
            &&& list[i].name@ == peers[order[i]].name@
            &&& list[i].connected == active.contains(order[i])
        }
}

/// The trusted peers, in the order of their ids, and which of them are
/// connected.
pub fn peer_list(config: &Config, active: &StrMap<()>) -> (list: Vec<PeerView>)
    ensures
        lists(list@, config.peers.key_order(), config.peers@, active@.dom()),
{
    let n: usize = config.peers.len();
    let mut list: Vec<PeerView> = Vec::new();
    let mut i: usize = 0;
    while i < n
        invariant
            i <= n,
            n == config.peers.key_order().len(),
            list@.len() == i,
            forall|j: int|
                0 <= j < i ==> {
                    let id = config.peers.key_order()[j];
                    &&& (#[trigger] list@[j]).id@ == id
                    &&& list@[j].name@ == config.peers@[id].name@
                    &&& list@[j].connected == active@.dom().contains(id)
                },
        decreases n - i,
    {
        let id = config.peers.key_at(i);
        let peer = config.peers.value_at(i);
        list.push(
            PeerView {
                id: id.to_owned(),
                name: peer.name.clone(),
                connected: active.contains_key(id),
            },
        );
        i = i + 1;
    }
    list
}

/// A peer that was forgotten is trusted no more; the trust in all others stays.
pub proof fn law_unpairing_takes_one_peer<T>(
    before: Map<Seq<char>, T>,
    after: Map<Seq<char>, T>,
    prefix: Seq<char>,
    id: Seq<char>,
)
    requires
        only_match(before, prefix, id),
        after == before.remove(id),
    ensures
        !after.dom().contains(id),
        forall|other: Seq<char>|
            other != id ==> (#[trigger] after.dom().contains(other) <==> before.dom().contains(
                other,
            )),
        forall|other: Seq<char>| #[trigger] after.dom().contains(other) ==> !begins(other, prefix),
{
}

/// A peer is forgotten exactly if its id is the only one that begins with what was asked
/// for: then all others stay, and the connections see who is trusted now. Else nobody is
/// forgotten, and the answer is no success.
pub proof fn law_unpairing_needs_one_match(
    before: Map<Seq<char>, Peer>,
    prefix: Seq<char>,
    after: Map<Seq<char>, Peer>,
    answer: (Response, Option<Control>),
    id: Seq<char>,
    other: Seq<char>,
)
    requires
        unpairs(before, prefix, after, answer),
        before.dom().contains(id),
        begins(id, prefix),
    ensures
        ({
            let alone = forall|peer: Seq<char>| #[trigger]
                before.dom().contains(peer) && begins(peer, prefix) ==> peer == id;
            &&& answer.0.ok <==> alone
            &&& answer.1 == if alone {
                Some(Control::Wake)
            } else {
                None
            }
            &&& !alone ==> after == before
            &&& alone ==> !after.dom().contains(id)
            &&& other != id ==> (after.dom().contains(other) <==> before.dom().contains(other))
            &&& other != id && before.dom().contains(other) ==> after[other] == before[other]
        }),
{
    if answer.1 is Some {
        let found = choose|found: Seq<char>|
            {
                &&& #[trigger] only_match(before, prefix, found)
                &&& after == before.remove(found)
                &&& answer.0.message@ == "Unpaired "@ + found + "."@
            };
        assert(found == id);
    } else {
        assert(!only_match(before, prefix, id));
    }
}

/// Pausing and resuming change that and nothing else, and each undoes the other.
pub proof fn law_pausing_and_resuming(
    config: Config,
    paused: Config,
    pause: (Response, Control),
    resumed: Config,
    resume: (Response, Control),
)
    requires
        pauses(config, paused, pause),
        resumes(paused, resumed, resume),
    ensures
        paused.paused,
        !resumed.paused,
        !config.paused ==> resumed == config,
        paused.peers == config.peers,
        paused.clock == config.clock,
        paused.name == config.name,
        pause.0.ok && resume.0.ok,
        pause.1 == Control::Pause,
        resume.1 == Control::Resume,
{
}

/// Every trusted peer is listed once, under its name, as connected exactly if it is.
pub proof fn law_every_peer_is_listed_once(
    list: Seq<PeerView>,
    order: Seq<Seq<char>>,
    peers: Map<Seq<char>, Peer>,
    active: Set<Seq<char>>,
    id: Seq<char>,
)
    requires
        lists(list, order, peers, active),
        order.no_duplicates(),
        order.to_set() == peers.dom(),
        peers.dom().contains(id),
    ensures
        exists|i: int|
            0 <= i < list.len() && (#[trigger] list[i]).id@ == id && list[i].name@ == peers[id].name@
                && list[i].connected == active.contains(id) && forall|j: int|
                0 <= j < list.len() && j != i ==> (#[trigger] list[j]).id@ != id,
{
    assert(order.to_set().contains(id));
    let i = order.index_of(id);
    assert(list[i].id@ == id);
    assert forall|j: int| 0 <= j < list.len() && j != i implies (#[trigger] list[j]).id@ != id by {
        assert(list[j].id@ == order[j]);
    }
}

/// The state of the daemon says whether it is paused, and ends with how many peers are
/// connected; two states of one backend that read the same have as many peers.
pub proof fn law_status_says_the_state(
    paused: bool,
    backend: Seq<char>,
    paired: nat,
    connected: nat,
    other: nat,
)
    ensures
        ({
            let words = status_text(paused, backend, paired, connected);
            &&& paused ==> words.subrange(0, 6) == "paused"@
            &&& !paused ==> words.subrange(0, 7) == "running"@
            &&& words.skip(words.len() - text::decimal(connected).len()) == text::decimal(connected)
            &&& words == status_text(paused, backend, other, connected) ==> paired == other
        }),
{
    reveal_strlit("paused");
    reveal_strlit("running");
    let words = status_text(paused, backend, paired, connected);
    let twin = status_text(paused, backend, other, connected);
    let tail = "; connected="@ + text::decimal(connected);
    let head = (if paused {
        "paused"@
    } else {
        "running"@
    }) + "; backend="@ + backend + "; paired="@;
    assert(words =~= head + text::decimal(paired) + tail);
    assert(twin =~= head + text::decimal(other) + tail);
    assert(words.subrange(0, if paused {
        6
    } else {
        7
    }) =~= if paused {
        "paused"@
    } else {
        "running"@
    });
    assert(words.skip(words.len() - text::decimal(connected).len()) =~= text::decimal(connected));
    if words == twin {
        assert(words.subrange(head.len() as int, words.len() - tail.len()) =~= text::decimal(
            paired,
        ));
        assert(twin.subrange(head.len() as int, twin.len() - tail.len()) =~= text::decimal(other));
        text::lemma_decimal_injective(paired, other);
    }
}

} // verus!
