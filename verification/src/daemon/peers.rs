//! Which connections the daemon opens and accepts, and what it sends on them.

use vstd::prelude::*;

use crate::config::Peer;
use crate::strmap::StrMap;
use crate::text;

verus! {

/// The longest wait before a connection is tried again, in seconds.
pub const MAX_DELAY: u64 = 60;

/// Whether a connection that a peer opened is kept: the device with the smaller id opens
/// it.
pub open spec fn keeps(local_id: Seq<char>, peer_id: Seq<char>) -> bool {
    text::text_lt(peer_id, local_id)
}

/// Whether a peer that was found is dialled.
pub open spec fn dials(
    local_id: Seq<char>,
    peer_id: Seq<char>,
    dialing: Set<Seq<char>>,
    trusted: Set<Seq<char>>,
) -> bool {
    text::text_lt(local_id, peer_id) && !dialing.contains(peer_id) && trusted.contains(peer_id)
}

/// Whether a peer is the trusted one behind a connection that is not active yet.
pub open spec fn welcomes(
    peer_id: Seq<char>,
    active: Set<Seq<char>>,
    trusted: Map<Seq<char>, Peer>,
    peer: Option<Peer>,
) -> bool {
    match peer {
        Some(peer) => !active.contains(peer_id) && trusted.dom().contains(peer_id) && peer.name@
            == trusted[peer_id].name@ && peer.public_key@ == trusted[peer_id].public_key@,
        None => active.contains(peer_id) || !trusted.dom().contains(peer_id),
    }
}

/// Whether a connection that a peer opened is kept: the device with the smaller
/// id opens it.
pub fn accepts(local_id: &str, peer_id: &str) -> (accepted: bool)
    ensures
        accepted == keeps(local_id@, peer_id@),
{
    text::str_lt(peer_id, local_id)
}

/// Whether a peer that was found is dialled: this device has the smaller id, it
/// is not dialling the peer already, and the peer is trusted.
pub fn should_dial(
    local_id: &str,
    peer_id: &str,
    dialing: &StrMap<()>,
    trusted: &StrMap<Peer>,
) -> (dial: bool)
    ensures
        dial == dials(local_id@, peer_id@, dialing@.dom(), trusted@.dom()),
{
    text::str_lt(local_id, peer_id) && !dialing.contains_key(peer_id) && trusted.contains_key(
        peer_id,
    )
}

/// The trusted peer behind a connection that is not active yet, if it is one.
pub fn newcomer(peer_id: &str, active: &StrMap<()>, trusted: &StrMap<Peer>) -> (peer: Option<Peer>)
    ensures
        welcomes(peer_id@, active@.dom(), trusted@, peer),
{
    if active.contains_key(peer_id) {
        return None;
    }
    match trusted.get(peer_id) {
        Some(peer) => Some(peer.clone()),
        None => None,
    }
}

/// How long to wait before a connection is tried again.
#[derive(Clone, Copy, Debug, PartialEq, Eq, Structural)]
pub struct Backoff {
    pub delay: u64,
}

impl Backoff {
    /// Whether the wait is between one second and the longest.
    pub open spec fn is_bounded(self) -> bool {
        1 <= self.delay <= MAX_DELAY
    }

    /// One second.
    pub open spec fn shortest() -> Backoff {
        Backoff { delay: 1 }
    }

    /// Twice as long, up to the longest.
    pub open spec fn lengthened(self) -> Backoff {
        Backoff {
            delay: if self.delay * 2 < MAX_DELAY {
                (self.delay * 2) as u64
            } else {
                MAX_DELAY
            },
        }
    }

    /// One second.
    pub fn new() -> (backoff: Self)
        ensures
            backoff == Backoff::shortest(),
            backoff.is_bounded(),
    {
        Backoff { delay: 1 }
    }

    /// Starts over: the connection was made.
    pub fn connected(&mut self)
        ensures
            *final(self) == Backoff::shortest(),
            final(self).is_bounded(),
    {
        self.delay = 1;
    }

    /// How long to wait now. The next wait is twice as long, up to the longest.
    pub fn wait(&mut self) -> (seconds: u64)
        requires
            old(self).is_bounded(),
        ensures
            seconds == old(self).delay,
            *final(self) == old(self).lengthened(),
            final(self).is_bounded(),
    {
        let seconds: u64 = self.delay;
        self.delay = if seconds * 2 < MAX_DELAY {
            seconds * 2
        } else {
            MAX_DELAY
        };
        seconds
    }
}

/// What is done with a message on the connection to a peer.
#[derive(Clone, Copy, Debug, PartialEq, Eq, Structural)]
pub enum Relay {
    /// The peer sent it, or it is for another: it is not sent.
    Skip,
    /// The peer is not trusted any more: the connection ends.
    Unpaired,
    /// It is sent.
    Send,
}

/// What is done with a message on the connection to a peer. It may have come from
/// a source, and it may be for one target only.
pub open spec fn relay_of(
    source: Option<Seq<char>>,
    target: Option<Seq<char>>,
    peer: Seq<char>,
    trusted: Set<Seq<char>>,
) -> Relay {
    if source == Some(peer) || (target is Some && target != Some(peer)) {
        Relay::Skip
    } else if !trusted.contains(peer) {
        Relay::Unpaired
    } else {
        Relay::Send
    }
}

/// What is done with a message on the connection to a peer.
pub fn relay(
    source: &Option<String>,
    target: &Option<String>,
    peer: &str,
    trusted: &StrMap<Peer>,
) -> (relay: Relay)
    ensures
        relay == relay_of(
            match *source {
                Some(source) => Some(source@),
                None => None,
            },
            match *target {
                Some(target) => Some(target@),
                None => None,
            },
            peer@,
            trusted@.dom(),
        ),
{
    let own = match source {
        Some(source) => text::str_eq(source.as_str(), peer),
        None => false,
    };
    let other = match target {
        Some(target) => !text::str_eq(target.as_str(), peer),
        None => false,
    };
    if own || other {
        Relay::Skip
    } else if !trusted.contains_key(peer) {
        Relay::Unpaired
    } else {
        Relay::Send
    }
}

/// Of two devices with different ids, one keeps a connection that the other opens, and
/// not the other way round.
pub proof fn law_one_connection_is_made(a: Seq<char>, b: Seq<char>)
    requires
        a != b,
    ensures
        text::text_lt(a, b) != text::text_lt(b, a),
        keeps(a, b) != keeps(b, a),
{
    text::lemma_text_order(a, b);
}

/// Of two devices with different ids that trust each other and have no connection, each
/// opens one exactly if the other keeps it.
pub proof fn law_dialled_connection_is_kept(
    a: Seq<char>,
    b: Seq<char>,
    trusted_by_a: Set<Seq<char>>,
    trusted_by_b: Set<Seq<char>>,
)
    requires
        a != b,
        trusted_by_a.contains(b),
        trusted_by_b.contains(a),
    ensures
        dials(a, b, Set::empty(), trusted_by_a) <==> keeps(b, a),
        dials(b, a, Set::empty(), trusted_by_b) <==> keeps(a, b),
        dials(a, b, Set::empty(), trusted_by_a) != dials(b, a, Set::empty(), trusted_by_b),
{
    text::lemma_text_order(a, b);
}

/// A peer that is dialled already, or that is not trusted, is not dialled.
pub proof fn law_peers_are_dialled_once(
    local_id: Seq<char>,
    peer_id: Seq<char>,
    dialing: Set<Seq<char>>,
    trusted: Set<Seq<char>>,
)
    ensures
        dials(local_id, peer_id, dialing, trusted) ==> trusted.contains(peer_id)
            && !dialing.contains(peer_id) && local_id != peer_id,
        !dials(local_id, peer_id, dialing.insert(peer_id), trusted),
{
    text::lemma_text_order(local_id, peer_id);
}

/// A connection is that of a newcomer exactly if its peer is trusted and not connected
/// yet: the peer is the one that is trusted under that id.
pub proof fn law_newcomers_are_trusted_and_new(
    peer_id: Seq<char>,
    active: Set<Seq<char>>,
    trusted: Map<Seq<char>, Peer>,
    peer: Option<Peer>,
)
    requires
        welcomes(peer_id, active, trusted, peer),
    ensures
        peer is Some <==> trusted.dom().contains(peer_id) && !active.contains(peer_id),
        peer is Some ==> peer->0.name@ == trusted[peer_id].name@ && peer->0.public_key@
            == trusted[peer_id].public_key@,
{
}

/// How long to wait once so many tries have failed since the last connection.
pub open spec fn after_failures(n: nat) -> Backoff
    decreases n,
{
    if n == 0 {
        Backoff::shortest()
    } else {
        after_failures((n - 1) as nat).lengthened()
    }
}

/// The waits between tries are 1, 2, 4, 8, 16 and 32 seconds, and then a minute each.
pub proof fn law_waits_double_up_to_a_minute(n: nat)
    ensures
        n < 6 ==> after_failures(n).delay == vstd::arithmetic::power2::pow2(n),
        n >= 6 ==> after_failures(n).delay == 60,
        after_failures(0).delay == 1,
    decreases n,
{
    vstd::arithmetic::power2::lemma2_to64();
    reveal_with_fuel(after_failures, 8);
    if n > 6 {
        law_waits_double_up_to_a_minute((n - 1) as nat);
    }
}

/// A message never goes back to the peer it came from, one for a single peer goes to
/// no other, and none goes to a peer that is not trusted.
pub proof fn law_messages_go_to_other_trusted_peers(
    source: Option<Seq<char>>,
    target: Option<Seq<char>>,
    peer: Seq<char>,
    trusted: Set<Seq<char>>,
)
    ensures
        relay_of(source, target, peer, trusted) is Send <==> source != Some(peer) && (target is None
            || target == Some(peer)) && trusted.contains(peer),
        relay_of(source, target, peer, trusted) is Unpaired <==> source != Some(peer) && (
        target is None || target == Some(peer)) && !trusted.contains(peer),
{
}

} // verus!
