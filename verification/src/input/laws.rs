//! What holds of input sharing as a whole.

use vstd::prelude::*;

use crate::float::Double;
use crate::input::portal;
use crate::input::protocol;
use crate::input::protocol::{Edge, InputMessage, KeyboardInput, PointerInput};
use crate::input::state;
use crate::input::state::{
    Action, Crossing, Outgoing, State, Step, Sums, CONFIRM_TIME, PRESS_GAP, TAKEOVER_REPEAT_TIME,
};

verus! {

/// Everything that can happen to a device that shares input.
#[allow(inconsistent_fields)]
pub enum Event {
    Begin {
        trusted: Set<Seq<char>>,
        chosen: Option<Seq<char>>,
        now: u64,
        edge: Edge,
        position: Double,
        screen_width: Double,
        screen_height: Double,
    },
    Pointer { now: u64, event: PointerInput, sums: Sums },
    Keyboard { now: u64, event: KeyboardInput },
    LocalKeyboard { now: u64, event: KeyboardInput },
    LocalInput { now: u64 },
    CaptureLost,
    Receive { now: u64, peer: Seq<char>, message: InputMessage, scaled: (Double, Double) },
    Applied { peer: Seq<char>, crossing: Crossing },
    Tick { order: Seq<Seq<char>>, now: u64 },
}

/// What an event does.
pub open spec fn step(s: State, event: Event) -> Step {
    match event {
        Event::Begin {
            trusted,
            chosen,
            now,
            edge,
            position,
            screen_width,
            screen_height,
        } => state::begin(s, chosen, now, edge, position, screen_width, screen_height),
        Event::Pointer { now, event, sums } => state::pointer(s, now, event, sums),
        Event::Keyboard { now, event } => state::keyboard(s, now, event),
        Event::LocalKeyboard { now, event } => state::idle(state::after_escape(s, event, now)),
        Event::LocalInput { now } => state::local_input(s, now),
        Event::CaptureLost => state::capture_lost(s),
        Event::Receive { now, peer, message, scaled } => state::receive(
            s,
            now,
            peer,
            message,
            scaled,
        ),
        Event::Applied { peer, crossing } => state::applied(s, peer, crossing),
        Event::Tick { order, now } => state::tick(s, order, now),
    }
}

/// Whether an event can happen: a cursor only ever leaves for a peer that may
/// be chosen.
pub open spec fn possible(s: State, event: Event) -> bool {
    event matches Event::Begin { trusted, chosen, now, edge, .. } ==> (chosen matches Some(peer)
        ==> state::eligible(s, trusted, peer, edge, now))
}

/// The state of a device that shares no input yet.
pub open spec fn initial(local_id: Seq<char>, debug: bool) -> State {
    State {
        local_id,
        debug,
        outgoing: None,
        incoming: None,
        preview: None,
        takeover: None,
        portals: Map::empty(),
        last_seen: Map::empty(),
        last_ping: None,
        escape_started: None,
    }
}

/// The state after a run of events.
pub open spec fn after_all(s: State, events: Seq<Event>) -> State
    decreases events.len(),
{
    if events.len() == 0 {
        s
    } else {
        step(after_all(s, events.drop_last()), events.last()).state
    }
}

/// Whether each event of a run can happen when its turn comes.
pub open spec fn all_possible(s: State, events: Seq<Event>) -> bool
    decreases events.len(),
{
    events.len() > 0 ==> all_possible(s, events.drop_last()) && possible(
        after_all(s, events.drop_last()),
        events.last(),
    )
}

/// What always holds: a device never sends its cursor out while it hosts
/// another, no edge leads to two peers, and the edge that a cursor left by leads
/// to no other peer.
pub open spec fn sound(s: State) -> bool {
    &&& !(s.outgoing is Some && s.incoming is Some)
    &&& portal::unambiguous(s.portals)
    &&& (s.outgoing matches Some(active) ==> !portal::claimed_by_other(
        s.portals,
        active.to(),
        active.side(),
    ))
}

proof fn lemma_smaller_portals(
    before: Map<Seq<char>, portal::EdgeSet>,
    after: Map<Seq<char>, portal::EdgeSet>,
)
    requires
        portal::unambiguous(before),
        forall|peer: Seq<char>, edge: Edge| #[trigger]
            portal::confirmed(after, peer, edge) ==> portal::confirmed(before, peer, edge),
    ensures
        portal::unambiguous(after),
        forall|peer: Seq<char>, edge: Edge| #[trigger]
            portal::claimed_by_other(after, peer, edge) ==> portal::claimed_by_other(
                before,
                peer,
                edge,
            ),
{
    assert forall|peer: Seq<char>, edge: Edge| #[trigger]
        portal::claimed_by_other(after, peer, edge) implies portal::claimed_by_other(
        before,
        peer,
        edge,
    ) by {
        let other = choose|other: Seq<char>|
            other != peer && #[trigger] portal::confirmed(after, other, edge);
        assert(portal::confirmed(before, other, edge));
    }
    assert forall|a: Seq<char>, b: Seq<char>, edge: Edge|
        #![trigger portal::confirmed(after, a, edge), portal::confirmed(after, b, edge)]
        portal::confirmed(after, a, edge) && portal::confirmed(after, b, edge) implies a == b by {
        assert(portal::confirmed(before, a, edge) && portal::confirmed(before, b, edge));
    }
}

proof fn lemma_available_unclaimed(
    portals: Map<Seq<char>, portal::EdgeSet>,
    peer: Seq<char>,
    edge: Edge,
)
    requires
        portal::unambiguous(portals),
        portal::available(portals, peer, edge),
    ensures
        !portal::claimed_by_other(portals, peer, edge),
{
    if portal::claimed_by_other(portals, peer, edge) {
        let other = choose|other: Seq<char>|
            other != peer && #[trigger] portal::confirmed(portals, other, edge);
        assert(portal::confirmed(portals, peer, edge) && portal::confirmed(portals, other, edge));
    }
}

proof fn lemma_bound_unclaimed(
    portals: Map<Seq<char>, portal::EdgeSet>,
    peer: Seq<char>,
    edge: Edge,
)
    requires
        portal::unambiguous(portals),
        portal::available(portals, peer, edge),
    ensures
        portal::unambiguous(portal::bound(portals, peer, edge)),
        !portal::claimed_by_other(portal::bound(portals, peer, edge), peer, edge),
{
    portal::law_binding_keeps_edges_unambiguous(portals, peer, edge);
    let after = portal::bound(portals, peer, edge);
    lemma_available_unclaimed(after, peer, edge);
}

proof fn lemma_receive_sound(
    s: State,
    now: u64,
    peer: Seq<char>,
    message: InputMessage,
    scaled: (Double, Double),
)
    requires
        sound(s),
    ensures
        sound(state::receive(s, now, peer, message, scaled).state),
{
    let heard = State { last_seen: s.last_seen.insert(peer, now), ..s };
    let next = state::receive(s, now, peer, message, scaled).state;
    match message {
        InputMessage::Enter { edge, position, screen_width, screen_height } => {
            if state::admits(heard, now, peer, edge) {
                lemma_bound_unclaimed(s.portals, peer, edge);
            }
        },
        InputMessage::Ack => {
            if let Some(Outgoing::Sending { peer: active, edge, depth, ready }) = s.outgoing {
                if active == peer {
                    lemma_bound_unclaimed(s.portals, peer, edge);
                }
            }
        },
        InputMessage::Leave => {
            if next.portals != s.portals {
                portal::law_forgetting_takes_one_edge(s.portals, peer, s.outgoing->0.side());
            }
        },
        _ => {},
    }
}

proof fn lemma_tick_sound(s: State, order: Seq<Seq<char>>, now: u64)
    requires
        sound(s),
    ensures
        sound(state::tick(s, order, now).state),
{
    let dropped = state::drop_untrusted(s, order.to_set()).state;
    lemma_smaller_portals(s.portals, dropped.portals);
    let pinged = state::ping(dropped, order, now).state;
    if !state::escaped(pinged, now) {
        let repeated = state::repeat_takeover(pinged, now).state;
        let settled = state::settle_probe(repeated, now).state;
        let expired = state::expire_preview(settled, now).state;
        assert(sound(expired));
        let recalled = state::recall_outgoing(expired, now).state;
        lemma_smaller_portals(expired.portals, recalled.portals);
        let done = state::recall_incoming(recalled, now).state;
        lemma_smaller_portals(recalled.portals, done.portals);
    }
}

/// Whatever happens, a device never sends its cursor out while it hosts
/// another, no edge ever leads to two peers, and the edge that a cursor left by
/// leads to no other peer.
pub proof fn law_sharing_stays_sound(s: State, event: Event)
    requires
        sound(s),
        possible(s, event),
    ensures
        sound(step(s, event).state),
{
    match event {
        Event::Begin { trusted, chosen, now, edge, .. } => {
            if let Some(peer) = chosen {
                lemma_available_unclaimed(s.portals, peer, edge);
            }
        },
        Event::Receive { now, peer, message, scaled } => {
            lemma_receive_sound(s, now, peer, message, scaled);
        },
        Event::Tick { order, now } => {
            lemma_tick_sound(s, order, now);
        },
        _ => {},
    }
}

/// A device that starts out sharing nothing is sound after every run of events.
pub proof fn law_every_run_is_sound(local_id: Seq<char>, debug: bool, events: Seq<Event>)
    requires
        all_possible(initial(local_id, debug), events),
    ensures
        sound(after_all(initial(local_id, debug), events)),
    decreases events.len(),
{
    let start = initial(local_id, debug);
    if events.len() > 0 {
        law_every_run_is_sound(local_id, debug, events.drop_last());
        law_sharing_stays_sound(after_all(start, events.drop_last()), events.last());
    }
}

/// Input of a peer is injected only while the cursor of that very peer is on
/// this screen and was not just taken back.
pub proof fn law_only_the_hosted_peer_injects(
    s: State,
    now: u64,
    peer: Seq<char>,
    message: InputMessage,
    scaled: (Double, Double),
    i: int,
)
    requires
        0 <= i < state::receive(s, now, peer, message, scaled).actions.len(),
        state::receive(s, now, peer, message, scaled).actions[i] is ApplyPointer || state::receive(
            s,
            now,
            peer,
            message,
            scaled,
        ).actions[i] is ApplyKeyboard,
    ensures
        s.incoming matches Some(active) && active.peer == peer,
        !state::turned_away(s, peer, now),
{
}

/// Using a device's own pointer or keyboard takes a peer's cursor off its screen
/// at once. For the next 700 milliseconds, whatever input or entry that peer
/// sends is answered with a `Leave` and neither injected nor let in.
pub proof fn law_local_input_turns_the_peer_away(
    s: State,
    taken: u64,
    now: u64,
    message: InputMessage,
    scaled: (Double, Double),
)
    requires
        s.incoming is Some,
        state::elapsed(taken, now) <= TAKEOVER_REPEAT_TIME,
        message is Enter || message is Pointer || message is Keyboard,
    ensures
        ({
            let peer = s.incoming->0.peer;
            let after = state::local_input(s, taken);
            let reply = state::receive(after.state, now, peer, message, scaled);
            &&& after.state.incoming is None
            &&& after.actions.contains(Action::EndInjection)
            &&& reply.actions == seq![state::leave(peer)]
            &&& reply.state.incoming is None
        }),
{
    let after = state::local_input(s, taken);
    assert(after.actions[0] == Action::<Seq<char>>::EndInjection);
}

/// Once the tick is over, only trusted peers have the cursor, host it or own a
/// portal.
pub proof fn law_untrusted_peers_lose_the_cursor(s: State, order: Seq<Seq<char>>, now: u64)
    ensures
        ({
            let next = state::tick(s, order, now).state;
            &&& next.outgoing matches Some(active) ==> order.contains(active.to())
            &&& next.incoming matches Some(active) ==> order.contains(active.peer)
            &&& forall|peer: Seq<char>| #[trigger]
                next.portals.dom().contains(peer) ==> order.contains(peer)
        }),
{
    let dropped = state::drop_untrusted(s, order.to_set()).state;
    assert(forall|peer: Seq<char>| #[trigger]
        dropped.portals.dom().contains(peer) ==> order.to_set().contains(peer));
}

/// Once the tick is over, and the program was not ended, the cursor is shared
/// with no peer that has been silent for more than 1.2 seconds.
pub proof fn law_silent_peers_lose_the_cursor(s: State, order: Seq<Seq<char>>, now: u64)
    requires
        !state::escaped(s, now),
    ensures
        ({
            let next = state::tick(s, order, now).state;
            &&& next.outgoing matches Some(active) ==> !state::timed_out(
                next.last_seen,
                active.to(),
                now,
            )
            &&& next.incoming matches Some(active) ==> !state::timed_out(
                next.last_seen,
                active.peer,
                now,
            )
        }),
{
}

/// A pressed edge lets the cursor cross only after three seconds, only if the
/// peer saw it, and only if the pressing never paused for long; it then comes in
/// by the opposite edge.
pub proof fn law_crossing_takes_three_seconds(s: State, now: u64)
    requires
        s.outgoing is Some,
        s.outgoing->0 is Probing,
        state::settle_probe(s, now).state.outgoing matches Some(next) && next is Sending,
    ensures
        s.outgoing->0->acknowledged,
        state::elapsed(s.outgoing->0->started, now) >= CONFIRM_TIME,
        state::elapsed(s.outgoing->0->last_push, now) <= PRESS_GAP,
        state::settle_probe(s, now).actions.len() == 1,
        state::settle_probe(s, now).actions[0] matches Action::Send { peer, message } && peer
            == s.outgoing->0.to() && (message matches InputMessage::Enter { edge, .. } && edge
            == s.outgoing->0.side().across()),
{
}

/// Whether the values in an event are such as pointers, keyboards and screens give:
/// a place along an edge is a number, a motion has a length.
pub open spec fn ordinary(event: Event) -> bool {
    match event {
        Event::Begin { position, .. } => protocol::is_position(position),
        Event::Pointer { event, sums, .. } => event.fault() is None && !sums.position.is_nan()
            && (sums.progress.is_nan() || sums.progress.rank() >= 0),
        Event::Keyboard { event, .. } => event.is_valid(),
        _ => true,
    }
}

/// Whether an edge that is pressed is pressed at a place along it.
pub open spec fn well_placed(s: State) -> bool {
    s.outgoing matches Some(Outgoing::Probing { position, .. }) ==> protocol::is_position(position)
}

/// Whether every message among some actions is valid.
pub open spec fn all_valid(actions: Seq<Action<Seq<char>>>) -> bool {
    forall|i: int|
        0 <= i < actions.len() ==> ((#[trigger] actions[i]) matches Action::Send { message, .. }
            ==> message.fault() is None)
}

proof fn lemma_valid_together(a: Seq<Action<Seq<char>>>, b: Seq<Action<Seq<char>>>)
    requires
        all_valid(a),
        all_valid(b),
    ensures
        all_valid(a + b),
{
}

proof fn lemma_upkeep_valid(s: State, now: u64)
    requires
        well_placed(s),
    ensures
        well_placed(state::upkeep(s, now).state),
        all_valid(state::upkeep(s, now).actions),
{
    let repeated = state::repeat_takeover(s, now);
    let settle = state::settle_probe(repeated.state, now);
    let settled = state::then_step(repeated, settle);
    lemma_valid_together(repeated.actions, settle.actions);
    let expire = state::expire_preview(settled.state, now);
    let expired = state::then_step(settled, expire);
    lemma_valid_together(settled.actions, expire.actions);
    let recall = state::recall_outgoing(expired.state, now);
    let recalled = state::then_step(expired, recall);
    lemma_valid_together(expired.actions, recall.actions);
    lemma_valid_together(recalled.actions, state::recall_incoming(recalled.state, now).actions);
}

proof fn lemma_tick_valid(s: State, order: Seq<Seq<char>>, now: u64)
    requires
        well_placed(s),
    ensures
        well_placed(state::tick(s, order, now).state),
        all_valid(state::tick(s, order, now).actions),
{
    let dropped = state::drop_untrusted(s, order.to_set());
    let ping = state::ping(dropped.state, order, now);
    let pinged = state::then_step(dropped, ping);
    lemma_valid_together(dropped.actions, ping.actions);
    if state::escaped(pinged.state, now) {
        lemma_valid_together(pinged.actions, seq![Action::Exit]);
    } else {
        lemma_upkeep_valid(pinged.state, now);
        lemma_valid_together(pinged.actions, state::upkeep(pinged.state, now).actions);
    }
}

proof fn lemma_receive_valid(
    s: State,
    now: u64,
    peer: Seq<char>,
    message: InputMessage,
    scaled: (Double, Double),
)
    requires
        well_placed(s),
    ensures
        well_placed(state::receive(s, now, peer, message, scaled).state),
        all_valid(state::receive(s, now, peer, message, scaled).actions),
{
}

/// Whatever a device sends is valid: no peer refuses it for a value out of range.
pub proof fn law_sent_messages_are_valid(s: State, event: Event)
    requires
        well_placed(s),
        ordinary(event),
    ensures
        well_placed(step(s, event).state),
        all_valid(step(s, event).actions),
{
    match event {
        Event::Receive { now, peer, message, scaled } => {
            lemma_receive_valid(s, now, peer, message, scaled);
        },
        Event::Tick { order, now } => {
            lemma_tick_valid(s, order, now);
        },
        _ => {},
    }
}

/// When the cursor of a peer leaves this screen, the message sent to the peer
/// gives it its cursor back.
pub proof fn law_departing_cursor_returns(
    host: State,
    guest: State,
    host_id: Seq<char>,
    guest_id: Seq<char>,
    crossing: Crossing,
    now: u64,
    scaled: (Double, Double),
)
    requires
        host.incoming matches Some(active) && active.peer == guest_id,
        state::applied(host, guest_id, crossing).state.incoming is None,
        guest.outgoing matches Some(active) && active.to() == host_id,
    ensures
        state::applied(host, guest_id, crossing).actions.contains(state::leave(guest_id)),
        ({
            let back = state::receive(guest, now, host_id, InputMessage::Leave, scaled);
            &&& back.state.outgoing is None
            &&& back.actions.contains(Action::ReleaseCapture)
        }),
{
    assert(state::applied(host, guest_id, crossing).actions[2] == state::leave(guest_id));
    let back = state::receive(guest, now, host_id, InputMessage::Leave, scaled);
    assert(back.actions[0] == Action::<Seq<char>>::ReleaseCapture);
}

/// The acknowledgement of a cursor that came in makes the sender ready to send
/// input, and both ends know the portal from then on: the sender by its edge,
/// the host by the opposite one.
pub proof fn law_entry_is_agreed_on(
    host: State,
    guest: State,
    host_id: Seq<char>,
    guest_id: Seq<char>,
    edge: Edge,
    position: Double,
    screen_width: Double,
    screen_height: Double,
    now: u64,
    later: u64,
    scaled: (Double, Double),
)
    requires
        guest.outgoing matches Some(Outgoing::Sending { peer, edge: side, depth, ready }) && peer
            == host_id && side == edge,
        state::admits(host, now, guest_id, edge.across()),
    ensures
        ({
            let entry = InputMessage::Enter {
                edge: edge.across(),
                position,
                screen_width,
                screen_height,
            };
            let taken = state::receive(host, now, guest_id, entry, scaled);
            let told = state::receive(guest, later, host_id, InputMessage::Ack, scaled);
            &&& taken.actions.contains(state::tell(guest_id, InputMessage::Ack))
            &&& taken.state.incoming matches Some(active) && active.peer == guest_id && active.edge
                == edge.across()
            &&& portal::confirmed(taken.state.portals, guest_id, edge.across())
            &&& told.state.outgoing matches Some(
                Outgoing::Sending { peer, edge: side, depth, ready },
            ) && peer == host_id && ready
            &&& portal::confirmed(told.state.portals, host_id, edge)
        }),
{
    let entry = InputMessage::Enter { edge: edge.across(), position, screen_width, screen_height };
    let taken = state::receive(host, now, guest_id, entry, scaled);
    assert(taken.actions.last() == state::tell(guest_id, InputMessage::Ack));
}

} // verus!
