//! What each event of input sharing is for: what the user sees of it, and what
//! the peer is told.

use vstd::prelude::*;

use crate::config::Peer;
use crate::float::{Double, Single};
use crate::input::control;
use crate::input::control::{Control, Terms};
use crate::input::portal;
use crate::input::protocol;
use crate::input::protocol::{Edge, InputError, InputMessage, KeyboardInput, PointerInput};
use crate::input::state;
use crate::input::state::{Action, Crossing, Incoming, Outgoing, Preview, State, Sums, Takeover};
use crate::strmap::StrMap;

verus! {

/// Whether the cursor of a peer is on this screen.
pub open spec fn hosts(s: State, peer: Seq<char>) -> bool {
    s.incoming is Some && s.incoming->0.peer == peer
}

/// Whether the cursor was taken back from a peer within the last 700
/// milliseconds.
pub open spec fn just_turned_away(s: State, peer: Seq<char>, now: u64) -> bool {
    s.takeover is Some && s.takeover->0.peer == peer && now - s.takeover->0.started <= 700_000_000
}

/// Whether two states differ at most in when peers were heard of and since when
/// the escape key is held.
pub open spec fn same_sharing(a: State, b: State) -> bool {
    &&& a.local_id == b.local_id
    &&& a.debug == b.debug
    &&& a.outgoing == b.outgoing
    &&& a.incoming == b.incoming
    &&& a.preview == b.preview
    &&& a.takeover == b.takeover
    &&& a.portals == b.portals
    &&& a.last_ping == b.last_ping
}

/// While the cursor of a peer is on this screen and was not just taken back,
/// every key and every pointer event of the peer is injected, once: a key as it
/// is, a motion as far as it goes on this screen, and any other pointer event as
/// it is.
pub proof fn law_hosted_input_is_injected(
    s: State,
    now: u64,
    peer: Seq<char>,
    key: KeyboardInput,
    event: PointerInput,
    scaled: (Double, Double),
)
    requires
        hosts(s, peer),
        !just_turned_away(s, peer, now),
    ensures
        ({
            let typed = state::receive(s, now, peer, InputMessage::Keyboard(key), scaled);
            let moved = state::receive(s, now, peer, InputMessage::Pointer(event), scaled);
            &&& typed.actions == seq![Action::<Seq<char>>::ApplyKeyboard(key)]
            &&& same_sharing(typed.state, s)
            &&& event is Motion ==> moved.actions == seq![
                Action::<Seq<char>>::ApplyPointer(
                    PointerInput::Motion { dx: scaled.0, dy: scaled.1 },
                ),
            ]
            &&& !(event is Motion) ==> moved.actions == seq![
                Action::<Seq<char>>::ApplyPointer(event),
            ]
            &&& same_sharing(moved.state, s)
            &&& moved.state.escape_started == s.escape_started
        }),
{
}

/// Input of a peer whose cursor was just taken back is answered with a `Leave`
/// and not injected, and that of a peer whose cursor is not on this screen does
/// nothing.
pub proof fn law_other_input_is_not_injected(
    s: State,
    now: u64,
    peer: Seq<char>,
    key: KeyboardInput,
    event: PointerInput,
    scaled: (Double, Double),
)
    ensures
        ({
            let typed = state::receive(s, now, peer, InputMessage::Keyboard(key), scaled);
            let moved = state::receive(s, now, peer, InputMessage::Pointer(event), scaled);
            let told = seq![Action::Send { peer, message: InputMessage::Leave }];
            &&& just_turned_away(s, peer, now) ==> typed.actions == told && moved.actions == told
            &&& !just_turned_away(s, peer, now) && !hosts(s, peer) ==> typed.actions.len() == 0
                && moved.actions.len() == 0
            &&& same_sharing(typed.state, s)
            &&& same_sharing(moved.state, s)
        }),
{
}

/// Whatever a peer says, this device then knows that it heard of the peer now,
/// and what it knows of the other peers stays.
pub proof fn law_every_message_is_a_sign_of_life(
    s: State,
    now: u64,
    peer: Seq<char>,
    message: InputMessage,
    scaled: (Double, Double),
    other: Seq<char>,
)
    ensures
        ({
            let seen = state::receive(s, now, peer, message, scaled).state.last_seen;
            &&& seen.dom().contains(peer)
            &&& seen[peer] == now
            &&& other != peer ==> (seen.dom().contains(other) <==> s.last_seen.dom().contains(
                other,
            ))
            &&& other != peer && seen.dom().contains(other) ==> seen[other] == s.last_seen[other]
        }),
{
}

/// A ping is answered with a pong to the peer that sent it, and a pong with
/// nothing; neither changes what is shared.
pub proof fn law_pings_are_answered(
    s: State,
    now: u64,
    peer: Seq<char>,
    scaled: (Double, Double),
)
    ensures
        ({
            let pinged = state::receive(s, now, peer, InputMessage::Ping, scaled);
            let ponged = state::receive(s, now, peer, InputMessage::Pong, scaled);
            &&& pinged.actions == seq![Action::Send { peer, message: InputMessage::Pong }]
            &&& same_sharing(pinged.state, s)
            &&& ponged.actions.len() == 0
            &&& same_sharing(ponged.state, s)
        }),
{
}

/// While the cursor is at a peer that is ready for it, every captured key goes to
/// the peer as it is, and so does every pointer event that does not bring the
/// cursor back; at any other time no input leaves the device.
pub proof fn law_captured_input_goes_to_the_peer(
    s: State,
    now: u64,
    key: KeyboardInput,
    event: PointerInput,
    sums: Sums,
)
    ensures
        ({
            let typed = state::keyboard(s, now, key);
            let moved = state::pointer(s, now, event, sums);
            let there = s.outgoing is Some && s.outgoing->0 is Sending && s.outgoing->0->ready;
            let back = event is Motion && !sums.depth.is_nan() && sums.depth.rank() <= 0;
            &&& there ==> typed.actions == seq![
                Action::Send { peer: s.outgoing->0.to(), message: InputMessage::Keyboard(key) },
            ]
            &&& !there ==> typed.actions.len() == 0
            &&& same_sharing(typed.state, s)
            &&& typed.state.last_seen == s.last_seen
            &&& there && !back ==> moved.actions == seq![
                Action::Send { peer: s.outgoing->0.to(), message: InputMessage::Pointer(event) },
            ]
            &&& there && !back ==> moved.state.outgoing == Some(
                Outgoing::Sending {
                    peer: s.outgoing->0.to(),
                    edge: s.outgoing->0.side(),
                    depth: if event is Motion {
                        sums.depth
                    } else {
                        s.outgoing->0->depth
                    },
                    ready: true,
                },
            )
            &&& there && back ==> moved.actions == seq![
                Action::Send { peer: s.outgoing->0.to(), message: InputMessage::Leave },
                Action::ReleaseCapture,
            ]
            &&& there && back ==> moved.state.outgoing is None
            &&& s.outgoing is Some && s.outgoing->0 is Sending && !there ==> moved.actions.len()
                == 0 && moved.state == s
            &&& s.outgoing is None ==> moved.actions.len() == 0 && moved.state == s
            &&& moved.state == (State { outgoing: moved.state.outgoing, ..s })
        }),
{
}

/// A key that is pressed while the cursor is at a peer is pressed there: what this
/// device sends makes the peer inject the same key.
pub proof fn law_typed_key_arrives(
    guest: State,
    host: State,
    guest_id: Seq<char>,
    host_id: Seq<char>,
    now: u64,
    later: u64,
    key: KeyboardInput,
    scaled: (Double, Double),
)
    requires
        guest.outgoing is Some,
        guest.outgoing->0 is Sending,
        guest.outgoing->0->ready,
        guest.outgoing->0.to() == host_id,
        hosts(host, guest_id),
        !just_turned_away(host, guest_id, later),
    ensures
        state::keyboard(guest, now, key).actions.len() == 1,
        state::keyboard(guest, now, key).actions[0] matches Action::Send { peer, message } && peer
            == host_id && state::receive(host, later, guest_id, message, scaled).actions == seq![
            Action::<Seq<char>>::ApplyKeyboard(key),
        ],
{
    law_hosted_input_is_injected(
        host,
        later,
        guest_id,
        key,
        PointerInput::Button { button: 0, state: 0 },
        scaled,
    );
}

/// The escape key only starts and stops the clock of a debug build: it starts
/// when the key goes down, runs on while the key stays down, and stops when it
/// goes up. Other keys leave it alone, here and at a peer.
pub proof fn law_escape_clock(
    s: State,
    now: u64,
    peer: Seq<char>,
    key: KeyboardInput,
    scaled: (Double, Double),
)
    ensures
        ({
            let clock = state::after_escape(s, key, now).escape_started;
            &&& !s.debug || key.key != 1 ==> clock == s.escape_started
            &&& s.debug && key.key == 1 && key.state == 0 ==> clock is None
            &&& s.debug && key.key == 1 && key.state != 0 && s.escape_started is None ==> clock
                == Some(now)
            &&& s.debug && key.key == 1 && key.state != 0 && s.escape_started is Some ==> clock
                == s.escape_started
            &&& state::after_escape(s, key, now) == (State { escape_started: clock, ..s })
            &&& state::keyboard(s, now, key).state.escape_started == clock
            &&& state::receive(
                s,
                now,
                peer,
                InputMessage::Keyboard(key),
                scaled,
            ).state.escape_started == clock
        }),
{
}

/// Pressing the edge by which a peer's cursor came in sends that cursor back: it
/// is no longer injected, all edges can be pressed again, and the peer is told.
pub proof fn law_pressing_the_entry_edge_sends_back(
    s: State,
    chosen: Option<Seq<char>>,
    now: u64,
    position: Double,
    screen_width: Double,
    screen_height: Double,
)
    requires
        s.incoming is Some,
    ensures
        ({
            let edge = s.incoming->0.edge;
            let back = state::begin(s, chosen, now, edge, position, screen_width, screen_height);
            &&& back.state == (State { incoming: None, ..s })
            &&& back.actions == seq![
                Action::EndInjection,
                Action::AllowAllEdges,
                Action::Send { peer: s.incoming->0.peer, message: InputMessage::Leave },
                Action::ReleaseCapture,
            ]
        }),
{
}

/// Pressing another edge while a cursor is shared does nothing.
pub proof fn law_pressing_while_sharing_does_nothing(
    s: State,
    chosen: Option<Seq<char>>,
    now: u64,
    edge: Edge,
    position: Double,
    screen_width: Double,
    screen_height: Double,
)
    requires
        s.outgoing is Some || s.incoming is Some,
        s.incoming is Some ==> s.incoming->0.edge != edge,
    ensures
        state::begin(s, chosen, now, edge, position, screen_width, screen_height).state == s,
        state::begin(
            s,
            chosen,
            now,
            edge,
            position,
            screen_width,
            screen_height,
        ).actions.len() == 0,
{
}

/// An edge with no peer behind it lets the pointer go at once. With a peer, the
/// peer hears of it: at a known portal the cursor enters by the opposite edge, at
/// the same place along it; elsewhere the peer is asked, and the pressing starts
/// now.
pub proof fn law_pressing_an_edge(
    s: State,
    peer: Seq<char>,
    now: u64,
    edge: Edge,
    position: Double,
    screen_width: Double,
    screen_height: Double,
)
    requires
        s.outgoing is None,
        s.incoming is None,
    ensures
        ({
            let alone = state::begin(s, None, now, edge, position, screen_width, screen_height);
            let asked = state::begin(s, Some(peer), now, edge, position, screen_width, screen_height);
            let facing = match edge {
                Edge::Left => Edge::Right,
                Edge::Right => Edge::Left,
                Edge::Top => Edge::Bottom,
                Edge::Bottom => Edge::Top,
            };
            let known = s.portals.dom().contains(peer) && s.portals[peer].has(edge);
            &&& alone.state == s
            &&& alone.actions == seq![Action::<Seq<char>>::ReleaseCapture]
            &&& asked.state == (State { outgoing: asked.state.outgoing, ..s })
            &&& known ==> asked.actions == seq![
                Action::Send {
                    peer,
                    message: InputMessage::Enter {
                        edge: facing,
                        position,
                        screen_width,
                        screen_height,
                    },
                },
            ] && (asked.state.outgoing matches Some(Outgoing::Sending { peer: to, edge: side, depth, ready })
                && to == peer && side == edge && depth.bits == 0x4008_0000_0000_0000 && !ready)
            &&& !known ==> asked.actions == seq![
                Action::Send {
                    peer,
                    message: InputMessage::Probe {
                        edge: facing,
                        position,
                        progress: Single { bits: 0 },
                    },
                },
            ] && asked.state.outgoing == Some(
                Outgoing::Probing {
                    peer,
                    edge,
                    position,
                    started: now,
                    last_push: now,
                    acknowledged: false,
                    screen_width,
                    screen_height,
                },
            )
        }),
{
}

/// How far a motion goes out over an edge, as a number that orders as the
/// distance does.
pub open spec fn outward(edge: Edge, dx: Double, dy: Double) -> int {
    match edge {
        Edge::Left => -dx.rank(),
        Edge::Right => dx.rank(),
        Edge::Top => -dy.rank(),
        Edge::Bottom => dy.rank(),
    }
}

/// While an edge is pressed, each motion out over it tells the peer where it is
/// pressed and for how long, and keeps the pressing alive; a pull of more than
/// one and a half pixels away from it ends the pressing, tells the peer and gives
/// the pointer back; a smaller one only moves the place along the edge. The place
/// stays between the ends of the edge, and the time since the start is never
/// reset.
pub proof fn law_pushing_and_pulling(
    s: State,
    now: u64,
    dx: Double,
    dy: Double,
    sums: Sums,
)
    requires
        s.outgoing is Some,
        s.outgoing->0 is Probing,
        !dx.is_nan(),
        !dy.is_nan(),
    ensures
        ({
            let moved = state::pointer(s, now, PointerInput::Motion { dx, dy }, sums);
            let before = s.outgoing->0;
            let out = outward(before.side(), dx, dy);
            let facing = match before.side() {
                Edge::Left => Edge::Right,
                Edge::Right => Edge::Left,
                Edge::Top => Edge::Bottom,
                Edge::Bottom => Edge::Top,
            };
            let after = moved.state.outgoing;
            &&& moved.state == (State { outgoing: after, ..s })
            &&& out > 0 ==> moved.actions.len() == 1 && (moved.actions[0] matches Action::Send {
                peer,
                message: InputMessage::Probe { edge, position, progress },
            } && peer == before.to() && edge == facing && after is Some && position
                == after->0->position && (progress.is_nan() == false && progress.rank()
                <= 0x3f80_0000) && (!sums.progress.is_nan() && sums.progress.rank() <= 0x3f80_0000
                ==> progress == sums.progress))
            &&& out < -0x3ff8_0000_0000_0000 ==> after is None && moved.actions == seq![
                Action::Send { peer: before.to(), message: InputMessage::Leave },
                Action::ReleaseCapture,
            ]
            &&& -0x3ff8_0000_0000_0000 <= out <= 0 ==> moved.actions.len() == 0
            &&& -0x3ff8_0000_0000_0000 <= out ==> after is Some && after == Some(
                Outgoing::Probing {
                    peer: before.to(),
                    edge: before.side(),
                    position: after->0->position,
                    started: before->started,
                    last_push: if out > 0 {
                        now
                    } else {
                        before->last_push
                    },
                    acknowledged: before->acknowledged,
                    screen_width: before->screen_width,
                    screen_height: before->screen_height,
                },
            )
            &&& -0x3ff8_0000_0000_0000 <= out && !sums.position.is_nan() ==> protocol::is_position(
                after->0->position,
            )
            &&& -0x3ff8_0000_0000_0000 <= out && protocol::is_position(sums.position) ==> after->0->position
                == sums.position
        }),
{
}

/// Buttons and wheels do nothing while an edge is pressed.
pub proof fn law_buttons_wait_while_pressing(s: State, now: u64, event: PointerInput, sums: Sums)
    requires
        s.outgoing is Some,
        s.outgoing->0 is Probing,
        !(event is Motion),
    ensures
        state::pointer(s, now, event, sums).state == s,
        state::pointer(s, now, event, sums).actions.len() == 0,
{
}

/// Someone who uses this device's own pointer or keyboard gets the screen back:
/// the peer's cursor is no longer injected, all edges can be pressed, the pointer
/// is free, and the peer is told to leave. Without such a cursor nothing happens.
pub proof fn law_local_input_takes_the_screen_back(s: State, now: u64)
    ensures
        ({
            let used = state::local_input(s, now);
            &&& s.incoming is None ==> used.state == s && used.actions.len() == 0
            &&& s.incoming is Some ==> {
                let peer = s.incoming->0.peer;
                &&& used.state == (State {
                    incoming: None,
                    takeover: Some(Takeover { peer, started: now, last_sent: now }),
                    ..s
                })
                &&& used.actions == seq![
                    Action::EndInjection,
                    Action::AllowAllEdges,
                    Action::ReleaseCapture,
                    Action::Send { peer, message: InputMessage::Leave },
                ]
            }
        }),
{
}

/// When the platform takes the capture away, no cursor is shared any more, every
/// peer that shared one is told, and the device is as free as before.
pub proof fn law_lost_capture_ends_sharing(s: State)
    ensures
        ({
            let lost = state::capture_lost(s);
            &&& lost.state == (State { outgoing: None, incoming: None, ..s })
            &&& s.outgoing is Some ==> lost.actions.contains(
                Action::Send { peer: s.outgoing->0.to(), message: InputMessage::Leave },
            )
            &&& s.incoming is Some ==> lost.actions.contains(Action::EndInjection)
                && lost.actions.contains(
                Action::Send { peer: s.incoming->0.peer, message: InputMessage::Leave },
            )
            &&& lost.actions.contains(Action::AllowAllEdges)
            &&& lost.actions.contains(Action::ReleaseCapture)
            &&& lost.actions.len() == 2 + (if s.outgoing is Some {
                1int
            } else {
                0
            }) + (if s.incoming is Some {
                2int
            } else {
                0
            })
        }),
{
    let lost = state::capture_lost(s).actions;
    let n = lost.len();
    assert(lost[n - 1] == Action::<Seq<char>>::ReleaseCapture);
    assert(lost[n - 2] == Action::<Seq<char>>::AllowAllEdges);
    if s.incoming is Some {
        assert(lost[n - 3] == state::leave(s.incoming->0.peer));
        assert(lost[n - 4] == Action::<Seq<char>>::EndInjection);
    }
    if s.outgoing is Some {
        assert(lost[0] == state::leave(s.outgoing->0.to()));
    }
}

/// Whether no other peer has an edge.
pub open spec fn free_for(s: State, peer: Seq<char>, edge: Edge) -> bool {
    (s.portals.dom().contains(peer) && s.portals[peer].has(edge)) || forall|other: Seq<char>|
        other != peer && #[trigger] s.portals.dom().contains(other) ==> !s.portals[other].has(edge)
}

proof fn lemma_free_for(s: State, peer: Seq<char>, edge: Edge)
    ensures
        portal::available(s.portals, peer, edge) == free_for(s, peer, edge),
{
    if portal::claimed_by_other(s.portals, peer, edge) {
        let other = choose|other: Seq<char>|
            other != peer && #[trigger] portal::confirmed(s.portals, other, edge);
        assert(s.portals.dom().contains(other));
    } else {
        assert forall|other: Seq<char>|
            other != peer && #[trigger] s.portals.dom().contains(other) implies !s.portals[other].has(
            edge,
        ) by {
            assert(!portal::confirmed(s.portals, other, edge));
        }
    }
}

/// A peer that presses an edge that leads here is told so, unless a cursor is on
/// this screen or the edge leads to another peer: then it is told to leave. At a
/// known portal nothing is shown; elsewhere a beacon of this very edge is shown,
/// once, and says how long the edge has been pressed.
pub proof fn law_pressed_edges_are_shown(
    s: State,
    now: u64,
    peer: Seq<char>,
    edge: Edge,
    position: Double,
    progress: Single,
    scaled: (Double, Double),
)
    ensures
        ({
            let shown = state::receive(
                s,
                now,
                peer,
                InputMessage::Probe { edge, position, progress },
                scaled,
            );
            let known = s.portals.dom().contains(peer) && s.portals[peer].has(edge);
            let refused = s.incoming is Some || !free_for(s, peer, edge);
            let on = s.preview is Some && s.preview->0.peer == peer && s.preview->0.edge == edge;
            let reply = Action::Send { peer, message: InputMessage::ProbeAck };
            let update = Action::<Seq<char>>::UpdateBeacon { position, progress };
            let show = Action::ShowBeacon { peer, edge, position };
            &&& refused ==> same_sharing(shown.state, s) && shown.actions == seq![
                Action::Send { peer, message: InputMessage::Leave },
            ]
            &&& !refused && known ==> same_sharing(shown.state, s) && shown.actions == seq![reply]
            &&& !refused && !known ==> {
                &&& shown.state.preview == Some(Preview { peer, edge, last_probe: now })
                &&& same_sharing(State { preview: s.preview, ..shown.state }, s)
                &&& on ==> shown.actions == seq![update, reply]
                &&& s.preview is None ==> shown.actions == seq![show, update, reply]
                &&& s.preview is Some && !on ==> shown.actions == seq![
                    Action::CancelBeacon,
                    show,
                    update,
                    reply,
                ]
            }
            &&& shown.state.escape_started == s.escape_started
        }),
{
    lemma_free_for(s, peer, edge);
    let shown = state::receive(
        s,
        now,
        peer,
        InputMessage::Probe { edge, position, progress },
        scaled,
    ).actions;
    let reply = Action::Send { peer, message: InputMessage::ProbeAck };
    let update = Action::<Seq<char>>::UpdateBeacon { position, progress };
    let show = Action::ShowBeacon { peer, edge, position };
    if s.incoming is None && free_for(s, peer, edge) && !(s.portals.dom().contains(peer)
        && s.portals[peer].has(edge)) {
        let on = s.preview is Some && s.preview->0.peer == peer && s.preview->0.edge == edge;
        if on {
            assert(shown =~= seq![update, reply]);
        } else if s.preview is None {
            assert(shown =~= seq![show, update, reply]);
        } else {
            assert(shown =~= seq![Action::CancelBeacon, show, update, reply]);
        }
    }
}

/// A peer that saw the pressing is noted down for the pressing that goes on with
/// it, and for no other; nothing is done about it.
pub proof fn law_seen_pressing_is_noted(
    s: State,
    now: u64,
    peer: Seq<char>,
    scaled: (Double, Double),
)
    ensures
        ({
            let noted = state::receive(s, now, peer, InputMessage::ProbeAck, scaled);
            let pressing = s.outgoing is Some && s.outgoing->0 is Probing && s.outgoing->0.to()
                == peer;
            &&& noted.actions.len() == 0
            &&& same_sharing(State { outgoing: s.outgoing, ..noted.state }, s)
            &&& !pressing ==> noted.state.outgoing == s.outgoing
            &&& pressing ==> noted.state.outgoing == Some(
                Outgoing::Probing {
                    peer,
                    edge: s.outgoing->0.side(),
                    position: s.outgoing->0->position,
                    started: s.outgoing->0->started,
                    last_push: s.outgoing->0->last_push,
                    acknowledged: true,
                    screen_width: s.outgoing->0->screen_width,
                    screen_height: s.outgoing->0->screen_height,
                },
            )
        }),
{
}

/// A peer that gives up takes back what it shared: the cursor on its way to it
/// comes home, and its beacon goes. What is shared with others stays.
pub proof fn law_giving_up(s: State, now: u64, peer: Seq<char>, scaled: (Double, Double))
    ensures
        ({
            let ended = state::receive(s, now, peer, InputMessage::Cancel, scaled);
            let going = s.outgoing is Some && s.outgoing->0.to() == peer;
            let shown = s.preview is Some && s.preview->0.peer == peer;
            &&& going ==> ended.state.outgoing is None
            &&& !going ==> ended.state.outgoing == s.outgoing
            &&& shown ==> ended.state.preview is None
            &&& !shown ==> ended.state.preview == s.preview
            &&& same_sharing(
                State { outgoing: s.outgoing, preview: s.preview, ..ended.state },
                s,
            )
            &&& going && shown ==> ended.actions == seq![
                Action::<Seq<char>>::ReleaseCapture,
                Action::CancelBeacon,
            ]
            &&& going && !shown ==> ended.actions == seq![Action::<Seq<char>>::ReleaseCapture]
            &&& !going && shown ==> ended.actions == seq![Action::<Seq<char>>::CancelBeacon]
            &&& !going && !shown ==> ended.actions.len() == 0
        }),
{
    let ended = state::receive(s, now, peer, InputMessage::Cancel, scaled).actions;
    let going = s.outgoing is Some && s.outgoing->0.to() == peer;
    let shown = s.preview is Some && s.preview->0.peer == peer;
    if going && shown {
        assert(ended =~= seq![Action::<Seq<char>>::ReleaseCapture, Action::CancelBeacon]);
    } else if going {
        assert(ended =~= seq![Action::<Seq<char>>::ReleaseCapture]);
    } else if shown {
        assert(ended =~= seq![Action::<Seq<char>>::CancelBeacon]);
    }
}

/// Whether the cursor of a peer may come in by an edge: it was not just taken
/// back, the edge leads to no other peer, someone knows the portal or has been
/// looking at its beacon within half a second, no cursor is on the screen, and of
/// two devices that press towards each other this one does not have the larger id.
pub open spec fn may_come_in(s: State, now: u64, peer: Seq<char>, edge: Edge) -> bool {
    &&& !just_turned_away(s, peer, now)
    &&& free_for(s, peer, edge)
    &&& ((s.portals.dom().contains(peer) && s.portals[peer].has(edge)) || (s.preview is Some
        && s.preview->0.peer == peer && s.preview->0.edge == edge && now - s.preview->0.last_probe
        <= 500_000_000))
    &&& s.incoming is None
    &&& s.outgoing is Some ==> !crate::text::text_lt(peer, s.local_id)
}

/// A cursor that may come in does: it is injected at the place where it enters,
/// only its own edge can be pressed, the peer is told, the portal is known from
/// then on, and what this device was about to send out is given up. One that may
/// not is told to leave, and nothing changes.
pub proof fn law_cursor_comes_in(
    s: State,
    now: u64,
    peer: Seq<char>,
    edge: Edge,
    position: Double,
    screen_width: Double,
    screen_height: Double,
    scaled: (Double, Double),
    other: Seq<char>,
    side: Edge,
)
    ensures
        ({
            let entry = InputMessage::Enter { edge, position, screen_width, screen_height };
            let came = state::receive(s, now, peer, entry, scaled);
            let n = came.actions.len();
            &&& !may_come_in(s, now, peer, edge) ==> same_sharing(came.state, s) && came.actions
                == seq![Action::Send { peer, message: InputMessage::Leave }]
            &&& may_come_in(s, now, peer, edge) ==> {
                &&& came.state.incoming matches Some(active) && active.peer == peer && active.edge
                    == edge && active.depth.bits == 0x4008_0000_0000_0000 && active.peer_screen_width
                    == screen_width && active.peer_screen_height == screen_height
                &&& came.state.outgoing is None
                &&& came.state.preview is None
                &&& came.state.takeover == s.takeover
                &&& came.state.last_ping == s.last_ping
                &&& came.state.local_id == s.local_id
                &&& came.state.debug == s.debug
                &&& portal::confirmed(came.state.portals, other, side) == (portal::confirmed(
                    s.portals,
                    other,
                    side,
                ) || (other == peer && side == edge))
                &&& n == 3 + (if s.preview is Some {
                    1int
                } else {
                    0
                }) + (if s.outgoing is Some {
                    1int
                } else {
                    0
                })
                &&& came.actions[n - 1] == Action::Send { peer, message: InputMessage::Ack }
                &&& came.actions[n - 2] == Action::<Seq<char>>::BeginInjection { edge, position }
                &&& came.actions[n - 3] == Action::<Seq<char>>::AllowEdge(edge)
                &&& s.outgoing is Some ==> came.actions[n - 4]
                    == Action::<Seq<char>>::ReleaseCapture
                &&& s.preview is Some ==> came.actions[0] == Action::<Seq<char>>::ConfirmBeacon
            }
        }),
{
    lemma_free_for(s, peer, edge);
    let heard = State { last_seen: s.last_seen.insert(peer, now), ..s };
    assert(state::admits(heard, now, peer, edge) == may_come_in(s, now, peer, edge));
    if may_come_in(s, now, peer, edge) {
        let edges = portal::bound(s.portals, peer, edge);
        assert(portal::confirmed(edges, other, side) == (portal::confirmed(s.portals, other, side)
            || (other == peer && side == edge)));
    }
}

/// The acknowledgement of the peer that the cursor went to makes input flow, and
/// makes the portal known; one of another peer, or at another time, does nothing.
pub proof fn law_acknowledged_cursor_is_ready(
    s: State,
    now: u64,
    peer: Seq<char>,
    scaled: (Double, Double),
    other: Seq<char>,
    side: Edge,
)
    ensures
        ({
            let told = state::receive(s, now, peer, InputMessage::Ack, scaled);
            let sent = s.outgoing is Some && s.outgoing->0 is Sending && s.outgoing->0.to() == peer;
            &&& told.actions.len() == 0
            &&& !sent ==> same_sharing(told.state, s)
            &&& same_sharing(
                State { outgoing: s.outgoing, portals: s.portals, ..told.state },
                s,
            )
            &&& sent ==> told.state.outgoing == Some(
                Outgoing::Sending {
                    peer,
                    edge: s.outgoing->0.side(),
                    depth: s.outgoing->0->depth,
                    ready: true,
                },
            )
            &&& sent ==> portal::confirmed(told.state.portals, other, side) == (portal::confirmed(
                s.portals,
                other,
                side,
            ) || (other == peer && side == s.outgoing->0.side()))
        }),
{
}

/// A peer that ends the sharing ends it both ways: the cursor that went to it
/// comes home, and its own is no longer injected. If it turned the cursor away at
/// a portal, that portal is forgotten, and no other.
pub proof fn law_peer_ends_sharing(
    s: State,
    now: u64,
    peer: Seq<char>,
    scaled: (Double, Double),
    other: Seq<char>,
    side: Edge,
)
    ensures
        ({
            let ended = state::receive(s, now, peer, InputMessage::Leave, scaled);
            let going = s.outgoing is Some && s.outgoing->0.to() == peer;
            let refused = going && s.outgoing->0 is Sending && !s.outgoing->0->ready;
            &&& going ==> ended.state.outgoing is None
            &&& !going ==> ended.state.outgoing == s.outgoing
            &&& hosts(s, peer) ==> ended.state.incoming is None
            &&& !hosts(s, peer) ==> ended.state.incoming == s.incoming
            &&& same_sharing(
                State {
                    outgoing: s.outgoing,
                    incoming: s.incoming,
                    portals: s.portals,
                    ..ended.state
                },
                s,
            )
            &&& portal::confirmed(ended.state.portals, other, side) == (portal::confirmed(
                s.portals,
                other,
                side,
            ) && !(refused && other == peer && side == s.outgoing->0.side()))
            &&& going && hosts(s, peer) ==> ended.actions == seq![
                Action::<Seq<char>>::ReleaseCapture,
                Action::EndInjection,
                Action::AllowAllEdges,
            ]
            &&& going && !hosts(s, peer) ==> ended.actions == seq![
                Action::<Seq<char>>::ReleaseCapture,
            ]
            &&& !going && hosts(s, peer) ==> ended.actions == seq![
                Action::<Seq<char>>::EndInjection,
                Action::AllowAllEdges,
            ]
            &&& !going && !hosts(s, peer) ==> ended.actions.len() == 0
        }),
{
    let ended = state::receive(s, now, peer, InputMessage::Leave, scaled).actions;
    let going = s.outgoing is Some && s.outgoing->0.to() == peer;
    if going && hosts(s, peer) {
        assert(ended =~= seq![
            Action::<Seq<char>>::ReleaseCapture,
            Action::EndInjection,
            Action::AllowAllEdges,
        ]);
    } else if going {
        assert(ended =~= seq![Action::<Seq<char>>::ReleaseCapture]);
    } else if hosts(s, peer) {
        assert(ended =~= seq![Action::<Seq<char>>::EndInjection, Action::AllowAllEdges]);
    }
    if going && s.outgoing->0 is Sending && !s.outgoing->0->ready {
        portal::law_forgetting_takes_one_edge(s.portals, peer, s.outgoing->0.side());
    }
}

/// A cursor that left by the edge that it came in by, or whose depth inside the
/// screen is no longer above zero, goes back to its peer; one that is still on
/// the screen stays, at the depth that it reached.
pub proof fn law_cursor_leaves_by_its_edge(s: State, peer: Seq<char>, crossing: Crossing)
    ensures
        ({
            let done = state::applied(s, peer, crossing);
            let out = (crossing matches Crossing::Depth(depth) && !depth.is_nan() && depth.rank()
                <= 0) || crossing == (Crossing::Seen { left: true });
            &&& !hosts(s, peer) ==> done.state == s
            &&& hosts(s, peer) && out ==> done.state == (State { incoming: None, ..s })
                && done.actions == seq![
                Action::EndInjection,
                Action::AllowAllEdges,
                Action::Send { peer, message: InputMessage::Leave },
            ]
            &&& !(hosts(s, peer) && out) ==> done.actions.len() == 0
            &&& hosts(s, peer) && !out ==> done.state == (State {
                incoming: Some(
                    Incoming {
                        depth: if crossing is Depth {
                            crossing->Depth_0
                        } else {
                            s.incoming->0.depth
                        },
                        ..s.incoming->0
                    },
                ),
                ..s
            })
        }),
{
}

/// What is done in one list or in another is done in the two together.
proof fn lemma_joined(a: Seq<Action<Seq<char>>>, b: Seq<Action<Seq<char>>>)
    ensures
        forall|x: Action<Seq<char>>| #[trigger]
            (a + b).contains(x) <==> a.contains(x) || b.contains(x),
{
    assert forall|x: Action<Seq<char>>| #[trigger] (a + b).contains(x) <==> a.contains(x)
        || b.contains(x) by {
        if a.contains(x) {
            let i = a.index_of(x);
            assert((a + b)[i] == x);
        }
        if b.contains(x) {
            let i = b.index_of(x);
            assert((a + b)[a.len() + i] == x);
        }
    }
}

/// What is done when time passes is what is done about trust, pings, a cursor
/// taken back, a pressed edge, a beacon and silence, and nothing else.
proof fn lemma_tick_parts(s: State, order: Seq<Seq<char>>, now: u64, x: Action<Seq<char>>)
    ensures
        ({
            let dropped = state::drop_untrusted(s, order.to_set());
            let pinged = state::ping(dropped.state, order, now);
            let repeated = state::repeat_takeover(pinged.state, now);
            let settled = state::settle_probe(repeated.state, now);
            let expired = state::expire_preview(settled.state, now);
            let recalled = state::recall_outgoing(expired.state, now);
            let gone = state::recall_incoming(recalled.state, now);
            let done = state::tick(s, order, now);
            &&& state::escaped(s, now) ==> done.state == pinged.state && (done.actions.contains(x)
                <==> dropped.actions.contains(x) || pinged.actions.contains(x) || x is Exit)
            &&& !state::escaped(s, now) ==> done.state == gone.state && (done.actions.contains(x)
                <==> dropped.actions.contains(x) || pinged.actions.contains(x)
                || repeated.actions.contains(x) || settled.actions.contains(x)
                || expired.actions.contains(x) || recalled.actions.contains(x)
                || gone.actions.contains(x))
        }),
{
    let dropped = state::drop_untrusted(s, order.to_set());
    let pinged = state::ping(dropped.state, order, now);
    let repeated = state::repeat_takeover(pinged.state, now);
    let settled = state::settle_probe(repeated.state, now);
    let expired = state::expire_preview(settled.state, now);
    let recalled = state::recall_outgoing(expired.state, now);
    let gone = state::recall_incoming(recalled.state, now);
    let end = seq![Action::<Seq<char>>::Exit];
    lemma_joined(dropped.actions, pinged.actions);
    let a = dropped.actions + pinged.actions;
    lemma_joined(a, end);
    assert(end.contains(x) <==> x is Exit) by {
        assert(end[0] == Action::<Seq<char>>::Exit);
    }
    lemma_joined(repeated.actions, settled.actions);
    let b = repeated.actions + settled.actions;
    lemma_joined(b, expired.actions);
    let c = b + expired.actions;
    lemma_joined(c, recalled.actions);
    let d = c + recalled.actions;
    lemma_joined(d, gone.actions);
    lemma_joined(a, d + gone.actions);
    assert(dropped.state.escape_started == s.escape_started);
    assert(pinged.state.escape_started == s.escape_started);
}

/// A short list holds what stands at its places and nothing else.
proof fn lemma_short(list: Seq<Action<Seq<char>>>)
    requires
        list.len() <= 3,
    ensures
        forall|x: Action<Seq<char>>| #[trigger]
            list.contains(x) <==> (list.len() >= 1 && x == list[0]) || (list.len() >= 2 && x
                == list[1]) || (list.len() >= 3 && x == list[2]),
{
}

/// What is done in each part of the time that passes.
proof fn lemma_short_parts(s: State, order: Seq<Seq<char>>, now: u64)
    ensures
        ({
            let dropped = state::drop_untrusted(s, order.to_set());
            let pinged = state::ping(dropped.state, order, now);
            let repeated = state::repeat_takeover(pinged.state, now);
            let settled = state::settle_probe(repeated.state, now);
            let expired = state::expire_preview(settled.state, now);
            let recalled = state::recall_outgoing(expired.state, now);
            let gone = state::recall_incoming(recalled.state, now);
            &&& forall|x: Action<Seq<char>>| #[trigger]
                dropped.actions.contains(x) <==> (x is ReleaseCapture && s.outgoing is Some
                    && !order.contains(s.outgoing->0.to())) || ((x is EndInjection
                    || x is AllowAllEdges) && s.incoming is Some && !order.contains(
                    s.incoming->0.peer,
                ))
            &&& forall|x: Action<Seq<char>>| #[trigger]
                pinged.actions.contains(x) ==> x is Send && x->message is Ping
            &&& forall|x: Action<Seq<char>>| #[trigger]
                repeated.actions.contains(x) <==> repeated.actions.len() == 1 && x
                    == repeated.actions[0]
            &&& forall|x: Action<Seq<char>>| #[trigger]
                settled.actions.contains(x) <==> (settled.actions.len() >= 1 && x
                    == settled.actions[0]) || (settled.actions.len() == 2 && x
                    == settled.actions[1])
            &&& forall|x: Action<Seq<char>>| #[trigger]
                expired.actions.contains(x) <==> expired.actions.len() == 1 && x
                    == expired.actions[0]
            &&& forall|x: Action<Seq<char>>| #[trigger]
                recalled.actions.contains(x) <==> recalled.actions.len() == 2 && (x
                    == recalled.actions[0] || x == recalled.actions[1])
            &&& forall|x: Action<Seq<char>>| #[trigger]
                gone.actions.contains(x) <==> gone.actions.len() == 3 && (x == gone.actions[0] || x
                    == gone.actions[1] || x == gone.actions[2])
        }),
{
    let dropped = state::drop_untrusted(s, order.to_set());
    let pinged = state::ping(dropped.state, order, now);
    let repeated = state::repeat_takeover(pinged.state, now);
    let settled = state::settle_probe(repeated.state, now);
    let expired = state::expire_preview(settled.state, now);
    let recalled = state::recall_outgoing(expired.state, now);
    let gone = state::recall_incoming(recalled.state, now);
    lemma_short(dropped.actions);
    lemma_short(repeated.actions);
    lemma_short(settled.actions);
    lemma_short(expired.actions);
    lemma_short(recalled.actions);
    lemma_short(gone.actions);
    assert forall|x: Action<Seq<char>>| #[trigger] pinged.actions.contains(x) implies x is Send
        && x->message is Ping by {
        let i = pinged.actions.index_of(x);
        assert(pinged.actions[i] is Send);
    }
}

/// Every trusted peer is pinged, and no other, every half second: when time
/// passes, the pings go out exactly if none went out during the last half second.
pub proof fn law_trusted_peers_are_pinged(
    s: State,
    order: Seq<Seq<char>>,
    now: u64,
    peer: Seq<char>,
)
    ensures
        ({
            let done = state::tick(s, order, now);
            let due = s.last_ping is None || (now >= s.last_ping->0 && now - s.last_ping->0
                >= 500_000_000);
            let ping = Action::Send { peer, message: InputMessage::Ping };
            &&& done.actions.contains(ping) <==> due && order.contains(peer)
            &&& due ==> done.state.last_ping == Some(now)
            &&& !due ==> done.state.last_ping == s.last_ping
        }),
{
    let ping = Action::Send { peer, message: InputMessage::Ping };
    lemma_tick_parts(s, order, now, ping);
    lemma_short_parts(s, order, now);
    let sent = order.map_values(|peer: Seq<char>| state::tell(peer, InputMessage::Ping));
    if order.contains(peer) {
        let i = order.index_of(peer);
        assert(sent[i] == ping);
    }
    if sent.contains(ping) {
        let i = sent.index_of(ping);
        assert(order[i] == peer);
    }
}

/// A debug build ends exactly when the escape key has been held for three seconds.
pub proof fn law_escape_ends_the_program(s: State, order: Seq<Seq<char>>, now: u64)
    ensures
        state::tick(s, order, now).actions.contains(Action::Exit) <==> (s.escape_started is Some
            && now - s.escape_started->0 >= 3_000_000_000),
        state::tick(s, order, now).state.escape_started == s.escape_started,
{
    lemma_tick_parts(s, order, now, Action::Exit);
    lemma_short_parts(s, order, now);
}

/// Whether nothing was heard of a peer for more than 1.2 seconds.
pub open spec fn is_silent(s: State, peer: Seq<char>, now: u64) -> bool {
    !s.last_seen.dom().contains(peer) || now - s.last_seen[peer] > 1_200_000_000
}

/// What becomes of a cursor on its way out when time passes. With a peer that is
/// no longer trusted it comes home. Else, where the program runs on: if the peer
/// fell silent, it comes home and the peer is told; an edge that has not been
/// pushed for more than half a second is no longer pressed, and the peer is told;
/// an edge that has been pressed for three seconds and that the peer has seen
/// lets the cursor in at the opposite edge; anything else goes on as it is.
#[verifier::rlimit(60)]
pub proof fn law_outgoing_cursor_in_time(s: State, order: Seq<Seq<char>>, now: u64)
    requires
        s.outgoing is Some,
    ensures
        ({
            let done = state::tick(s, order, now);
            let out = s.outgoing->0;
            let peer = out.to();
            let runs = !(s.escape_started is Some && now - s.escape_started->0 >= 3_000_000_000);
            let trusted = order.contains(peer);
            let silent = is_silent(s, peer, now);
            let paused = out is Probing && now - out->last_push > 500_000_000;
            let crosses = out is Probing && !paused && out->acknowledged && (now >= out->started
                && now - out->started >= 3_000_000_000);
            let enter = Action::Send {
                peer,
                message: InputMessage::Enter {
                    edge: match out.side() {
                        Edge::Left => Edge::Right,
                        Edge::Right => Edge::Left,
                        Edge::Top => Edge::Bottom,
                        Edge::Bottom => Edge::Top,
                    },
                    position: out->position,
                    screen_width: out->screen_width,
                    screen_height: out->screen_height,
                },
            };
            let leave = Action::Send { peer, message: InputMessage::Leave };
            &&& !trusted || (runs && (paused || silent)) <==> done.state.outgoing is None
            &&& done.actions.contains(Action::ReleaseCapture) <==> done.state.outgoing is None
            &&& trusted && runs && (paused || silent) ==> done.actions.contains(leave)
            &&& trusted && runs && crosses ==> done.actions.contains(enter)
            &&& trusted && runs && crosses && !silent ==> (done.state.outgoing matches Some(
                Outgoing::Sending { peer: to, edge, depth, ready },
            ) && to == peer && edge == out.side() && depth.bits == 0x4008_0000_0000_0000 && !ready)
            &&& trusted && !(runs && (paused || silent || crosses)) ==> done.state.outgoing
                == s.outgoing
            &&& trusted && runs && silent && !paused ==> !done.state.portals.dom().contains(peer)
        }),
{
    let peer = s.outgoing->0.to();
    let out = s.outgoing->0;
    let leave = Action::Send { peer, message: InputMessage::Leave };
    let enter = Action::Send {
        peer,
        message: InputMessage::Enter {
            edge: out.side().across(),
            position: out->position,
            screen_width: out->screen_width,
            screen_height: out->screen_height,
        },
    };
    lemma_tick_parts(s, order, now, Action::ReleaseCapture);
    lemma_tick_parts(s, order, now, leave);
    lemma_tick_parts(s, order, now, enter);
    lemma_short_parts(s, order, now);
    let dropped = state::drop_untrusted(s, order.to_set()).state;
    let pinged = state::ping(dropped, order, now).state;
    let repeated = state::repeat_takeover(pinged, now).state;
    assert(repeated.outgoing == dropped.outgoing);
    assert(repeated.last_seen == s.last_seen);
    let settled = state::settle_probe(repeated, now).state;
    let expired = state::expire_preview(settled, now).state;
    assert(expired.outgoing == settled.outgoing);
    assert(expired.last_seen == s.last_seen);
    let recalled = state::recall_outgoing(expired, now).state;
    assert(state::recall_incoming(recalled, now).state.outgoing == recalled.outgoing);
}

/// What becomes of a peer's cursor on this screen when time passes: it goes
/// exactly if the peer is no longer trusted or, where the program runs on, fell
/// silent; the screen is then free again. A silent peer is told to leave and
/// loses its portals.
pub proof fn law_incoming_cursor_in_time(s: State, order: Seq<Seq<char>>, now: u64)
    requires
        s.incoming is Some,
    ensures
        ({
            let done = state::tick(s, order, now);
            let peer = s.incoming->0.peer;
            let runs = !(s.escape_started is Some && now - s.escape_started->0 >= 3_000_000_000);
            let trusted = order.contains(peer);
            let silent = is_silent(s, peer, now);
            let leave = Action::Send { peer, message: InputMessage::Leave };
            &&& done.state.incoming is None <==> !trusted || (runs && silent)
            &&& done.state.incoming is Some ==> done.state.incoming == s.incoming
            &&& done.actions.contains(Action::EndInjection) <==> done.state.incoming is None
            &&& done.actions.contains(Action::AllowAllEdges) <==> done.state.incoming is None
            &&& trusted && runs && silent ==> done.actions.contains(leave)
                && !done.state.portals.dom().contains(peer) && done.state.takeover == Some(
                Takeover { peer, started: now, last_sent: now },
            )
        }),
{
    let leave = Action::Send { peer: s.incoming->0.peer, message: InputMessage::Leave };
    lemma_tick_parts(s, order, now, Action::EndInjection);
    lemma_tick_parts(s, order, now, Action::AllowAllEdges);
    lemma_tick_parts(s, order, now, leave);
    lemma_short_parts(s, order, now);
}

/// Without a cursor to lose, time takes none and frees nothing.
pub proof fn law_nothing_to_lose(s: State, order: Seq<Seq<char>>, now: u64)
    ensures
        ({
            let done = state::tick(s, order, now);
            &&& s.outgoing is None ==> done.state.outgoing is None && !done.actions.contains(
                Action::ReleaseCapture,
            )
            &&& s.incoming is None ==> done.state.incoming is None && !done.actions.contains(
                Action::EndInjection,
            ) && !done.actions.contains(Action::AllowAllEdges)
        }),
{
    lemma_tick_parts(s, order, now, Action::ReleaseCapture);
    lemma_tick_parts(s, order, now, Action::EndInjection);
    lemma_tick_parts(s, order, now, Action::AllowAllEdges);
    lemma_short_parts(s, order, now);
}

/// A beacon goes exactly when its edge has not been pressed for more than half a
/// second.
pub proof fn law_beacon_goes_in_time(s: State, order: Seq<Seq<char>>, now: u64)
    requires
        !(s.escape_started is Some && now - s.escape_started->0 >= 3_000_000_000),
    ensures
        ({
            let done = state::tick(s, order, now);
            let late = s.preview is Some && now - s.preview->0.last_probe > 500_000_000;
            &&& done.actions.contains(Action::CancelBeacon) <==> late
            &&& late ==> done.state.preview is None
            &&& !late ==> done.state.preview == s.preview
        }),
{
    lemma_tick_parts(s, order, now, Action::CancelBeacon);
    lemma_short_parts(s, order, now);
}

/// A peer whose cursor was taken back is told so again every 70 milliseconds, for
/// 700 milliseconds; then it is turned away no longer.
pub proof fn law_turning_away_is_repeated(s: State, order: Seq<Seq<char>>, now: u64)
    requires
        !(s.escape_started is Some && now - s.escape_started->0 >= 3_000_000_000),
        s.takeover is Some,
        s.outgoing is None,
        s.incoming is None,
    ensures
        ({
            let done = state::tick(s, order, now);
            let taken = s.takeover->0;
            let leave = Action::Send { peer: taken.peer, message: InputMessage::Leave };
            let over = now - taken.started > 700_000_000;
            let due = now - taken.last_sent >= 70_000_000;
            &&& over ==> done.state.takeover is None && !done.actions.contains(leave)
            &&& !over && due ==> done.actions.contains(leave) && done.state.takeover == Some(
                Takeover { peer: taken.peer, started: taken.started, last_sent: now },
            )
            &&& !over && !due ==> done.state.takeover == s.takeover && !done.actions.contains(leave)
        }),
{
    let leave = Action::Send { peer: s.takeover->0.peer, message: InputMessage::Leave };
    lemma_tick_parts(s, order, now, leave);
    lemma_short_parts(s, order, now);
}

/// Time changes no portal but those of peers that are no longer trusted or that
/// fell silent while a cursor was shared with them.
pub proof fn law_portals_in_time(
    s: State,
    order: Seq<Seq<char>>,
    now: u64,
    peer: Seq<char>,
)
    requires
        order.contains(peer),
        s.outgoing is Some ==> s.outgoing->0.to() != peer || !is_silent(s, peer, now),
        s.incoming is Some ==> s.incoming->0.peer != peer || !is_silent(s, peer, now),
    ensures
        ({
            let after = state::tick(s, order, now).state.portals;
            &&& after.dom().contains(peer) <==> s.portals.dom().contains(peer)
            &&& after.dom().contains(peer) ==> after[peer] == s.portals[peer]
        }),
{
    lemma_tick_parts(s, order, now, Action::Exit);
}

/// Whether a number is from zero to one.
pub open spec fn is_part(value: Double) -> bool {
    !value.is_nan() && 0 <= value.rank() <= 0x3ff0_0000_0000_0000
}

/// Whether a number is a length of at most ten thousand, either way.
pub open spec fn is_length(value: Double) -> bool {
    !value.is_nan() && -0x40c3_8800_0000_0000 <= value.rank() <= 0x40c3_8800_0000_0000
}

/// Whether every value in a message is in its range: key codes up to 767, keys and
/// buttons up or down, motions and scrolls of at most ten thousand either way, and
/// places and progress from zero to one.
pub open spec fn in_range(message: InputMessage) -> bool {
    match message {
        InputMessage::Keyboard(event) => event.key <= 767 && event.state <= 1,
        InputMessage::Pointer(PointerInput::Motion { dx, dy }) => is_length(dx) && is_length(dy),
        InputMessage::Pointer(PointerInput::Button { button, state }) => state <= 1,
        InputMessage::Pointer(PointerInput::Axis { axis, value }) => is_length(value),
        InputMessage::Probe { edge, position, progress } => is_part(position)
            && !progress.is_nan() && 0 <= progress.rank() <= 0x3f80_0000,
        InputMessage::Enter { edge, position, screen_width, screen_height } => is_part(position),
        _ => true,
    }
}

/// A message is heeded exactly if every value in it is in its range. One that is
/// refused is refused for what it is about.
pub proof fn law_messages_out_of_range_are_refused(
    s: State,
    now: u64,
    peer: Seq<char>,
    message: InputMessage,
    scaled: (Double, Double),
)
    ensures
        ({
            let done = state::heeded(s, now, peer, message, scaled);
            &&& done is Ok <==> in_range(message)
            &&& done is Ok ==> done->Ok_0 == state::receive(s, now, peer, message, scaled)
            &&& done matches Err(error) ==> error == match message {
                InputMessage::Keyboard(_) => InputError::InvalidKeyboard,
                InputMessage::Pointer(PointerInput::Motion { .. }) => InputError::InvalidMotion,
                InputMessage::Pointer(PointerInput::Button { .. }) => InputError::InvalidButton,
                InputMessage::Pointer(_) => InputError::InvalidAxis,
                InputMessage::Probe { .. } => InputError::InvalidProbe,
                _ => InputError::InvalidEntry,
            }
        }),
{
}

/// A key event, and a pointer event, is valid exactly if a message with it is.
pub proof fn law_events_are_valid_as_in_messages(key: KeyboardInput, event: PointerInput)
    ensures
        key.is_valid() <==> in_range(InputMessage::Keyboard(key)),
        event.fault() is None <==> in_range(InputMessage::Pointer(event)),
{
}

/// What is sent more than once, because losing it would leave a device without its
/// cursor or with a button held down: entering and leaving, what answers an entry,
/// and buttons.
pub proof fn law_vital_messages(message: InputMessage)
    ensures
        message.is_vital() <==> message is Enter || message is Leave || message is Ack || (
        message is Pointer && message->Pointer_0 is Button),
{
}

/// The sums that a motion asks for: while an edge is pressed, where along the edge the
/// pointer is and how far it went along it, and how long the edge has been pressed;
/// while the cursor is at a peer, how deep it is and how far it went out, which is
/// against the way that it came in by.
pub proof fn law_terms_of_a_motion(s: State, now: u64, dx: Double, dy: Double)
    ensures
        ({
            let terms = control::terms_of(s, now, PointerInput::Motion { dx, dy });
            &&& s.outgoing is None ==> terms is None
            &&& s.outgoing is Some && s.outgoing->0 is Probing ==> terms == Some(
                Terms::Press {
                    position: s.outgoing->0->position,
                    along: if s.outgoing->0.side() == Edge::Left || s.outgoing->0.side()
                        == Edge::Right {
                        dy
                    } else {
                        dx
                    },
                    held: if now >= s.outgoing->0->started {
                        (now - s.outgoing->0->started) as u64
                    } else {
                        0
                    },
                },
            )
            &&& s.outgoing is Some && s.outgoing->0 is Sending ==> (terms matches Some(
                Terms::Travel { depth, outward: out },
            ) && depth == s.outgoing->0->depth && (!dx.is_nan() && !dy.is_nan() ==> out.rank()
                == outward(s.outgoing->0.side(), dx, dy)))
        }),
{
}

/// Buttons and wheels ask for no sums.
pub proof fn law_only_motions_have_terms(s: State, now: u64, event: PointerInput)
    requires
        !(event is Motion),
    ensures
        control::terms_of(s, now, event) is None,
{
}

/// A motion puts a cursor where it takes it, and takes it back once it is no longer
/// inside; nothing else moves it.
pub proof fn law_motions_move_the_cursor(pointer: PointerInput, depth: Double, moved: Double)
    ensures
        pointer is Motion ==> control::depth_after(pointer, depth, moved).0 == moved,
        pointer is Motion && !moved.is_nan() ==> (control::depth_after(pointer, depth, moved).1
            <==> !moved.is_positive()),
        pointer is Motion && moved.is_nan() ==> !control::depth_after(pointer, depth, moved).1,
        !(pointer is Motion) ==> control::depth_after(pointer, depth, moved) == (depth, false),
{
}

/// Whether the cursor may leave for a peer by an edge: the peer is trusted, was heard of
/// within the last two seconds, and the edge leads to no other peer.
pub open spec fn may_leave_for(
    s: State,
    trusted: Set<Seq<char>>,
    peer: Seq<char>,
    edge: Edge,
    now: u64,
) -> bool {
    &&& trusted.contains(peer)
    &&& s.last_seen.dom().contains(peer)
    &&& now - s.last_seen[peer] < 2_000_000_000
    &&& free_for(s, peer, edge)
}

/// The cursor leaves for a peer that it may leave for, if there is one: the first slot
/// is for the first such peer, the next for the next, and the last peer has the slots
/// behind its own too.
pub proof fn law_chosen_peer_is_reachable(
    control: Control,
    peers: StrMap<Peer>,
    edge: Edge,
    now: u64,
    slot: usize,
    peer: Seq<char>,
)
    requires
        peers.key_order().to_set() == peers@.dom(),
    ensures
        ({
            let list = control.candidates(peers, edge, now);
            let chosen = control.chosen(peers, edge, now, slot);
            &&& list.contains(peer) <==> may_leave_for(control@, peers@.dom(), peer, edge, now)
            &&& chosen is None <==> list.len() == 0
            &&& chosen is Some ==> may_leave_for(control@, peers@.dom(), chosen->0, edge, now)
            &&& slot < list.len() ==> chosen == Some(list[slot as int])
            &&& 0 < list.len() <= slot ==> chosen == Some(list[list.len() - 1])
        }),
{
    let wanted = |peer: Seq<char>| state::eligible(control@, peers@.dom(), peer, edge, now);
    let order = peers.key_order();
    let list = order.filter(wanted);
    assert forall|p: Seq<char>| #[trigger] wanted(p) == may_leave_for(
        control@,
        peers@.dom(),
        p,
        edge,
        now,
    ) by {
        lemma_free_for(control@, p, edge);
    }
    assert(wanted(peer) == may_leave_for(control@, peers@.dom(), peer, edge, now));
    if list.contains(peer) {
        let i = list.index_of(peer);
        order.lemma_filter_pred(wanted, i);
        assert(wanted(list[i]));
    }
    if wanted(peer) {
        assert(order.to_set().contains(peer));
        let i = order.index_of(peer);
        order.lemma_filter_contains(wanted, i);
    }
    if list.len() > 0 {
        let at = if slot < list.len() {
            slot as int
        } else {
            list.len() - 1
        };
        order.lemma_filter_pred(wanted, at);
        assert(wanted(list[at]));
    }
}

} // verus!
