//! What a device knows while it shares input, and how every event changes it.
//!
//! The types are generic in how a peer is named: the running program names
//! peers by `String`, the model by the characters of the name.

use vstd::prelude::*;

use crate::float::{Double, Single};
use crate::input::portal;
use crate::input::portal::EdgeSet;
use crate::input::protocol::{Edge, InputError, InputMessage, KeyboardInput, PointerInput};

verus! {

/// How long an edge is pressed before the cursor crosses: three seconds.
pub const CONFIRM_TIME: u64 = 3_000_000_000;

/// The longest pause in pressing an edge.
pub const PRESS_GAP: u64 = 500_000_000;

/// How long a peer may be silent while a cursor is shared with it.
pub const PEER_TIMEOUT: u64 = 1_200_000_000;

/// How recently a peer must have been heard to be chosen.
pub const PEER_ONLINE: u64 = 2_000_000_000;

/// How long a device that took its cursor back turns the peer away.
pub const TAKEOVER_REPEAT_TIME: u64 = 700_000_000;

/// How often it repeats that during this time.
pub const TAKEOVER_REPEAT_GAP: u64 = 70_000_000;

/// How often peers are pinged.
pub const PING_GAP: u64 = 500_000_000;

/// How long the escape key is held to end a debug build.
pub const DEBUG_ESC_KILL_TIME: u64 = 3_000_000_000;

/// The key code of the escape key.
pub const ESC_KEY: u32 = 1;

/// How far inside the remote screen the cursor starts: three pixels.
pub const REMOTE_ENTRY_INSET: u64 = 0x4008_0000_0000_0000;

/// How hard a pull away from an edge ends the pressing: one and a half pixels.
pub const PULL_LIMIT: u64 = 0x3ff8_0000_0000_0000;

/// The cursor on its way to a peer, or there.
pub enum Outgoing<S> {
    /// An edge is being pressed.
    Probing {
        peer: S,
        edge: Edge,
        position: Double,
        started: u64,
        last_push: u64,
        acknowledged: bool,
        screen_width: Double,
        screen_height: Double,
    },
    /// Input goes to the peer, once it is ready for it.
    Sending { peer: S, edge: Edge, depth: Double, ready: bool },
}

/// The cursor of a peer on this screen.
pub struct Incoming<S> {
    pub peer: S,
    pub edge: Edge,
    pub depth: Double,
    pub peer_screen_width: Double,
    pub peer_screen_height: Double,
}

/// The beacon shown while a peer presses an edge that leads here.
pub struct Preview<S> {
    pub peer: S,
    pub edge: Edge,
    pub last_probe: u64,
}

/// A cursor that was taken back from a peer a moment ago.
pub struct Takeover<S> {
    pub peer: S,
    pub started: u64,
    pub last_sent: u64,
}

/// What is to be done about an event, in order.
pub enum Action<S> {
    Send { peer: S, message: InputMessage },
    ReleaseCapture,
    AllowAllEdges,
    AllowEdge(Edge),
    BeginInjection { edge: Edge, position: Double },
    EndInjection,
    ApplyPointer(PointerInput),
    ApplyKeyboard(KeyboardInput),
    ShowBeacon { peer: S, edge: Edge, position: Double },
    UpdateBeacon { position: Double, progress: Single },
    CancelBeacon,
    ConfirmBeacon,
    Exit,
}

/// What a device knows while it shares input.
#[verifier::ext_equal]
pub struct State {
    pub local_id: Seq<char>,
    pub debug: bool,
    pub outgoing: Option<Outgoing<Seq<char>>>,
    pub incoming: Option<Incoming<Seq<char>>>,
    pub preview: Option<Preview<Seq<char>>>,
    pub takeover: Option<Takeover<Seq<char>>>,
    pub portals: Map<Seq<char>, EdgeSet>,
    pub last_seen: Map<Seq<char>, u64>,
    pub last_ping: Option<u64>,
    pub escape_started: Option<u64>,
}

/// The state after an event, and what is to be done about it.
pub struct Step {
    pub state: State,
    pub actions: Seq<Action<Seq<char>>>,
}

impl<S> Outgoing<S> {
    /// The peer that the cursor is on its way to.
    pub open spec fn to(self) -> S {
        match self {
            Outgoing::Probing { peer, .. } => peer,
            Outgoing::Sending { peer, .. } => peer,
        }
    }

    /// The edge that it left by.
    pub open spec fn side(self) -> Edge {
        match self {
            Outgoing::Probing { edge, .. } => edge,
            Outgoing::Sending { edge, .. } => edge,
        }
    }
}

impl Outgoing<String> {
    pub open spec fn seen(self) -> Outgoing<Seq<char>> {
        match self {
            Outgoing::Probing {
                peer,
                edge,
                position,
                started,
                last_push,
                acknowledged,
                screen_width,
                screen_height,
            } => Outgoing::Probing {
                peer: peer@,
                edge,
                position,
                started,
                last_push,
                acknowledged,
                screen_width,
                screen_height,
            },
            Outgoing::Sending { peer, edge, depth, ready } => Outgoing::Sending {
                peer: peer@,
                edge,
                depth,
                ready,
            },
        }
    }
}

impl Incoming<String> {
    pub open spec fn seen(self) -> Incoming<Seq<char>> {
        Incoming {
            peer: self.peer@,
            edge: self.edge,
            depth: self.depth,
            peer_screen_width: self.peer_screen_width,
            peer_screen_height: self.peer_screen_height,
        }
    }
}

impl Preview<String> {
    pub open spec fn seen(self) -> Preview<Seq<char>> {
        Preview { peer: self.peer@, edge: self.edge, last_probe: self.last_probe }
    }
}

impl Takeover<String> {
    pub open spec fn seen(self) -> Takeover<Seq<char>> {
        Takeover { peer: self.peer@, started: self.started, last_sent: self.last_sent }
    }
}

impl Action<String> {
    pub open spec fn seen(self) -> Action<Seq<char>> {
        match self {
            Action::Send { peer, message } => Action::Send { peer: peer@, message },
            Action::ReleaseCapture => Action::ReleaseCapture,
            Action::AllowAllEdges => Action::AllowAllEdges,
            Action::AllowEdge(edge) => Action::AllowEdge(edge),
            Action::BeginInjection { edge, position } => Action::BeginInjection { edge, position },
            Action::EndInjection => Action::EndInjection,
            Action::ApplyPointer(pointer) => Action::ApplyPointer(pointer),
            Action::ApplyKeyboard(keyboard) => Action::ApplyKeyboard(keyboard),
            Action::ShowBeacon { peer, edge, position } => Action::ShowBeacon {
                peer: peer@,
                edge,
                position,
            },
            Action::UpdateBeacon { position, progress } => Action::UpdateBeacon {
                position,
                progress,
            },
            Action::CancelBeacon => Action::CancelBeacon,
            Action::ConfirmBeacon => Action::ConfirmBeacon,
            Action::Exit => Action::Exit,
        }
    }
}

/// What a list of actions says.
pub open spec fn all_seen(actions: Seq<Action<String>>) -> Seq<Action<Seq<char>>> {
    actions.map_values(|action: Action<String>| action.seen())
}

/// How long ago a moment was; a moment still to come was no time ago.
pub open spec fn elapsed(since: u64, now: u64) -> int {
    if now >= since {
        now - since
    } else {
        0
    }
}

/// A message for a peer.
pub open spec fn tell(peer: Seq<char>, message: InputMessage) -> Action<Seq<char>> {
    Action::Send { peer, message }
}

/// The message that ends the sharing with a peer.
pub open spec fn leave(peer: Seq<char>) -> Action<Seq<char>> {
    tell(peer, InputMessage::Leave)
}

/// Nothing changes and nothing is done.
pub open spec fn idle(s: State) -> Step {
    Step { state: s, actions: Seq::empty() }
}

/// How far a motion pushes out through an edge and how far it goes along it.
pub open spec fn push(edge: Edge, dx: Double, dy: Double) -> (Double, Double) {
    match edge {
        Edge::Left => (dx.opposite(), dy),
        Edge::Right => (dx, dy),
        Edge::Top => (dy.opposite(), dx),
        Edge::Bottom => (dy, dx),
    }
}

/// Whether a cursor was taken back from a peer a moment ago.
pub open spec fn turned_away(s: State, peer: Seq<char>, now: u64) -> bool {
    s.takeover matches Some(takeover) && takeover.peer == peer && elapsed(takeover.started, now)
        <= TAKEOVER_REPEAT_TIME
}

/// Whether a peer has not been heard of for too long.
pub open spec fn timed_out(last_seen: Map<Seq<char>, u64>, peer: Seq<char>, now: u64) -> bool {
    !last_seen.dom().contains(peer) || elapsed(last_seen[peer], now) > PEER_TIMEOUT
}

/// Whether the cursor may leave for a peer by an edge: the peer is trusted, was
/// heard of lately, and the edge leads to no other.
pub open spec fn eligible(
    s: State,
    trusted: Set<Seq<char>>,
    peer: Seq<char>,
    edge: Edge,
    now: u64,
) -> bool {
    &&& trusted.contains(peer)
    &&& s.last_seen.dom().contains(peer)
    &&& elapsed(s.last_seen[peer], now) < PEER_ONLINE
    &&& portal::available(s.portals, peer, edge)
}

/// The escape key starts and stops the clock that ends a debug build.
pub open spec fn after_escape(s: State, keyboard: KeyboardInput, now: u64) -> State {
    if !s.debug || keyboard.key != ESC_KEY {
        s
    } else if keyboard.state == 0 {
        State { escape_started: None, ..s }
    } else if s.escape_started is None {
        State { escape_started: Some(now), ..s }
    } else {
        s
    }
}

/// The cursor starts to press an edge. `chosen` is the peer there, if there is
/// one.
pub open spec fn begin(
    s: State,
    chosen: Option<Seq<char>>,
    now: u64,
    edge: Edge,
    position: Double,
    screen_width: Double,
    screen_height: Double,
) -> Step {
    if s.incoming matches Some(active) && active.edge == edge {
        // The peer's cursor goes back by the edge that it came in by.
        Step {
            state: State { incoming: None, ..s },
            actions: seq![
                Action::EndInjection,
                Action::AllowAllEdges,
                leave(s.incoming->0.peer),
                Action::ReleaseCapture,
            ],
        }
    } else if s.outgoing is Some || s.incoming is Some {
        idle(s)
    } else {
        match chosen {
            None => Step { state: s, actions: seq![Action::ReleaseCapture] },
            Some(peer) => if portal::confirmed(s.portals, peer, edge) {
                Step {
                    state: State {
                        outgoing: Some(
                            Outgoing::Sending { peer, edge, depth: Double { bits: REMOTE_ENTRY_INSET }, ready: false },
                        ),
                        ..s
                    },
                    actions: seq![
                        tell(
                            peer,
                            InputMessage::Enter {
                                edge: edge.across(),
                                position,
                                screen_width,
                                screen_height,
                            },
                        ),
                    ],
                }
            } else {
                Step {
                    state: State {
                        outgoing: Some(
                            Outgoing::Probing {
                                peer,
                                edge,
                                position,
                                started: now,
                                last_push: now,
                                acknowledged: false,
                                screen_width,
                                screen_height,
                            },
                        ),
                        ..s
                    },
                    actions: seq![
                        tell(
                            peer,
                            InputMessage::Probe {
                                edge: edge.across(),
                                position,
                                progress: Single { bits: 0 },
                            },
                        ),
                    ],
                }
            },
        }
    }
}

/// The sums that a pointer event asks for.
#[derive(Clone, Copy)]
pub struct Sums {
    /// The pressed position, moved along the edge.
    pub position: Double,
    /// How many times the confirmation time has passed.
    pub progress: Single,
    /// The depth inside the remote screen, moved by the push.
    pub depth: Double,
}

/// The captured pointer does something.
pub open spec fn pointer(s: State, now: u64, event: PointerInput, sums: Sums) -> Step {
    match s.outgoing {
        Some(
            Outgoing::Probing {
                peer,
                edge,
                position,
                started,
                last_push,
                acknowledged,
                screen_width,
                screen_height,
            },
        ) => match event {
            PointerInput::Motion { dx, dy } => {
                let outward = push(edge, dx, dy).0;
                if outward.is_positive() {
                    Step {
                        state: State {
                            outgoing: Some(
                                Outgoing::Probing {
                                    peer,
                                    edge,
                                    position: sums.position.held_in_unit(),
                                    started,
                                    last_push: now,
                                    acknowledged,
                                    screen_width,
                                    screen_height,
                                },
                            ),
                            ..s
                        },
                        actions: seq![
                            tell(
                                peer,
                                InputMessage::Probe {
                                    edge: edge.across(),
                                    position: sums.position.held_in_unit(),
                                    progress: sums.progress.held_to_one(),
                                },
                            ),
                        ],
                    }
                } else if !outward.is_nan() && outward.rank() < -PULL_LIMIT {
                    Step {
                        state: State { outgoing: None, ..s },
                        actions: seq![leave(peer), Action::ReleaseCapture],
                    }
                } else {
                    Step {
                        state: State {
                            outgoing: Some(
                                Outgoing::Probing {
                                    peer,
                                    edge,
                                    position: sums.position.held_in_unit(),
                                    started,
                                    last_push,
                                    acknowledged,
                                    screen_width,
                                    screen_height,
                                },
                            ),
                            ..s
                        },
                        actions: Seq::empty(),
                    }
                }
            },
            _ => idle(s),
        },
        Some(Outgoing::Sending { peer, edge, depth, ready }) => if !ready {
            idle(s)
        } else if event is Motion && !sums.depth.is_nan() && sums.depth.rank() <= 0 {
            Step {
                state: State { outgoing: None, ..s },
                actions: seq![leave(peer), Action::ReleaseCapture],
            }
        } else {
            Step {
                state: State {
                    outgoing: Some(
                        Outgoing::Sending {
                            peer,
                            edge,
                            depth: if event is Motion {
                                sums.depth
                            } else {
                                depth
                            },
                            ready,
                        },
                    ),
                    ..s
                },
                actions: seq![tell(peer, InputMessage::Pointer(event))],
            }
        },
        None => idle(s),
    }
}

/// A captured key is pressed or released.
pub open spec fn keyboard(s: State, now: u64, event: KeyboardInput) -> Step {
    let next = after_escape(s, event, now);
    match s.outgoing {
        Some(Outgoing::Sending { peer, edge, depth, ready }) => if ready {
            Step { state: next, actions: seq![tell(peer, InputMessage::Keyboard(event))] }
        } else {
            idle(next)
        },
        _ => idle(next),
    }
}

/// Someone uses this device's own pointer or keyboard: the cursor of a peer is
/// taken off the screen and the peer turned away for a while.
pub open spec fn local_input(s: State, now: u64) -> Step {
    match s.incoming {
        Some(active) => Step {
            state: State {
                incoming: None,
                takeover: Some(
                    Takeover { peer: active.peer, started: now, last_sent: now },
                ),
                ..s
            },
            actions: seq![
                Action::EndInjection,
                Action::AllowAllEdges,
                Action::ReleaseCapture,
                leave(active.peer),
            ],
        },
        None => idle(s),
    }
}

/// The platform took the capture away.
pub open spec fn capture_lost(s: State) -> Step {
    let outgoing = match s.outgoing {
        Some(active) => seq![leave(active.to())],
        None => Seq::empty(),
    };
    let incoming = match s.incoming {
        Some(active) => seq![Action::EndInjection, leave(active.peer)],
        None => Seq::empty(),
    };
    Step {
        state: State { outgoing: None, incoming: None, ..s },
        actions: outgoing + incoming + seq![Action::AllowAllEdges, Action::ReleaseCapture],
    }
}

/// A peer presses an edge that leads here.
pub open spec fn probe(
    s: State,
    now: u64,
    peer: Seq<char>,
    edge: Edge,
    position: Double,
    progress: Single,
) -> Step {
    if s.incoming is Some || !portal::available(s.portals, peer, edge) {
        Step { state: s, actions: seq![leave(peer)] }
    } else if portal::confirmed(s.portals, peer, edge) {
        Step { state: s, actions: seq![tell(peer, InputMessage::ProbeAck)] }
    } else {
        let shown = match s.preview {
            Some(old) => if old.peer == peer && old.edge == edge {
                Seq::empty()
            } else {
                seq![Action::CancelBeacon, Action::ShowBeacon { peer, edge, position }]
            },
            None => seq![Action::ShowBeacon { peer, edge, position }],
        };
        Step {
            state: State { preview: Some(Preview { peer, edge, last_probe: now }), ..s },
            actions: shown + seq![
                Action::UpdateBeacon { position, progress },
                tell(peer, InputMessage::ProbeAck),
            ],
        }
    }
}

/// A peer saw that its edge is pressed.
pub open spec fn probe_ack(s: State, peer: Seq<char>) -> Step {
    match s.outgoing {
        Some(
            Outgoing::Probing {
                peer: active,
                edge,
                position,
                started,
                last_push,
                acknowledged,
                screen_width,
                screen_height,
            },
        ) => if active == peer {
            idle(
                State {
                    outgoing: Some(
                        Outgoing::Probing {
                            peer: active,
                            edge,
                            position,
                            started,
                            last_push,
                            acknowledged: true,
                            screen_width,
                            screen_height,
                        },
                    ),
                    ..s
                },
            )
        } else {
            idle(s)
        },
        _ => idle(s),
    }
}

/// A peer gives up pressing or being pressed.
pub open spec fn cancel(s: State, peer: Seq<char>) -> Step {
    let ends_outgoing = s.outgoing matches Some(active) && active.to() == peer;
    let ends_preview = s.preview matches Some(preview) && preview.peer == peer;
    Step {
        state: State {
            outgoing: if ends_outgoing {
                None
            } else {
                s.outgoing
            },
            preview: if ends_preview {
                None
            } else {
                s.preview
            },
            ..s
        },
        actions: (if ends_outgoing {
            seq![Action::ReleaseCapture]
        } else {
            Seq::empty()
        }) + (if ends_preview {
            seq![Action::CancelBeacon]
        } else {
            Seq::empty()
        }),
    }
}

/// Whether the cursor of a peer may come in by an edge.
pub open spec fn admits(s: State, now: u64, peer: Seq<char>, edge: Edge) -> bool {
    &&& !turned_away(s, peer, now)
    &&& portal::available(s.portals, peer, edge)
    // Someone is looking at the beacon of this very edge, or knows the portal.
    &&& (portal::confirmed(s.portals, peer, edge) || (s.preview matches Some(preview)
        && preview.peer == peer && preview.edge == edge && elapsed(preview.last_probe, now)
        <= PRESS_GAP))
    &&& s.incoming is None
    // Of two devices that press towards each other, the larger id wins.
    &&& !(s.outgoing is Some && crate::text::text_lt(peer, s.local_id))
}

/// The cursor of a peer comes in by an edge.
pub open spec fn enter(
    s: State,
    now: u64,
    peer: Seq<char>,
    edge: Edge,
    position: Double,
    screen_width: Double,
    screen_height: Double,
) -> Step {
    if !admits(s, now, peer, edge) {
        Step { state: s, actions: seq![leave(peer)] }
    } else {
        Step {
            state: State {
                preview: None,
                outgoing: None,
                portals: portal::bound(s.portals, peer, edge),
                incoming: Some(
                    Incoming {
                        peer,
                        edge,
                        depth: Double { bits: REMOTE_ENTRY_INSET },
                        peer_screen_width: screen_width,
                        peer_screen_height: screen_height,
                    },
                ),
                ..s
            },
            actions: (if s.preview is Some {
                seq![Action::ConfirmBeacon]
            } else {
                Seq::empty()
            }) + (if s.outgoing is Some {
                seq![Action::ReleaseCapture]
            } else {
                Seq::empty()
            }) + seq![
                Action::AllowEdge(edge),
                Action::BeginInjection { edge, position },
                tell(peer, InputMessage::Ack),
            ],
        }
    }
}

/// A peer took the cursor in.
pub open spec fn ack(s: State, peer: Seq<char>) -> Step {
    match s.outgoing {
        Some(Outgoing::Sending { peer: active, edge, depth, ready }) => if active == peer {
            idle(
                State {
                    outgoing: Some(
                        Outgoing::Sending { peer: active, edge, depth, ready: true },
                    ),
                    portals: portal::bound(s.portals, peer, edge),
                    ..s
                },
            )
        } else {
            idle(s)
        },
        _ => idle(s),
    }
}

/// A peer ends the sharing. One that turns a cursor away at a known portal has
/// forgotten the portal, so this device forgets it too.
pub open spec fn left(s: State, peer: Seq<char>) -> Step {
    let ends_outgoing = s.outgoing matches Some(active) && active.to() == peer;
    let refused = s.outgoing matches Some(
        Outgoing::Sending { peer: active, edge, depth, ready },
    ) && active == peer && !ready;
    let ends_incoming = s.incoming matches Some(active) && active.peer == peer;
    Step {
        state: State {
            outgoing: if ends_outgoing {
                None
            } else {
                s.outgoing
            },
            portals: if refused {
                portal::forgotten(s.portals, peer, s.outgoing->0.side())
            } else {
                s.portals
            },
            incoming: if ends_incoming {
                None
            } else {
                s.incoming
            },
            ..s
        },
        actions: (if ends_outgoing {
            seq![Action::ReleaseCapture]
        } else {
            Seq::empty()
        }) + (if ends_incoming {
            seq![Action::EndInjection, Action::AllowAllEdges]
        } else {
            Seq::empty()
        }),
    }
}

/// A pointer event on this screen's scale. `scaled` is how far a motion goes on
/// it; other events have no scale.
pub open spec fn on_scale(event: PointerInput, scaled: (Double, Double)) -> PointerInput {
    match event {
        PointerInput::Motion { .. } => PointerInput::Motion { dx: scaled.0, dy: scaled.1 },
        _ => event,
    }
}

/// A peer uses its pointer. `scaled` is how far a motion goes on this screen.
pub open spec fn remote_pointer(
    s: State,
    now: u64,
    peer: Seq<char>,
    event: PointerInput,
    scaled: (Double, Double),
) -> Step {
    if turned_away(s, peer, now) {
        Step { state: s, actions: seq![leave(peer)] }
    } else if s.incoming matches Some(active) && active.peer == peer {
        Step { state: s, actions: seq![Action::ApplyPointer(on_scale(event, scaled))] }
    } else {
        idle(s)
    }
}

/// A peer presses or releases a key.
pub open spec fn remote_keyboard(
    s: State,
    now: u64,
    peer: Seq<char>,
    event: KeyboardInput,
) -> Step {
    let next = after_escape(s, event, now);
    if turned_away(s, peer, now) {
        Step { state: next, actions: seq![leave(peer)] }
    } else if s.incoming matches Some(active) && active.peer == peer {
        Step { state: next, actions: seq![Action::ApplyKeyboard(event)] }
    } else {
        idle(next)
    }
}

/// A valid message of a peer arrives.
pub open spec fn receive(
    s: State,
    now: u64,
    peer: Seq<char>,
    message: InputMessage,
    scaled: (Double, Double),
) -> Step {
    let heard = State { last_seen: s.last_seen.insert(peer, now), ..s };
    match message {
        InputMessage::Probe { edge, position, progress } => probe(
            heard,
            now,
            peer,
            edge,
            position,
            progress,
        ),
        InputMessage::ProbeAck => probe_ack(heard, peer),
        InputMessage::Cancel => cancel(heard, peer),
        InputMessage::Enter { edge, position, screen_width, screen_height } => enter(
            heard,
            now,
            peer,
            edge,
            position,
            screen_width,
            screen_height,
        ),
        InputMessage::Ack => ack(heard, peer),
        InputMessage::Leave => left(heard, peer),
        InputMessage::Pointer(event) => remote_pointer(
            heard,
            now,
            peer,
            event,
            scaled,
        ),
        InputMessage::Keyboard(event) => remote_keyboard(heard, now, peer, event),
        InputMessage::Ping => Step {
            state: heard,
            actions: seq![tell(peer, InputMessage::Pong)],
        },
        InputMessage::Pong => idle(heard),
    }
}

/// What a message of a peer does, or why it is refused.
pub open spec fn heeded(
    s: State,
    now: u64,
    peer: Seq<char>,
    message: InputMessage,
    scaled: (Double, Double),
) -> Result<Step, InputError> {
    match message.fault() {
        Some(error) => Err(error),
        None => Ok(receive(s, now, peer, message, scaled)),
    }
}

/// How a peer's cursor stands after a pointer event was applied.
#[derive(Clone, Copy)]
pub enum Crossing {
    /// The event did not move the cursor.
    Unmoved,
    /// The cursor is this deep inside the screen.
    Depth(Double),
    /// The platform saw whether the cursor left by its edge.
    Seen { left: bool },
}

/// A pointer event of a peer was applied: the cursor goes back once it leaves
/// by the edge that it came in by.
pub open spec fn applied(s: State, peer: Seq<char>, crossing: Crossing) -> Step {
    match s.incoming {
        Some(active) => if active.peer != peer {
            idle(s)
        } else {
            let gone = match crossing {
                Crossing::Unmoved => false,
                Crossing::Depth(depth) => !depth.is_nan() && depth.rank() <= 0,
                Crossing::Seen { left } => left,
            };
            if gone {
                Step {
                    state: State { incoming: None, ..s },
                    actions: seq![
                        Action::EndInjection,
                        Action::AllowAllEdges,
                        leave(peer),
                    ],
                }
            } else {
                idle(
                    State {
                        incoming: Some(
                            Incoming {
                                depth: match crossing {
                                    Crossing::Depth(depth) => depth,
                                    _ => active.depth,
                                },
                                ..active
                            },
                        ),
                        ..s
                    },
                )
            }
        },
        None => idle(s),
    }
}

/// One step after another.
pub open spec fn then_step(first: Step, second: Step) -> Step {
    Step { state: second.state, actions: first.actions + second.actions }
}

/// Peers that are no longer trusted lose the cursor and their portals.
pub open spec fn drop_untrusted(s: State, trusted: Set<Seq<char>>) -> Step {
    let ends_outgoing = s.outgoing matches Some(active) && !trusted.contains(active.to());
    let ends_incoming = s.incoming matches Some(active) && !trusted.contains(active.peer);
    Step {
        state: State {
            outgoing: if ends_outgoing {
                None
            } else {
                s.outgoing
            },
            incoming: if ends_incoming {
                None
            } else {
                s.incoming
            },
            portals: s.portals.restrict(trusted),
            ..s
        },
        actions: (if ends_outgoing {
            seq![Action::ReleaseCapture]
        } else {
            Seq::empty()
        }) + (if ends_incoming {
            seq![Action::EndInjection, Action::AllowAllEdges]
        } else {
            Seq::empty()
        }),
    }
}

/// Every trusted peer is pinged every half second. `order` lists the peers.
pub open spec fn ping(s: State, order: Seq<Seq<char>>, now: u64) -> Step {
    if s.last_ping matches Some(last) && elapsed(last, now) < PING_GAP {
        idle(s)
    } else {
        Step {
            state: State { last_ping: Some(now), ..s },
            actions: order.map_values(|peer: Seq<char>| tell(peer, InputMessage::Ping)),
        }
    }
}

/// A peer that the cursor was taken back from is told so again and again, for a
/// while.
pub open spec fn repeat_takeover(s: State, now: u64) -> Step {
    match s.takeover {
        Some(takeover) => if elapsed(takeover.started, now) > TAKEOVER_REPEAT_TIME {
            idle(State { takeover: None, ..s })
        } else if elapsed(takeover.last_sent, now) >= TAKEOVER_REPEAT_GAP {
            Step {
                state: State {
                    takeover: Some(Takeover { last_sent: now, ..takeover }),
                    ..s
                },
                actions: seq![leave(takeover.peer)],
            }
        } else {
            idle(s)
        },
        None => idle(s),
    }
}

/// Pressing an edge ends when no push comes any more, and lets the cursor cross
/// when the peer has seen it and it lasted long enough.
pub open spec fn settle_probe(s: State, now: u64) -> Step {
    match s.outgoing {
        Some(
            Outgoing::Probing {
                peer,
                edge,
                position,
                started,
                last_push,
                acknowledged,
                screen_width,
                screen_height,
            },
        ) => if elapsed(last_push, now) > PRESS_GAP {
            Step {
                state: State { outgoing: None, ..s },
                actions: seq![leave(peer), Action::ReleaseCapture],
            }
        } else if acknowledged && elapsed(started, now) >= CONFIRM_TIME {
            Step {
                state: State {
                    outgoing: Some(
                        Outgoing::Sending { peer, edge, depth: Double { bits: REMOTE_ENTRY_INSET }, ready: false },
                    ),
                    ..s
                },
                actions: seq![
                    tell(
                        peer,
                        InputMessage::Enter {
                            edge: edge.across(),
                            position,
                            screen_width,
                            screen_height,
                        },
                    ),
                ],
            }
        } else {
            idle(s)
        },
        _ => idle(s),
    }
}

/// A beacon goes when its edge is no longer pressed.
pub open spec fn expire_preview(s: State, now: u64) -> Step {
    if s.preview matches Some(preview) && elapsed(preview.last_probe, now) > PRESS_GAP {
        Step { state: State { preview: None, ..s }, actions: seq![Action::CancelBeacon] }
    } else {
        idle(s)
    }
}

/// The cursor comes back from a peer that fell silent.
pub open spec fn recall_outgoing(s: State, now: u64) -> Step {
    if s.outgoing matches Some(active) && timed_out(s.last_seen, active.to(), now) {
        let peer = s.outgoing->0.to();
        Step {
            state: State {
                outgoing: None,
                portals: s.portals.remove(peer),
                takeover: Some(Takeover { peer, started: now, last_sent: now }),
                ..s
            },
            actions: seq![Action::ReleaseCapture, leave(peer)],
        }
    } else {
        idle(s)
    }
}

/// The cursor of a peer that fell silent goes.
pub open spec fn recall_incoming(s: State, now: u64) -> Step {
    if s.incoming matches Some(active) && timed_out(s.last_seen, active.peer, now) {
        let peer = s.incoming->0.peer;
        Step {
            state: State {
                incoming: None,
                portals: s.portals.remove(peer),
                takeover: Some(Takeover { peer, started: now, last_sent: now }),
                ..s
            },
            actions: seq![leave(peer), Action::EndInjection, Action::AllowAllEdges],
        }
    } else {
        idle(s)
    }
}

/// Whether the escape key has been held long enough to end a debug build.
pub open spec fn escaped(s: State, now: u64) -> bool {
    s.escape_started matches Some(started) && elapsed(started, now) >= DEBUG_ESC_KILL_TIME
}

/// What is looked after while the program runs on.
pub open spec fn upkeep(s: State, now: u64) -> Step {
    let repeated = repeat_takeover(s, now);
    let settled = then_step(repeated, settle_probe(repeated.state, now));
    let expired = then_step(settled, expire_preview(settled.state, now));
    let recalled = then_step(expired, recall_outgoing(expired.state, now));
    then_step(recalled, recall_incoming(recalled.state, now))
}

/// Time passes. `order` lists the trusted peers.
pub open spec fn tick(s: State, order: Seq<Seq<char>>, now: u64) -> Step {
    let dropped = drop_untrusted(s, order.to_set());
    let pinged = then_step(dropped, ping(dropped.state, order, now));
    if escaped(pinged.state, now) {
        then_step(pinged, Step { state: pinged.state, actions: seq![Action::Exit] })
    } else {
        then_step(pinged, upkeep(pinged.state, now))
    }
}

} // verus!
