//! The input sharing of a device: takes events in, hands out what is to be done
//! about them.

use vstd::prelude::*;

use crate::config::{Config, Peer};
use crate::float::{Double, Single};
use crate::input::portal;
use crate::input::portal::PortalEdges;
use crate::input::protocol::{Edge, InputError, InputMessage, KeyboardInput, PointerInput};
use crate::input::state;
use crate::input::state::{
    Action, Crossing, Incoming, Outgoing, Preview, State, Sums, Takeover, CONFIRM_TIME,
    DEBUG_ESC_KILL_TIME, ESC_KEY, PEER_ONLINE, PEER_TIMEOUT, PING_GAP, PRESS_GAP, PULL_LIMIT,
    REMOTE_ENTRY_INSET, TAKEOVER_REPEAT_GAP, TAKEOVER_REPEAT_TIME,
};
use crate::strmap::StrMap;
use crate::text;

verus! {

/// The input sharing of a device.
pub struct Control {
    pub local_id: String,
    pub debug: bool,
    pub outgoing: Option<Outgoing<String>>,
    pub incoming: Option<Incoming<String>>,
    pub preview: Option<Preview<String>>,
    pub takeover: Option<Takeover<String>>,
    pub portals: PortalEdges,
    pub last_seen: StrMap<u64>,
    pub last_ping: Option<u64>,
    pub escape_started: Option<u64>,
}

/// The terms of the sums that a pointer event asks for.
#[derive(Clone, Copy, Debug, PartialEq, Eq, Structural)]
pub enum Terms {
    /// The pressed position, how far the pointer went along the edge, and how
    /// long the edge has been pressed.
    Press { position: Double, along: Double, held: u64 },
    /// The depth inside the remote screen and how far the pointer was pushed.
    Travel { depth: Double, outward: Double },
}

impl View for Control {
    type V = State;

    open spec fn view(&self) -> State {
        State {
            local_id: self.local_id@,
            debug: self.debug,
            outgoing: match self.outgoing {
                Some(outgoing) => Some(outgoing.seen()),
                None => None,
            },
            incoming: match self.incoming {
                Some(incoming) => Some(incoming.seen()),
                None => None,
            },
            preview: match self.preview {
                Some(preview) => Some(preview.seen()),
                None => None,
            },
            takeover: match self.takeover {
                Some(takeover) => Some(takeover.seen()),
                None => None,
            },
            portals: self.portals@,
            last_seen: self.last_seen@,
            last_ping: self.last_ping,
            escape_started: self.escape_started,
        }
    }
}

/// The terms of the sums that a pointer event asks for, if it asks for any.
pub open spec fn terms_of(s: State, now: u64, event: PointerInput) -> Option<Terms> {
    match (s.outgoing, event) {
        (
            Some(Outgoing::Probing { edge, position, started, .. }),
            PointerInput::Motion { dx, dy },
        ) => Some(
            Terms::Press {
                position,
                along: state::push(edge, dx, dy).1,
                held: state::elapsed(started, now) as u64,
            },
        ),
        (
            Some(Outgoing::Sending { edge, depth, .. }),
            PointerInput::Motion { dx, dy },
        ) => Some(Terms::Travel { depth, outward: state::push(edge, dx, dy).0 }),
        _ => None,
    }
}

/// How deep a cursor is after a pointer event, and whether the event takes it back
/// over the edge that it came by.
pub open spec fn depth_after(pointer: PointerInput, depth: Double, moved: Double) -> (Double, bool) {
    if pointer is Motion {
        (moved, !moved.is_nan() && moved.rank() <= 0)
    } else {
        (depth, false)
    }
}

/// How long ago a moment was.
pub fn elapsed(since: u64, now: u64) -> (time: u64)
    ensures
        time == state::elapsed(since, now),
{
    if now >= since {
        now - since
    } else {
        0
    }
}

/// Whether a peer has not been heard of for too long.
pub fn peer_timed_out(last_seen: &StrMap<u64>, peer: &str, now: u64) -> (silent: bool)
    ensures
        silent == state::timed_out(last_seen@, peer@, now),
{
    match last_seen.get(peer) {
        Some(seen) => elapsed(*seen, now) > PEER_TIMEOUT,
        None => true,
    }
}

/// The edge of a peer's screen that an edge of this one leads to.
pub fn destination_edge(source_edge: Edge) -> (edge: Edge)
    ensures
        edge == source_edge.across(),
{
    source_edge.opposite()
}

/// How far a motion pushes out through an edge and how far it goes along it.
/// Other events push nowhere.
pub fn pressure(edge: Edge, pointer: PointerInput) -> (push: Option<(Double, Double)>)
    ensures
        push == match pointer {
            PointerInput::Motion { dx, dy } => Some(state::push(edge, dx, dy)),
            _ => None,
        },
{
    match pointer {
        PointerInput::Motion { dx, dy } => Some(
            match edge {
                Edge::Left => (dx.negated(), dy),
                Edge::Right => (dx, dy),
                Edge::Top => (dy.negated(), dx),
                Edge::Bottom => (dy, dx),
            },
        ),
        _ => None,
    }
}

/// Whether a motion takes a cursor back over the edge it came by. `moved` is
/// the depth moved by the push of the motion.
pub fn crosses_host_edge(pointer: PointerInput, depth: &mut Double, moved: Double) -> (back: bool)
    ensures
        (*final(depth), back) == depth_after(pointer, *old(depth), moved),
{
    match pointer {
        PointerInput::Motion { dx: _, dy: _ } => {
            *depth = moved;
            moved.at_most_zero()
        },
        _ => false,
    }
}

/// A pointer event on this screen's scale. `scaled` is how far a motion goes on
/// it; other events stay as they are.
pub fn scale_pointer_motion(pointer: PointerInput, scaled: (Double, Double)) -> (event:
    PointerInput)
    ensures
        event == state::on_scale(pointer, scaled),
{
    match pointer {
        PointerInput::Motion { dx: _, dy: _ } => PointerInput::Motion {
            dx: scaled.0,
            dy: scaled.1,
        },
        other => other,
    }
}

/// The probe that tells a peer how its edge is pressed.
pub fn probe_message(source_edge: Edge, position: Double, progress: Single) -> (message:
    InputMessage)
    ensures
        message == (InputMessage::Probe { edge: source_edge.across(), position, progress }),
{
    InputMessage::Probe { edge: destination_edge(source_edge), position, progress }
}

/// The peer that a cursor is on its way to.
pub fn outgoing_peer(outgoing: &Outgoing<String>) -> (peer: &str)
    ensures
        peer@ == outgoing.seen().to(),
{
    match outgoing {
        Outgoing::Probing { peer, .. } => peer.as_str(),
        Outgoing::Sending { peer, .. } => peer.as_str(),
    }
}

/// Adds an action to a list.
fn emit(actions: &mut Vec<Action<String>>, action: Action<String>)
    ensures
        state::all_seen(final(actions)@) == state::all_seen(old(actions)@).push(action.seen()),
{
    let ghost before = actions@;
    actions.push(action);
    assert(state::all_seen(actions@) =~= state::all_seen(before).push(action.seen()));
}

/// Adds a message to a list.
fn emit_message(actions: &mut Vec<Action<String>>, peer: &str, message: InputMessage)
    ensures
        state::all_seen(final(actions)@) == state::all_seen(old(actions)@).push(
            state::tell(peer@, message),
        ),
{
    emit(actions, Action::Send { peer: peer.to_owned(), message });
}

/// No action yet.
fn no_actions() -> (actions: Vec<Action<String>>)
    ensures
        state::all_seen(actions@) == Seq::<Action<Seq<char>>>::empty(),
{
    let actions: Vec<Action<String>> = Vec::new();
    assert(state::all_seen(actions@) =~= Seq::empty());
    actions
}

impl Control {
    /// A device that shares no input yet.
    pub fn new(local_id: String, debug: bool) -> (control: Self)
        ensures
            control@ == (State {
                local_id: local_id@,
                debug,
                outgoing: None,
                incoming: None,
                preview: None,
                takeover: None,
                portals: Map::empty(),
                last_seen: Map::empty(),
                last_ping: None,
                escape_started: None,
            }),
    {
        Control {
            local_id,
            debug,
            outgoing: None,
            incoming: None,
            preview: None,
            takeover: None,
            portals: StrMap::new(),
            last_seen: StrMap::new(),
            last_ping: None,
            escape_started: None,
        }
    }

    /// The peers that the cursor may leave for by an edge, in order of their
    /// ids.
    pub open spec fn candidates(
        self,
        peers: StrMap<Peer>,
        edge: Edge,
        now: u64,
    ) -> Seq<Seq<char>> {
        peers.key_order().filter(
            |peer: Seq<char>| state::eligible(self@, peers@.dom(), peer, edge, now),
        )
    }

    /// The peer for a slot of an edge. Each candidate has one slot; a slot
    /// beyond the last is the last.
    pub open spec fn chosen(
        self,
        peers: StrMap<Peer>,
        edge: Edge,
        now: u64,
        slot: usize,
    ) -> Option<Seq<char>> {
        let candidates = self.candidates(peers, edge, now);
        if candidates.len() == 0 {
            None
        } else if slot < candidates.len() {
            Some(candidates[slot as int])
        } else {
            Some(candidates.last())
        }
    }

    /// The peers that the cursor may leave for by an edge, in order of their
    /// ids.
    pub fn peers_at(&self, peers: &StrMap<Peer>, edge: Edge, now: u64) -> (list: Vec<String>)
        ensures
            list@.map_values(|peer: String| peer@) == self.candidates(*peers, edge, now),
            forall|i: int|
                0 <= i < list@.len() ==> state::eligible(
                    self@,
                    peers@.dom(),
                    (#[trigger] list@[i])@,
                    edge,
                    now,
                ),
    {
        let n: usize = peers.len();
        let mut list: Vec<String> = Vec::new();
        let mut i: usize = 0;
        let ghost order = peers.key_order();
        let ghost wanted = |peer: Seq<char>|
            state::eligible(self@, peers@.dom(), peer, edge, now);
        proof {
            reveal(Seq::filter);
            assert(order.take(0).filter(wanted) =~= Seq::empty());
            assert(list@.map_values(|peer: String| peer@) =~= Seq::empty());
        }
        while i < n
            invariant
                i <= n,
                n == order.len(),
                order == peers.key_order(),
                order.to_set() == peers@.dom(),
                wanted == (|peer: Seq<char>|
                    state::eligible(self@, peers@.dom(), peer, edge, now)),
                list@.map_values(|peer: String| peer@) == order.take(i as int).filter(wanted),
                forall|j: int|
                    0 <= j < list@.len() ==> state::eligible(
                        self@,
                        peers@.dom(),
                        (#[trigger] list@[j])@,
                        edge,
                        now,
                    ),
            decreases n - i,
        {
            let peer = peers.key_at(i);
            proof {
                assert(order.to_set().contains(peer@));
                assert(order.take(i + 1).drop_last() =~= order.take(i as int));
                assert(order.take(i + 1).last() == peer@);
                reveal(Seq::filter);
            }
            let recent = match self.last_seen.get(peer) {
                Some(seen) => elapsed(*seen, now) < PEER_ONLINE,
                None => false,
            };
            if recent && portal::portal_edge_available(&self.portals, peer, edge) {
                let ghost before = list@;
                list.push(peer.to_owned());
                proof {
                    assert(list@.map_values(|peer: String| peer@) =~= before.map_values(
                        |peer: String| peer@,
                    ).push(peer@));
                }
            }
            i = i + 1;
        }
        proof {
            assert(order.take(n as int) =~= order);
        }
        list
    }

    /// The peer for a slot of an edge.
    pub fn select_peer(&self, peers: &StrMap<Peer>, edge: Edge, now: u64, slot: usize) -> (peer:
        Option<String>)
        ensures
            match peer {
                Some(p) => self.chosen(*peers, edge, now, slot) == Some(p@) && state::eligible(
                    self@,
                    peers@.dom(),
                    p@,
                    edge,
                    now,
                ),
                None => self.chosen(*peers, edge, now, slot) is None,
            },
    {
        let list = self.peers_at(peers, edge, now);
        let ghost names = list@.map_values(|peer: String| peer@);
        assert(names.len() == list@.len());
        if list.len() == 0 {
            return None;
        }
        let at: usize = if slot < list.len() {
            slot
        } else {
            list.len() - 1
        };
        assert(names[at as int] == list@[at as int]@);
        Some(list[at].clone())
    }

    /// Whether a cursor was taken back from a peer a moment ago.
    fn turned_away(&self, peer: &str, now: u64) -> (away: bool)
        ensures
            away == state::turned_away(self@, peer@, now),
    {
        match &self.takeover {
            Some(takeover) => text::str_eq(takeover.peer.as_str(), peer) && elapsed(
                takeover.started,
                now,
            ) <= TAKEOVER_REPEAT_TIME,
            None => false,
        }
    }

    /// Whether the cursor is on its way to a peer.
    fn sends_to(&self, peer: &str) -> (sends: bool)
        ensures
            sends == (self@.outgoing matches Some(active) && active.to() == peer@),
    {
        match &self.outgoing {
            Some(outgoing) => text::str_eq(outgoing_peer(outgoing), peer),
            None => false,
        }
    }

    /// Whether the cursor of a peer is on this screen.
    fn hosts(&self, peer: &str) -> (hosts: bool)
        ensures
            hosts == (self@.incoming matches Some(active) && active.peer == peer@),
    {
        match &self.incoming {
            Some(incoming) => text::str_eq(incoming.peer.as_str(), peer),
            None => false,
        }
    }

    /// The escape key starts and stops the clock that ends a debug build.
    fn note_escape(&mut self, keyboard: KeyboardInput, now: u64)
        ensures
            final(self)@ == state::after_escape(old(self)@, keyboard, now),
    {
        if !self.debug || keyboard.key != ESC_KEY {
            return ;
        }
        if keyboard.state == 0 {
            self.escape_started = None;
        } else if self.escape_started.is_none() {
            self.escape_started = Some(now);
        }
    }

    /// The cursor starts to press an edge.
    pub fn begin(
        &mut self,
        config: &Config,
        now: u64,
        edge: Edge,
        position: Double,
        screen_width: Double,
        screen_height: Double,
        slot: usize,
    ) -> (actions: Vec<Action<String>>)
        ensures
            ({
                let step = state::begin(
                    old(self)@,
                    old(self).chosen(config.peers, edge, now, slot),
                    now,
                    edge,
                    position,
                    screen_width,
                    screen_height,
                );
                final(self)@ == step.state && state::all_seen(actions@) == step.actions
            }),
    {
        let mut actions = no_actions();
        let goes_back = match &self.incoming {
            Some(active) => active.edge == edge,
            None => false,
        };
        if goes_back {
            if let Some(active) = self.incoming.take() {
                emit(&mut actions, Action::EndInjection);
                emit(&mut actions, Action::AllowAllEdges);
                emit_message(&mut actions, active.peer.as_str(), InputMessage::Leave);
                emit(&mut actions, Action::ReleaseCapture);
            }
            return actions;
        }
        if self.outgoing.is_some() || self.incoming.is_some() {
            return actions;
        }
        let peer = match self.select_peer(&config.peers, edge, now, slot) {
            Some(peer) => peer,
            None => {
                emit(&mut actions, Action::ReleaseCapture);
                return actions;
            },
        };
        if portal::portal_edge_confirmed(&self.portals, peer.as_str(), edge) {
            emit_message(
                &mut actions,
                peer.as_str(),
                InputMessage::Enter {
                    edge: destination_edge(edge),
                    position,
                    screen_width,
                    screen_height,
                },
            );
            self.outgoing = Some(
                Outgoing::Sending {
                    peer,
                    edge,
                    depth: Double { bits: REMOTE_ENTRY_INSET },
                    ready: false,
                },
            );
            return actions;
        }
        emit_message(
            &mut actions,
            peer.as_str(),
            probe_message(edge, position, Single { bits: 0 }),
        );
        self.outgoing = Some(
            Outgoing::Probing {
                peer,
                edge,
                position,
                started: now,
                last_push: now,
                acknowledged: false,
                screen_width,
                screen_height,
            },
        );
        actions
    }

    /// The terms of the sums that a pointer event asks for, if it asks for any.
    pub fn terms(&self, now: u64, event: PointerInput) -> (terms: Option<Terms>)
        ensures
            terms == terms_of(self@, now, event),
    {
        match &self.outgoing {
            Some(Outgoing::Probing { edge, position, started, .. }) => match pressure(
                *edge,
                event,
            ) {
                Some((_, along)) => Some(
                    Terms::Press { position: *position, along, held: elapsed(*started, now) },
                ),
                None => None,
            },
            Some(Outgoing::Sending { edge, depth, .. }) => match pressure(*edge, event) {
                Some((outward, _)) => Some(Terms::Travel { depth: *depth, outward }),
                None => None,
            },
            None => None,
        }
    }

    /// The captured pointer does something. `sums` are the sums of the terms
    /// that the event asks for.
    pub fn pointer(&mut self, now: u64, event: PointerInput, sums: Sums) -> (actions: Vec<
        Action<String>,
    >)
        ensures
            final(self)@ == state::pointer(old(self)@, now, event, sums).state,
            state::all_seen(actions@) == state::pointer(old(self)@, now, event, sums).actions,
    {
        let mut actions = no_actions();
        match self.outgoing.take() {
            Some(
                Outgoing::Probing {
                    peer,
                    edge,
                    position,
                    started,
                    last_push,
                    acknowledged,
                    screen_width,
                    screen_height,
                },
            ) => match pressure(edge, event) {
                Some((outward, _)) => {
                    let position = sums.position.clamp_unit();
                    if outward.positive() {
                        emit_message(
                            &mut actions,
                            peer.as_str(),
                            probe_message(edge, position, sums.progress.cap_one()),
                        );
                        self.outgoing = Some(
                            Outgoing::Probing {
                                peer,
                                edge,
                                position,
                                started,
                                last_push: now,
                                acknowledged,
                                screen_width,
                                screen_height,
                            },
                        );
                    } else if outward.below_negated(PULL_LIMIT) {
                        emit_message(&mut actions, peer.as_str(), InputMessage::Leave);
                        emit(&mut actions, Action::ReleaseCapture);
                    } else {
                        self.outgoing = Some(
                            Outgoing::Probing {
                                peer,
                                edge,
                                position,
                                started,
                                last_push,
                                acknowledged,
                                screen_width,
                                screen_height,
                            },
                        );
                    }
                },
                None => {
                    self.outgoing = Some(
                        Outgoing::Probing {
                            peer,
                            edge,
                            position,
                            started,
                            last_push,
                            acknowledged,
                            screen_width,
                            screen_height,
                        },
                    );
                },
            },
            Some(Outgoing::Sending { peer, edge, depth, ready }) => {
                if !ready {
                    self.outgoing = Some(Outgoing::Sending { peer, edge, depth, ready });
                } else {
                    let mut depth = depth;
                    if crosses_host_edge(event, &mut depth, sums.depth) {
                        emit_message(&mut actions, peer.as_str(), InputMessage::Leave);
                        emit(&mut actions, Action::ReleaseCapture);
                    } else {
                        emit_message(&mut actions, peer.as_str(), InputMessage::Pointer(event));
                        self.outgoing = Some(Outgoing::Sending { peer, edge, depth, ready });
                    }
                }
            },
            None => {},
        }
        actions
    }

    /// A captured key is pressed or released.
    pub fn keyboard(&mut self, now: u64, event: KeyboardInput) -> (actions: Vec<Action<String>>)
        ensures
            final(self)@ == state::keyboard(old(self)@, now, event).state,
            state::all_seen(actions@) == state::keyboard(old(self)@, now, event).actions,
    {
        let mut actions = no_actions();
        self.note_escape(event, now);
        if let Some(Outgoing::Sending { peer, ready, .. }) = &self.outgoing {
            if *ready {
                emit_message(&mut actions, peer.as_str(), InputMessage::Keyboard(event));
            }
        }
        actions
    }

    /// A key of this device is pressed or released while nothing is captured.
    pub fn local_keyboard(&mut self, now: u64, event: KeyboardInput)
        ensures
            final(self)@ == state::after_escape(old(self)@, event, now),
    {
        self.note_escape(event, now);
    }

    /// Someone uses this device's own pointer or keyboard.
    pub fn local_input(&mut self, now: u64) -> (actions: Vec<Action<String>>)
        ensures
            final(self)@ == state::local_input(old(self)@, now).state,
            state::all_seen(actions@) == state::local_input(old(self)@, now).actions,
    {
        let mut actions = no_actions();
        if let Some(active) = self.incoming.take() {
            emit(&mut actions, Action::EndInjection);
            emit(&mut actions, Action::AllowAllEdges);
            emit(&mut actions, Action::ReleaseCapture);
            emit_message(&mut actions, active.peer.as_str(), InputMessage::Leave);
            self.takeover = Some(Takeover { peer: active.peer, started: now, last_sent: now });
        }
        actions
    }

    /// The platform took the capture away.
    pub fn capture_lost(&mut self) -> (actions: Vec<Action<String>>)
        ensures
            final(self)@ == state::capture_lost(old(self)@).state,
            state::all_seen(actions@) == state::capture_lost(old(self)@).actions,
    {
        let mut actions = no_actions();
        if let Some(active) = self.outgoing.take() {
            emit_message(&mut actions, outgoing_peer(&active), InputMessage::Leave);
        }
        if let Some(active) = self.incoming.take() {
            emit(&mut actions, Action::EndInjection);
            emit_message(&mut actions, active.peer.as_str(), InputMessage::Leave);
        }
        emit(&mut actions, Action::AllowAllEdges);
        emit(&mut actions, Action::ReleaseCapture);
        assert(state::all_seen(actions@) =~= state::capture_lost(old(self)@).actions);
        actions
    }

    /// A peer presses an edge that leads here.
    fn probed(
        &mut self,
        now: u64,
        peer: &str,
        edge: Edge,
        position: Double,
        progress: Single,
    ) -> (actions: Vec<Action<String>>)
        ensures
            ({
                let step = state::probe(old(self)@, now, peer@, edge, position, progress);
                final(self)@ == step.state && state::all_seen(actions@) == step.actions
            }),
    {
        let mut actions = no_actions();
        if self.incoming.is_some() || !portal::portal_edge_available(&self.portals, peer, edge) {
            emit_message(&mut actions, peer, InputMessage::Leave);
            return actions;
        }
        if portal::portal_edge_confirmed(&self.portals, peer, edge) {
            emit_message(&mut actions, peer, InputMessage::ProbeAck);
            return actions;
        }
        let ghost before = self@;
        let shown = match self.preview.take() {
            Some(old_preview) => if text::str_eq(old_preview.peer.as_str(), peer)
                && old_preview.edge == edge {
                true
            } else {
                emit(&mut actions, Action::CancelBeacon);
                false
            },
            None => false,
        };
        if !shown {
            emit(&mut actions, Action::ShowBeacon { peer: peer.to_owned(), edge, position });
        }
        self.preview = Some(Preview { peer: peer.to_owned(), edge, last_probe: now });
        emit(&mut actions, Action::UpdateBeacon { position, progress });
        emit_message(&mut actions, peer, InputMessage::ProbeAck);
        assert(state::all_seen(actions@) =~= state::probe(
            before,
            now,
            peer@,
            edge,
            position,
            progress,
        ).actions);
        actions
    }

    /// A peer saw that its edge is pressed.
    fn probe_acknowledged(&mut self, peer: &str)
        ensures
            final(self)@ == state::probe_ack(old(self)@, peer@).state,
            state::probe_ack(old(self)@, peer@).actions == Seq::<Action<Seq<char>>>::empty(),
    {
        match self.outgoing.take() {
            Some(
                Outgoing::Probing {
                    peer: active,
                    edge,
                    position,
                    started,
                    last_push,
                    acknowledged,
                    screen_width,
                    screen_height,
                },
            ) => {
                let seen = text::str_eq(active.as_str(), peer);
                self.outgoing = Some(
                    Outgoing::Probing {
                        peer: active,
                        edge,
                        position,
                        started,
                        last_push,
                        acknowledged: acknowledged || seen,
                        screen_width,
                        screen_height,
                    },
                );
            },
            other => {
                self.outgoing = other;
            },
        }
    }

    /// A peer gives up pressing or being pressed.
    fn cancelled(&mut self, peer: &str) -> (actions: Vec<Action<String>>)
        ensures
            final(self)@ == state::cancel(old(self)@, peer@).state,
            state::all_seen(actions@) == state::cancel(old(self)@, peer@).actions,
    {
        let mut actions = no_actions();
        let ghost before = self@;
        if self.sends_to(peer) {
            self.outgoing = None;
            emit(&mut actions, Action::ReleaseCapture);
        }
        let previews = match &self.preview {
            Some(preview) => text::str_eq(preview.peer.as_str(), peer),
            None => false,
        };
        if previews {
            self.preview = None;
            emit(&mut actions, Action::CancelBeacon);
        }
        assert(state::all_seen(actions@) =~= state::cancel(before, peer@).actions);
        actions
    }

    /// Whether the cursor of a peer may come in by an edge.
    pub fn admits(&self, now: u64, peer: &str, edge: Edge) -> (admitted: bool)
        ensures
            admitted == state::admits(self@, now, peer@, edge),
    {
        if self.turned_away(peer, now) {
            return false;
        }
        let preview_matches = match &self.preview {
            Some(preview) => text::str_eq(preview.peer.as_str(), peer) && preview.edge == edge
                && elapsed(preview.last_probe, now) <= PRESS_GAP,
            None => false,
        };
        let outgoing_wins = self.outgoing.is_some() && text::str_lt(peer, self.local_id.as_str());
        let confirmed_portal = portal::portal_edge_confirmed(&self.portals, peer, edge);
        let edge_available = portal::portal_edge_available(&self.portals, peer, edge);
        edge_available && (preview_matches || confirmed_portal) && self.incoming.is_none()
            && !outgoing_wins
    }

    /// The cursor of a peer comes in by an edge.
    fn entered(
        &mut self,
        now: u64,
        peer: &str,
        edge: Edge,
        position: Double,
        screen_width: Double,
        screen_height: Double,
    ) -> (actions: Vec<Action<String>>)
        ensures
            ({
                let step = state::enter(
                    old(self)@,
                    now,
                    peer@,
                    edge,
                    position,
                    screen_width,
                    screen_height,
                );
                final(self)@ == step.state && state::all_seen(actions@) == step.actions
            }),
    {
        let mut actions = no_actions();
        if !self.admits(now, peer, edge) {
            emit_message(&mut actions, peer, InputMessage::Leave);
            return actions;
        }
        let ghost before = self@;
        if self.preview.is_some() {
            self.preview = None;
            emit(&mut actions, Action::ConfirmBeacon);
        }
        if self.outgoing.is_some() {
            self.outgoing = None;
            emit(&mut actions, Action::ReleaseCapture);
        }
        emit(&mut actions, Action::AllowEdge(edge));
        emit(&mut actions, Action::BeginInjection { edge, position });
        portal::bind_portal_edge(&mut self.portals, peer, edge);
        self.incoming = Some(
            Incoming {
                peer: peer.to_owned(),
                edge,
                depth: Double { bits: REMOTE_ENTRY_INSET },
                peer_screen_width: screen_width,
                peer_screen_height: screen_height,
            },
        );
        emit_message(&mut actions, peer, InputMessage::Ack);
        assert(state::all_seen(actions@) =~= state::enter(
            before,
            now,
            peer@,
            edge,
            position,
            screen_width,
            screen_height,
        ).actions);
        actions
    }

    /// A peer took the cursor in.
    fn acknowledged(&mut self, peer: &str)
        ensures
            final(self)@ == state::ack(old(self)@, peer@).state,
            state::ack(old(self)@, peer@).actions == Seq::<Action<Seq<char>>>::empty(),
    {
        match self.outgoing.take() {
            Some(Outgoing::Sending { peer: active, edge, depth, ready }) => {
                let taken = text::str_eq(active.as_str(), peer);
                if taken {
                    portal::bind_portal_edge(&mut self.portals, peer, edge);
                }
                self.outgoing = Some(
                    Outgoing::Sending { peer: active, edge, depth, ready: ready || taken },
                );
            },
            other => {
                self.outgoing = other;
            },
        }
    }

    /// A peer ends the sharing.
    fn left(&mut self, peer: &str) -> (actions: Vec<Action<String>>)
        ensures
            final(self)@ == state::left(old(self)@, peer@).state,
            state::all_seen(actions@) == state::left(old(self)@, peer@).actions,
    {
        let mut actions = no_actions();
        let ghost before = self@;
        if self.sends_to(peer) {
            if let Some(Outgoing::Sending { edge, ready, .. }) = self.outgoing.take() {
                if !ready {
                    portal::forget_portal_edge(&mut self.portals, peer, edge);
                }
            }
            emit(&mut actions, Action::ReleaseCapture);
        }
        if self.hosts(peer) {
            self.incoming = None;
            emit(&mut actions, Action::EndInjection);
            emit(&mut actions, Action::AllowAllEdges);
        }
        assert(state::all_seen(actions@) =~= state::left(before, peer@).actions);
        actions
    }

    /// A message of a peer arrives. One with a value out of range is refused
    /// and changes nothing. For a motion, `scaled` is how far it goes on this
    /// screen.
    pub fn receive(
        &mut self,
        now: u64,
        peer: &str,
        message: InputMessage,
        scaled: (Double, Double),
    ) -> (result: Result<Vec<Action<String>>, InputError>)
        ensures
            match state::heeded(old(self)@, now, peer@, message, scaled) {
                Ok(step) => result is Ok && final(self)@ == step.state && state::all_seen(
                    result->Ok_0@,
                ) == step.actions,
                Err(error) => result == Err::<Vec<Action<String>>, InputError>(error)
                    && final(self)@ == old(self)@,
            },
    {
        if let Err(error) = message.validate() {
            return Err(error);
        }
        self.last_seen.insert(peer.to_owned(), now);
        let mut actions = no_actions();
        match message {
            InputMessage::Probe { edge, position, progress } => {
                actions = self.probed(now, peer, edge, position, progress);
            },
            InputMessage::ProbeAck => {
                self.probe_acknowledged(peer);
            },
            InputMessage::Cancel => {
                actions = self.cancelled(peer);
            },
            InputMessage::Enter { edge, position, screen_width, screen_height } => {
                actions =
                self.entered(now, peer, edge, position, screen_width, screen_height);
            },
            InputMessage::Ack => {
                self.acknowledged(peer);
            },
            InputMessage::Leave => {
                actions = self.left(peer);
            },
            InputMessage::Pointer(event) => {
                if self.turned_away(peer, now) {
                    emit_message(&mut actions, peer, InputMessage::Leave);
                } else if self.hosts(peer) {
                    emit(
                        &mut actions,
                        Action::ApplyPointer(scale_pointer_motion(event, scaled)),
                    );
                }
            },
            InputMessage::Keyboard(event) => {
                if self.turned_away(peer, now) {
                    emit_message(&mut actions, peer, InputMessage::Leave);
                } else if self.hosts(peer) {
                    emit(&mut actions, Action::ApplyKeyboard(event));
                }
                self.note_escape(event, now);
            },
            InputMessage::Ping => {
                emit_message(&mut actions, peer, InputMessage::Pong);
            },
            InputMessage::Pong => {},
        }
        Ok(actions)
    }

    /// A pointer event of a peer was applied.
    pub fn applied(&mut self, peer: &str, crossing: Crossing) -> (actions: Vec<Action<String>>)
        ensures
            final(self)@ == state::applied(old(self)@, peer@, crossing).state,
            state::all_seen(actions@) == state::applied(old(self)@, peer@, crossing).actions,
    {
        let mut actions = no_actions();
        if !self.hosts(peer) {
            return actions;
        }
        if let Some(active) = self.incoming.take() {
            let gone = match crossing {
                Crossing::Unmoved => false,
                Crossing::Depth(depth) => depth.at_most_zero(),
                Crossing::Seen { left } => left,
            };
            if gone {
                emit(&mut actions, Action::EndInjection);
                emit(&mut actions, Action::AllowAllEdges);
                emit_message(&mut actions, peer, InputMessage::Leave);
            } else {
                let depth = match crossing {
                    Crossing::Depth(depth) => depth,
                    _ => active.depth,
                };
                self.incoming = Some(
                    Incoming {
                        peer: active.peer,
                        edge: active.edge,
                        depth,
                        peer_screen_width: active.peer_screen_width,
                        peer_screen_height: active.peer_screen_height,
                    },
                );
            }
        }
        actions
    }

    /// Peers that are no longer trusted lose the cursor and their portals.
    fn drop_untrusted(&mut self, peers: &StrMap<Peer>, actions: &mut Vec<Action<String>>)
        ensures
            final(self)@ == state::drop_untrusted(old(self)@, peers@.dom()).state,
            state::all_seen(final(actions)@) == state::all_seen(old(actions)@)
                + state::drop_untrusted(old(self)@, peers@.dom()).actions,
    {
        let ghost before = self@;
        let ghost earlier = state::all_seen(actions@);
        let ends_outgoing = match &self.outgoing {
            Some(active) => !peers.contains_key(outgoing_peer(active)),
            None => false,
        };
        if ends_outgoing {
            self.outgoing = None;
            emit(actions, Action::ReleaseCapture);
        }
        let ends_incoming = match &self.incoming {
            Some(active) => !peers.contains_key(active.peer.as_str()),
            None => false,
        };
        if ends_incoming {
            self.incoming = None;
            emit(actions, Action::EndInjection);
            emit(actions, Action::AllowAllEdges);
        }
        self.portals.restrict_to(peers);
        assert(state::all_seen(actions@) =~= earlier + state::drop_untrusted(
            before,
            peers@.dom(),
        ).actions);
    }

    /// Pings every trusted peer every half second.
    fn ping(&mut self, peers: &StrMap<Peer>, now: u64, actions: &mut Vec<Action<String>>)
        ensures
            final(self)@ == state::ping(old(self)@, peers.key_order(), now).state,
            state::all_seen(final(actions)@) == state::all_seen(old(actions)@) + state::ping(
                old(self)@,
                peers.key_order(),
                now,
            ).actions,
    {
        let ghost before = self@;
        let ghost earlier = state::all_seen(actions@);
        let due = match self.last_ping {
            Some(last) => elapsed(last, now) >= PING_GAP,
            None => true,
        };
        if due {
            let n: usize = peers.len();
            let mut i: usize = 0;
            let ghost order = peers.key_order();
            let ghost pings = order.map_values(
                |peer: Seq<char>| state::tell(peer, InputMessage::Ping),
            );
            assert(pings.take(0) =~= Seq::empty());
            while i < n
                invariant
                    i <= n,
                    n == order.len(),
                    order == peers.key_order(),
                    pings == order.map_values(
                        |peer: Seq<char>| state::tell(peer, InputMessage::Ping),
                    ),
                    state::all_seen(actions@) == earlier + pings.take(i as int),
                decreases n - i,
            {
                emit_message(actions, peers.key_at(i), InputMessage::Ping);
                assert(pings.take(i + 1) =~= pings.take(i as int).push(pings[i as int]));
                assert(state::all_seen(actions@) =~= earlier + pings.take(i + 1));
                i = i + 1;
            }
            assert(pings.take(n as int) =~= pings);
            self.last_ping = Some(now);
        }
        assert(state::all_seen(actions@) =~= earlier + state::ping(
            before,
            peers.key_order(),
            now,
        ).actions);
    }

    /// Tells a peer that the cursor was taken back from so again.
    fn repeat_takeover(&mut self, now: u64, actions: &mut Vec<Action<String>>)
        ensures
            final(self)@ == state::repeat_takeover(old(self)@, now).state,
            state::all_seen(final(actions)@) == state::all_seen(old(actions)@)
                + state::repeat_takeover(old(self)@, now).actions,
    {
        let ghost before = self@;
        let ghost earlier = state::all_seen(actions@);
        if let Some(takeover) = self.takeover.take() {
            if elapsed(takeover.started, now) > TAKEOVER_REPEAT_TIME {
            } else if elapsed(takeover.last_sent, now) >= TAKEOVER_REPEAT_GAP {
                emit_message(actions, takeover.peer.as_str(), InputMessage::Leave);
                self.takeover = Some(
                    Takeover { peer: takeover.peer, started: takeover.started, last_sent: now },
                );
            } else {
                self.takeover = Some(takeover);
            }
        }
        assert(state::all_seen(actions@) =~= earlier + state::repeat_takeover(
            before,
            now,
        ).actions);
    }

    /// Ends the pressing of an edge, or lets the cursor cross.
    fn settle_probe(&mut self, now: u64, actions: &mut Vec<Action<String>>)
        ensures
            final(self)@ == state::settle_probe(old(self)@, now).state,
            state::all_seen(final(actions)@) == state::all_seen(old(actions)@)
                + state::settle_probe(old(self)@, now).actions,
    {
        let ghost before = self@;
        let ghost earlier = state::all_seen(actions@);
        match self.outgoing.take() {
            Some(
                Outgoing::Probing {
                    peer,
                    edge,
                    position,
                    started,
                    last_push,
                    acknowledged,
                    screen_width,
                    screen_height,
                },
            ) => {
                if elapsed(last_push, now) > PRESS_GAP {
                    emit_message(actions, peer.as_str(), InputMessage::Leave);
                    emit(actions, Action::ReleaseCapture);
                } else if acknowledged && elapsed(started, now) >= CONFIRM_TIME {
                    emit_message(
                        actions,
                        peer.as_str(),
                        InputMessage::Enter {
                            edge: destination_edge(edge),
                            position,
                            screen_width,
                            screen_height,
                        },
                    );
                    self.outgoing = Some(
                        Outgoing::Sending {
                            peer,
                            edge,
                            depth: Double { bits: REMOTE_ENTRY_INSET },
                            ready: false,
                        },
                    );
                } else {
                    self.outgoing = Some(
                        Outgoing::Probing {
                            peer,
                            edge,
                            position,
                            started,
                            last_push,
                            acknowledged,
                            screen_width,
                            screen_height,
                        },
                    );
                }
            },
            other => {
                self.outgoing = other;
            },
        }
        assert(state::all_seen(actions@) =~= earlier + state::settle_probe(before, now).actions);
    }

    /// Takes down a beacon whose edge is no longer pressed.
    fn expire_preview(&mut self, now: u64, actions: &mut Vec<Action<String>>)
        ensures
            final(self)@ == state::expire_preview(old(self)@, now).state,
            state::all_seen(final(actions)@) == state::all_seen(old(actions)@)
                + state::expire_preview(old(self)@, now).actions,
    {
        let ghost before = self@;
        let ghost earlier = state::all_seen(actions@);
        let expired = match &self.preview {
            Some(preview) => elapsed(preview.last_probe, now) > PRESS_GAP,
            None => false,
        };
        if expired {
            self.preview = None;
            emit(actions, Action::CancelBeacon);
        }
        assert(state::all_seen(actions@) =~= earlier + state::expire_preview(
            before,
            now,
        ).actions);
    }

    /// Takes the cursor back from a peer that fell silent.
    fn recall_outgoing(&mut self, now: u64, actions: &mut Vec<Action<String>>)
        ensures
            final(self)@ == state::recall_outgoing(old(self)@, now).state,
            state::all_seen(final(actions)@) == state::all_seen(old(actions)@)
                + state::recall_outgoing(old(self)@, now).actions,
    {
        let ghost before = self@;
        let ghost earlier = state::all_seen(actions@);
        let silent = match &self.outgoing {
            Some(active) => peer_timed_out(&self.last_seen, outgoing_peer(active), now),
            None => false,
        };
        if silent {
            if let Some(active) = self.outgoing.take() {
                let peer = outgoing_peer(&active).to_owned();
                let _ = self.portals.remove(peer.as_str());
                emit(actions, Action::ReleaseCapture);
                emit_message(actions, peer.as_str(), InputMessage::Leave);
                self.takeover = Some(Takeover { peer, started: now, last_sent: now });
            }
        }
        assert(state::all_seen(actions@) =~= earlier + state::recall_outgoing(
            before,
            now,
        ).actions);
    }

    /// Ends the stay of the cursor of a peer that fell silent.
    fn recall_incoming(&mut self, now: u64, actions: &mut Vec<Action<String>>)
        ensures
            final(self)@ == state::recall_incoming(old(self)@, now).state,
            state::all_seen(final(actions)@) == state::all_seen(old(actions)@)
                + state::recall_incoming(old(self)@, now).actions,
    {
        let ghost before = self@;
        let ghost earlier = state::all_seen(actions@);
        let silent = match &self.incoming {
            Some(active) => peer_timed_out(&self.last_seen, active.peer.as_str(), now),
            None => false,
        };
        if silent {
            if let Some(active) = self.incoming.take() {
                let _ = self.portals.remove(active.peer.as_str());
                emit_message(actions, active.peer.as_str(), InputMessage::Leave);
                self.takeover = Some(
                    Takeover { peer: active.peer, started: now, last_sent: now },
                );
                emit(actions, Action::EndInjection);
                emit(actions, Action::AllowAllEdges);
            }
        }
        assert(state::all_seen(actions@) =~= earlier + state::recall_incoming(
            before,
            now,
        ).actions);
    }

    /// What is looked after while the program runs on.
    #[verifier::rlimit(40)]
    fn upkeep(&mut self, now: u64, actions: &mut Vec<Action<String>>)
        ensures
            final(self)@ == state::upkeep(old(self)@, now).state,
            state::all_seen(final(actions)@) == state::all_seen(old(actions)@) + state::upkeep(
                old(self)@,
                now,
            ).actions,
    {
        let ghost earlier = state::all_seen(actions@);
        let ghost base = self@;
        self.repeat_takeover(now, actions);
        let ghost repeated = state::repeat_takeover(base, now);
        self.settle_probe(now, actions);
        let ghost settled = state::settle_probe(repeated.state, now);
        self.expire_preview(now, actions);
        let ghost expired = state::expire_preview(settled.state, now);
        self.recall_outgoing(now, actions);
        let ghost recalled = state::recall_outgoing(expired.state, now);
        self.recall_incoming(now, actions);
        let ghost done = state::recall_incoming(recalled.state, now);
        proof {
            lemma_five(
                earlier,
                repeated.actions,
                settled.actions,
                expired.actions,
                recalled.actions,
                done.actions,
            );
        }
    }

    /// Time passes.
    pub fn tick(&mut self, config: &Config, now: u64) -> (actions: Vec<Action<String>>)
        ensures
            final(self)@ == state::tick(old(self)@, config.peers.key_order(), now).state,
            state::all_seen(actions@) == state::tick(
                old(self)@,
                config.peers.key_order(),
                now,
            ).actions,
    {
        let mut actions = no_actions();
        let ghost order = config.peers.key_order();
        let ghost start = self@;
        let _ = config.peers.len();
        assert(order.to_set() == config.peers@.dom());
        self.drop_untrusted(&config.peers, &mut actions);
        let ghost dropped = state::drop_untrusted(start, order.to_set());
        assert(state::all_seen(actions@) =~= dropped.actions);
        self.ping(&config.peers, now, &mut actions);
        let escaped = match self.escape_started {
            Some(started) => elapsed(started, now) >= DEBUG_ESC_KILL_TIME,
            None => false,
        };
        if escaped {
            emit(&mut actions, Action::Exit);
            assert(state::all_seen(actions@) =~= state::tick(start, order, now).actions);
        } else {
            self.upkeep(now, &mut actions);
        }
        actions
    }
}

proof fn lemma_five<A>(start: Seq<A>, a: Seq<A>, b: Seq<A>, c: Seq<A>, d: Seq<A>, e: Seq<A>)
    ensures
        start + a + b + c + d + e == start + (a + b + c + d + e),
{
    assert(start + a + b + c + d + e =~= start + (a + b + c + d + e));
}

} // verus!
