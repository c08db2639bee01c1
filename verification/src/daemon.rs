//! The daemon: which clipboard changes it makes, passes on and applies.

use vstd::prelude::*;

use crate::clipboard::Change;
use crate::config::Peer;
use crate::foreign;
use crate::idmap::IdMap;
use crate::ordering;
use crate::ordering::{ClockRelation, VersionVector};
use crate::protocol;
use crate::protocol::{
    ClipboardEvent, ClipboardPayload, EventState, Message, PayloadState, ProtocolError,
    PROTOCOL_VERSION,
};
use crate::strmap::StrMap;
use crate::text;

pub mod laws;
pub mod peers;
pub mod requests;

verus! {

/// How many events are remembered as seen.
pub const REMEMBERED_EVENTS: usize = 4096;

/// The events that were seen lately.
#[derive(Debug, PartialEq, Eq)]
pub struct Recent {
    pub seen: IdMap<()>,
    pub order: Vec<u128>,
}

/// Which events were seen lately, and in which order.
#[verifier::ext_equal]
pub struct RecentState {
    pub seen: Set<u128>,
    pub order: Seq<u128>,
}

impl View for Recent {
    type V = RecentState;

    open spec fn view(&self) -> RecentState {
        RecentState { seen: self.seen@.dom(), order: self.order@ }
    }
}

/// What was seen lately, once one more event was seen. The oldest is forgotten
/// when there are too many.
pub open spec fn remembered(r: RecentState, id: u128) -> RecentState {
    let order = r.order.push(id);
    let seen = r.seen.insert(id);
    if order.len() > REMEMBERED_EVENTS {
        RecentState { seen: seen.remove(order[0]), order: order.skip(1) }
    } else {
        RecentState { seen, order }
    }
}

/// Whether the memory is sound: it holds no event twice and not too many.
pub open spec fn is_sound(r: RecentState) -> bool {
    &&& r.order.no_duplicates()
    &&& r.order.to_set() == r.seen
    &&& r.order.len() <= REMEMBERED_EVENTS
}

impl Recent {
    /// Nothing was seen yet.
    pub fn new() -> (recent: Self)
        ensures
            recent@.seen == Set::<u128>::empty(),
            recent@.order == Seq::<u128>::empty(),
    {
        let seen: IdMap<()> = IdMap::new();
        assert(seen@.dom() =~= Set::<u128>::empty());
        Recent { seen, order: Vec::new() }
    }

    /// Whether an event was seen lately.
    pub fn contains(&self, id: u128) -> (found: bool)
        ensures
            found == self@.seen.contains(id),
    {
        self.seen.contains_key(id)
    }

    /// Remembers an event, and forgets the oldest when there are too many.
    pub fn remember(&mut self, id: u128)
        ensures
            final(self)@ == remembered(old(self)@, id),
    {
        let ghost before = self@;
        self.seen.insert(id, ());
        self.order.push(id);
        assert(self.seen@.dom() =~= before.seen.insert(id));
        if self.order.len() > REMEMBERED_EVENTS {
            let oldest: u128 = self.order.remove(0);
            self.seen.remove(oldest);
            proof {
                let order = before.order.push(id);
                assert(self.order@ =~= order.skip(1));
                assert(self.seen@.dom() =~= before.seen.insert(id).remove(order[0]));
            }
        }
    }
}

/// What the daemon knows of the clipboard.
#[derive(Debug, PartialEq, Eq)]
pub struct Sync {
    pub id: String,
    pub clock: VersionVector,
    pub current: Option<ClipboardEvent>,
    pub latest: Option<ClipboardEvent>,
    pub recent: Recent,
}

/// What the daemon knows of the clipboard.
#[verifier::ext_equal]
pub struct SyncState {
    /// This device.
    pub id: Seq<char>,
    /// What it has seen.
    pub clock: Map<Seq<char>, u64>,
    /// The change that the clipboard holds.
    pub current: Option<EventState>,
    /// The change that a peer gets when it connects.
    pub latest: Option<EventState>,
    /// The changes that were seen lately.
    pub recent: RecentState,
}

/// What an optional event is.
pub open spec fn maybe_event(event: Option<ClipboardEvent>) -> Option<EventState> {
    match event {
        Some(event) => Some(event@),
        None => None,
    }
}

impl View for Sync {
    type V = SyncState;

    open spec fn view(&self) -> SyncState {
        SyncState {
            id: self.id@,
            clock: self.clock@,
            current: maybe_event(self.current),
            latest: maybe_event(self.latest),
            recent: self.recent@,
        }
    }
}

/// Whether one change takes the place of another: it has seen the other, or
/// neither has seen the other and its device comes later.
pub open spec fn beats(new: EventState, old: EventState) -> bool {
    match ordering::relation_of(new.clock, old.clock) {
        ClockRelation::After => true,
        ClockRelation::Concurrent => text::text_lt(old.origin, new.origin),
        ClockRelation::Before => false,
        ClockRelation::Equal => false,
    }
}

/// Whether a change takes the place of what the clipboard holds.
pub open spec fn wins(event: EventState, current: Option<EventState>) -> bool {
    match current {
        Some(old) => beats(event, old),
        None => true,
    }
}

/// What becomes of a change that a peer sent.
pub enum Verdict {
    Ignored,
    Invalid(ProtocolError),
    Untrusted,
    Passed,
    Applied,
}

/// What becomes of a change that a peer sent: it is ignored while paused and
/// when it was seen before, refused when it is invalid or its device is not
/// trusted, and else passed on; it is applied as well if it wins.
pub open spec fn verdict(
    s: SyncState,
    trusted: Set<Seq<char>>,
    paused: bool,
    event: EventState,
) -> Verdict {
    if paused || s.recent.seen.contains(event.id) {
        Verdict::Ignored
    } else if protocol::event_fault(event) is Some {
        Verdict::Invalid(protocol::event_fault(event)->0)
    } else if !trusted.contains(event.origin) {
        Verdict::Untrusted
    } else if wins(event, s.current) {
        Verdict::Applied
    } else {
        Verdict::Passed
    }
}

/// What the daemon knows once a change of a peer has come in.
pub open spec fn received(s: SyncState, verdict: Verdict, event: EventState) -> SyncState {
    match verdict {
        Verdict::Passed => SyncState {
            clock: ordering::merged(s.clock, event.clock),
            recent: remembered(s.recent, event.id),
            ..s
        },
        Verdict::Applied => SyncState {
            clock: ordering::merged(s.clock, event.clock),
            recent: remembered(s.recent, event.id),
            current: Some(event),
            latest: Some(event),
            ..s
        },
        _ => s,
    }
}

/// What the daemon knows once it has made a change of its own.
pub open spec fn copied(s: SyncState, event: EventState) -> SyncState {
    SyncState {
        clock: ordering::ticked(s.clock, s.id),
        recent: remembered(s.recent, event.id),
        current: Some(event),
        latest: Some(event),
        ..s
    }
}

/// Whether an event is the one that a device makes of a payload.
pub open spec fn is_copy(s: SyncState, payload: PayloadState, event: EventState) -> bool {
    &&& foreign::is_random_id(event.id)
    &&& event.origin == s.id
    &&& event.sequence == ordering::count(s.clock, s.id) + 1
    &&& event.clock == ordering::ticked(s.clock, s.id)
    &&& event.payload == payload
    &&& event.digest == protocol::digest_of(payload)
}

/// What came of a change that a peer sent.
#[derive(Debug, PartialEq, Eq)]
pub enum Reception {
    /// Nothing is done with it.
    Ignored,
    /// It is refused.
    Invalid(ProtocolError),
    /// It is refused: its device is not trusted.
    Untrusted,
    /// It goes on to the other peers.
    Passed(ClipboardEvent),
    /// It goes on to the other peers and into the clipboard.
    Applied(ClipboardEvent),
}

/// What came of a change of this device's own clipboard.
#[derive(Debug, PartialEq, Eq)]
pub enum Notice {
    /// Nothing is done with it.
    Ignored,
    /// It goes to the peers.
    Made(ClipboardEvent),
    /// Files were copied: the user is asked whether they go to the peers.
    Ask(Vec<Vec<u8>>),
}

/// Whether a reception carries out a verdict.
pub open spec fn carries(reception: Reception, verdict: Verdict, event: EventState) -> bool {
    match verdict {
        Verdict::Ignored => reception is Ignored,
        Verdict::Invalid(error) => reception matches Reception::Invalid(given) && given == error,
        Verdict::Untrusted => reception is Untrusted,
        Verdict::Passed => reception matches Reception::Passed(given) && given@ == event,
        Verdict::Applied => reception matches Reception::Applied(given) && given@ == event,
    }
}

/// What the daemon knows as it starts, with the clock of the last run.
pub open spec fn started(id: Seq<char>, clock: Map<Seq<char>, u64>) -> SyncState {
    SyncState {
        id,
        clock,
        current: None,
        latest: None,
        recent: RecentState { seen: Set::empty(), order: Seq::empty() },
    }
}

/// Whether a change is made of what was copied on this device: what the daemon knows
/// then, and what goes to the peers.
pub open spec fn copies(
    s: SyncState,
    payload: PayloadState,
    after: SyncState,
    result: Result<ClipboardEvent, ProtocolError>,
) -> bool {
    match protocol::payload_fault(payload) {
        Some(error) => {
            &&& result == Err::<ClipboardEvent, ProtocolError>(error)
            &&& after == (SyncState { clock: ordering::ticked(s.clock, s.id), ..s })
        },
        None => {
            &&& result matches Ok(event)
            &&& is_copy(s, payload, event@)
            &&& after == copied(s, event@)
        },
    }
}

/// Whether a change of this device's own clipboard is taken in: what the daemon knows
/// then, and what is done about it.
pub open spec fn notices(
    s: SyncState,
    paused: bool,
    change: Change,
    after: SyncState,
    result: Result<Notice, ProtocolError>,
) -> bool {
    if paused {
        &&& result == Ok::<Notice, ProtocolError>(Notice::Ignored)
        &&& after == s
    } else {
        match change {
            Change::Files(paths) => {
                &&& result == Ok::<Notice, ProtocolError>(Notice::Ask(paths))
                &&& after == s
            },
            Change::Payload(payload) => match protocol::payload_fault(payload@) {
                Some(error) => {
                    &&& result == Err::<Notice, ProtocolError>(error)
                    &&& after == (SyncState { clock: ordering::ticked(s.clock, s.id), ..s })
                },
                None => {
                    &&& result matches Ok(Notice::Made(event))
                    &&& is_copy(s, payload@, event@)
                    &&& after == copied(s, event@)
                },
            },
        }
    }
}

/// What the daemon knows once it is paused.
pub open spec fn halted(s: SyncState) -> SyncState {
    SyncState { latest: None, ..s }
}

/// What the daemon knows once it goes on after a pause.
pub open spec fn resumed(s: SyncState) -> SyncState {
    SyncState { latest: None, current: None, ..s }
}

/// The change that a peer gets when it connects.
pub open spec fn handed_out(s: SyncState) -> Option<EventState> {
    s.latest
}

impl Sync {
    /// The daemon as it starts, with the clock of the last run.
    pub fn new(id: String, clock: VersionVector) -> (sync: Self)
        ensures
            sync@ == started(id@, clock@),
    {
        Sync { id, clock, current: None, latest: None, recent: Recent::new() }
    }

    /// Makes a change of what was copied on this device. It counts even where
    /// the payload has a fault and no change is made.
    pub fn copy(&mut self, payload: ClipboardPayload) -> (result: Result<
        ClipboardEvent,
        ProtocolError,
    >)
        requires
            ordering::count(old(self)@.clock, old(self)@.id) < u64::MAX,
        ensures
            copies(old(self)@, payload@, final(self)@, result),
    {
        let sequence: u64 = self.clock.increment(self.id.as_str());
        let event = match ClipboardEvent::new(
            self.id.clone(),
            sequence,
            self.clock.clone(),
            payload,
        ) {
            Ok(event) => event,
            Err(error) => return Err(error),
        };
        self.recent.remember(event.id);
        self.current = Some(event.clone());
        self.latest = Some(event.clone());
        Ok(event)
    }

    /// Takes in a change of this device's own clipboard. While paused, it is
    /// discarded and nothing changes; it does not even count.
    pub fn notice(&mut self, paused: bool, change: Change) -> (result: Result<
        Notice,
        ProtocolError,
    >)
        requires
            !paused && change is Payload ==> ordering::count(old(self)@.clock, old(self)@.id)
                < u64::MAX,
        ensures
            paused || change is Files ==> *final(self) == *old(self),
            notices(old(self)@, paused, change, final(self)@, result),
    {
        if paused {
            return Ok(Notice::Ignored);
        }
        match change {
            Change::Files(paths) => Ok(Notice::Ask(paths)),
            Change::Payload(payload) => match self.copy(payload) {
                Ok(event) => Ok(Notice::Made(event)),
                Err(error) => Err(error),
            },
        }
    }

    /// Takes in a change that a peer sent.
    pub fn receive(&mut self, trusted: &StrMap<Peer>, paused: bool, event: ClipboardEvent)
        -> (reception: Reception)
        ensures
            carries(
                reception,
                verdict(old(self)@, trusted@.dom(), paused, event@),
                event@,
            ),
            final(self)@ == received(
                old(self)@,
                verdict(old(self)@, trusted@.dom(), paused, event@),
                event@,
            ),
    {
        if paused || self.recent.contains(event.id) {
            return Reception::Ignored;
        }
        if let Err(error) = event.validate() {
            return Reception::Invalid(error);
        }
        if !trusted.contains_key(event.origin.as_str()) {
            return Reception::Untrusted;
        }
        self.recent.remember(event.id);
        self.clock.merge(&event.clock);
        let newer = match &self.current {
            None => true,
            Some(old) => match event.clock.relation(&old.clock) {
                ClockRelation::After => true,
                ClockRelation::Concurrent => text::str_lt(
                    old.origin.as_str(),
                    event.origin.as_str(),
                ),
                ClockRelation::Before => false,
                ClockRelation::Equal => false,
            },
        };
        if newer {
            self.current = Some(event.clone());
            self.latest = Some(event.clone());
            Reception::Applied(event)
        } else {
            Reception::Passed(event)
        }
    }

    /// Stops handing out what was copied before a pause.
    pub fn pause(&mut self)
        ensures
            final(self)@ == halted(old(self)@),
    {
        self.latest = None;
    }

    /// Starts anew after a pause, with nothing to hand out.
    pub fn resume(&mut self)
        ensures
            final(self)@ == resumed(old(self)@),
    {
        self.current = None;
        self.latest = None;
    }

    /// The change that a peer gets when it connects.
    pub fn replay(&self) -> (event: Option<ClipboardEvent>)
        ensures
            maybe_event(event) == handed_out(self@),
    {
        match &self.latest {
            Some(event) => Some(event.clone()),
            None => None,
        }
    }

    /// What this device says first on a connection.
    pub fn greeting(&self) -> (message: Message)
        ensures
            greets(message, self@.id),
    {
        Message::Hello { version: PROTOCOL_VERSION, device_id: self.id.clone() }
    }
}

/// Whether a message is the greeting of a peer.
pub open spec fn greets(message: Message, peer: Seq<char>) -> bool {
    message matches Message::Hello { version, device_id } && version == PROTOCOL_VERSION
        && device_id@ == peer
}

/// Whether the first message on a connection is the greeting of its peer.
pub fn accepts_greeting(message: &Message, peer: &str) -> (accepted: bool)
    ensures
        accepted == greets(*message, peer@),
{
    match message {
        Message::Hello { version, device_id } => *version == PROTOCOL_VERSION && text::str_eq(
            device_id.as_str(),
            peer,
        ),
        _ => false,
    }
}

/// An event that was seen is ignored when it comes again, and changes nothing,
/// as long as no more than 4095 others were seen since.
pub proof fn law_seen_event_is_ignored(
    s: SyncState,
    later: SyncState,
    trusted: Set<Seq<char>>,
    now_trusted: Set<Seq<char>>,
    event: EventState,
    others: Seq<u128>,
)
    requires
        is_sound(s.recent),
        verdict(s, trusted, false, event) is Passed || verdict(s, trusted, false, event) is Applied,
        later.recent == remembered_all(
            received(s, verdict(s, trusted, false, event), event).recent,
            others,
        ),
        others.len() < REMEMBERED_EVENTS,
        others.push(event.id).no_duplicates(),
        forall|i: int| 0 <= i < others.len() ==> !s.recent.seen.contains(#[trigger] others[i]),
    ensures
        verdict(later, now_trusted, false, event) is Ignored,
        received(later, verdict(later, now_trusted, false, event), event) == later,
        is_sound(later.recent),
{
    let first = remembered(s.recent, event.id);
    lemma_remember(s.recent, event.id);
    assert(first.order.last() == event.id);
    assert forall|i: int| 0 <= i < others.len() implies !first.seen.contains(
        #[trigger] others[i],
    ) by {
        let all = others.push(event.id);
        assert(all[i] != all[others.len() as int]);
    }
    assert forall|i: int, j: int|
        0 <= i < others.len() && 0 <= j < others.len() && i != j implies others[i] != others[j] by {
        let all = others.push(event.id);
        assert(all[i] != all[j]);
    }
    lemma_stays(first, others, event.id, first.order.len() - 1);
}

/// What was seen lately, once more events were seen one after the other.
pub open spec fn remembered_all(r: RecentState, ids: Seq<u128>) -> RecentState
    decreases ids.len(),
{
    if ids.len() == 0 {
        r
    } else {
        remembered(remembered_all(r, ids.drop_last()), ids.last())
    }
}

/// Remembering an event that was not seen keeps the memory sound and puts the
/// event last.
pub proof fn lemma_remember(r: RecentState, id: u128)
    requires
        is_sound(r),
        !r.seen.contains(id),
    ensures
        is_sound(remembered(r, id)),
        remembered(r, id).order.last() == id,
        remembered(r, id).order.len() >= 1,
        remembered(r, id).seen.subset_of(r.seen.insert(id)),
        r.order.len() < REMEMBERED_EVENTS ==> remembered(r, id).order == r.order.push(id),
        r.order.len() == REMEMBERED_EVENTS ==> remembered(r, id).order == r.order.push(id).skip(1),
{
    let order = r.order.push(id);
    assert forall|i: int, j: int|
        0 <= i < order.len() && 0 <= j < order.len() && i != j implies order[i] != order[j] by {
        if i < r.order.len() {
            assert(r.order.to_set().contains(r.order[i]));
        }
        if j < r.order.len() {
            assert(r.order.to_set().contains(r.order[j]));
        }
    }
    assert(order.to_set() =~= r.seen.insert(id)) by {
        assert forall|x: u128| order.to_set().contains(x) == r.seen.insert(id).contains(x) by {
            if r.order.contains(x) {
                let i = r.order.index_of(x);
                assert(order[i] == x);
            }
            if order.contains(x) {
                let i = order.index_of(x);
                if i < r.order.len() {
                    assert(r.order.to_set().contains(r.order[i]));
                }
            }
            assert(order[order.len() - 1] == id);
            assert(r.order.to_set().contains(x) == r.order.contains(x));
        }
    }
    if order.len() > REMEMBERED_EVENTS {
        let kept = order.skip(1);
        assert forall|x: u128| kept.to_set().contains(x) == order.to_set().remove(
            order[0],
        ).contains(x) by {
            if kept.contains(x) {
                let i = kept.index_of(x);
                assert(order[i + 1] == x);
            }
            if order.contains(x) && x != order[0] {
                let i = order.index_of(x);
                assert(kept[i - 1] == x);
            }
        }
        assert(kept.to_set() =~= order.to_set().remove(order[0]));
        assert forall|i: int, j: int|
            0 <= i < kept.len() && 0 <= j < kept.len() && i != j implies kept[i] != kept[j] by {
            assert(kept[i] == order[i + 1] && kept[j] == order[j + 1]);
        }
    }
}

proof fn lemma_stays(r: RecentState, ids: Seq<u128>, id: u128, at: int)
    requires
        is_sound(r),
        0 <= at < r.order.len(),
        r.order[at] == id,
        at == r.order.len() - 1,
        ids.len() < REMEMBERED_EVENTS,
        ids.no_duplicates(),
        forall|i: int| 0 <= i < ids.len() ==> !r.seen.contains(#[trigger] ids[i]),
    ensures
        is_sound(remembered_all(r, ids)),
        remembered_all(r, ids).seen.contains(id),
        remembered_all(r, ids).order.len() > ids.len(),
        remembered_all(r, ids).order[remembered_all(r, ids).order.len() - 1 - ids.len()] == id,
        forall|x: u128|
            #![trigger remembered_all(r, ids).seen.contains(x)]
            remembered_all(r, ids).seen.contains(x) ==> r.seen.contains(x) || ids.contains(x),
    decreases ids.len(),
{
    let all = remembered_all(r, ids);
    if ids.len() > 0 {
        let fewer = ids.drop_last();
        let before = remembered_all(r, fewer);
        assert forall|i: int| 0 <= i < fewer.len() implies !r.seen.contains(
            #[trigger] fewer[i],
        ) by {
            assert(fewer[i] == ids[i]);
        }
        lemma_stays(r, fewer, id, at);
        let last = ids.last();
        assert(!before.seen.contains(last)) by {
            if before.seen.contains(last) {
                assert(!r.seen.contains(ids[ids.len() - 1]));
                let i = fewer.index_of(last);
                assert(ids[i] == ids[ids.len() - 1]);
            }
        }
        lemma_remember(before, last);
        let place = all.order.len() - 1 - ids.len();
        assert(all.order[place] == id);
        assert forall|x: u128|
            #![trigger all.seen.contains(x)]
            all.seen.contains(x) implies r.seen.contains(x) || ids.contains(x) by {
            if x == last {
                assert(ids[ids.len() - 1] == x);
            } else {
                assert(before.seen.contains(x));
                if fewer.contains(x) {
                    let i = fewer.index_of(x);
                    assert(ids[i] == x);
                }
            }
        }
    }
    let place = all.order.len() - 1 - ids.len();
    assert(all.order.to_set().contains(all.order[place]));
}

/// While paused, nothing that comes in is passed on or applied, and nothing
/// changes.
pub proof fn law_paused_daemon_ignores_peers(
    s: SyncState,
    trusted: Set<Seq<char>>,
    event: EventState,
)
    ensures
        verdict(s, trusted, true, event) is Ignored,
        received(s, verdict(s, trusted, true, event), event) == s,
{
}

/// A change of a device that is not trusted is neither passed on nor applied,
/// whoever sent it.
pub proof fn law_untrusted_devices_change_nothing(
    s: SyncState,
    trusted: Set<Seq<char>>,
    paused: bool,
    event: EventState,
)
    requires
        !trusted.contains(event.origin),
    ensures
        !(verdict(s, trusted, paused, event) is Passed),
        !(verdict(s, trusted, paused, event) is Applied),
        received(s, verdict(s, trusted, paused, event), event) == s,
{
}

/// What the daemon has seen only grows.
pub proof fn law_clock_only_grows(
    s: SyncState,
    trusted: Set<Seq<char>>,
    paused: bool,
    event: EventState,
)
    ensures
        ordering::at_most(
            s.clock,
            received(s, verdict(s, trusted, paused, event), event).clock,
        ),
{
    let after = ordering::merged(s.clock, event.clock);
    ordering::law_merge_is_least_upper_bound(s.clock, event.clock, after);
}

/// Of two changes, one beats the other and not the other way round, unless they
/// have seen the same, or neither has seen the other and they are of one device.
/// So two daemons that get both end up with the same one, whichever came first.
pub proof fn law_two_changes_settle(a: EventState, b: EventState)
    requires
        ordering::relation_of(a.clock, b.clock) != ClockRelation::Equal,
        ordering::relation_of(a.clock, b.clock) == ClockRelation::Concurrent ==> a.origin
            != b.origin,
    ensures
        beats(a, b) != beats(b, a),
        settled(None, seq![a, b]) == settled(None, seq![b, a]),
{
    ordering::law_relation_is_symmetric(a.clock, b.clock);
    text::lemma_text_order(a.origin, b.origin);
    assert(seq![a, b].drop_last() =~= seq![a]);
    assert(seq![b, a].drop_last() =~= seq![b]);
    assert(seq![a].drop_last() =~= Seq::<EventState>::empty());
    assert(seq![b].drop_last() =~= Seq::<EventState>::empty());
    reveal_with_fuel(settled, 3);
}

/// A change of a peer is put into the clipboard exactly if it is unseen, valid and
/// of a trusted device, and the clipboard holds none yet or one that it beats: one
/// that it has seen, or one that neither has seen the other of and whose device
/// comes before its own.
pub proof fn law_changes_are_applied_exactly_when_they_win(
    s: SyncState,
    trusted: Set<Seq<char>>,
    event: EventState,
)
    ensures
        verdict(s, trusted, false, event) is Applied <==> {
            &&& !s.recent.seen.contains(event.id)
            &&& protocol::event_fault(event) is None
            &&& trusted.contains(event.origin)
            &&& match s.current {
                None => true,
                Some(old) => ordering::relation_of(event.clock, old.clock) == ClockRelation::After
                    || (ordering::relation_of(event.clock, old.clock) == ClockRelation::Concurrent
                    && text::text_lt(old.origin, event.origin)),
            }
        },
        received(s, verdict(s, trusted, false, event), event).current == if verdict(
            s,
            trusted,
            false,
            event,
        ) is Applied {
            Some(event)
        } else {
            s.current
        },
{
}

/// What a daemon that is not paused knows once a change of a peer has come in.
pub open spec fn taken_in(s: SyncState, trusted: Set<Seq<char>>, event: EventState) -> SyncState {
    received(s, verdict(s, trusted, false, event), event)
}

/// Whether a change is news to a daemon that it can take in, and beats what the
/// clipboard holds.
pub open spec fn is_news(s: SyncState, trusted: Set<Seq<char>>, event: EventState) -> bool {
    &&& !s.recent.seen.contains(event.id)
    &&& protocol::event_fault(event) is None
    &&& trusted.contains(event.origin)
    &&& wins(event, s.current)
}

/// Two daemons that get the same two changes, one in this order and one in the
/// other, end up with the same content in their clipboards: that of the change that
/// has seen the other, or else of the one whose device comes later.
pub proof fn law_two_daemons_agree(
    s: SyncState,
    t: SyncState,
    trusted_by_s: Set<Seq<char>>,
    trusted_by_t: Set<Seq<char>>,
    a: EventState,
    b: EventState,
)
    requires
        is_news(s, trusted_by_s, a),
        is_news(s, trusted_by_s, b),
        is_news(t, trusted_by_t, a),
        is_news(t, trusted_by_t, b),
        a.id != b.id,
        ordering::relation_of(a.clock, b.clock) != ClockRelation::Equal,
        ordering::relation_of(a.clock, b.clock) == ClockRelation::Concurrent ==> a.origin
            != b.origin,
    ensures
        ({
            let first = taken_in(taken_in(s, trusted_by_s, a), trusted_by_s, b);
            let second = taken_in(taken_in(t, trusted_by_t, b), trusted_by_t, a);
            let winner = if beats(a, b) {
                a
            } else {
                b
            };
            first.current == Some(winner) && second.current == Some(winner)
        }),
{
    law_two_changes_settle(a, b);
    let after_a = taken_in(s, trusted_by_s, a);
    let after_b = taken_in(t, trusted_by_t, b);
    assert(!after_a.recent.seen.contains(b.id));
    assert(!after_b.recent.seen.contains(a.id));
}

/// What a clipboard holds once changes have come in one after the other.
pub open spec fn settled(current: Option<EventState>, events: Seq<EventState>) -> Option<EventState>
    decreases events.len(),
{
    if events.len() == 0 {
        current
    } else {
        let before = settled(current, events.drop_last());
        if wins(events.last(), before) {
            Some(events.last())
        } else {
            before
        }
    }
}

/// A change that beats all others that come in, and is beaten by none, is what
/// the clipboard holds in the end, in whatever order they come in and however
/// often.
pub proof fn law_winner_is_settled_on(
    current: Option<EventState>,
    events: Seq<EventState>,
    winner: EventState,
)
    requires
        events.contains(winner) || current == Some(winner),
        current matches Some(old) ==> old == winner || (beats(winner, old) && !beats(old, winner)),
        forall|i: int|
            0 <= i < events.len() ==> #[trigger] events[i] == winner || (beats(winner, events[i])
                && !beats(events[i], winner)),
    ensures
        settled(current, events) == Some(winner),
    decreases events.len(),
{
    if events.len() > 0 {
        let fewer = events.drop_last();
        assert forall|i: int| 0 <= i < fewer.len() implies #[trigger] fewer[i] == winner || (beats(
            winner,
            fewer[i],
        ) && !beats(fewer[i], winner)) by {
            assert(fewer[i] == events[i]);
        }
        let last = events.last();
        assert(last == events[events.len() - 1]);
        lemma_settles_on_one(current, fewer);
        if fewer.contains(winner) || current == Some(winner) {
            law_winner_is_settled_on(current, fewer, winner);
        } else {
            assert(last == winner) by {
                let i = events.index_of(winner);
                if i < fewer.len() {
                    assert(fewer[i] == winner);
                }
            }
        }
    }
}

proof fn lemma_settles_on_one(current: Option<EventState>, events: Seq<EventState>)
    ensures
        settled(current, events) == current || (settled(current, events) is Some
            && exists|i: int|
            0 <= i < events.len() && #[trigger] events[i] == settled(current, events)->0),
    decreases events.len(),
{
    if events.len() > 0 {
        let fewer = events.drop_last();
        lemma_settles_on_one(current, fewer);
        assert(events[events.len() - 1] == events.last());
        if settled(current, fewer) != current {
            let i = choose|i: int|
                0 <= i < fewer.len() && #[trigger] fewer[i] == settled(current, fewer)->0;
            assert(events[i] == fewer[i]);
        }
    }
}

/// What is copied on a device beats every change that the device has taken in
/// before.
pub proof fn law_copy_beats_what_was_received(
    s: SyncState,
    trusted: Set<Seq<char>>,
    event: EventState,
    payload: PayloadState,
    copy: EventState,
)
    requires
        verdict(s, trusted, false, event) is Passed || verdict(s, trusted, false, event) is Applied,
        ordering::count(
            received(s, verdict(s, trusted, false, event), event).clock,
            s.id,
        ) < u64::MAX,
        is_copy(received(s, verdict(s, trusted, false, event), event), payload, copy),
    ensures
        beats(copy, event),
        !beats(event, copy),
{
    ordering::law_event_follows_what_was_seen(s.clock, event.clock, s.id);
    ordering::law_relation_is_symmetric(copy.clock, event.clock);
}

/// What a device copies is taken in by any daemon that trusts the device and has
/// not seen it.
pub proof fn law_copy_is_valid(s: SyncState, payload: PayloadState, copy: EventState)
    requires
        is_copy(s, payload, copy),
        protocol::payload_fault(payload) is None,
        ordering::count(s.clock, s.id) < u64::MAX,
    ensures
        protocol::event_fault(copy) is None,
{
    assert(copy.clock.dom().contains(copy.origin));
}

/// After a pause nothing that was copied before is handed out or held against
/// what comes in.
pub proof fn law_resumed_daemon_starts_anew(s: SyncState, event: EventState)
    ensures
        ({
            let after = resumed(s);
            &&& handed_out(after) is None
            &&& wins(event, after.current)
        }),
{
}

} // verus!
