//! What holds of the shared clipboard as a whole.

use vstd::prelude::*;

use crate::clipboard::Change;
use crate::daemon;
use crate::daemon::{Notice, RecentState, Reception, SyncState};
use crate::ordering;
use crate::protocol;
use crate::protocol::{ClipboardEvent, EventState, Message, PayloadState, ProtocolError};

verus! {

/// What a device copies is what its clipboard holds and what a peer gets that
/// connects then: the very payload, under the name of this device, with the next of
/// its sequence numbers, as one that has seen all that this device has seen.
pub proof fn law_connecting_peer_gets_what_was_copied(
    s: SyncState,
    payload: PayloadState,
    after: SyncState,
    result: Result<ClipboardEvent, ProtocolError>,
    other: Seq<char>,
)
    requires
        ordering::count(s.clock, s.id) < u64::MAX,
        daemon::copies(s, payload, after, result),
    ensures
        result is Ok <==> protocol::payload_fault(payload) is None,
        result matches Ok(event) ==> {
            &&& daemon::handed_out(after) == Some(event@)
            &&& after.current == Some(event@)
            &&& event@.payload == payload
            &&& event@.origin == s.id
            &&& event@.sequence == ordering::count(s.clock, s.id) + 1
            &&& ordering::count(event@.clock, s.id) == event@.sequence
            &&& other != s.id ==> ordering::count(event@.clock, other) == ordering::count(
                s.clock,
                other,
            )
            &&& after.clock == event@.clock
            &&& after.recent.order.len() > 0 && after.recent.order.last() == event@.id
        },
        result is Err ==> daemon::handed_out(after) == daemon::handed_out(s) && after.current
            == s.current && after.recent == s.recent,
        result is Err ==> ordering::count(after.clock, s.id) == ordering::count(s.clock, s.id) + 1,
        result matches Err(error) ==> protocol::payload_fault(payload) == Some(error),
        after.id == s.id,
{
}

/// A change of a peer that goes into the clipboard is what a peer gets that connects
/// then; one that is only passed on leaves that, and the clipboard, as they were; and
/// any other changes nothing.
pub proof fn law_connecting_peer_gets_what_was_applied(
    s: SyncState,
    trusted: Set<Seq<char>>,
    paused: bool,
    event: EventState,
    other: Seq<char>,
)
    ensures
        ({
            let v = daemon::verdict(s, trusted, paused, event);
            let after = daemon::received(s, v, event);
            let more = if ordering::count(event.clock, other) > ordering::count(s.clock, other) {
                ordering::count(event.clock, other)
            } else {
                ordering::count(s.clock, other)
            };
            &&& v is Applied ==> daemon::handed_out(after) == Some(event) && after.current == Some(
                event,
            )
            &&& v is Passed ==> daemon::handed_out(after) == daemon::handed_out(s) && after.current
                == s.current
            &&& v is Applied || v is Passed ==> ordering::count(after.clock, other) == more
                && after.recent.order.len() > 0 && after.recent.order.last() == event.id
            &&& !(v is Applied || v is Passed) ==> after == s
            &&& after.id == s.id
        }),
{
}

/// What becomes of a change that a peer sent. While paused, and when it was seen
/// before, it is ignored; else, when it is not valid, it is refused with what is wrong
/// with it; else, when its device is not trusted, it is refused; and else it goes on to
/// the other peers.
pub proof fn law_every_change_has_its_fate(
    s: SyncState,
    trusted: Set<Seq<char>>,
    paused: bool,
    event: EventState,
    reception: Reception,
)
    requires
        daemon::carries(reception, daemon::verdict(s, trusted, paused, event), event),
    ensures
        ({
            let fresh = !paused && !s.recent.seen.contains(event.id);
            let sound = protocol::event_fault(event) is None;
            &&& !fresh <==> reception is Ignored
            &&& fresh && !sound ==> reception == Reception::Invalid(
                protocol::event_fault(event)->0,
            )
            &&& fresh && sound && !trusted.contains(event.origin) ==> reception is Untrusted
            &&& fresh && sound && trusted.contains(event.origin) ==> match reception {
                Reception::Passed(given) => given@ == event,
                Reception::Applied(given) => given@ == event,
                _ => false,
            }
        }),
{
}

/// What is noticed in this device's own clipboard: while paused nothing; files are
/// first asked about, and nothing changes until the user answers; anything else goes to
/// the peers as if it had been copied.
pub proof fn law_noticed_changes(
    s: SyncState,
    paused: bool,
    change: Change,
    after: SyncState,
    result: Result<Notice, ProtocolError>,
)
    requires
        daemon::notices(s, paused, change, after, result),
    ensures
        paused ==> after == s && (result matches Ok(notice) && notice is Ignored),
        !paused ==> match change {
            Change::Files(paths) => after == s && result == Ok::<Notice, ProtocolError>(
                Notice::Ask(paths),
            ),
            Change::Payload(payload) => match result {
                Ok(Notice::Made(event)) => daemon::copies(
                    s,
                    payload@,
                    after,
                    Ok::<ClipboardEvent, ProtocolError>(event),
                ),
                Err(error) => daemon::copies(
                    s,
                    payload@,
                    after,
                    Err::<ClipboardEvent, ProtocolError>(error),
                ),
                _ => false,
            },
        },
{
}

/// Something that happens to the shared clipboard.
pub enum Event {
    Copied { payload: PayloadState, result: Result<ClipboardEvent, ProtocolError> },
    Received { trusted: Set<Seq<char>>, event: EventState },
    Paused,
    Resumed,
}

/// Whether a daemon is paused after some events.
pub open spec fn is_paused(events: Seq<Event>) -> bool
    decreases events.len(),
{
    events.len() > 0 && match events.last() {
        Event::Paused => true,
        Event::Resumed => false,
        _ => is_paused(events.drop_last()),
    }
}

/// Whether events lead a daemon from one state through others. While it is paused,
/// nothing is copied to the peers and what they send is ignored.
pub open spec fn run(states: Seq<SyncState>, events: Seq<Event>) -> bool
    decreases events.len(),
{
    &&& states.len() == events.len() + 1
    &&& events.len() == 0 ==> states[0].current is None && states[0].latest is None
    &&& events.len() > 0 ==> {
        let fewer = events.drop_last();
        let before = states.drop_last().last();
        &&& run(states.drop_last(), fewer)
        &&& match events.last() {
            Event::Copied { payload, result } => !is_paused(fewer) && daemon::copies(
                before,
                payload,
                states.last(),
                result,
            ),
            Event::Received { trusted, event } => states.last() == daemon::received(
                before,
                daemon::verdict(before, trusted, is_paused(fewer), event),
                event,
            ),
            Event::Paused => states.last() == daemon::halted(before),
            Event::Resumed => states.last() == daemon::resumed(before),
        }
    }
}

/// While a daemon is not paused, what a connecting peer is handed is what the
/// clipboard holds; while it is paused, nothing is handed out.
pub proof fn law_handed_out_is_what_the_clipboard_holds(
    states: Seq<SyncState>,
    events: Seq<Event>,
)
    requires
        run(states, events),
    ensures
        !is_paused(events) ==> daemon::handed_out(states.last()) == states.last().current,
        is_paused(events) ==> daemon::handed_out(states.last()) is None,
    decreases events.len(),
{
    if events.len() > 0 {
        law_handed_out_is_what_the_clipboard_holds(states.drop_last(), events.drop_last());
    }
}

/// A pause stops handing out, and leaves the clipboard, the clock and the memory
/// alone; going on after it starts with an empty clipboard, the same clock and the
/// same memory.
pub proof fn law_pause_and_resume(s: SyncState)
    ensures
        daemon::handed_out(daemon::halted(s)) is None,
        daemon::halted(s).current == s.current,
        daemon::halted(s).clock == s.clock,
        daemon::halted(s).recent == s.recent,
        daemon::halted(s).id == s.id,
        daemon::handed_out(daemon::resumed(s)) is None,
        daemon::resumed(s).current is None,
        daemon::resumed(s).clock == s.clock,
        daemon::resumed(s).recent == s.recent,
        daemon::resumed(s).id == s.id,
{
}

/// The last 4096 changes are remembered: one more is put behind them, and only where
/// there are 4096 already is the oldest forgotten.
pub proof fn law_memory_forgets_the_oldest(r: RecentState, id: u128, other: u128)
    requires
        r.order.len() <= 4096,
        r.order.no_duplicates(),
        r.order.to_set() == r.seen,
        !r.seen.contains(id),
    ensures
        ({
            let after = daemon::remembered(r, id);
            &&& after.seen.contains(id)
            &&& after.order.last() == id
            &&& r.order.len() < 4096 ==> after.order == r.order.push(id) && after.seen
                == r.seen.insert(id)
            &&& r.order.len() == 4096 ==> after.order.len() == 4096 && !after.seen.contains(
                r.order[0],
            )
            &&& other != id && r.seen.contains(other) && !(r.order.len() == 4096 && other
                == r.order[0]) ==> after.seen.contains(other)
            &&& other != id && !r.seen.contains(other) ==> !after.seen.contains(other)
        }),
{
    if r.order.len() == 4096 {
        assert(r.order.to_set().contains(r.order[0]));
    }
}

/// The greeting of a device is its id and the version of the protocol, the fourth; a
/// connection whose first message is anything else, or of another device, is refused.
pub proof fn law_greeting_names_the_device(message: Message, peer: Seq<char>)
    ensures
        daemon::greets(message, peer) <==> (message matches Message::Hello { version, device_id }
            && version == 4 && device_id@ == peer),
        daemon::greets(message, peer) ==> forall|other: Seq<char>|
            other != peer ==> !#[trigger] daemon::greets(message, other),
{
}

/// A daemon starts with nothing to hand out, and goes on counting where the last run
/// stopped; the first valid change of a trusted peer goes into the clipboard.
pub proof fn law_daemon_starts_with_its_clock(
    id: Seq<char>,
    clock: Map<Seq<char>, u64>,
    trusted: Set<Seq<char>>,
    event: EventState,
    payload: PayloadState,
    after: SyncState,
    result: Result<ClipboardEvent, ProtocolError>,
)
    requires
        ordering::count(clock, id) < u64::MAX,
        daemon::copies(daemon::started(id, clock), payload, after, result),
    ensures
        daemon::handed_out(daemon::started(id, clock)) is None,
        trusted.contains(event.origin) && protocol::event_fault(event) is None ==> daemon::verdict(
            daemon::started(id, clock),
            trusted,
            false,
            event,
        ) is Applied,
        result matches Ok(made) ==> made@.sequence == ordering::count(clock, id) + 1 && made@.origin
            == id,
        run(seq![daemon::started(id, clock)], Seq::empty()),
{
    let s = daemon::started(id, clock);
    assert(seq![s][0] == s);
}

} // verus!
