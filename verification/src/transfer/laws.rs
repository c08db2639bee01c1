//! What holds of transfers as a whole: what each step is for, at either end.

use vstd::prelude::*;

use crate::bytes;
use crate::config;
use crate::foreign;
use crate::text;
use crate::transfer;
use crate::transfer::protocol;
use crate::transfer::protocol::{FileManifest, TransferMessage};
use crate::transfer::sender;
use crate::transfer::sender::{Answer, Next, Phase, Sender};
use crate::transfer::{
    Direction, Ending, InspectError, Inspection, JobState, KindState, ManagerState, Outbound, Plan,
    TransferError, TransferState,
};

verus! {

/// Whether two lists of transfers differ at most in one transfer, and have the same
/// senders at work.
pub open spec fn differ_at(a: ManagerState, b: ManagerState, id: u128) -> bool {
    &&& a.live == b.live
    &&& forall|other: u128|
        other != id ==> (#[trigger] a.jobs.dom().contains(other) <==> b.jobs.dom().contains(other))
    &&& forall|other: u128|
        other != id && #[trigger] a.jobs.dom().contains(other) ==> a.jobs[other] == b.jobs[other]
}

/// Whether a transfer is one that someone offered and nobody answered.
pub open spec fn awaits_answer(m: ManagerState, id: u128) -> bool {
    m.jobs.dom().contains(id) && m.jobs[id].direction == Direction::Receive && m.jobs[id].state
        == TransferState::Waiting
}

/// After an offer is accepted with a folder, that folder is the destination,
/// whatever destination the offer had before, and the parts go where they were
/// said to go. The transfer is on; what was offered and what was received of it
/// stays. The peer that offered it, and no other, is told.
pub proof fn law_accepting_chooses_the_folder(
    m: ManagerState,
    id: u128,
    folder: Seq<u8>,
    parts: Seq<u8>,
    after: ManagerState,
    result: Result<Outbound, TransferError>,
)
    requires
        transfer::sound(m),
        transfer::accepts(m, id, folder, parts, after, result),
    ensures
        result is Ok <==> awaits_answer(m, id),
        awaits_answer(m, id) ==> {
            let before = m.jobs[id];
            let now = after.jobs[id];
            &&& after.jobs.dom().contains(id)
            &&& now.destination == Some(folder)
            &&& now.state == TransferState::Transferring
            &&& now.kind is Incoming
            &&& now.kind->part_dir == Some(parts)
            &&& now.kind->offsets == before.kind->offsets
            &&& now.files == before.files
            &&& now.total == before.total
            &&& now.transferred == before.transferred
            &&& now.peer == before.peer
            &&& now.direction == Direction::Receive
            &&& now.error == before.error
            &&& result->Ok_0.peer@ == before.peer
            &&& result->Ok_0.message == (TransferMessage::Response { id, accepted: true })
        },
        differ_at(m, after, id),
        result is Err ==> after == m,
        !m.jobs.dom().contains(id) ==> result == Err::<Outbound, TransferError>(
            TransferError::UnknownTransfer,
        ),
        m.jobs.dom().contains(id) && result is Err ==> result == Err::<Outbound, TransferError>(
            TransferError::NotAwaitingAcceptance,
        ),
{
    if m.jobs.dom().contains(id) {
        assert(transfer::sound_job(m.jobs[id]));
    }
}

/// Something that happens to the transfers of a device.
#[allow(inconsistent_fields)]
pub enum Event {
    Message {
        peer: Seq<char>,
        message: TransferMessage,
        destination: Option<Seq<u8>>,
        taken: Seq<bool>,
    },
    Written {
        peer: Seq<char>,
        id: u128,
        file_index: u32,
        offset: u64,
        len: int,
        result: Result<Outbound, TransferError>,
    },
    Reject { id: u128, result: Result<Outbound, TransferError> },
    Cancel { id: u128, result: Result<Option<Ending>, TransferError> },
    State { id: u128, state: TransferState, result: Result<(), TransferError> },
    Progress { id: u128, bytes: u64, result: Result<(), TransferError> },
    Fail { id: u128, error: Seq<char>, ending: Option<(Outbound, Option<Vec<u8>>)> },
}

/// Whether an event leads from one list of transfers to another.
pub open spec fn leads(m: ManagerState, event: Event, after: ManagerState) -> bool {
    match event {
        Event::Message { peer, message, destination, taken } => match transfer::handled(
            m,
            peer,
            message,
            destination,
            taken,
        ) {
            Ok(next) => after == next,
            Err(error) => after == m,
        },
        Event::Written { peer, id, file_index, offset, len, result } => transfer::writes(
            m,
            peer,
            id,
            file_index,
            offset,
            len,
            after,
            result,
        ),
        Event::Reject { id, result } => transfer::rejects(m, id, after, result),
        Event::Cancel { id, result } => transfer::cancels(m, id, after, result),
        Event::State { id, state, result } => transfer::marks(m, id, state, after, result),
        Event::Progress { id, bytes, result } => transfer::counts(m, id, bytes, after, result),
        Event::Fail { id, error, ending } => transfer::gives_up(m, id, error, after, ending),
    }
}

/// Whether events lead from one list of transfers through others.
pub open spec fn run(states: Seq<ManagerState>, events: Seq<Event>) -> bool {
    &&& states.len() == events.len() + 1
    &&& forall|i: int|
        0 <= i < events.len() ==> leads(states[i], #[trigger] events[i], states[i + 1])
}

/// But for accepting it, nothing that happens to a transfer changes where its files
/// go, whose it is, or what was offered.
pub proof fn law_only_accepting_sets_the_destination(
    m: ManagerState,
    event: Event,
    after: ManagerState,
    id: u128,
)
    requires
        leads(m, event, after),
        m.jobs.dom().contains(id),
    ensures
        after.jobs.dom().contains(id),
        after.jobs[id].destination == m.jobs[id].destination,
        after.jobs[id].files == m.jobs[id].files,
        after.jobs[id].total == m.jobs[id].total,
        after.jobs[id].peer == m.jobs[id].peer,
        after.jobs[id].direction == m.jobs[id].direction,
        m.jobs[id].kind is Incoming ==> after.jobs[id].kind is Incoming && (
        after.jobs[id].kind->part_dir == m.jobs[id].kind->part_dir || after.jobs[id].kind->part_dir is None),
        m.jobs[id].kind is Outgoing ==> after.jobs[id].kind == m.jobs[id].kind,
{
}

/// The plan that finishes a transfer names the folder with which it was accepted,
/// whatever happened in between: its parts are moved from their folder to that one,
/// each under the name that was offered, in the order of the offer.
pub proof fn law_finished_files_are_where_they_were_accepted(
    offered: ManagerState,
    id: u128,
    folder: Seq<u8>,
    parts: Seq<u8>,
    result: Result<Outbound, TransferError>,
    states: Seq<ManagerState>,
    events: Seq<Event>,
    peer: Seq<char>,
    destination: Option<Seq<u8>>,
    taken: Seq<bool>,
    plan: Plan,
)
    requires
        transfer::sound(offered),
        awaits_answer(offered, id),
        run(states, events),
        transfer::accepts(offered, id, folder, parts, states[0], result),
        transfer::handled(
            states.last(),
            peer,
            TransferMessage::Complete { id },
            destination,
            taken,
        ) is Ok,
        transfer::is_plan(states.last(), TransferMessage::Complete { id }, plan),
    ensures
        plan matches Plan::Finish { id: named, part_dir, destination: to, names } && {
            &&& named == id
            &&& to@ == folder
            &&& part_dir@ == parts
            &&& names@.len() == offered.jobs[id].files.len()
            &&& forall|i: int|
                0 <= i < names@.len() ==> (#[trigger] names@[i])@ == offered.jobs[id].files[i].name@
        },
{
    assert(transfer::sound_job(offered.jobs[id]));
    lemma_destination_stays(states, events, id);
    if let Plan::Finish { id: named, part_dir, destination: to, names } = plan {
        let last = states.last();
        assert(transfer::texts_of(names@).len() == names@.len());
        assert forall|i: int| 0 <= i < names@.len() implies (#[trigger] names@[i])@
            == offered.jobs[id].files[i].name@ by {
            assert(transfer::texts_of(names@)[i] == names@[i]@);
            assert(transfer::names_of(last.jobs[id].files)[i] == last.jobs[id].files[i].name@);
        }
    }
}

proof fn lemma_destination_stays(states: Seq<ManagerState>, events: Seq<Event>, id: u128)
    requires
        run(states, events),
        states[0].jobs.dom().contains(id),
        states[0].jobs[id].kind is Incoming,
    ensures
        states.last().jobs.dom().contains(id),
        states.last().jobs[id].destination == states[0].jobs[id].destination,
        states.last().jobs[id].files == states[0].jobs[id].files,
        states.last().jobs[id].kind is Incoming,
        states.last().jobs[id].kind->part_dir == states[0].jobs[id].kind->part_dir
            || states.last().jobs[id].kind->part_dir is None,
    decreases events.len(),
{
    if events.len() > 0 {
        let fewer = events.drop_last();
        let earlier = states.drop_last();
        assert forall|i: int| 0 <= i < fewer.len() implies leads(
            earlier[i],
            #[trigger] fewer[i],
            earlier[i + 1],
        ) by {
            assert(leads(states[i], events[i], states[i + 1]));
        }
        lemma_destination_stays(earlier, fewer, id);
        let n = events.len() - 1;
        assert(leads(states[n], events[n], states[n + 1]));
        law_only_accepting_sets_the_destination(states[n], events[n], states[n + 1], id);
    }
}

/// A rejected offer is over, with nothing else changed, and the peer that made it is
/// told; only an offer that nobody answered can be rejected.
pub proof fn law_rejecting_ends_the_offer(
    m: ManagerState,
    id: u128,
    after: ManagerState,
    result: Result<Outbound, TransferError>,
)
    requires
        transfer::rejects(m, id, after, result),
    ensures
        result is Ok <==> awaits_answer(m, id),
        awaits_answer(m, id) ==> {
            &&& after.jobs[id] == (JobState { state: TransferState::Rejected, ..m.jobs[id] })
            &&& after.jobs.dom().contains(id)
            &&& result->Ok_0.peer@ == m.jobs[id].peer
            &&& result->Ok_0.message == (TransferMessage::Response { id, accepted: false })
        },
        differ_at(m, after, id),
        result is Err ==> after == m,
        !m.jobs.dom().contains(id) ==> result == Err::<Outbound, TransferError>(
            TransferError::UnknownTransfer,
        ),
        m.jobs.dom().contains(id) && result is Err ==> result == Err::<Outbound, TransferError>(
            TransferError::NotAwaitingRejection,
        ),
{
}

/// Whether a transfer is over for good.
pub open spec fn is_over(state: TransferState) -> bool {
    state is Completed || state is Rejected || state is Cancelled
}

/// Either end can cancel a transfer that is not over: it is cancelled then, its
/// parts are to be removed, the other end is told that the user did it, and so is
/// the sender, if one is at work. One that is over stays as it is, and nobody is
/// told.
pub proof fn law_cancelling_ends_a_transfer(
    m: ManagerState,
    id: u128,
    after: ManagerState,
    result: Result<Option<Ending>, TransferError>,
)
    requires
        transfer::cancels(m, id, after, result),
    ensures
        !m.jobs.dom().contains(id) ==> result == Err::<Option<Ending>, TransferError>(
            TransferError::UnknownTransfer,
        ) && after == m,
        m.jobs.dom().contains(id) && is_over(m.jobs[id].state) ==> result == Ok::<
            Option<Ending>,
            TransferError,
        >(None) && after == m,
        m.jobs.dom().contains(id) && !is_over(m.jobs[id].state) ==> {
            let before = m.jobs[id];
            let now = after.jobs[id];
            &&& after.jobs.dom().contains(id)
            &&& now.state == TransferState::Cancelled
            &&& now.transferred == before.transferred
            &&& now.error == before.error
            &&& now.kind is Incoming <==> before.kind is Incoming
            &&& before.kind is Incoming ==> now.kind->part_dir is None && now.kind->offsets
                == before.kind->offsets
            &&& before.kind is Outgoing ==> now.kind == before.kind
            &&& result matches Ok(Some(ending)) && {
                &&& ending.outbound.peer@ == before.peer
                &&& ending.outbound.message matches TransferMessage::Cancel { id: named, reason }
                    && named == id && reason@ == "cancelled by user"@
                &&& ending.signal == m.live.contains(id)
                &&& ending.remove is Some <==> before.kind is Incoming
                    && before.kind->part_dir is Some
                &&& ending.remove is Some ==> Some((ending.remove->0)@) == before.kind->part_dir
            }
        },
        differ_at(m, after, id),
{
}

/// Whether a chunk goes on where the receiving end is, in a transfer of that peer
/// that is on, and stays within its file and within the size of a chunk.
pub open spec fn fits(
    m: ManagerState,
    peer: Seq<char>,
    id: u128,
    file_index: u32,
    offset: u64,
    len: int,
) -> bool {
    &&& len <= 49_152
    &&& m.jobs.dom().contains(id)
    &&& m.jobs[id].peer == peer
    &&& m.jobs[id].state == TransferState::Transferring
    &&& m.jobs[id].kind is Incoming
    &&& file_index < m.jobs[id].files.len()
    &&& m.jobs[id].kind->offsets[file_index as int] == offset
    &&& offset + len <= m.jobs[id].files[file_index as int].size
    &&& m.jobs[id].kind->part_dir is Some
}

/// A chunk that fits is to be written, at its place, to the part of the file that it
/// names, in the folder of the parts; until it is written nothing changes. A chunk
/// that does not fit is refused.
pub proof fn law_chunks_are_written_in_place(
    m: ManagerState,
    peer: Seq<char>,
    id: u128,
    file_index: u32,
    offset: u64,
    data: Vec<u8>,
    destination: Option<Seq<u8>>,
    taken: Seq<bool>,
    plan: Plan,
)
    ensures
        ({
            let chunk = TransferMessage::Chunk { id, file_index, offset, data };
            let next = transfer::handled(m, peer, chunk, destination, taken);
            &&& next is Ok <==> fits(m, peer, id, file_index, offset, data@.len() as int)
            &&& next is Ok ==> next->Ok_0 == m
            &&& next is Ok && transfer::is_plan(m, chunk, plan) ==> (plan matches Plan::Write {
                id: named,
                file_index: index,
                part_dir,
                name,
                offset: at,
                data: written,
            } && named == id && index == file_index && at == offset && written@ == data@ && name@
                == m.jobs[id].files[file_index as int].name@ && Some(part_dir@)
                == m.jobs[id].kind->part_dir)
            &&& data@.len() > 49_152 ==> next == Err::<ManagerState, TransferError>(
                TransferError::ChunkTooLarge,
            )
            &&& data@.len() <= 49_152 && !m.jobs.dom().contains(id) ==> next == Err::<
                ManagerState,
                TransferError,
            >(TransferError::UnknownTransfer)
            &&& data@.len() <= 49_152 && m.jobs.dom().contains(id) && (m.jobs[id].peer != peer
                || m.jobs[id].state != TransferState::Transferring) ==> next == Err::<
                ManagerState,
                TransferError,
            >(TransferError::UnexpectedChunk)
        }),
{
}

/// A chunk that was written is counted, for its file and for the whole transfer, and
/// acknowledged to the peer that sent it with the place behind it.
pub proof fn law_written_chunks_are_counted(
    m: ManagerState,
    peer: Seq<char>,
    id: u128,
    file_index: u32,
    offset: u64,
    len: int,
    after: ManagerState,
    result: Result<Outbound, TransferError>,
)
    requires
        transfer::sound(m),
        0 <= len,
        transfer::writes(m, peer, id, file_index, offset, len, after, result),
    ensures
        result is Ok <==> fits(m, peer, id, file_index, offset, len),
        result is Err ==> after == m,
        differ_at(m, after, id),
        result is Ok ==> {
            let before = m.jobs[id];
            let now = after.jobs[id];
            &&& after.jobs.dom().contains(id)
            &&& now.transferred == before.transferred + len
            &&& now.kind is Incoming
            &&& now.kind->part_dir == before.kind->part_dir
            &&& now.kind->offsets.len() == before.kind->offsets.len()
            &&& now.kind->offsets[file_index as int] == offset + len
            &&& forall|other: int|
                0 <= other < now.kind->offsets.len() && other != file_index
                    ==> #[trigger] now.kind->offsets[other] == before.kind->offsets[other]
            &&& now.state == before.state
            &&& now.error == before.error
            &&& result->Ok_0.peer@ == peer
            &&& result->Ok_0.message == (TransferMessage::Ack {
                id,
                file_index,
                next_offset: (offset + len) as u64,
            })
        },
{
    if result is Ok {
        let before = m.jobs[id];
        assert(transfer::sound_job(before));
        let offsets = before.kind->offsets;
        protocol::lemma_sum_update(offsets, file_index as int, (offset + len) as u64);
        let more = offsets.update(file_index as int, (offset + len) as u64);
        let all = protocol::sizes(before.files);
        assert forall|i: int| 0 <= i < more.len() implies #[trigger] more[i] <= all[i] by {
            assert(offsets[i] <= before.files[i].size);
        }
        protocol::lemma_sum_bounded(more, all);
    }
}

/// A transfer is complete, and its peer is told so, exactly if all its bytes arrived
/// and it has a folder for its parts and one to go to; it then has no parts any
/// more. Anything else changes nothing.
pub proof fn law_complete_transfers_are_confirmed(
    m: ManagerState,
    peer: Seq<char>,
    id: u128,
    after: ManagerState,
    result: Result<Outbound, TransferError>,
)
    requires
        transfer::finishes(m, peer, id, after, result),
    ensures
        result is Ok <==> m.jobs.dom().contains(id) && m.jobs[id].peer == peer
            && m.jobs[id].transferred == m.jobs[id].total && m.jobs[id].kind is Incoming
            && m.jobs[id].kind->part_dir is Some && m.jobs[id].destination is Some,
        result is Err ==> after == m,
        differ_at(m, after, id),
        result is Ok ==> {
            let before = m.jobs[id];
            let now = after.jobs[id];
            &&& after.jobs.dom().contains(id)
            &&& now.state == TransferState::Completed
            &&& now.transferred == before.transferred
            &&& now.total == before.total
            &&& now.files == before.files
            &&& now.peer == before.peer
            &&& now.destination == before.destination
            &&& now.error == before.error
            &&& now.kind is Incoming && now.kind->part_dir is None
            &&& result->Ok_0.peer@ == peer
            &&& result->Ok_0.message == (TransferMessage::Finished { id })
        },
{
}

/// An offer that can be transferred and is new stands as it was made, by the peer
/// that made it: nothing of it was received, it waits for an answer, and someone is
/// asked about it. One that cannot be transferred is refused.
pub proof fn law_offers_wait_for_an_answer(
    m: ManagerState,
    peer: Seq<char>,
    id: u128,
    files: Vec<FileManifest>,
    total_bytes: u64,
    destination: Option<Seq<u8>>,
    taken: Seq<bool>,
    plan: Plan,
)
    ensures
        ({
            let offer = TransferMessage::Offer { id, files, total_bytes };
            let next = transfer::handled(m, peer, offer, destination, taken);
            let planned = transfer::is_plan(m, offer, plan);
            &&& next is Ok <==> protocol::is_manifest(files@, total_bytes)
            &&& next is Ok && m.jobs.dom().contains(id) ==> next->Ok_0 == m && (planned
                ==> plan is Nothing)
            &&& next is Ok && !m.jobs.dom().contains(id) ==> {
                let job = next->Ok_0.jobs[id];
                &&& differ_at(m, next->Ok_0, id)
                &&& awaits_answer(next->Ok_0, id)
                &&& job.peer == peer
                &&& job.files == files@
                &&& job.total == total_bytes
                &&& job.transferred == 0
                &&& job.destination == destination
                &&& job.error is None
                &&& job.kind is Incoming
                &&& job.kind->part_dir is None
                &&& job.kind->offsets.len() == files@.len()
                &&& forall|i: int|
                    0 <= i < files@.len() ==> #[trigger] job.kind->offsets[i] == 0
                &&& planned ==> plan == (Plan::LaunchReceiveUi { id })
            }
        }),
{
    protocol::lemma_manifest_fault(files@, total_bytes);
}

/// Answers, acknowledgements and the word that all arrived go to the sender of the
/// transfer that they are about, as they came, if it is at work and they come from
/// the peer that it sends to; they change nothing. From anyone else, or about
/// anything else, they are refused.
pub proof fn law_answers_reach_the_sender(
    m: ManagerState,
    peer: Seq<char>,
    id: u128,
    message: TransferMessage,
    destination: Option<Seq<u8>>,
    taken: Seq<bool>,
    plan: Plan,
)
    requires
        match message {
            TransferMessage::Response { id: named, .. } => named == id,
            TransferMessage::Ack { id: named, .. } => named == id,
            TransferMessage::Finished { id: named } => named == id,
            _ => false,
        },
    ensures
        ({
            let next = transfer::handled(m, peer, message, destination, taken);
            &&& next is Ok <==> m.jobs.dom().contains(id) && m.jobs[id].peer == peer
                && m.live.contains(id)
            &&& next is Ok ==> next->Ok_0 == m
            &&& transfer::is_plan(m, message, plan) ==> plan == (Plan::Signal { id, message })
            &&& !m.jobs.dom().contains(id) ==> next == Err::<ManagerState, TransferError>(
                TransferError::UnknownTransfer,
            )
            &&& m.jobs.dom().contains(id) && m.jobs[id].peer != peer ==> next == Err::<
                ManagerState,
                TransferError,
            >(TransferError::PeerMismatch)
            &&& m.jobs.dom().contains(id) && m.jobs[id].peer == peer && !m.live.contains(id)
                ==> next == Err::<ManagerState, TransferError>(TransferError::UnknownOutgoing)
        }),
{
}

/// Whether it is known of each of the first names that it is not taken.
pub open spec fn all_free(taken: Seq<bool>, names: nat) -> bool {
    names <= taken.len() && forall|i: int| 0 <= i < names ==> !(#[trigger] taken[i])
}

proof fn lemma_all_free(taken: Seq<bool>, names: nat)
    ensures
        transfer::first_taken(taken, names as int, 0) is None <==> all_free(taken, names),
        transfer::first_taken(taken, names as int, 0) matches Some(at) ==> 0 <= at < names
            && all_free(taken, at as nat) && !all_free(taken, (at + 1) as nat),
{
    transfer::lemma_first_taken(taken, names as int, 0);
    match transfer::first_taken(taken, names as int, 0) {
        None => {
            assert forall|i: int| 0 <= i < names implies i < taken.len() && !(#[trigger] taken[i]) by {
                assert(transfer::is_free(taken, i));
            }
            if names > taken.len() {
                assert(transfer::is_free(taken, names - 1));
            }
        },
        Some(at) => {
            assert forall|i: int| 0 <= i < at implies !(#[trigger] taken[i]) by {
                assert(transfer::is_free(taken, i));
            }
            if at > taken.len() {
                assert(transfer::is_free(taken, at - 1));
            }
            assert(!transfer::is_free(taken, at));
            if all_free(taken, (at + 1) as nat) {
                assert(!taken[at]);
            }
            if all_free(taken, names) {
                assert(!taken[at]);
            }
        },
    }
}

/// A transfer may be completed exactly if it is the peer's, all its bytes arrived,
/// it has its folders, and none of its names is taken in its destination.
pub proof fn law_completion_is_allowed(
    m: ManagerState,
    peer: Seq<char>,
    id: u128,
    destination: Option<Seq<u8>>,
    taken: Seq<bool>,
)
    ensures
        ({
            let next = transfer::handled(
                m,
                peer,
                TransferMessage::Complete { id },
                destination,
                taken,
            );
            &&& next is Ok <==> m.jobs.dom().contains(id) && m.jobs[id].peer == peer
                && m.jobs[id].transferred == m.jobs[id].total && m.jobs[id].kind is Incoming
                && m.jobs[id].kind->part_dir is Some && m.jobs[id].destination is Some && all_free(
                taken,
                m.jobs[id].files.len(),
            )
            &&& next is Ok ==> next->Ok_0 == m
        }),
{
    lemma_all_free(taken, m.jobs[id].files.len());
}

/// An offer may be accepted into a folder exactly if nobody answered it yet and none
/// of its names is taken there; else it is said which name is the first that is
/// taken.
pub proof fn law_accepting_is_allowed(m: ManagerState, id: u128, taken: Seq<bool>)
    requires
        m.jobs.dom().contains(id) ==> m.jobs[id].files.len() <= usize::MAX,
    ensures
        transfer::plan_fault(m, id, taken) is None <==> awaits_answer(m, id) && all_free(
            taken,
            m.jobs[id].files.len(),
        ),
        awaits_answer(m, id) && transfer::plan_fault(m, id, taken) is Some ==> (
        transfer::plan_fault(m, id, taken)->0 matches TransferError::DestinationTaken(at) && at
            < m.jobs[id].files.len() && all_free(taken, at as nat) && !all_free(
            taken,
            (at + 1) as nat,
        )),
{
    lemma_all_free(taken, m.jobs[id].files.len());
}

/// A peer that cancels a transfer of its own ends it, with its reason: the parts are
/// to be removed, and the sender, if one is at work, is told the reason. A reason of
/// more than 1024 bytes is refused, and so is a transfer of another peer; one that
/// is not known changes nothing.
pub proof fn law_peer_cancels_a_transfer(
    m: ManagerState,
    peer: Seq<char>,
    id: u128,
    reason: String,
    destination: Option<Seq<u8>>,
    taken: Seq<bool>,
    plan: Plan,
)
    ensures
        ({
            let cancel = TransferMessage::Cancel { id, reason };
            let next = transfer::handled(m, peer, cancel, destination, taken);
            let planned = transfer::is_plan(m, cancel, plan);
            let short = text::bytes_of(reason@).len() <= 1024;
            &&& !short ==> next == Err::<ManagerState, TransferError>(TransferError::ReasonTooLong)
            &&& short && m.jobs.dom().contains(id) && m.jobs[id].peer != peer ==> next == Err::<
                ManagerState,
                TransferError,
            >(TransferError::PeerMismatch)
            &&& short && !m.jobs.dom().contains(id) ==> next == Ok::<ManagerState, TransferError>(m)
            &&& short && m.jobs.dom().contains(id) && m.jobs[id].peer == peer ==> {
                let before = m.jobs[id];
                let now = next->Ok_0.jobs[id];
                &&& next is Ok
                &&& differ_at(m, next->Ok_0, id)
                &&& next->Ok_0.jobs.dom().contains(id)
                &&& now.state == TransferState::Cancelled
                &&& now.error == Some(reason@)
                &&& now.transferred == before.transferred
                &&& before.kind is Incoming ==> now.kind->part_dir is None && now.kind->offsets
                    == before.kind->offsets
            }
            &&& planned ==> (plan matches Plan::End { id: named, remove, signal } && named == id
                && (remove is Some <==> m.jobs.dom().contains(id) && m.jobs[id].kind is Incoming
                && m.jobs[id].kind->part_dir is Some) && (remove matches Some(folder) ==> Some(
                folder@,
            ) == m.jobs[id].kind->part_dir) && (signal is Some <==> m.live.contains(id)) && (
            signal matches Some(told) ==> (told matches TransferMessage::Cancel {
                id: about,
                reason: why,
            } && about == id && why@ == reason@)))
        }),
{
}

/// A sender that gives up is at work no longer. The transfer that it was about, if it
/// was not over, has failed for that reason, and its other end is told the reason;
/// one that was over stays as it was, and nobody is told.
pub proof fn law_failing_tells_the_reason(
    m: ManagerState,
    id: u128,
    error: Seq<char>,
    after: ManagerState,
    ending: Option<(Outbound, Option<Vec<u8>>)>,
)
    requires
        transfer::gives_up(m, id, error, after, ending),
    ensures
        !after.live.contains(id),
        forall|other: u128| other != id ==> (#[trigger] after.live.contains(other) <==> m.live.contains(other)),
        differ_at(ManagerState { live: after.live, ..m }, after, id),
        ending is Some <==> m.jobs.dom().contains(id) && !is_over(m.jobs[id].state),
        ending is None ==> after.jobs == m.jobs,
        ending is Some ==> {
            let before = m.jobs[id];
            let now = after.jobs[id];
            let end = ending->0;
            &&& after.jobs.dom().contains(id)
            &&& now.state == TransferState::Failed
            &&& now.error == Some(error)
            &&& now.transferred == before.transferred
            &&& now.destination == before.destination
            &&& now.peer == before.peer
            &&& before.kind is Incoming ==> now.kind->part_dir is None
            &&& end.0.peer@ == before.peer
            &&& end.0.message matches TransferMessage::Cancel { id: named, reason } && named == id
                && reason@ == error
            &&& end.1 is Some <==> before.kind is Incoming && before.kind->part_dir is Some
            &&& end.1 is Some ==> Some((end.1->0)@) == before.kind->part_dir
        },
{
}

/// The state and the progress of a transfer are noted down only where this device
/// sends it: the state as it is, the progress on top of what there was. Nothing else
/// changes.
pub proof fn law_sending_is_noted_down(
    m: ManagerState,
    id: u128,
    state: TransferState,
    marked: ManagerState,
    mark: Result<(), TransferError>,
    bytes: u64,
    counted: ManagerState,
    count: Result<(), TransferError>,
)
    requires
        transfer::marks(m, id, state, marked, mark),
        transfer::counts(m, id, bytes, counted, count),
    ensures
        ({
            let sends = m.jobs.dom().contains(id) && m.jobs[id].kind is Outgoing;
            let room = m.jobs[id].transferred + bytes <= u64::MAX;
            &&& mark is Ok <==> sends
            &&& count is Ok <==> sends && room
            &&& mark is Err ==> marked == m
            &&& count is Err ==> counted == m
            &&& sends ==> marked.jobs[id] == (JobState { state, ..m.jobs[id] })
            &&& sends && room ==> counted.jobs[id].transferred == m.jobs[id].transferred + bytes
                && counted.jobs[id] == (JobState {
                transferred: counted.jobs[id].transferred,
                ..m.jobs[id]
            })
            &&& differ_at(m, marked, id)
            &&& differ_at(m, counted, id)
            &&& !m.jobs.dom().contains(id) ==> mark == Err::<(), TransferError>(
                TransferError::UnknownTransfer,
            ) && count == Err::<(), TransferError>(TransferError::UnknownTransfer)
            &&& m.jobs.dom().contains(id) && !sends ==> mark == Err::<(), TransferError>(
                TransferError::InvalidDirection,
            ) && count == Err::<(), TransferError>(TransferError::InvalidDirection)
            &&& sends && !room ==> count == Err::<(), TransferError>(
                TransferError::ProgressOverflow,
            )
        }),
{
}

/// What is offered to a peer is what the peer is asked about: the offer that is
/// handed out makes the same files wait there, from this device, under the same
/// identifier. Here the transfer waits too, with its sender at work.
pub proof fn law_offer_arrives_as_it_was_made(
    m: ManagerState,
    peer: Seq<char>,
    files: Seq<FileManifest>,
    total: u64,
    paths: Seq<Seq<u8>>,
    after: ManagerState,
    result: Result<(u128, Outbound), TransferError>,
    there: ManagerState,
    here: Seq<char>,
    destination: Option<Seq<u8>>,
    taken: Seq<bool>,
)
    requires
        transfer::offers(m, peer, files, total, paths, after, result),
    ensures
        result is Ok <==> protocol::is_manifest(files, total),
        result is Err ==> after == m,
        result matches Ok((id, offer)) ==> {
            let job = after.jobs[id];
            &&& after.live == m.live.insert(id)
            &&& differ_at(ManagerState { live: after.live, ..m }, after, id)
            &&& after.jobs.dom().contains(id)
            &&& job.direction == Direction::Send
            &&& job.state == TransferState::Waiting
            &&& job.peer == peer
            &&& job.files == files
            &&& job.total == total
            &&& job.transferred == 0
            &&& job.destination is None
            &&& job.error is None
            &&& job.kind == (KindState::Outgoing { paths })
            &&& offer.peer@ == peer
            &&& !there.jobs.dom().contains(id) ==> {
                let next = transfer::handled(there, here, offer.message, destination, taken);
                &&& next is Ok
                &&& awaits_answer(next->Ok_0, id)
                &&& next->Ok_0.jobs[id].files == files
                &&& next->Ok_0.jobs[id].total == total
                &&& next->Ok_0.jobs[id].peer == here
            }
        },
{
    protocol::lemma_manifest_fault(files, total);
}

/// Accepting an offer makes the other end send: what is handed out reaches the
/// sender there, which then reads the first file from its beginning. Rejecting it
/// makes that sender stop.
pub proof fn law_answer_makes_the_sender_start_or_stop(
    m: ManagerState,
    id: u128,
    folder: Seq<u8>,
    parts: Seq<u8>,
    after: ManagerState,
    yes: Result<Outbound, TransferError>,
    declined: ManagerState,
    no: Result<Outbound, TransferError>,
    sending: Sender,
    started: Sender,
    start: Answer,
    stopped: Sender,
    stop: Answer,
)
    requires
        awaits_answer(m, id),
        transfer::accepts(m, id, folder, parts, after, yes),
        transfer::rejects(m, id, declined, no),
        sending.phase is Offered,
        sending.id == id,
        sending.files > 0,
        yes is Ok ==> sender::answers(sending, Some(yes->Ok_0.message), started, start),
        no is Ok ==> sender::answers(sending, Some(no->Ok_0.message), stopped, stop),
    ensures
        start.next == (Next::Read { file_index: 0 }),
        started.phase == (Phase::Reading { file_index: 0, offset: 0 }),
        start.state == Some(TransferState::Transferring),
        stop.next is Stop,
        stopped.phase is Over,
        stop.state == Some(TransferState::Rejected),
{
}

/// A file is listed for an offer exactly if it is a regular file whose name is text
/// and the sizes do not grow beyond what can be counted: it is listed last, with its
/// size, and its size is added to the total. Else nothing is listed.
pub proof fn law_listed_files_add_up(
    before: Inspection,
    path: Seq<u8>,
    regular: bool,
    size: u64,
    after: Inspection,
    result: Result<(), InspectError>,
)
    requires
        transfer::lists(before, path, regular, size, after, result),
    ensures
        result is Ok ==> regular && before.total + size <= u64::MAX,
        !regular ==> result == Err::<(), InspectError>(InspectError::NotRegular),
        result is Err ==> after == before,
        result is Ok ==> {
            &&& after.total == before.total + size
            &&& after.files@.len() == before.files@.len() + 1
            &&& after.files@.last().size == size
            &&& forall|i: int|
                0 <= i < before.files@.len() ==> #[trigger] after.files@[i] == before.files@[i]
        },
        result is Ok && before.total == protocol::sum(protocol::sizes(before.files@))
            ==> after.total == protocol::sum(protocol::sizes(after.files@)),
{
    if result is Ok {
        assert forall|i: int| 0 <= i < before.files@.len() implies #[trigger] after.files@[i]
            == before.files@[i] by {
            assert(after.files@.drop_last()[i] == after.files@[i]);
        }
        let sizes = protocol::sizes(after.files@);
        assert(sizes.drop_last() =~= protocol::sizes(before.files@));
    }
}

/// The text of an identifier is its 32 lowercase hexadecimal digits, with a dash behind the
/// eighth, the twelfth, the sixteenth and the twentieth: two identifiers have different
/// texts.
pub proof fn law_identifiers_have_their_own_text(a: u128, b: u128)
    ensures
        transfer::id_text(a).len() == 36,
        transfer::id_text(a)[8] == '-',
        transfer::id_text(a)[13] == '-',
        transfer::id_text(a)[18] == '-',
        transfer::id_text(a)[23] == '-',
        transfer::id_text(a) == transfer::id_text(b) ==> a == b,
{
    let x = foreign::hex_text(bytes::be(a as nat, 16));
    let y = foreign::hex_text(bytes::be(b as nat, 16));
    bytes::lemma_be_len(a as nat, 16);
    bytes::lemma_be_len(b as nat, 16);
    assert(x.len() == 32 && y.len() == 32);
    let s = transfer::id_text(a);
    let t = transfer::id_text(b);
    if s == t {
        assert forall|i: int| 0 <= i < 32 implies x[i] == y[i] by {
            let at = if i < 8 {
                i
            } else if i < 12 {
                i + 1
            } else if i < 16 {
                i + 2
            } else if i < 20 {
                i + 3
            } else {
                i + 4
            };
            assert(s[at] == x[i]);
            assert(t[at] == y[i]);
        }
        assert(x =~= y);
        config::lemma_hex_round_trip(bytes::be(a as nat, 16));
        config::lemma_hex_round_trip(bytes::be(b as nat, 16));
        reveal_with_fuel(bytes::span, 17);
        assert(bytes::span(16) == 0x1_0000_0000_0000_0000 * 0x1_0000_0000_0000_0000);
        bytes::lemma_be_round_trip(a as nat, 16);
        bytes::lemma_be_round_trip(b as nat, 16);
    }
}

/// The folder of the parts of a transfer is hidden, and each transfer has its own; so has
/// each of its files a part of its own there.
pub proof fn law_parts_have_their_own_place(
    a: u128,
    b: u128,
    file: Seq<char>,
    other: Seq<char>,
)
    ensures
        transfer::part_dir_text(a).len() == 50,
        transfer::part_dir_text(a)[0] == '.',
        transfer::part_dir_text(a).skip(45) == ".part"@,
        a != b ==> transfer::part_dir_text(a) != transfer::part_dir_text(b),
        file != other ==> transfer::part_of(file) != transfer::part_of(other),
        transfer::part_of(file) != file,
        transfer::part_of(file).skip(file.len() as int) == ".part"@,
{
    reveal_strlit(".lan-cat-");
    reveal_strlit(".part");
    law_identifiers_have_their_own_text(a, b);
    law_identifiers_have_their_own_text(b, a);
    let x = transfer::part_dir_text(a);
    let y = transfer::part_dir_text(b);
    assert(x.subrange(9, 45) =~= transfer::id_text(a));
    assert(y.subrange(9, 45) =~= transfer::id_text(b));
    assert(x.skip(45) =~= ".part"@);
    let p = transfer::part_of(file);
    let q = transfer::part_of(other);
    assert(p.skip(file.len() as int) =~= ".part"@);
    if p == q {
        assert(p.take(p.len() - 5) =~= file);
        assert(q.take(q.len() - 5) =~= other);
    }
}

/// The sender of a transfer is told the peer and the paths with which the files were
/// offered; nobody is told of a transfer that this device receives.
pub proof fn law_sender_gets_what_was_offered(
    m: ManagerState,
    peer: Seq<char>,
    files: Seq<FileManifest>,
    total: u64,
    paths: Seq<Seq<u8>>,
    after: ManagerState,
    offer: Result<(u128, Outbound), TransferError>,
    result: Result<(String, Vec<Vec<u8>>), TransferError>,
    id: u128,
)
    requires
        transfer::offers(m, peer, files, total, paths, after, offer),
        offer is Ok,
        transfer::sends(after, offer->Ok_0.0, result),
    ensures
        result is Ok,
        result->Ok_0.0@ == peer,
        result->Ok_0.1@.len() == paths.len(),
        forall|i: int| 0 <= i < paths.len() ==> (#[trigger] result->Ok_0.1@[i])@ == paths[i],
{
    let told = result->Ok_0.1@;
    assert(transfer::paths_of(told) == paths);
    assert forall|i: int| 0 <= i < paths.len() implies (#[trigger] told[i])@ == paths[i] by {
        assert(transfer::paths_of(told)[i] == told[i]@);
    }
}

/// Accepting an offer asks for a folder for the parts, named after the transfer, and for the
/// names of all files to be free, in the order of the offer.
pub proof fn law_accepting_asks_for_names_and_a_folder(
    m: ManagerState,
    id: u128,
    taken: Seq<bool>,
    result: Result<transfer::AcceptPlan, TransferError>,
)
    requires
        transfer::plans(m, id, taken, result),
    ensures
        result is Ok <==> awaits_answer(m, id) && all_free(taken, m.jobs[id].files.len()),
        result is Ok ==> result->Ok_0.part_dir_name@ == ".lan-cat-"@ + transfer::id_text(id)
            + ".part"@ && result->Ok_0.names@.len() == m.jobs[id].files.len() && forall|i: int|
            0 <= i < m.jobs[id].files.len() ==> (#[trigger] result->Ok_0.names@[i])@
                == m.jobs[id].files[i].name@,
{
    lemma_all_free(taken, m.jobs[id].files.len());
    if result is Ok {
        let names = result->Ok_0.names@;
        assert(transfer::texts_of(names).len() == names.len());
        assert forall|i: int| 0 <= i < m.jobs[id].files.len() implies (#[trigger] names[i])@
            == m.jobs[id].files[i].name@ by {
            assert(transfer::texts_of(names)[i] == names[i]@);
            assert(transfer::names_of(m.jobs[id].files)[i] == m.jobs[id].files[i].name@);
        }
    }
}

/// What is to be seen of a transfer is what is known of it.
pub proof fn law_transfers_are_shown_as_they_are(
    m: ManagerState,
    id: u128,
    view: Option<transfer::TransferView>,
)
    requires
        transfer::shows(m, id, view),
    ensures
        view is Some <==> m.jobs.dom().contains(id),
        view matches Some(seen) ==> {
            let job = m.jobs[id];
            &&& seen.id == id
            &&& seen.direction == job.direction
            &&& seen.peer@ == job.peer
            &&& seen.files@ == job.files
            &&& seen.total_bytes == job.total
            &&& seen.transferred_bytes == job.transferred
            &&& seen.state == job.state
            &&& seen.destination is Some <==> job.destination is Some
            &&& seen.destination is Some ==> Some((seen.destination->0)@) == job.destination
            &&& seen.error is Some <==> job.error is Some
            &&& seen.error is Some ==> Some((seen.error->0)@) == job.error
        },
{
}

} // verus!
