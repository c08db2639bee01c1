//! File transfer: one device offers files, another accepts them and receives
//! them chunk by chunk.

use vstd::prelude::*;
use vstd::utf8::*;

use crate::bytes;
use crate::foreign;
use crate::idmap::IdMap;
use crate::path;
use crate::text;
use crate::transfer::protocol::{
    FileManifest, ManifestError, TransferMessage, CHUNK_BYTES, MAX_REASON_BYTES,
};

pub mod laws;
pub mod protocol;
pub mod sender;

verus! {

/// A message for a peer.
#[derive(Debug, PartialEq, Eq)]
pub struct Outbound {
    pub peer: String,
    pub message: TransferMessage,
}

/// Which way the files go.
#[derive(Clone, Copy, Debug, PartialEq, Eq, Structural)]
pub enum Direction {
    Send,
    Receive,
}

/// How far a transfer is.
#[derive(Clone, Copy, Debug, PartialEq, Eq, Structural)]
pub enum TransferState {
    Waiting,
    Transferring,
    Completed,
    Rejected,
    Cancelled,
    Failed,
}

/// What is to be seen of a transfer. Paths are byte strings.
#[derive(Debug, PartialEq, Eq)]
pub struct TransferView {
    pub id: u128,
    pub direction: Direction,
    pub peer: String,
    pub files: Vec<FileManifest>,
    pub total_bytes: u64,
    pub transferred_bytes: u64,
    pub state: TransferState,
    pub destination: Option<Vec<u8>>,
    pub error: Option<String>,
}

/// What only one of the two ends keeps.
pub enum JobKind {
    Outgoing { paths: Vec<Vec<u8>> },
    Incoming { part_dir: Option<Vec<u8>>, offsets: Vec<u64> },
}

/// A transfer.
pub struct Job {
    pub view: TransferView,
    pub kind: JobKind,
}

/// What only one of the two ends knows.
#[verifier::ext_equal]
pub enum KindState {
    Outgoing { paths: Seq<Seq<u8>> },
    Incoming { part_dir: Option<Seq<u8>>, offsets: Seq<u64> },
}

/// What is known of a transfer.
#[verifier::ext_equal]
pub struct JobState {
    pub direction: Direction,
    pub peer: Seq<char>,
    pub files: Seq<FileManifest>,
    pub total: u64,
    pub transferred: u64,
    pub state: TransferState,
    pub destination: Option<Seq<u8>>,
    pub error: Option<Seq<char>>,
    pub kind: KindState,
}

/// All transfers, and those that have a sender at work.
#[verifier::ext_equal]
pub struct ManagerState {
    pub jobs: Map<u128, JobState>,
    pub live: Set<u128>,
}

/// Why something is refused.
#[derive(Clone, Copy, Debug, PartialEq, Eq, Structural)]
pub enum TransferError {
    Manifest(ManifestError),
    UnknownTransfer,
    NotAwaitingAcceptance,
    NotAwaitingRejection,
    PeerMismatch,
    UnknownOutgoing,
    ChunkTooLarge,
    UnexpectedChunk,
    ChunkForOutgoing,
    InvalidFileIndex,
    OffsetOverflow,
    InvalidOffset,
    NotAccepted,
    Incomplete,
    CompletionForOutgoing,
    MissingDestination,
    ReasonTooLong,
    ProgressOverflow,
    InvalidDirection,
    /// The destination already holds a file of the name at this place in the list.
    DestinationTaken(usize),
}

/// What accepting a transfer asks for: none of the names may exist in the
/// destination; the folder is to be made there, with the parts in it.
#[derive(Debug, PartialEq, Eq)]
pub struct AcceptPlan {
    pub names: Vec<String>,
    pub part_dir_name: String,
}

/// What a message asks for.
#[derive(Debug, PartialEq, Eq)]
pub enum Plan {
    /// Nothing.
    Nothing,
    /// Someone is to be asked about the offer.
    LaunchReceiveUi { id: u128 },
    /// The sender of the transfer is to be told.
    Signal { id: u128, message: TransferMessage },
    /// The data is to be written to the part of a file.
    Write { id: u128, file_index: u32, part_dir: Vec<u8>, name: String, offset: u64, data: Vec<u8> },
    /// The parts of all files are to be moved to the destination.
    Finish { id: u128, part_dir: Vec<u8>, destination: Vec<u8>, names: Vec<String> },
    /// The parts, if there are any, are to be removed, and the sender, if there
    /// is one, is to be told.
    End { id: u128, remove: Option<Vec<u8>>, signal: Option<TransferMessage> },
}

/// What ending a transfer from this side asks for.
#[derive(Debug, PartialEq, Eq)]
pub struct Ending {
    pub outbound: Outbound,
    pub remove: Option<Vec<u8>>,
    /// Whether there is a sender to be told.
    pub signal: bool,
}

/// The bytes of a path, if there is one.
pub open spec fn path_of(path: Option<Vec<u8>>) -> Option<Seq<u8>> {
    match path {
        Some(path) => Some(path@),
        None => None,
    }
}

/// The characters of a text, if there is one.
pub open spec fn words_of(words: Option<String>) -> Option<Seq<char>> {
    match words {
        Some(words) => Some(words@),
        None => None,
    }
}

/// The names of a list of files.
pub open spec fn names_of(files: Seq<FileManifest>) -> Seq<Seq<char>> {
    files.map_values(|file: FileManifest| file.name@)
}

/// The texts of a list of strings.
pub open spec fn texts_of(texts: Seq<String>) -> Seq<Seq<char>> {
    texts.map_values(|text: String| text@)
}

/// The paths of a list of paths.
pub open spec fn paths_of(paths: Seq<Vec<u8>>) -> Seq<Seq<u8>> {
    paths.map_values(|path: Vec<u8>| path@)
}

impl JobKind {
    pub open spec fn seen(self) -> KindState {
        match self {
            JobKind::Outgoing { paths } => KindState::Outgoing { paths: paths_of(paths@) },
            JobKind::Incoming { part_dir, offsets } => KindState::Incoming {
                part_dir: path_of(part_dir),
                offsets: offsets@,
            },
        }
    }
}

impl TransferView {
    /// What is known of a transfer that is seen so.
    pub open spec fn with_kind(self, kind: KindState) -> JobState {
        JobState {
            direction: self.direction,
            peer: self.peer@,
            files: self.files@,
            total: self.total_bytes,
            transferred: self.transferred_bytes,
            state: self.state,
            destination: path_of(self.destination),
            error: words_of(self.error),
            kind,
        }
    }
}

impl Job {
    pub open spec fn seen(self) -> JobState {
        self.view.with_kind(self.kind.seen())
    }
}

/// What always holds of a transfer. Of one that is received: as many bytes are
/// counted as were received of all files together, of no file more than its
/// size; while it is on, there is a folder for the parts; it is complete only
/// if every file is.
pub open spec fn sound_job(job: JobState) -> bool {
    match job.kind {
        KindState::Outgoing { paths } => job.direction == Direction::Send,
        KindState::Incoming { part_dir, offsets } => {
            &&& job.direction == Direction::Receive
            &&& protocol::is_manifest(job.files, job.total)
            &&& offsets.len() == job.files.len()
            &&& forall|i: int|
                0 <= i < offsets.len() ==> #[trigger] offsets[i] <= job.files[i].size
            &&& job.transferred == protocol::sum(offsets)
            &&& job.state == TransferState::Transferring ==> part_dir is Some
                && job.destination is Some
            &&& job.state == TransferState::Completed ==> offsets == protocol::sizes(job.files)
            &&& part_dir is Some ==> job.state == TransferState::Transferring
        },
    }
}

/// What always holds of all transfers.
pub open spec fn sound(m: ManagerState) -> bool {
    sound_jobs(m.jobs)
}

/// What always holds of all transfers.
pub open spec fn sound_jobs(jobs: Map<u128, JobState>) -> bool {
    forall|id: u128| #[trigger] jobs.dom().contains(id) ==> sound_job(jobs[id])
}

/// Whether a transfer has ended in a way that stands.
pub open spec fn settled(state: TransferState) -> bool {
    state == TransferState::Completed || state == TransferState::Rejected || state
        == TransferState::Cancelled
}

/// A transfer that was just offered to this device.
pub open spec fn offered(
    peer: Seq<char>,
    files: Seq<FileManifest>,
    total: u64,
    destination: Option<Seq<u8>>,
) -> JobState {
    JobState {
        direction: Direction::Receive,
        peer,
        files,
        total,
        transferred: 0,
        state: TransferState::Waiting,
        destination,
        error: None,
        kind: KindState::Incoming { part_dir: None, offsets: protocol::zeros(files.len()) },
    }
}

/// A transfer that this device just offered.
pub open spec fn offering(
    peer: Seq<char>,
    files: Seq<FileManifest>,
    total: u64,
    paths: Seq<Seq<u8>>,
) -> JobState {
    JobState {
        direction: Direction::Send,
        peer,
        files,
        total,
        transferred: 0,
        state: TransferState::Waiting,
        destination: None,
        error: None,
        kind: KindState::Outgoing { paths },
    }
}

/// A transfer without its folder of parts.
pub open spec fn swept(job: JobState) -> JobState {
    match job.kind {
        KindState::Outgoing { paths } => job,
        KindState::Incoming { part_dir, offsets } => JobState {
            kind: KindState::Incoming { part_dir: None, offsets },
            ..job
        },
    }
}

/// The folder of the parts of a transfer, if it has one.
pub open spec fn parts(job: JobState) -> Option<Seq<u8>> {
    match job.kind {
        KindState::Outgoing { paths } => None,
        KindState::Incoming { part_dir, offsets } => part_dir,
    }
}

/// What speaks against passing a message of a peer to the sender of a transfer.
pub open spec fn signal_fault(m: ManagerState, id: u128, peer: Seq<char>) -> Option<
    TransferError,
> {
    if !m.jobs.dom().contains(id) {
        Some(TransferError::UnknownTransfer)
    } else if m.jobs[id].peer != peer {
        Some(TransferError::PeerMismatch)
    } else if !m.live.contains(id) {
        Some(TransferError::UnknownOutgoing)
    } else {
        None
    }
}

/// What is wrong with a chunk, if anything is.
pub open spec fn chunk_fault(
    m: ManagerState,
    peer: Seq<char>,
    id: u128,
    file_index: u32,
    offset: u64,
    len: int,
) -> Option<TransferError> {
    if len > CHUNK_BYTES {
        Some(TransferError::ChunkTooLarge)
    } else if !m.jobs.dom().contains(id) {
        Some(TransferError::UnknownTransfer)
    } else {
        let job = m.jobs[id];
        if job.peer != peer || job.state != TransferState::Transferring {
            Some(TransferError::UnexpectedChunk)
        } else {
            match job.kind {
                KindState::Outgoing { paths } => Some(TransferError::ChunkForOutgoing),
                KindState::Incoming { part_dir, offsets } => if file_index >= job.files.len() {
                    Some(TransferError::InvalidFileIndex)
                } else if offset + len > u64::MAX {
                    Some(TransferError::OffsetOverflow)
                } else if offsets[file_index as int] != offset || offset + len
                    > job.files[file_index as int].size {
                    Some(TransferError::InvalidOffset)
                } else if part_dir is None {
                    Some(TransferError::NotAccepted)
                } else {
                    None
                },
            }
        }
    }
}

/// A transfer once a chunk was written.
pub open spec fn grown(job: JobState, file_index: u32, len: int) -> JobState {
    match job.kind {
        KindState::Outgoing { paths } => job,
        KindState::Incoming { part_dir, offsets } => JobState {
            transferred: (job.transferred + len) as u64,
            kind: KindState::Incoming {
                part_dir,
                offsets: offsets.update(
                    file_index as int,
                    (offsets[file_index as int] + len) as u64,
                ),
            },
            ..job
        },
    }
}

/// Whether a name is known to be free in the destination. `taken` says of each name
/// in the list whether it is taken there; a name that it says nothing of is not
/// known to be free.
pub open spec fn is_free(taken: Seq<bool>, i: int) -> bool {
    i < taken.len() && !taken[i]
}

/// The first of some names that is not known to be free, if there is one.
pub open spec fn first_taken(taken: Seq<bool>, names: int, from: int) -> Option<int>
    decreases names - from,
{
    if from >= names {
        None
    } else if !is_free(taken, from) {
        Some(from)
    } else {
        first_taken(taken, names, from + 1)
    }
}

/// What speaks against putting files where some names are taken, if anything does.
pub open spec fn taken_fault(taken: Seq<bool>, names: int) -> Option<TransferError> {
    match first_taken(taken, names, 0) {
        Some(i) => Some(TransferError::DestinationTaken(i as usize)),
        None => None,
    }
}

/// Files are put where every name is known to be free, and only there.
pub proof fn lemma_first_taken(taken: Seq<bool>, names: int, from: int)
    ensures
        first_taken(taken, names, from) is None <==> (forall|i: int|
            from <= i < names ==> #[trigger] is_free(taken, i)),
        first_taken(taken, names, from) matches Some(i) ==> from <= i < names && !is_free(taken, i)
            && forall|j: int| from <= j < i ==> #[trigger] is_free(taken, j),
    decreases names - from,
{
    if from < names && is_free(taken, from) {
        lemma_first_taken(taken, names, from + 1);
    }
}

/// What speaks against completing a transfer, if anything does. `taken` says which
/// of its names are taken in the destination.
pub open spec fn complete_fault(
    m: ManagerState,
    peer: Seq<char>,
    id: u128,
    taken: Seq<bool>,
) -> Option<TransferError> {
    if finish_fault(m, peer, id) is Some {
        finish_fault(m, peer, id)
    } else {
        taken_fault(taken, m.jobs[id].files.len() as int)
    }
}

/// What speaks against a transfer being complete, if anything does.
pub open spec fn finish_fault(m: ManagerState, peer: Seq<char>, id: u128) -> Option<
    TransferError,
> {
    if !m.jobs.dom().contains(id) {
        Some(TransferError::UnknownTransfer)
    } else {
        let job = m.jobs[id];
        if job.peer != peer || job.transferred != job.total {
            Some(TransferError::Incomplete)
        } else {
            match job.kind {
                KindState::Outgoing { paths } => Some(TransferError::CompletionForOutgoing),
                KindState::Incoming { part_dir, offsets } => if part_dir is None {
                    Some(TransferError::NotAccepted)
                } else if job.destination is None {
                    Some(TransferError::MissingDestination)
                } else {
                    None
                },
            }
        }
    }
}

/// A transfer once its files are in the destination.
pub open spec fn completed(job: JobState) -> JobState {
    JobState { state: TransferState::Completed, ..swept(job) }
}

/// A transfer that a peer ended.
pub open spec fn ended(job: JobState, reason: Seq<char>) -> JobState {
    JobState { state: TransferState::Cancelled, error: Some(reason), ..swept(job) }
}

/// All transfers once one of them is changed.
pub open spec fn put(m: ManagerState, id: u128, job: JobState) -> ManagerState {
    ManagerState { jobs: m.jobs.insert(id, job), ..m }
}

/// What a message of a peer does to the transfers, or why it is refused. What
/// it asks for beyond that is in the plan.
pub open spec fn handled(
    m: ManagerState,
    peer: Seq<char>,
    message: TransferMessage,
    destination: Option<Seq<u8>>,
    taken: Seq<bool>,
) -> Result<ManagerState, TransferError> {
    match message {
        TransferMessage::Offer { id, files, total_bytes } => match protocol::manifest_fault(
            files@,
            total_bytes,
        ) {
            Some(error) => Err(TransferError::Manifest(error)),
            None => if m.jobs.dom().contains(id) {
                Ok(m)
            } else {
                Ok(put(m, id, offered(peer, files@, total_bytes, destination)))
            },
        },
        TransferMessage::Response { id, accepted } => match signal_fault(m, id, peer) {
            Some(error) => Err(error),
            None => Ok(m),
        },
        TransferMessage::Ack { id, file_index, next_offset } => match signal_fault(m, id, peer) {
            Some(error) => Err(error),
            None => Ok(m),
        },
        TransferMessage::Finished { id } => match signal_fault(m, id, peer) {
            Some(error) => Err(error),
            None => Ok(m),
        },
        TransferMessage::Chunk { id, file_index, offset, data } => match chunk_fault(
            m,
            peer,
            id,
            file_index,
            offset,
            data@.len() as int,
        ) {
            Some(error) => Err(error),
            None => Ok(m),
        },
        TransferMessage::Complete { id } => match complete_fault(m, peer, id, taken) {
            Some(error) => Err(error),
            None => Ok(m),
        },
        TransferMessage::Cancel { id, reason } => if text::bytes_of(reason@).len()
            > MAX_REASON_BYTES {
            Err(TransferError::ReasonTooLong)
        } else if !m.jobs.dom().contains(id) {
            Ok(m)
        } else if m.jobs[id].peer != peer {
            Err(TransferError::PeerMismatch)
        } else {
            Ok(put(m, id, ended(m.jobs[id], reason@)))
        },
    }
}

/// Whether a plan is what a message that is not refused asks for.
pub open spec fn is_plan(m: ManagerState, message: TransferMessage, plan: Plan) -> bool {
    match message {
        TransferMessage::Offer { id, files, total_bytes } => if m.jobs.dom().contains(id) {
            plan is Nothing
        } else {
            plan == (Plan::LaunchReceiveUi { id })
        },
        TransferMessage::Response { id, accepted } => plan == (Plan::Signal { id, message }),
        TransferMessage::Ack { id, file_index, next_offset } => plan == (Plan::Signal {
            id,
            message,
        }),
        TransferMessage::Finished { id } => plan == (Plan::Signal { id, message }),
        TransferMessage::Chunk { id, file_index, offset, data } => plan matches Plan::Write {
            id: target,
            file_index: index,
            part_dir,
            name,
            offset: from,
            data: bytes,
        } && target == id && index == file_index && Some(part_dir@) == parts(m.jobs[id]) && name@
            == m.jobs[id].files[file_index as int].name@ && from == offset && bytes == data,
        TransferMessage::Complete { id } => plan matches Plan::Finish {
            id: target,
            part_dir,
            destination,
            names,
        } && target == id && Some(part_dir@) == parts(m.jobs[id]) && Some(destination@)
            == m.jobs[id].destination && texts_of(names@) == names_of(m.jobs[id].files),
        TransferMessage::Cancel { id, reason } => plan matches Plan::End {
            id: target,
            remove,
            signal,
        } && target == id && path_of(remove) == (if m.jobs.dom().contains(id) {
            parts(m.jobs[id])
        } else {
            None
        }) && (match signal {
            Some(TransferMessage::Cancel { id: told, reason: why }) => m.live.contains(id) && told
                == id && why@ == reason@,
            Some(_) => false,
            None => !m.live.contains(id),
        }),
    }
}

/// Whether files are offered to a peer: how the transfers are then, and what is
/// handed out.
pub open spec fn offers(
    m: ManagerState,
    peer: Seq<char>,
    files: Seq<FileManifest>,
    total: u64,
    paths: Seq<Seq<u8>>,
    after: ManagerState,
    result: Result<(u128, Outbound), TransferError>,
) -> bool {
    match protocol::manifest_fault(files, total) {
        Some(error) => {
            &&& result == Err::<(u128, Outbound), TransferError>(TransferError::Manifest(error))
            &&& after == m
        },
        None => {
            &&& result is Ok
            &&& after == (ManagerState {
                jobs: m.jobs.insert(result->Ok_0.0, offering(peer, files, total, paths)),
                live: m.live.insert(result->Ok_0.0),
            })
            &&& is_offer(result->Ok_0.1, peer, result->Ok_0.0, files, total)
        },
    }
}

/// Whether an offer is accepted: how the transfers are then, and what is handed
/// out.
pub open spec fn accepts(
    m: ManagerState,
    id: u128,
    destination: Seq<u8>,
    part_dir: Seq<u8>,
    after: ManagerState,
    result: Result<Outbound, TransferError>,
) -> bool {
    match accept_fault(m, id) {
        Some(error) => result == Err::<Outbound, TransferError>(error) && after == m,
        None => {
            &&& result matches Ok(out) && out.peer@ == m.jobs[id].peer && out.message == (
            TransferMessage::Response { id, accepted: true })
            &&& after == put(m, id, accepted(m.jobs[id], destination, part_dir))
        },
    }
}

/// Whether an offer is rejected: how the transfers are then, and what is handed
/// out.
pub open spec fn rejects(
    m: ManagerState,
    id: u128,
    after: ManagerState,
    result: Result<Outbound, TransferError>,
) -> bool {
    match reject_fault(m, id) {
        Some(error) => result == Err::<Outbound, TransferError>(error) && after == m,
        None => {
            &&& result matches Ok(out) && out.peer@ == m.jobs[id].peer && out.message == (
            TransferMessage::Response { id, accepted: false })
            &&& after == put(m, id, JobState { state: TransferState::Rejected, ..m.jobs[id] })
        },
    }
}

/// Whether a transfer is ended from this side: how the transfers are then, and what
/// is handed out.
pub open spec fn cancels(
    m: ManagerState,
    id: u128,
    after: ManagerState,
    result: Result<Option<Ending>, TransferError>,
) -> bool {
    if !m.jobs.dom().contains(id) {
        &&& result == Err::<Option<Ending>, TransferError>(TransferError::UnknownTransfer)
        &&& after == m
    } else if settled(m.jobs[id].state) {
        &&& result == Ok::<Option<Ending>, TransferError>(None)
        &&& after == m
    } else {
        &&& result matches Ok(Some(ending)) && ending.outbound.peer@ == m.jobs[id].peer && (
        ending.outbound.message matches TransferMessage::Cancel { id: named, reason } && named == id
            && reason@ == "cancelled by user"@) && path_of(ending.remove) == parts(m.jobs[id])
            && ending.signal == m.live.contains(id)
        &&& after == put(
            m,
            id,
            JobState { state: TransferState::Cancelled, ..swept(m.jobs[id]) },
        )
    }
}

/// Whether a chunk that was written is counted: how the transfers are then, and
/// what is handed out.
pub open spec fn writes(
    m: ManagerState,
    peer: Seq<char>,
    id: u128,
    file_index: u32,
    offset: u64,
    len: int,
    after: ManagerState,
    result: Result<Outbound, TransferError>,
) -> bool {
    match chunk_fault(m, peer, id, file_index, offset, len) {
        Some(error) => result == Err::<Outbound, TransferError>(error) && after == m,
        None => {
            &&& result matches Ok(out) && out.peer@ == peer && out.message == (
            TransferMessage::Ack { id, file_index, next_offset: (offset + len) as u64 })
            &&& after == put(m, id, grown(m.jobs[id], file_index, len))
        },
    }
}

/// Whether a transfer is complete: how the transfers are then, and what is handed
/// out.
pub open spec fn finishes(
    m: ManagerState,
    peer: Seq<char>,
    id: u128,
    after: ManagerState,
    result: Result<Outbound, TransferError>,
) -> bool {
    match finish_fault(m, peer, id) {
        Some(error) => result == Err::<Outbound, TransferError>(error) && after == m,
        None => {
            &&& result matches Ok(out) && out.peer@ == peer && out.message == (
            TransferMessage::Finished { id })
            &&& after == put(m, id, completed(m.jobs[id]))
        },
    }
}

/// Whether the state of a transfer that this device sends is noted down.
pub open spec fn marks(
    m: ManagerState,
    id: u128,
    state: TransferState,
    after: ManagerState,
    result: Result<(), TransferError>,
) -> bool {
    match outgoing_fault(m, id) {
        Some(error) => result == Err::<(), TransferError>(error) && after == m,
        None => {
            &&& result == Ok::<(), TransferError>(())
            &&& after == put(m, id, JobState { state, ..m.jobs[id] })
        },
    }
}

/// Whether more bytes of a transfer that this device sends are counted.
pub open spec fn counts(
    m: ManagerState,
    id: u128,
    bytes: u64,
    after: ManagerState,
    result: Result<(), TransferError>,
) -> bool {
    match outgoing_fault(m, id) {
        Some(error) => result == Err::<(), TransferError>(error) && after == m,
        None => if m.jobs[id].transferred + bytes > u64::MAX {
            &&& result == Err::<(), TransferError>(TransferError::ProgressOverflow)
            &&& after == m
        } else {
            &&& result == Ok::<(), TransferError>(())
            &&& after == put(
                m,
                id,
                JobState {
                    transferred: (m.jobs[id].transferred + bytes) as u64,
                    ..m.jobs[id]
                },
            )
        },
    }
}

/// Whether a transfer fails whose sender gave up: how the transfers are then, and
/// what is handed out.
pub open spec fn gives_up(
    m: ManagerState,
    id: u128,
    error: Seq<char>,
    after: ManagerState,
    ending: Option<(Outbound, Option<Vec<u8>>)>,
) -> bool {
    let live = m.live.remove(id);
    if m.jobs.dom().contains(id) && !settled(m.jobs[id].state) {
        &&& ending matches Some(end) && end.0.peer@ == m.jobs[id].peer && (
        end.0.message matches TransferMessage::Cancel { id: named, reason } && named == id && reason@
            == error) && path_of(end.1) == parts(m.jobs[id])
        &&& after == (ManagerState {
            jobs: m.jobs.insert(
                id,
                JobState {
                    state: TransferState::Failed,
                    error: Some(error),
                    ..swept(m.jobs[id])
                },
            ),
            live,
        })
    } else {
        ending is None && after == (ManagerState { live, ..m })
    }
}

/// Whether it is told to whom a transfer of this device goes, and where its files are.
pub open spec fn sends(
    m: ManagerState,
    id: u128,
    result: Result<(String, Vec<Vec<u8>>), TransferError>,
) -> bool {
    match outgoing_fault(m, id) {
        Some(error) => result == Err::<(String, Vec<Vec<u8>>), TransferError>(error),
        None => result matches Ok(found) && found.0@ == m.jobs[id].peer && m.jobs[id].kind == (
        KindState::Outgoing { paths: paths_of(found.1@) }),
    }
}

/// Whether it is told what accepting an offer asks for.
pub open spec fn plans(
    m: ManagerState,
    id: u128,
    taken: Seq<bool>,
    result: Result<AcceptPlan, TransferError>,
) -> bool {
    match plan_fault(m, id, taken) {
        Some(error) => result == Err::<AcceptPlan, TransferError>(error),
        None => result matches Ok(plan) && plan.part_dir_name@ == part_dir_text(id) && texts_of(
            plan.names@,
        ) == names_of(m.jobs[id].files),
    }
}

/// Whether it is shown what is to be seen of a transfer.
pub open spec fn shows(m: ManagerState, id: u128, view: Option<TransferView>) -> bool {
    match view {
        Some(view) => m.jobs.dom().contains(id) && view.id == id && view.with_kind(m.jobs[id].kind)
            == m.jobs[id],
        None => !m.jobs.dom().contains(id),
    }
}

/// The canonical text of an identifier: its 32 hexadecimal digits in groups of
/// eight, four, four, four and twelve.
pub open spec fn id_text(id: u128) -> Seq<char> {
    let digits = foreign::hex_text(bytes::be(id as nat, 16));
    digits.subrange(0, 8) + seq!['-'] + digits.subrange(8, 12) + seq!['-'] + digits.subrange(12, 16)
        + seq!['-'] + digits.subrange(16, 20) + seq!['-'] + digits.subrange(20, 32)
}

/// The name of the folder for the parts of a transfer.
pub open spec fn part_dir_text(id: u128) -> Seq<char> {
    ".lan-cat-"@ + id_text(id) + ".part"@
}

/// The name of the part of a file.
pub open spec fn part_of(file: Seq<char>) -> Seq<char> {
    file + ".part"@
}

/// The canonical text of an identifier.
pub fn id_to_text(id: u128) -> (name: String)
    ensures
        name@ == id_text(id),
{
    let raw = bytes::u128_bytes(id);
    let digits = text::chars_of(foreign::hex_encode(raw.as_slice()).as_str());
    let mut chars: Vec<char> = Vec::new();
    let mut i: usize = 0;
    while i < 32
        invariant
            i <= 32,
            digits@.len() == 32,
            chars@ == with_dashes(digits@, i as int),
        decreases 32 - i,
    {
        if i == 8 || i == 12 || i == 16 || i == 20 {
            chars.push('-');
        }
        chars.push(digits[i]);
        i = i + 1;
    }
    proof {
        reveal_with_fuel(with_dashes, 33);
        assert(chars@ =~= id_text(id));
    }
    text::text_of(chars.as_slice())
}

/// The first digits of an identifier, with dashes between the groups.
spec fn with_dashes(digits: Seq<char>, n: int) -> Seq<char>
    decreases n,
{
    if n <= 0 {
        Seq::empty()
    } else {
        let before = with_dashes(digits, n - 1);
        let dashed = if n == 9 || n == 13 || n == 17 || n == 21 {
            before.push('-')
        } else {
            before
        };
        dashed.push(digits[n - 1])
    }
}

/// The name of the folder for the parts of a transfer.
pub fn part_dir_name(id: u128) -> (name: String)
    ensures
        name@ == part_dir_text(id),
{
    let mut name = ".lan-cat-".to_owned();
    name.append(id_to_text(id).as_str());
    name.append(".part");
    name
}

/// The name of the part of a file.
pub fn part_name(file: &str) -> (name: String)
    ensures
        name@ == part_of(file@),
{
    let mut name = file.to_owned();
    name.append(".part");
    name
}

impl Clone for TransferView {
    fn clone(&self) -> (copy: Self)
        ensures
            copy.id == self.id,
            forall|kind: KindState| #[trigger] copy.with_kind(kind) == self.with_kind(kind),
    {
        let files = self.files.clone();
        proof {
            assert(files@ =~= self.files@);
        }
        let destination = clone_path(&self.destination);
        let error = match &self.error {
            Some(error) => Some(error.clone()),
            None => None,
        };
        let copy = TransferView {
            id: self.id,
            direction: self.direction,
            peer: self.peer.clone(),
            files,
            total_bytes: self.total_bytes,
            transferred_bytes: self.transferred_bytes,
            state: self.state,
            destination,
            error,
        };
        assert forall|kind: KindState| #[trigger] copy.with_kind(kind) == self.with_kind(kind) by {
            assert(copy.with_kind(kind) =~= self.with_kind(kind));
        }
        copy
    }
}

/// A copy of a path, if there is one.
fn clone_path(path: &Option<Vec<u8>>) -> (copy: Option<Vec<u8>>)
    ensures
        path_of(copy) == path_of(*path),
{
    match path {
        Some(path) => {
            let copy = path.clone();
            assert(copy@ =~= path@);
            Some(copy)
        },
        None => None,
    }
}

/// The names of a list of files.
fn file_names(files: &Vec<FileManifest>) -> (names: Vec<String>)
    ensures
        texts_of(names@) == names_of(files@),
{
    let mut names: Vec<String> = Vec::new();
    let mut i: usize = 0;
    while i < files.len()
        invariant
            i <= files.len(),
            names@.len() == i,
            forall|k: int| 0 <= k < i ==> (#[trigger] names@[k])@ == files@[k].name@,
        decreases files.len() - i,
    {
        names.push(files[i].name.clone());
        i = i + 1;
    }
    assert(texts_of(names@) =~= names_of(files@));
    names
}

/// All transfers of a device.
pub struct Manager {
    jobs: IdMap<Job>,
    live: IdMap<()>,
}

spec fn states(jobs: Map<u128, Job>) -> Map<u128, JobState> {
    jobs.map_values(|job: Job| job.seen())
}

impl Manager {
    /// What the device knows of its transfers.
    pub closed spec fn state(self) -> ManagerState {
        ManagerState { jobs: states(self.jobs@), live: self.live@.dom() }
    }

    #[verifier::type_invariant]
    spec fn well_formed(self) -> bool {
        &&& sound_jobs(states(self.jobs@))
        &&& forall|id: u128| #[trigger] self.jobs@.dom().contains(id) ==> self.jobs@[id].view.id == id
    }

    /// A device without transfers.
    pub fn new() -> (manager: Self)
        ensures
            manager.state() == (ManagerState { jobs: Map::empty(), live: Set::empty() }),
            sound(manager.state()),
    {
        let manager = Manager { jobs: IdMap::new(), live: IdMap::new() };
        assert(manager.state().jobs =~= Map::empty());
        assert(manager.state().live =~= Set::empty());
        manager
    }

    /// Takes a transfer out.
    fn take(&mut self, id: u128) -> (job: Option<Job>)
        ensures
            final(self).state() == (ManagerState { jobs: old(self).state().jobs.remove(id), ..old(self).state() }),
            match job {
                Some(job) => old(self).state().jobs.dom().contains(id) && job.seen()
                    == old(self).state().jobs[id] && job.view.id == id && sound_job(job.seen()),
                None => !old(self).state().jobs.dom().contains(id),
            },
            sound(old(self).state()),
    {
        proof {
            use_type_invariant(&*self);
        }
        let mut jobs: IdMap<Job> = IdMap::new();
        assert(states(jobs@) =~= Map::empty());
        std::mem::swap(&mut jobs, &mut self.jobs);
        let ghost before = jobs@;
        let job = jobs.remove(id);
        assert(states(jobs@) =~= states(before).remove(id));
        self.jobs = jobs;
        proof {
            if before.dom().contains(id) {
                assert(states(before).dom().contains(id));
            }
        }
        job
    }

    /// Puts a transfer in.
    fn put(&mut self, id: u128, job: Job)
        requires
            sound_job(job.seen()),
            job.view.id == id,
        ensures
            final(self).state() == put(old(self).state(), id, job.seen()),
            sound(final(self).state()),
    {
        proof {
            use_type_invariant(&*self);
        }
        let mut jobs: IdMap<Job> = IdMap::new();
        assert(states(jobs@) =~= Map::empty());
        std::mem::swap(&mut jobs, &mut self.jobs);
        let ghost before = jobs@;
        jobs.insert(id, job);
        assert(states(jobs@) =~= states(before).insert(id, job.seen()));
        self.jobs = jobs;
    }

    /// Notes that a transfer has a sender at work, or none any more.
    fn set_live(&mut self, id: u128, is_live: bool)
        ensures
            final(self).state().jobs == old(self).state().jobs,
            final(self).state().live == if is_live {
                old(self).state().live.insert(id)
            } else {
                old(self).state().live.remove(id)
            },
            sound(final(self).state()),
    {
        proof {
            use_type_invariant(&*self);
        }
        let mut live: IdMap<()> = IdMap::new();
        std::mem::swap(&mut live, &mut self.live);
        if is_live {
            live.insert(id, ());
        } else {
            let _ = live.remove(id);
        }
        self.live = live;
        assert(self.state().live =~= if is_live {
            old(self).state().live.insert(id)
        } else {
            old(self).state().live.remove(id)
        });
    }

    /// A transfer.
    fn job(&self, id: u128) -> (job: Option<&Job>)
        ensures
            match job {
                Some(job) => self.state().jobs.dom().contains(id) && job.seen() == self.state().jobs[id]
                    && job.view.id == id,
                None => !self.state().jobs.dom().contains(id),
            },
            sound(self.state()),
    {
        proof {
            use_type_invariant(self);
        }
        self.jobs.get(id)
    }

    /// Offers files to a peer under a new identifier, and hands out the offer.
    /// A list of files that cannot be transferred is refused.
    pub fn start(
        &mut self,
        peer: &str,
        files: Vec<FileManifest>,
        total_bytes: u64,
        paths: Vec<Vec<u8>>,
    ) -> (result: Result<(u128, Outbound), TransferError>)
        ensures
            sound(final(self).state()),
            result matches Ok(offer) ==> foreign::is_random_id(offer.0),
            offers(
                old(self).state(),
                peer@,
                files@,
                total_bytes,
                paths_of(paths@),
                final(self).state(),
                result,
            ),
    {
        let id = foreign::fresh_id();
        self.start_as(id, peer, files, total_bytes, paths)
    }

    /// Offers files to a peer under a given identifier.
    pub fn start_as(
        &mut self,
        id: u128,
        peer: &str,
        files: Vec<FileManifest>,
        total_bytes: u64,
        paths: Vec<Vec<u8>>,
    ) -> (result: Result<(u128, Outbound), TransferError>)
        ensures
            sound(final(self).state()),
            result matches Ok(offer) ==> offer.0 == id,
            offers(
                old(self).state(),
                peer@,
                files@,
                total_bytes,
                paths_of(paths@),
                final(self).state(),
                result,
            ),
    {
        proof {
            use_type_invariant(&*self);
        }
        if let Err(error) = protocol::validate_manifest(files.as_slice(), total_bytes) {
            return Err(TransferError::Manifest(error));
        }
        let copy = files.clone();
        assert(copy@ =~= files@);
        let job = Job {
            view: TransferView {
                id,
                direction: Direction::Send,
                peer: peer.to_owned(),
                files,
                total_bytes,
                transferred_bytes: 0,
                state: TransferState::Waiting,
                destination: None,
                error: None,
            },
            kind: JobKind::Outgoing { paths },
        };
        assert(job.seen() =~= offering(peer@, files@, total_bytes, paths_of(paths@)));
        self.put(id, job);
        self.set_live(id, true);
        Ok(
            (
                id,
                Outbound {
                    peer: peer.to_owned(),
                    message: TransferMessage::Offer { id, files: copy, total_bytes },
                },
            ),
        )
    }

    /// Whether the files of a transfer can be put into a destination without
    /// overwriting any that is there: none of their names is taken. `taken` says of
    /// each name in the list whether it is.
    pub fn check_free(&self, id: u128, taken: &Vec<bool>) -> (result: Result<(), TransferError>)
        ensures
            result == if !self.state().jobs.dom().contains(id) {
                Err::<(), TransferError>(TransferError::UnknownTransfer)
            } else {
                match taken_fault(taken@, self.state().jobs[id].files.len() as int) {
                    Some(error) => Err(error),
                    None => Ok(()),
                }
            },
            result is Ok <==> self.state().jobs.dom().contains(id) && forall|i: int|
                0 <= i < self.state().jobs[id].files.len() ==> #[trigger] is_free(taken@, i),
            sound(self.state()),
    {
        let job = match self.job(id) {
            Some(job) => job,
            None => return Err(TransferError::UnknownTransfer),
        };
        let n: usize = job.view.files.len();
        proof {
            lemma_first_taken(taken@, n as int, 0);
        }
        let mut i: usize = 0;
        while i < n
            invariant
                i <= n,
                first_taken(taken@, n as int, 0) == first_taken(taken@, n as int, i as int),
                n == self.state().jobs[id].files.len(),
                self.state().jobs.dom().contains(id),
                sound(self.state()),
                first_taken(taken@, n as int, 0) is None <==> (forall|i: int|
                    0 <= i < n ==> #[trigger] is_free(taken@, i)),
            decreases n - i,
        {
            if i >= taken.len() || taken[i] {
                return Err(TransferError::DestinationTaken(i));
            }
            i = i + 1;
        }
        Ok(())
    }

    /// What accepting an offer asks for, if it can be accepted and none of its names
    /// is taken in the destination.
    pub fn plan_accept(&self, id: u128, taken: &Vec<bool>) -> (result: Result<
        AcceptPlan,
        TransferError,
    >)
        ensures
            sound(self.state()),
            result is Ok ==> forall|i: int|
                0 <= i < self.state().jobs[id].files.len() ==> #[trigger] is_free(taken@, i),
            plans(self.state(), id, taken@, result),
    {
        let job = match self.job(id) {
            Some(job) => job,
            None => return Err(TransferError::UnknownTransfer),
        };
        if job.view.direction != Direction::Receive || job.view.state != TransferState::Waiting {
            return Err(TransferError::NotAwaitingAcceptance);
        }
        if let Err(error) = self.check_free(id, taken) {
            return Err(error);
        }
        Ok(AcceptPlan { names: file_names(&job.view.files), part_dir_name: part_dir_name(id) })
    }

    /// Accepts an offer whose parts have a folder now.
    pub fn accept(&mut self, id: u128, destination: Vec<u8>, part_dir: Vec<u8>) -> (result: Result<
        Outbound,
        TransferError,
    >)
        ensures
            sound(final(self).state()),
            accepts(
                old(self).state(),
                id,
                destination@,
                part_dir@,
                final(self).state(),
                result,
            ),
    {
        let ghost before = self.state();
        match self.job(id) {
            Some(job) => if job.view.direction != Direction::Receive || job.view.state
                != TransferState::Waiting {
                return Err(TransferError::NotAwaitingAcceptance);
            },
            None => return Err(TransferError::UnknownTransfer),
        }
        match self.take(id) {
            Some(mut job) => {
                let ghost was = job.seen();
                let offsets = match job.kind {
                    JobKind::Incoming { part_dir: _, offsets } => offsets,
                    JobKind::Outgoing { paths: _ } => Vec::new(),
                };
                job.kind = JobKind::Incoming { part_dir: Some(part_dir), offsets };
                job.view.destination = Some(destination);
                job.view.state = TransferState::Transferring;
                let peer = job.view.peer.clone();
                assert(job.seen() =~= accepted(was, destination@, part_dir@));
                self.put(id, job);
                assert(self.state() =~= put(before, id, accepted(was, destination@, part_dir@)));
                Ok(Outbound { peer, message: TransferMessage::Response { id, accepted: true } })
            },
            None => Err(TransferError::UnknownTransfer),
        }
    }

    /// Rejects an offer.
    pub fn reject(&mut self, id: u128) -> (result: Result<Outbound, TransferError>)
        ensures
            sound(final(self).state()),
            rejects(old(self).state(), id, final(self).state(), result),
    {
        let ghost before = self.state();
        match self.job(id) {
            Some(job) => if job.view.direction != Direction::Receive || job.view.state
                != TransferState::Waiting {
                return Err(TransferError::NotAwaitingRejection);
            },
            None => return Err(TransferError::UnknownTransfer),
        }
        match self.take(id) {
            Some(mut job) => {
                let ghost was = job.seen();
                job.view.state = TransferState::Rejected;
                let peer = job.view.peer.clone();
                assert(job.seen() =~= (JobState { state: TransferState::Rejected, ..was }));
                self.put(id, job);
                assert(self.state() =~= put(
                    before,
                    id,
                    JobState { state: TransferState::Rejected, ..was },
                ));
                Ok(Outbound { peer, message: TransferMessage::Response { id, accepted: false } })
            },
            None => Err(TransferError::UnknownTransfer),
        }
    }
}

/// What speaks against accepting an offer, if anything does.
pub open spec fn accept_fault(m: ManagerState, id: u128) -> Option<TransferError> {
    if !m.jobs.dom().contains(id) {
        Some(TransferError::UnknownTransfer)
    } else if m.jobs[id].direction != Direction::Receive || m.jobs[id].state
        != TransferState::Waiting {
        Some(TransferError::NotAwaitingAcceptance)
    } else {
        None
    }
}

/// What speaks against an offer going to a destination where some names are taken,
/// if anything does.
pub open spec fn plan_fault(m: ManagerState, id: u128, taken: Seq<bool>) -> Option<TransferError> {
    if accept_fault(m, id) is Some {
        accept_fault(m, id)
    } else {
        taken_fault(taken, m.jobs[id].files.len() as int)
    }
}

/// What speaks against rejecting an offer, if anything does.
pub open spec fn reject_fault(m: ManagerState, id: u128) -> Option<TransferError> {
    if !m.jobs.dom().contains(id) {
        Some(TransferError::UnknownTransfer)
    } else if m.jobs[id].direction != Direction::Receive || m.jobs[id].state
        != TransferState::Waiting {
        Some(TransferError::NotAwaitingRejection)
    } else {
        None
    }
}

/// An offer once it is accepted.
pub open spec fn accepted(job: JobState, destination: Seq<u8>, part_dir: Seq<u8>) -> JobState {
    JobState {
        destination: Some(destination),
        state: TransferState::Transferring,
        kind: match job.kind {
            KindState::Incoming { part_dir: _, offsets } => KindState::Incoming {
                part_dir: Some(part_dir),
                offsets,
            },
            KindState::Outgoing { paths } => KindState::Outgoing { paths },
        },
        ..job
    }
}

/// Whether a message offers files to a peer.
pub open spec fn is_offer(
    out: Outbound,
    peer: Seq<char>,
    id: u128,
    files: Seq<FileManifest>,
    total: u64,
) -> bool {
    out.peer@ == peer && (out.message matches TransferMessage::Offer {
        id: named,
        files: listed,
        total_bytes,
    } && named == id && listed@ == files && total_bytes == total)
}

impl Manager {
    /// Ends a transfer from this side. One that has already ended stands, and
    /// nothing is to be done.
    pub fn cancel(&mut self, id: u128) -> (result: Result<Option<Ending>, TransferError>)
        ensures
            sound(final(self).state()),
            cancels(old(self).state(), id, final(self).state(), result),
    {
        let ghost before = self.state();
        match self.job(id) {
            Some(job) => match job.view.state {
                TransferState::Completed | TransferState::Rejected | TransferState::Cancelled => {
                    return Ok(None);
                },
                _ => {},
            },
            None => return Err(TransferError::UnknownTransfer),
        }
        let is_live = self.live.contains_key(id);
        match self.take(id) {
            Some(mut job) => {
                let ghost was = job.seen();
                job.view.state = TransferState::Cancelled;
                let remove = cleanup(&mut job);
                let peer = job.view.peer.clone();
                assert(job.seen() =~= (JobState { state: TransferState::Cancelled, ..swept(was) }));
                self.put(id, job);
                assert(self.state() =~= put(
                    before,
                    id,
                    JobState { state: TransferState::Cancelled, ..swept(was) },
                ));
                Ok(
                    Some(
                        Ending {
                            outbound: Outbound {
                                peer,
                                message: TransferMessage::Cancel {
                                    id,
                                    reason: "cancelled by user".to_owned(),
                                },
                            },
                            remove,
                            signal: is_live,
                        },
                    ),
                )
            },
            None => Err(TransferError::UnknownTransfer),
        }
    }

    /// What is to be seen of a transfer.
    pub fn view(&self, id: u128) -> (view: Option<TransferView>)
        ensures
            sound(self.state()),
            shows(self.state(), id, view),
    {
        match self.job(id) {
            Some(job) => Some(job.view.clone()),
            None => None,
        }
    }

    /// What is to be seen of all transfers, each once.
    pub fn views(&self) -> (views: Vec<TransferView>)
        ensures
            sound(self.state()),
            forall|i: int|
                0 <= i < views@.len() ==> self.state().jobs.dom().contains((#[trigger] views@[i]).id)
                    && views@[i].with_kind(self.state().jobs[views@[i].id].kind)
                    == self.state().jobs[views@[i].id],
            forall|i: int, j: int|
                #![trigger views@[i], views@[j]]
                0 <= i < j < views@.len() ==> views@[i].id != views@[j].id,
            forall|id: u128| #[trigger]
                self.state().jobs.dom().contains(id) ==> exists|i: int|
                    0 <= i < views@.len() && (#[trigger] views@[i]).id == id,
    {
        proof {
            use_type_invariant(self);
        }
        let n: usize = self.jobs.len();
        let ghost order = self.jobs.order();
        let mut views: Vec<TransferView> = Vec::new();
        let mut i: usize = 0;
        while i < n
            invariant
                i <= n,
                n == order.len(),
                order == self.jobs.order(),
                order.no_duplicates(),
                order.to_set() == self.jobs@.dom(),
                self.state().jobs == states(self.jobs@),
                forall|id: u128| #[trigger]
                    self.jobs@.dom().contains(id) ==> self.jobs@[id].view.id == id,
                views@.len() == i,
                forall|k: int|
                    0 <= k < i ==> (#[trigger] views@[k]).id == order[k]
                        && self.state().jobs.dom().contains(order[k]) && views@[k].with_kind(
                        self.state().jobs[order[k]].kind,
                    ) == self.state().jobs[order[k]],
            decreases n - i,
        {
            let job = self.jobs.value_at(i);
            proof {
                assert(order.to_set().contains(order[i as int]));
            }
            views.push(job.view.clone());
            i = i + 1;
        }
        proof {
            assert forall|id: u128| #[trigger] self.state().jobs.dom().contains(id) implies exists|i: int|
                0 <= i < views@.len() && (#[trigger] views@[i]).id == id by {
                assert(order.to_set().contains(id));
                let k = choose|k: int| 0 <= k < order.len() && order[k] == id;
                assert(views@[k].id == id);
            }
        }
        views
    }

    /// A message of a peer arrives. One that is refused changes nothing.
    /// `destination` is where files offered by it go unless someone chooses
    /// otherwise. Where the message completes a transfer, `taken` says of each of
    /// its names whether it is taken in its destination; nothing that is there is
    /// overwritten.
    pub fn handle(
        &mut self,
        peer: &str,
        message: TransferMessage,
        destination: Option<Vec<u8>>,
        taken: &Vec<bool>,
    ) -> (result: Result<Plan, TransferError>)
        ensures
            sound(final(self).state()),
            result matches Ok(Plan::Finish { names, .. }) ==> forall|i: int|
                0 <= i < names@.len() ==> #[trigger] is_free(taken@, i),
            match handled(old(self).state(), peer@, message, path_of(destination), taken@) {
                Ok(next) => result is Ok && is_plan(old(self).state(), message, result->Ok_0) && final(self).state() == next,
                Err(error) => result == Err::<Plan, TransferError>(error) && final(self).state() == old(self).state(),
            },
    {
        proof {
            use_type_invariant(&*self);
            law_messages_keep_transfers_sound(
                self.state(),
                peer@,
                message,
                path_of(destination),
                taken@,
            );
        }
        match message {
            TransferMessage::Offer { id, files, total_bytes } => self.handle_offer(
                peer,
                id,
                files,
                total_bytes,
                destination,
            ),
            TransferMessage::Response { id, accepted } => match self.check_signal(id, peer) {
                Ok(()) => Ok(
                    Plan::Signal { id, message: TransferMessage::Response { id, accepted } },
                ),
                Err(error) => Err(error),
            },
            TransferMessage::Ack { id, file_index, next_offset } => match self.check_signal(
                id,
                peer,
            ) {
                Ok(()) => Ok(
                    Plan::Signal {
                        id,
                        message: TransferMessage::Ack { id, file_index, next_offset },
                    },
                ),
                Err(error) => Err(error),
            },
            TransferMessage::Finished { id } => match self.check_signal(id, peer) {
                Ok(()) => Ok(Plan::Signal { id, message: TransferMessage::Finished { id } }),
                Err(error) => Err(error),
            },
            TransferMessage::Chunk { id, file_index, offset, data } => match self.check_chunk(
                peer,
                id,
                file_index,
                offset,
                data.len(),
            ) {
                Ok((part_dir, name)) => Ok(
                    Plan::Write { id, file_index, part_dir, name, offset, data },
                ),
                Err(error) => Err(error),
            },
            TransferMessage::Complete { id } => match self.check_complete(peer, id, taken) {
                Ok((part_dir, destination, names)) => Ok(
                    Plan::Finish { id, part_dir, destination, names },
                ),
                Err(error) => Err(error),
            },
            TransferMessage::Cancel { id, reason } => self.handle_cancel(peer, id, reason),
        }
    }

    /// A peer offers files.
    fn handle_offer(
        &mut self,
        peer: &str,
        id: u128,
        files: Vec<FileManifest>,
        total_bytes: u64,
        destination: Option<Vec<u8>>,
    ) -> (result: Result<Plan, TransferError>)
        ensures
            match protocol::manifest_fault(files@, total_bytes) {
                Some(error) => result == Err::<Plan, TransferError>(TransferError::Manifest(error))
                    && final(self).state() == old(self).state(),
                None => if old(self).state().jobs.dom().contains(id) {
                    result == Ok::<Plan, TransferError>(Plan::Nothing) && final(self).state() == old(self).state()
                } else {
                    &&& result == Ok::<Plan, TransferError>(Plan::LaunchReceiveUi { id })
                    &&& final(self).state() == put(
                        old(self).state(),
                        id,
                        offered(peer@, files@, total_bytes, path_of(destination)),
                    )
                },
            },
    {
        if let Err(error) = protocol::validate_manifest(files.as_slice(), total_bytes) {
            return Err(TransferError::Manifest(error));
        }
        if self.job(id).is_some() {
            return Ok(Plan::Nothing);
        }
        let n: usize = files.len();
        let mut offsets: Vec<u64> = Vec::new();
        let mut i: usize = 0;
        while i < n
            invariant
                i <= n,
                offsets@ == protocol::zeros(i as nat),
            decreases n - i,
        {
            offsets.push(0);
            assert(offsets@ =~= protocol::zeros((i + 1) as nat));
            i = i + 1;
        }
        proof {
            protocol::lemma_sum_zeros(n as nat);
        }
        let job = Job {
            view: TransferView {
                id,
                direction: Direction::Receive,
                peer: peer.to_owned(),
                files,
                total_bytes,
                transferred_bytes: 0,
                state: TransferState::Waiting,
                destination,
                error: None,
            },
            kind: JobKind::Incoming { part_dir: None, offsets },
        };
        assert(job.seen() =~= offered(peer@, files@, total_bytes, path_of(destination)));
        self.put(id, job);
        Ok(Plan::LaunchReceiveUi { id })
    }

    /// Whether a message of a peer may be passed to the sender of a transfer.
    fn check_signal(&self, id: u128, peer: &str) -> (result: Result<(), TransferError>)
        ensures
            result == match signal_fault(self.state(), id, peer@) {
                Some(error) => Err::<(), TransferError>(error),
                None => Ok(()),
            },
    {
        match self.job(id) {
            Some(job) => if !text::str_eq(job.view.peer.as_str(), peer) {
                return Err(TransferError::PeerMismatch);
            },
            None => return Err(TransferError::UnknownTransfer),
        }
        if !self.live.contains_key(id) {
            return Err(TransferError::UnknownOutgoing);
        }
        Ok(())
    }

    /// Where a chunk is to be written, if nothing is wrong with it.
    fn check_chunk(
        &self,
        peer: &str,
        id: u128,
        file_index: u32,
        offset: u64,
        len: usize,
    ) -> (result: Result<(Vec<u8>, String), TransferError>)
        ensures
            match chunk_fault(self.state(), peer@, id, file_index, offset, len as int) {
                Some(error) => result == Err::<(Vec<u8>, String), TransferError>(error),
                None => result matches Ok(place) && Some(place.0@) == parts(self.state().jobs[id])
                    && place.1@ == self.state().jobs[id].files[file_index as int].name@,
            },
    {
        if len > CHUNK_BYTES {
            return Err(TransferError::ChunkTooLarge);
        }
        let job = match self.job(id) {
            Some(job) => job,
            None => return Err(TransferError::UnknownTransfer),
        };
        if !text::str_eq(job.view.peer.as_str(), peer) || job.view.state
            != TransferState::Transferring {
            return Err(TransferError::UnexpectedChunk);
        }
        let (part_dir, offsets) = match &job.kind {
            JobKind::Incoming { part_dir, offsets } => (part_dir, offsets),
            JobKind::Outgoing { paths: _ } => return Err(TransferError::ChunkForOutgoing),
        };
        let index: usize = file_index as usize;
        if index >= job.view.files.len() {
            return Err(TransferError::InvalidFileIndex);
        }
        let next: u64 = match offset.checked_add(len as u64) {
            Some(next) => next,
            None => return Err(TransferError::OffsetOverflow),
        };
        proof {
            assert(sound_job(self.state().jobs[id]));
        }
        if offsets[index] != offset || next > job.view.files[index].size {
            return Err(TransferError::InvalidOffset);
        }
        match part_dir {
            Some(path) => {
                let copy = path.clone();
                assert(copy@ =~= path@);
                Ok((copy, job.view.files[index].name.clone()))
            },
            None => Err(TransferError::NotAccepted),
        }
    }

    /// A chunk was written: counts it and hands out its acknowledgement.
    pub fn written(
        &mut self,
        peer: &str,
        id: u128,
        file_index: u32,
        offset: u64,
        len: usize,
    ) -> (result: Result<Outbound, TransferError>)
        ensures
            sound(final(self).state()),
            writes(
                old(self).state(),
                peer@,
                id,
                file_index,
                offset,
                len as int,
                final(self).state(),
                result,
            ),
    {
        proof {
            use_type_invariant(&*self);
        }
        let ghost before = self.state();
        if let Err(error) = self.check_chunk(peer, id, file_index, offset, len) {
            return Err(error);
        }
        match self.take(id) {
            Some(mut job) => {
                let ghost was = job.seen();
                let index: usize = file_index as usize;
                if let JobKind::Incoming { part_dir, offsets } = job.kind {
                    let mut offsets = offsets;
                    let ghost earlier = offsets@;
                    proof {
                        let after = earlier.update(index as int, (offset + len) as u64);
                        protocol::lemma_sum_update(earlier, index as int, (offset + len) as u64);
                        let all = protocol::sizes(was.files);
                        assert forall|i: int| 0 <= i < after.len() implies #[trigger] after[i]
                            <= all[i] by {
                            assert(earlier[i] <= was.files[i].size);
                        }
                        protocol::lemma_sum_bounded(after, all);
                    }
                    offsets.set(index, offset + len as u64);
                    job.view.transferred_bytes = job.view.transferred_bytes + len as u64;
                    job.kind = JobKind::Incoming { part_dir, offsets };
                    assert(job.seen() =~= grown(was, file_index, len as int));
                    assert(sound_job(job.seen())) by {
                        let after = job.seen();
                        let offsets_after = offsets@;
                        assert forall|i: int|
                            0 <= i < offsets_after.len() implies #[trigger] offsets_after[i]
                            <= after.files[i].size by {
                            assert(earlier[i] <= was.files[i].size);
                        }
                    }
                    self.put(id, job);
                    assert(self.state() =~= put(before, id, grown(was, file_index, len as int)));
                    Ok(
                        Outbound {
                            peer: peer.to_owned(),
                            message: TransferMessage::Ack {
                                id,
                                file_index,
                                next_offset: offset + len as u64,
                            },
                        },
                    )
                } else {
                    Err(TransferError::ChunkForOutgoing)
                }
            },
            None => Err(TransferError::UnknownTransfer),
        }
    }

    /// What is to be moved where when a transfer completes, if nothing speaks
    /// against it. All its files are complete then.
    fn check_complete(&self, peer: &str, id: u128, taken: &Vec<bool>) -> (result: Result<
        (Vec<u8>, Vec<u8>, Vec<String>),
        TransferError,
    >)
        ensures
            sound(self.state()),
            result matches Ok(place) ==> forall|i: int|
                0 <= i < place.2@.len() ==> #[trigger] is_free(taken@, i),
            match complete_fault(self.state(), peer@, id, taken@) {
                Some(error) => result == Err::<(Vec<u8>, Vec<u8>, Vec<String>), TransferError>(
                    error,
                ),
                None => result matches Ok(place) && Some(place.0@) == parts(self.state().jobs[id]) && Some(
                    place.1@,
                ) == self.state().jobs[id].destination && texts_of(place.2@) == names_of(
                    self.state().jobs[id].files,
                ),
            },
    {
        if let Err(error) = self.check_finish(peer, id) {
            return Err(error);
        }
        if let Err(error) = self.check_free(id, taken) {
            return Err(error);
        }
        let job = match self.job(id) {
            Some(job) => job,
            None => return Err(TransferError::UnknownTransfer),
        };
        let part_dir = match &job.kind {
            JobKind::Incoming { part_dir, offsets: _ } => clone_path(part_dir),
            JobKind::Outgoing { paths: _ } => None,
        };
        let part_dir = match part_dir {
            Some(part_dir) => part_dir,
            None => return Err(TransferError::NotAccepted),
        };
        let destination = match clone_path(&job.view.destination) {
            Some(destination) => destination,
            None => return Err(TransferError::MissingDestination),
        };
        let names = file_names(&job.view.files);
        assert(texts_of(names@).len() == names@.len());
        Ok((part_dir, destination, names))
    }

    /// Whether all of a transfer has arrived and it has a place to go to.
    fn check_finish(&self, peer: &str, id: u128) -> (result: Result<(), TransferError>)
        ensures
            result == match finish_fault(self.state(), peer@, id) {
                Some(error) => Err::<(), TransferError>(error),
                None => Ok(()),
            },
            sound(self.state()),
    {
        let job = match self.job(id) {
            Some(job) => job,
            None => return Err(TransferError::UnknownTransfer),
        };
        if !text::str_eq(job.view.peer.as_str(), peer) || job.view.transferred_bytes
            != job.view.total_bytes {
            return Err(TransferError::Incomplete);
        }
        match &job.kind {
            JobKind::Incoming { part_dir, offsets: _ } => if part_dir.is_none() {
                return Err(TransferError::NotAccepted);
            },
            JobKind::Outgoing { paths: _ } => return Err(TransferError::CompletionForOutgoing),
        }
        if job.view.destination.is_none() {
            return Err(TransferError::MissingDestination);
        }
        Ok(())
    }

    /// The files of a transfer were moved to the destination: it is complete.
    pub fn finished(&mut self, peer: &str, id: u128) -> (result: Result<Outbound, TransferError>)
        ensures
            sound(final(self).state()),
            finishes(old(self).state(), peer@, id, final(self).state(), result),
    {
        let ghost before = self.state();
        if let Err(error) = self.check_finish(peer, id) {
            return Err(error);
        }
        match self.take(id) {
            Some(mut job) => {
                let ghost was = job.seen();
                proof {
                    lemma_complete_transfer_has_all_bytes(was);
                }
                let _ = cleanup(&mut job);
                job.view.state = TransferState::Completed;
                assert(job.seen() =~= completed(was));
                self.put(id, job);
                assert(self.state() =~= put(before, id, completed(was)));
                Ok(
                    Outbound {
                        peer: peer.to_owned(),
                        message: TransferMessage::Finished { id },
                    },
                )
            },
            None => Err(TransferError::UnknownTransfer),
        }
    }

    /// A peer ends a transfer.
    fn handle_cancel(&mut self, peer: &str, id: u128, reason: String) -> (result: Result<
        Plan,
        TransferError,
    >)
        ensures
            match handled(
                old(self).state(),
                peer@,
                TransferMessage::Cancel { id, reason },
                None,
                Seq::empty(),
            ) {
                Ok(next) => result is Ok && is_plan(
                    old(self).state(),
                    TransferMessage::Cancel { id, reason },
                    result->Ok_0,
                ) && final(self).state() == next,
                Err(error) => result == Err::<Plan, TransferError>(error) && final(self).state() == old(self).state(),
            },
    {
        let ghost before = self.state();
        if text::byte_len(reason.as_str()) > MAX_REASON_BYTES {
            return Err(TransferError::ReasonTooLong);
        }
        let known = match self.job(id) {
            Some(job) => {
                if !text::str_eq(job.view.peer.as_str(), peer) {
                    return Err(TransferError::PeerMismatch);
                }
                true
            },
            None => false,
        };
        let is_live = self.live.contains_key(id);
        let signal = if is_live {
            Some(TransferMessage::Cancel { id, reason: reason.clone() })
        } else {
            None
        };
        if !known {
            return Ok(Plan::End { id, remove: None, signal });
        }
        match self.take(id) {
            Some(mut job) => {
                let ghost was = job.seen();
                job.view.state = TransferState::Cancelled;
                job.view.error = Some(reason);
                let remove = cleanup(&mut job);
                assert(job.seen() =~= ended(was, reason@));
                self.put(id, job);
                assert(self.state() =~= put(before, id, ended(was, reason@)));
                Ok(Plan::End { id, remove, signal })
            },
            None => Err(TransferError::UnknownTransfer),
        }
    }
}

/// Takes the folder of parts from a transfer.
fn cleanup(job: &mut Job) -> (remove: Option<Vec<u8>>)
    ensures
        final(job).seen() == swept(old(job).seen()),
        final(job).view == old(job).view,
        path_of(remove) == parts(old(job).seen()),
{
    let ghost was = job.seen();
    match &mut job.kind {
        JobKind::Incoming { part_dir, offsets: _ } => {
            let remove = part_dir.take();
            remove
        },
        JobKind::Outgoing { paths: _ } => None,
    }
}

/// A transfer that counts as many bytes as it has in all has all bytes of every
/// file.
pub proof fn lemma_complete_transfer_has_all_bytes(job: JobState)
    requires
        sound_job(job),
        job.kind is Incoming,
        job.transferred == job.total,
    ensures
        job.kind matches KindState::Incoming { part_dir, offsets } && offsets == protocol::sizes(
            job.files,
        ),
{
    if let KindState::Incoming { part_dir, offsets } = job.kind {
        let all = protocol::sizes(job.files);
        assert forall|i: int| 0 <= i < offsets.len() implies #[trigger] offsets[i] <= all[i] by {
            assert(offsets[i] <= job.files[i].size);
        }
        protocol::lemma_sum_bounded(offsets, all);
    }
}

impl Manager {
    /// The state of a transfer that this device sends.
    pub fn set_state(&mut self, id: u128, state: TransferState) -> (result: Result<
        (),
        TransferError,
    >)
        ensures
            sound(final(self).state()),
            marks(old(self).state(), id, state, final(self).state(), result),
    {
        proof {
            use_type_invariant(&*self);
        }
        let ghost before = self.state();
        if let Err(error) = self.check_outgoing(id) {
            return Err(error);
        }
        if let Some(mut job) = self.take(id) {
            let ghost was = job.seen();
            job.view.state = state;
            assert(job.seen() =~= (JobState { state, ..was }));
            self.put(id, job);
            assert(self.state() =~= put(before, id, JobState { state, ..was }));
        }
        Ok(())
    }

    /// More bytes of a transfer that this device sends have arrived.
    pub fn set_progress(&mut self, id: u128, bytes: u64) -> (result: Result<(), TransferError>)
        ensures
            sound(final(self).state()),
            counts(old(self).state(), id, bytes, final(self).state(), result),
    {
        proof {
            use_type_invariant(&*self);
        }
        let ghost before = self.state();
        if let Err(error) = self.check_outgoing(id) {
            return Err(error);
        }
        let transferred: u64 = match self.job(id) {
            Some(job) => match job.view.transferred_bytes.checked_add(bytes) {
                Some(transferred) => transferred,
                None => return Err(TransferError::ProgressOverflow),
            },
            None => 0,
        };
        if let Some(mut job) = self.take(id) {
            let ghost was = job.seen();
            job.view.transferred_bytes = transferred;
            assert(job.seen() =~= (JobState { transferred, ..was }));
            self.put(id, job);
            assert(self.state() =~= put(before, id, JobState { transferred, ..was }));
        }
        Ok(())
    }

    /// Whether this device sends a transfer.
    fn check_outgoing(&self, id: u128) -> (result: Result<(), TransferError>)
        ensures
            result == match outgoing_fault(self.state(), id) {
                Some(error) => Err::<(), TransferError>(error),
                None => Ok(()),
            },
    {
        match self.job(id) {
            Some(job) => match &job.kind {
                JobKind::Outgoing { paths: _ } => Ok(()),
                JobKind::Incoming { part_dir: _, offsets: _ } => Err(
                    TransferError::InvalidDirection,
                ),
            },
            None => Err(TransferError::UnknownTransfer),
        }
    }

    /// To whom a transfer of this device goes, and where its files are.
    pub fn outgoing(&self, id: u128) -> (result: Result<(String, Vec<Vec<u8>>), TransferError>)
        ensures
            sound(self.state()),
            sends(self.state(), id, result),
    {
        match self.job(id) {
            Some(job) => match &job.kind {
                JobKind::Outgoing { paths } => {
                    let mut copy: Vec<Vec<u8>> = Vec::new();
                    let mut i: usize = 0;
                    while i < paths.len()
                        invariant
                            i <= paths@.len(),
                            copy@.len() == i,
                            forall|k: int| 0 <= k < i ==> (#[trigger] copy@[k])@ == paths@[k]@,
                        decreases paths@.len() - i,
                    {
                        let path = paths[i].clone();
                        assert(path@ =~= paths@[i as int]@);
                        copy.push(path);
                        i = i + 1;
                    }
                    assert(paths_of(copy@) =~= paths_of(paths@));
                    Ok((job.view.peer.clone(), copy))
                },
                JobKind::Incoming { part_dir: _, offsets: _ } => Err(
                    TransferError::InvalidDirection,
                ),
            },
            None => Err(TransferError::UnknownTransfer),
        }
    }

    /// The sender of a transfer stopped.
    pub fn stopped(&mut self, id: u128)
        ensures
            sound(final(self).state()),
            final(self).state() == (ManagerState {
                live: old(self).state().live.remove(id),
                ..old(self).state()
            }),
    {
        self.set_live(id, false);
        assert(self.state() =~= (ManagerState {
            live: old(self).state().live.remove(id),
            ..old(self).state()
        }));
    }

    /// The sender of a transfer gave up. A transfer that has already ended
    /// stands; any other has failed, and its other end is told.
    pub fn fail(&mut self, id: u128, error: String) -> (ending: Option<(Outbound, Option<Vec<u8>>)>)
        ensures
            sound(final(self).state()),
            gives_up(old(self).state(), id, error@, final(self).state(), ending),
    {
        let ghost before = self.state();
        self.stopped(id);
        let open = match self.job(id) {
            Some(job) => match job.view.state {
                TransferState::Completed | TransferState::Rejected | TransferState::Cancelled => false,
                _ => true,
            },
            None => false,
        };
        if !open {
            return None;
        }
        match self.take(id) {
            Some(mut job) => {
                let ghost was = job.seen();
                job.view.state = TransferState::Failed;
                job.view.error = Some(error.clone());
                let remove = cleanup(&mut job);
                let peer = job.view.peer.clone();
                let ghost failed = JobState {
                    state: TransferState::Failed,
                    error: Some(error@),
                    ..swept(was)
                };
                assert(job.seen() =~= failed);
                self.put(id, job);
                assert(self.state().jobs =~= before.jobs.insert(id, failed));
                Some(
                    (
                        Outbound { peer, message: TransferMessage::Cancel { id, reason: error } },
                        remove,
                    ),
                )
            },
            None => None,
        }
    }
}

/// What speaks against a transfer being sent from here, if anything does.
pub open spec fn outgoing_fault(m: ManagerState, id: u128) -> Option<TransferError> {
    if !m.jobs.dom().contains(id) {
        Some(TransferError::UnknownTransfer)
    } else if m.jobs[id].kind is Incoming {
        Some(TransferError::InvalidDirection)
    } else {
        None
    }
}

/// Why files cannot be offered.
#[derive(Clone, Copy, Debug, PartialEq, Eq, Structural)]
pub enum InspectError {
    NotRegular,
    NameNotText,
    SizeOverflow,
}

/// The files of an offer, as far as they were looked at.
#[derive(Debug, PartialEq, Eq)]
pub struct Inspection {
    pub files: Vec<FileManifest>,
    pub total: u64,
}

/// What is wrong with one more file, if anything is.
pub open spec fn inspect_fault(total: u64, path: Seq<u8>, regular: bool, size: u64) -> Option<
    InspectError,
> {
    if !regular {
        Some(InspectError::NotRegular)
    } else if !(path::name_of(path) matches Some(name) && valid_utf8(name)) {
        Some(InspectError::NameNotText)
    } else if total + size > u64::MAX {
        Some(InspectError::SizeOverflow)
    } else {
        None
    }
}

/// Whether one more file is looked at: what is listed then.
pub open spec fn lists(
    before: Inspection,
    path: Seq<u8>,
    regular: bool,
    size: u64,
    after: Inspection,
    result: Result<(), InspectError>,
) -> bool {
    match inspect_fault(before.total, path, regular, size) {
        Some(error) => result == Err::<(), InspectError>(error) && after == before,
        None => {
            &&& result == Ok::<(), InspectError>(())
            &&& after.total == before.total + size
            &&& after.files@.drop_last() == before.files@
            &&& after.files@.len() == before.files@.len() + 1
            &&& after.files@.last().size == size
            &&& after.files@.last().name@ == decode_utf8(path::name_of(path)->0)
        },
    }
}

impl Inspection {
    /// No file yet.
    pub fn new() -> (inspection: Self)
        ensures
            inspection.files@.len() == 0,
            inspection.total == 0,
    {
        Inspection { files: Vec::new(), total: 0 }
    }

    /// Looks at one more file: what its path is, whether it is a regular file,
    /// and how large it is.
    pub fn inspect_path(&mut self, path: &[u8], regular: bool, size: u64) -> (result: Result<
        (),
        InspectError,
    >)
        ensures
            lists(*old(self), path@, regular, size, *final(self), result),
    {
        if !regular {
            return Err(InspectError::NotRegular);
        }
        let name = match path::file_name(path) {
            Some(name) => name,
            None => return Err(InspectError::NameNotText),
        };
        let name = match foreign::text_from_utf8(name) {
            Some(name) => name,
            None => return Err(InspectError::NameNotText),
        };
        let total: u64 = match self.total.checked_add(size) {
            Some(total) => total,
            None => return Err(InspectError::SizeOverflow),
        };
        let ghost before = self.files@;
        self.total = total;
        self.files.push(FileManifest { name, size });
        assert(self.files@.drop_last() =~= before);
        Ok(())
    }
}

/// A refused message changes nothing, and whatever happens, what holds of all
/// transfers goes on holding.
pub proof fn law_messages_keep_transfers_sound(
    m: ManagerState,
    peer: Seq<char>,
    message: TransferMessage,
    destination: Option<Seq<u8>>,
    taken: Seq<bool>,
)
    requires
        sound(m),
    ensures
        handled(m, peer, message, destination, taken) matches Ok(next) ==> sound(next),
{
    match message {
        TransferMessage::Offer { id, files, total_bytes } => {
            protocol::lemma_manifest_fault(files@, total_bytes);
            protocol::lemma_sum_zeros(files@.len());
        },
        TransferMessage::Cancel { id, reason } => {
            if m.jobs.dom().contains(id) {
                assert(sound_job(m.jobs[id]));
            }
        },
        _ => {},
    }
}

/// A message of a peer about a transfer with another peer is refused, whatever
/// it says.
pub proof fn law_strangers_cannot_touch_a_transfer(
    m: ManagerState,
    peer: Seq<char>,
    message: TransferMessage,
    destination: Option<Seq<u8>>,
    taken: Seq<bool>,
    id: u128,
)
    requires
        m.jobs.dom().contains(id),
        m.jobs[id].peer != peer,
        match message {
            TransferMessage::Offer { .. } => false,
            TransferMessage::Response { id: named, .. } => named == id,
            TransferMessage::Chunk { id: named, .. } => named == id,
            TransferMessage::Ack { id: named, .. } => named == id,
            TransferMessage::Complete { id: named } => named == id,
            TransferMessage::Finished { id: named } => named == id,
            TransferMessage::Cancel { id: named, .. } => named == id,
        },
    ensures
        handled(m, peer, message, destination, taken) is Err,
{
}

/// A transfer completes only where every one of its names is free in its
/// destination: no file that is there is overwritten.
pub proof fn law_completion_overwrites_nothing(
    m: ManagerState,
    peer: Seq<char>,
    id: u128,
    destination: Option<Seq<u8>>,
    taken: Seq<bool>,
    i: int,
)
    requires
        handled(m, peer, TransferMessage::Complete { id }, destination, taken) is Ok,
        0 <= i < m.jobs[id].files.len(),
    ensures
        i < taken.len(),
        !taken[i],
{
    lemma_first_taken(taken, m.jobs[id].files.len() as int, 0);
    assert(is_free(taken, i));
}

/// An offer under an identifier that is already taken changes nothing.
pub proof fn law_offer_cannot_replace_a_transfer(
    m: ManagerState,
    peer: Seq<char>,
    message: TransferMessage,
    destination: Option<Seq<u8>>,
    taken: Seq<bool>,
)
    requires
        message matches TransferMessage::Offer { id, .. } && m.jobs.dom().contains(id),
    ensures
        handled(m, peer, message, destination, taken) matches Ok(next) ==> next == m,
{
}

} // verus!
