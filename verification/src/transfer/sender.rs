//! The sending end of a transfer: offers, sends chunk after chunk, each once the
//! one before was acknowledged, and completes.

use vstd::prelude::*;

use crate::transfer;
use crate::transfer::protocol;
use crate::transfer::protocol::{TransferMessage, CHUNK_BYTES};
use crate::transfer::{JobState, KindState, ManagerState, TransferState};

verus! {

/// How long an offer waits for its answer, in seconds.
pub const OFFER_SECONDS: u64 = 300;

/// How long a chunk waits for its acknowledgement, in seconds.
pub const ACK_SECONDS: u64 = 30;

/// Where the sending end is.
#[derive(Clone, Copy, Debug, PartialEq, Eq, Structural)]
pub enum Phase {
    /// The offer waits for its answer.
    Offered,
    /// The file is to be read on from this offset.
    Reading { file_index: u32, offset: u64 },
    /// A chunk waits for its acknowledgement, which will give this offset.
    Waiting { file_index: u32, len: u64, wanted: u64 },
    /// All is sent; the other end is to confirm it.
    Finishing,
    /// The transfer is over.
    Over,
}

/// The sending end of a transfer.
#[derive(Debug, PartialEq, Eq)]
pub struct Sender {
    pub id: u128,
    pub files: u32,
    pub phase: Phase,
}

/// Why the sending end gives up.
#[derive(Debug, PartialEq, Eq)]
pub enum Failure {
    /// The other end gave this reason.
    Ended(String),
    OfferTimedOut,
    AckTimedOut,
    CompletionTimedOut,
    /// More was read at once than a chunk may carry.
    ChunkTooLarge,
}

/// What the sending end does next.
#[derive(Debug, PartialEq, Eq)]
pub enum Next {
    /// Reads the file on, as much as a chunk may carry and no more.
    Read { file_index: u32 },
    /// Sends a message and waits so many seconds for an answer.
    Send { message: TransferMessage, seconds: u64 },
    /// Stops.
    Stop,
    /// Gives up.
    Fail(Failure),
}

/// What an answer brings.
#[derive(Debug, PartialEq, Eq)]
pub struct Answer {
    /// The state that the transfer is in now, if it changed.
    pub state: Option<TransferState>,
    /// How many more bytes have arrived.
    pub progress: u64,
    pub next: Next,
}

/// Where the sending end is once a file from this one on is to be read.
pub open spec fn from_file(files: u32, file_index: int) -> Phase {
    if file_index < files {
        Phase::Reading { file_index: file_index as u32, offset: 0 }
    } else {
        Phase::Finishing
    }
}

/// What it does then.
pub open spec fn opens(id: u128, files: u32, file_index: int, next: Next) -> bool {
    if file_index < files {
        next == (Next::Read { file_index: file_index as u32 })
    } else {
        next == (Next::Send { message: TransferMessage::Complete { id }, seconds: ACK_SECONDS })
    }
}

/// Whether the other end gives a reason for ending the transfer.
pub open spec fn ends(signal: Option<TransferMessage>) -> bool {
    signal matches Some(TransferMessage::Cancel { .. })
}

/// Whether what is done next is to give up for the reason of the other end.
pub open spec fn ends_for(signal: Option<TransferMessage>, next: Next) -> bool {
    signal matches Some(TransferMessage::Cancel { id, reason }) && (next matches Next::Fail(
        Failure::Ended(why),
    ) && why@ == reason@)
}

/// What an answer brings, or that none came in time.
pub open spec fn answers(
    before: Sender,
    signal: Option<TransferMessage>,
    after: Sender,
    answer: Answer,
) -> bool {
    &&& after.id == before.id
    &&& after.files == before.files
    &&& match before.phase {
        Phase::Offered => if signal matches Some(TransferMessage::Response { id, accepted }) {
            if signal->0->accepted {
                &&& answer.state == Some(TransferState::Transferring)
                &&& answer.progress == 0
                &&& after.phase == from_file(before.files, 0)
                &&& opens(before.id, before.files, 0, answer.next)
            } else {
                &&& answer.state == Some(TransferState::Rejected)
                &&& answer.progress == 0
                &&& answer.next is Stop
                &&& after.phase is Over
            }
        } else {
            &&& answer.state is None
            &&& answer.progress == 0
            &&& after.phase is Over
            &&& if ends(signal) {
                ends_for(signal, answer.next)
            } else {
                answer.next == Next::Fail(Failure::OfferTimedOut)
            }
        },
        Phase::Waiting { file_index, len, wanted } => {
            &&& answer.state is None
            &&& if signal matches Some(
                TransferMessage::Ack { id, file_index: index, next_offset },
            ) && index == file_index && next_offset == wanted {
                &&& answer.progress == len
                &&& answer.next == (Next::Read { file_index })
                &&& after.phase == (Phase::Reading { file_index, offset: wanted })
            } else {
                &&& answer.progress == 0
                &&& after.phase is Over
                &&& if ends(signal) {
                    ends_for(signal, answer.next)
                } else {
                    answer.next == Next::Fail(Failure::AckTimedOut)
                }
            }
        },
        Phase::Finishing => {
            &&& after.phase is Over
            &&& answer.progress == 0
            &&& if signal matches Some(TransferMessage::Finished { .. }) {
                answer.state == Some(TransferState::Completed) && answer.next is Stop
            } else {
                &&& answer.state is None
                &&& if ends(signal) {
                    ends_for(signal, answer.next)
                } else {
                    answer.next == Next::Fail(Failure::CompletionTimedOut)
                }
            }
        },
        _ => {
            &&& after == before
            &&& answer == (Answer { state: None, progress: 0, next: Next::Stop })
        },
    }
}

/// What follows once some of a file was read.
pub open spec fn reads(before: Sender, data: Vec<u8>, after: Sender, next: Next) -> bool {
    &&& after.id == before.id
    &&& after.files == before.files
    &&& match before.phase {
        Phase::Reading { file_index, offset } => if data@.len() == 0 {
            &&& after.phase == from_file(before.files, file_index + 1)
            &&& opens(before.id, before.files, file_index + 1, next)
        } else if data@.len() > CHUNK_BYTES {
            &&& after.phase is Over
            &&& next == Next::Fail(Failure::ChunkTooLarge)
        } else {
            &&& next == (Next::Send {
                message: TransferMessage::Chunk { id: before.id, file_index, offset, data },
                seconds: ACK_SECONDS,
            })
            &&& after.phase == (Phase::Waiting {
                file_index,
                len: data@.len() as u64,
                wanted: (offset + data@.len()) as u64,
            })
        },
        _ => after == before && next is Stop,
    }
}

impl Failure {
    /// The reason in words.
    pub open spec fn told(self) -> Seq<char> {
        match self {
            Failure::Ended(reason) => reason@,
            Failure::OfferTimedOut => "transfer offer timed out"@,
            Failure::AckTimedOut => "transfer acknowledgement timed out"@,
            Failure::CompletionTimedOut => "transfer completion timed out"@,
            Failure::ChunkTooLarge => "transfer chunk exceeds limit"@,
        }
    }

    /// The reason in words.
    pub fn describe(self) -> (words: String)
        ensures
            words@ == self.told(),
    {
        match self {
            Failure::Ended(reason) => reason,
            Failure::OfferTimedOut => "transfer offer timed out".to_owned(),
            Failure::AckTimedOut => "transfer acknowledgement timed out".to_owned(),
            Failure::CompletionTimedOut => "transfer completion timed out".to_owned(),
            Failure::ChunkTooLarge => "transfer chunk exceeds limit".to_owned(),
        }
    }
}

impl Sender {
    /// The sending end of a transfer that was just offered.
    pub fn new(id: u128, files: u32) -> (sender: Self)
        ensures
            sender == (Sender { id, files, phase: Phase::Offered }),
    {
        Sender { id, files, phase: Phase::Offered }
    }

    /// Goes on with a file, or completes after the last.
    fn open(&mut self, file_index: u32) -> (next: Next)
        ensures
            *final(self) == (Sender {
                phase: from_file(old(self).files, file_index as int),
                ..*old(self)
            }),
            opens(old(self).id, old(self).files, file_index as int, next),
    {
        if file_index < self.files {
            self.phase = Phase::Reading { file_index, offset: 0 };
            Next::Read { file_index }
        } else {
            self.phase = Phase::Finishing;
            Next::Send {
                message: TransferMessage::Complete { id: self.id },
                seconds: ACK_SECONDS,
            }
        }
    }

    /// An answer came, or none did in time. Nothing is expected while a file is
    /// read, and nothing once the transfer is over.
    pub fn answered(&mut self, signal: Option<TransferMessage>) -> (answer: Answer)
        ensures
            answers(*old(self), signal, *final(self), answer),
    {
        match self.phase {
            Phase::Offered => match signal {
                Some(TransferMessage::Response { id: _, accepted }) => {
                    if accepted {
                        let next = self.open(0);
                        Answer { state: Some(TransferState::Transferring), progress: 0, next }
                    } else {
                        self.phase = Phase::Over;
                        Answer {
                            state: Some(TransferState::Rejected),
                            progress: 0,
                            next: Next::Stop,
                        }
                    }
                },
                Some(TransferMessage::Cancel { id: _, reason }) => {
                    self.phase = Phase::Over;
                    Answer { state: None, progress: 0, next: Next::Fail(Failure::Ended(reason)) }
                },
                _ => {
                    self.phase = Phase::Over;
                    Answer { state: None, progress: 0, next: Next::Fail(Failure::OfferTimedOut) }
                },
            },
            Phase::Waiting { file_index, len, wanted } => match signal {
                Some(TransferMessage::Ack { id: _, file_index: index, next_offset }) => {
                    if index == file_index && next_offset == wanted {
                        self.phase = Phase::Reading { file_index, offset: wanted };
                        Answer { state: None, progress: len, next: Next::Read { file_index } }
                    } else {
                        self.phase = Phase::Over;
                        Answer { state: None, progress: 0, next: Next::Fail(Failure::AckTimedOut) }
                    }
                },
                Some(TransferMessage::Cancel { id: _, reason }) => {
                    self.phase = Phase::Over;
                    Answer { state: None, progress: 0, next: Next::Fail(Failure::Ended(reason)) }
                },
                _ => {
                    self.phase = Phase::Over;
                    Answer { state: None, progress: 0, next: Next::Fail(Failure::AckTimedOut) }
                },
            },
            Phase::Finishing => {
                self.phase = Phase::Over;
                match signal {
                    Some(TransferMessage::Finished { id: _ }) => Answer {
                        state: Some(TransferState::Completed),
                        progress: 0,
                        next: Next::Stop,
                    },
                    Some(TransferMessage::Cancel { id: _, reason }) => Answer {
                        state: None,
                        progress: 0,
                        next: Next::Fail(Failure::Ended(reason)),
                    },
                    _ => Answer {
                        state: None,
                        progress: 0,
                        next: Next::Fail(Failure::CompletionTimedOut),
                    },
                }
            },
            _ => Answer { state: None, progress: 0, next: Next::Stop },
        }
    }

    /// Some of a file was read. Nothing read is the end of the file. A chunk of more
    /// than 48 KiB, which the other end would refuse, is never sent.
    pub fn read(&mut self, data: Vec<u8>) -> (next: Next)
        requires
            old(self).phase matches Phase::Reading { file_index, offset } ==> (data@.len()
                <= CHUNK_BYTES ==> offset + data@.len() <= u64::MAX),
        ensures
            reads(*old(self), data, *final(self), next),
            next matches Next::Send { message: TransferMessage::Chunk { data: sent, .. }, .. } ==> 0
                < sent@.len() <= CHUNK_BYTES,
    {
        match self.phase {
            Phase::Reading { file_index, offset } => {
                if data.len() == 0 {
                    if file_index < u32::MAX {
                        self.open(file_index + 1)
                    } else {
                        self.phase = Phase::Finishing;
                        Next::Send {
                            message: TransferMessage::Complete { id: self.id },
                            seconds: ACK_SECONDS,
                        }
                    }
                } else if data.len() > CHUNK_BYTES {
                    self.phase = Phase::Over;
                    Next::Fail(Failure::ChunkTooLarge)
                } else {
                    let len: u64 = data.len() as u64;
                    self.phase = Phase::Waiting { file_index, len, wanted: offset + len };
                    Next::Send {
                        message: TransferMessage::Chunk {
                            id: self.id,
                            file_index,
                            offset,
                            data,
                        },
                        seconds: ACK_SECONDS,
                    }
                }
            },
            _ => Next::Stop,
        }
    }
}

/// What the receiving end has received of a file.
pub open spec fn received(job: JobState, file_index: int) -> u64 {
    match job.kind {
        KindState::Incoming { part_dir, offsets } => offsets[file_index],
        KindState::Outgoing { paths } => 0,
    }
}

/// A chunk that goes on where the receiving end is, and does not go beyond the
/// end of the file, is taken. Its acknowledgement gives the place that the
/// sending end waits for, and the receiving end is at the same place then.
pub proof fn law_chunk_is_taken_and_acknowledged(
    m: ManagerState,
    id: u128,
    file_index: u32,
    offset: u64,
    len: int,
)
    requires
        transfer::sound(m),
        m.jobs.dom().contains(id),
        m.jobs[id].kind is Incoming,
        m.jobs[id].state == TransferState::Transferring,
        file_index < m.jobs[id].files.len(),
        received(m.jobs[id], file_index as int) == offset,
        0 < len <= CHUNK_BYTES,
        offset + len <= m.jobs[id].files[file_index as int].size,
    ensures
        transfer::chunk_fault(m, m.jobs[id].peer, id, file_index, offset, len) is None,
        received(transfer::grown(m.jobs[id], file_index, len), file_index as int) == offset + len,
        forall|other: int|
            0 <= other < m.jobs[id].files.len() && other != file_index ==> #[trigger] received(
                transfer::grown(m.jobs[id], file_index, len),
                other,
            ) == received(m.jobs[id], other),
{
    assert(transfer::sound_job(m.jobs[id]));
}

/// A chunk that does not go on where the receiving end is, that comes twice, or
/// that goes beyond the end of the file, is refused.
pub proof fn law_misplaced_chunk_is_refused(
    m: ManagerState,
    peer: Seq<char>,
    id: u128,
    file_index: u32,
    offset: u64,
    len: int,
)
    requires
        m.jobs.dom().contains(id),
        0 <= len,
        received(m.jobs[id], file_index as int) != offset || offset + len
            > m.jobs[id].files[file_index as int].size,
    ensures
        transfer::chunk_fault(m, peer, id, file_index, offset, len) is Some,
{
}

/// A transfer of which every file has arrived is ready to complete, and one of which
/// any byte is missing is not.
pub proof fn law_transfer_completes_with_its_last_byte(m: ManagerState, id: u128)
    requires
        transfer::sound(m),
        m.jobs.dom().contains(id),
        m.jobs[id].kind is Incoming,
        m.jobs[id].state == TransferState::Transferring,
    ensures
        transfer::finish_fault(m, m.jobs[id].peer, id) is None <==> (forall|i: int|
            0 <= i < m.jobs[id].files.len() ==> #[trigger] received(m.jobs[id], i)
                == m.jobs[id].files[i].size),
{
    let job = m.jobs[id];
    assert(transfer::sound_job(job));
    if let KindState::Incoming { part_dir, offsets } = job.kind {
        let all = protocol::sizes(job.files);
        assert forall|i: int| 0 <= i < offsets.len() implies #[trigger] offsets[i] <= all[i] by {
            assert(offsets[i] <= job.files[i].size);
        }
        protocol::lemma_sum_bounded(offsets, all);
        if transfer::finish_fault(m, job.peer, id) is None {
            assert forall|i: int| 0 <= i < job.files.len() implies #[trigger] received(job, i)
                == job.files[i].size by {
                assert(offsets[i] == all[i]);
            }
        }
        if forall|i: int|
            0 <= i < job.files.len() ==> #[trigger] received(job, i) == job.files[i].size {
            assert forall|i: int| 0 <= i < offsets.len() implies offsets[i] == all[i] by {
                assert(received(job, i) == job.files[i].size);
            }
            assert(offsets =~= all);
        }
    }
}

/// What a part holds once data was written to it at an offset.
pub open spec fn overwritten(part: Seq<u8>, offset: int, data: Seq<u8>) -> Seq<u8> {
    part.take(offset) + data
}

/// What a part holds once chunks were written to it, each where the one before
/// ended.
pub open spec fn rebuilt(chunks: Seq<Seq<u8>>) -> Seq<u8>
    decreases chunks.len(),
{
    if chunks.len() == 0 {
        Seq::empty()
    } else {
        let before = rebuilt(chunks.drop_last());
        overwritten(before, before.len() as int, chunks.last())
    }
}

/// However a file is cut into chunks, the parts written from them are the file.
pub proof fn law_file_is_rebuilt(chunks: Seq<Seq<u8>>)
    ensures
        rebuilt(chunks) == chunks.flatten(),
    decreases chunks.len(),
{
    if chunks.len() > 0 {
        law_file_is_rebuilt(chunks.drop_last());
        let before = rebuilt(chunks.drop_last());
        assert(before.take(before.len() as int) =~= before);
        assert(chunks.drop_last().push(chunks.last()) =~= chunks);
        chunks.drop_last().lemma_flatten_push(chunks.last());
    } else {
        assert(chunks.flatten() =~= Seq::empty());
    }
}

/// The end of a file: the next file is read from its beginning, if there is one,
/// and behind the last file the transfer is completed.
pub proof fn law_end_of_file_opens_the_next(
    before: Sender,
    data: Vec<u8>,
    after: Sender,
    next: Next,
)
    requires
        before.phase is Reading,
        data@.len() == 0,
        reads(before, data, after, next),
    ensures
        before.phase->Reading_file_index + 1 < before.files ==> {
            &&& next == (Next::Read { file_index: (before.phase->Reading_file_index + 1) as u32 })
            &&& after.phase == (Phase::Reading {
                file_index: (before.phase->Reading_file_index + 1) as u32,
                offset: 0,
            })
        },
        before.phase->Reading_file_index + 1 == before.files ==> {
            &&& next == (Next::Send {
                message: TransferMessage::Complete { id: before.id },
                seconds: 30,
            })
            &&& after.phase is Finishing
        },
        next is Read <==> before.phase->Reading_file_index + 1 < before.files,
{
}

/// What was read of a file is sent as it is, with the file and the place that it
/// was read from. The acknowledgement of exactly that much makes the sending end
/// read on behind it, and counts it as arrived; any other acknowledgement ends the
/// transfer.
pub proof fn law_chunk_goes_out_and_reading_goes_on(
    before: Sender,
    data: Vec<u8>,
    between: Sender,
    next: Next,
    id: u128,
    file_index: u32,
    next_offset: u64,
    after: Sender,
    answer: Answer,
)
    requires
        before.phase is Reading,
        0 < data@.len() <= 49_152,
        before.phase->offset + data@.len() <= u64::MAX,
        reads(before, data, between, next),
        answers(
            between,
            Some(TransferMessage::Ack { id, file_index, next_offset }),
            after,
            answer,
        ),
    ensures
        next == (Next::Send {
            message: TransferMessage::Chunk {
                id: before.id,
                file_index: before.phase->Reading_file_index,
                offset: before.phase->offset,
                data,
            },
            seconds: 30,
        }),
        file_index == before.phase->Reading_file_index && next_offset == before.phase->offset
            + data@.len() ==> {
            &&& answer == (Answer {
                state: None,
                progress: data@.len() as u64,
                next: Next::Read { file_index },
            })
            &&& after == (Sender {
                phase: Phase::Reading { file_index, offset: next_offset },
                ..before
            })
        },
        !(file_index == before.phase->Reading_file_index && next_offset == before.phase->offset
            + data@.len()) ==> answer.progress == 0 && answer.next == Next::Fail(
            Failure::AckTimedOut,
        ) && after.phase is Over,
{
}

/// More than 48 KiB at once is never sent: the transfer is given up.
pub proof fn law_large_chunk_is_not_sent(
    before: Sender,
    data: Vec<u8>,
    after: Sender,
    next: Next,
)
    requires
        before.phase is Reading,
        data@.len() > 49_152,
        reads(before, data, after, next),
    ensures
        next == Next::Fail(Failure::ChunkTooLarge),
        after.phase is Over,
{
}

/// What becomes of an offer: an accepted one starts with the first file, or
/// completes at once if there is none; a rejected one stops; without an answer in
/// time it fails, and a cancelled one fails for the reason that the other end
/// gave.
pub proof fn law_offer_is_answered(
    before: Sender,
    signal: Option<TransferMessage>,
    after: Sender,
    answer: Answer,
    id: u128,
    reason: String,
)
    requires
        before.phase is Offered,
        answers(before, signal, after, answer),
    ensures
        signal == Some(TransferMessage::Response { id, accepted: true }) ==> {
            &&& answer.state == Some(TransferState::Transferring)
            &&& before.files > 0 ==> answer.next == (Next::Read { file_index: 0 })
                && after.phase == (Phase::Reading { file_index: 0, offset: 0 })
            &&& before.files == 0 ==> answer.next == (Next::Send {
                message: TransferMessage::Complete { id: before.id },
                seconds: 30,
            }) && after.phase is Finishing
        },
        signal == Some(TransferMessage::Response { id, accepted: false }) ==> answer.state == Some(
            TransferState::Rejected,
        ) && answer.next is Stop && after.phase is Over,
        signal == Some(TransferMessage::Cancel { id, reason }) ==> answer.state is None
            && after.phase is Over && (answer.next matches Next::Fail(Failure::Ended(why)) && why@
            == reason@),
        signal is None ==> answer.state is None && answer.next == Next::Fail(
            Failure::OfferTimedOut,
        ) && after.phase is Over,
        answer.progress == 0,
{
}

/// A transfer that was sent whole is completed exactly when the other end says
/// that it has finished; else it fails, for the reason of the other end or because
/// none came in time.
pub proof fn law_completion_is_confirmed(
    before: Sender,
    signal: Option<TransferMessage>,
    after: Sender,
    answer: Answer,
    id: u128,
    reason: String,
)
    requires
        before.phase is Finishing,
        answers(before, signal, after, answer),
    ensures
        after.phase is Over,
        answer.progress == 0,
        (signal is Some && signal->0 is Finished) <==> answer.state == Some(
            TransferState::Completed,
        ),
        (signal is Some && signal->0 is Finished) <==> answer.next is Stop,
        answer.state is Some ==> answer.state == Some(TransferState::Completed),
        signal == Some(TransferMessage::Cancel { id, reason }) ==> (answer.next matches Next::Fail(
            Failure::Ended(why),
        ) && why@ == reason@),
        signal is None ==> answer.next == Next::Fail(Failure::CompletionTimedOut),
{
}

/// A chunk that is cancelled, or not acknowledged in time, ends the transfer; and
/// once it is over nothing changes any more.
pub proof fn law_transfer_that_ends_stays_over(
    before: Sender,
    signal: Option<TransferMessage>,
    after: Sender,
    answer: Answer,
    id: u128,
    reason: String,
)
    requires
        answers(before, signal, after, answer),
    ensures
        before.phase is Waiting && signal is None ==> after.phase is Over && answer.next
            == Next::Fail(Failure::AckTimedOut),
        before.phase is Waiting && signal == Some(TransferMessage::Cancel { id, reason }) ==> (
        after.phase is Over && (answer.next matches Next::Fail(Failure::Ended(why)) && why@
            == reason@)),
        before.phase is Over ==> after == before && answer.next is Stop && answer.progress == 0
            && answer.state is None,
{
}

/// One round of the sending end: some of a file is read, and where there was
/// anything to read it is sent and acknowledged.
pub struct Round {
    pub before: Sender,
    pub data: Vec<u8>,
    pub next: Next,
    pub between: Sender,
    pub answer: Answer,
    pub after: Sender,
}

/// Whether a round goes as it should: no more is read than a chunk may carry, and
/// the other end acknowledges the chunk that was sent.
pub open spec fn goes_well(round: Round) -> bool {
    &&& round.before.phase is Reading
    &&& round.data@.len() <= CHUNK_BYTES
    &&& round.before.phase->offset + round.data@.len() <= u64::MAX
    &&& reads(round.before, round.data, round.between, round.next)
    &&& round.data@.len() == 0 ==> round.after == round.between
    &&& round.data@.len() > 0 ==> exists|signal: TransferMessage|
        acknowledges(round.next, signal) && #[trigger] answers(
            round.between,
            Some(signal),
            round.after,
            round.answer,
        )
}

/// Whether an answer acknowledges the chunk that was sent: it names the file and
/// the place behind the chunk.
pub open spec fn acknowledges(next: Next, signal: TransferMessage) -> bool {
    next matches Next::Send {
        message: TransferMessage::Chunk { id: sent, file_index, offset, data },
        ..
    } && (signal matches TransferMessage::Ack { id, file_index: index, next_offset } && index
        == file_index && next_offset == offset + data@.len())
}

/// Whether rounds follow one another from a start.
pub open spec fn follow(start: Sender, rounds: Seq<Round>) -> bool {
    &&& forall|i: int| 0 <= i < rounds.len() ==> goes_well(#[trigger] rounds[i])
    &&& forall|i: int|
        0 <= i < rounds.len() ==> (#[trigger] rounds[i]).before == if i == 0 {
            start
        } else {
            rounds[i - 1].after
        }
}

/// How many files ended in some rounds.
pub open spec fn files_ended(rounds: Seq<Round>) -> nat
    decreases rounds.len(),
{
    if rounds.len() == 0 {
        0
    } else if rounds.last().data@.len() == 0 {
        files_ended(rounds.drop_last()) + 1
    } else {
        files_ended(rounds.drop_last())
    }
}

/// How many bytes were read since the last file ended.
pub open spec fn bytes_since(rounds: Seq<Round>) -> nat
    decreases rounds.len(),
{
    if rounds.len() == 0 || rounds.last().data@.len() == 0 {
        0
    } else {
        bytes_since(rounds.drop_last()) + rounds.last().data@.len()
    }
}

/// How many bytes were acknowledged in some rounds.
pub open spec fn bytes_acknowledged(rounds: Seq<Round>) -> nat
    decreases rounds.len(),
{
    if rounds.len() == 0 {
        0
    } else if rounds.last().data@.len() == 0 {
        bytes_acknowledged(rounds.drop_last())
    } else {
        bytes_acknowledged(rounds.drop_last()) + rounds.last().answer.progress as nat
    }
}

/// How many bytes were read in some rounds.
pub open spec fn bytes_read(rounds: Seq<Round>) -> nat
    decreases rounds.len(),
{
    if rounds.len() == 0 {
        0
    } else {
        bytes_read(rounds.drop_last()) + rounds.last().data@.len()
    }
}

/// An accepted offer of some files, all of whose chunks are acknowledged, reads
/// the first file, then the second, and so on to the last, each once: while some
/// file has not ended, the file behind those that ended is read, at the place up
/// to which it was read; once all have ended, and no sooner, the transfer is
/// completed. As many bytes count as arrived as were read.
pub proof fn law_files_are_sent_in_order(
    offered: Sender,
    id: u128,
    start: Sender,
    answer: Answer,
    rounds: Seq<Round>,
)
    requires
        offered.phase is Offered,
        offered.files > 0,
        answers(offered, Some(TransferMessage::Response { id, accepted: true }), start, answer),
        follow(start, rounds),
    ensures
        ({
            let now = if rounds.len() == 0 {
                start
            } else {
                rounds.last().after
            };
            let ended = files_ended(rounds);
            &&& now.id == offered.id
            &&& now.files == offered.files
            &&& ended <= offered.files
            &&& ended < offered.files ==> now.phase == (Phase::Reading {
                file_index: ended as u32,
                offset: bytes_since(rounds) as u64,
            }) && bytes_since(rounds) <= u64::MAX
            &&& ended == offered.files <==> now.phase is Finishing
            &&& bytes_acknowledged(rounds) == bytes_read(rounds)
            &&& rounds.len() == 0 ==> answer.next == (Next::Read { file_index: 0 })
            &&& rounds.len() > 0 && rounds.last().data@.len() == 0 ==> rounds.last().next == if ended
                < offered.files {
                Next::Read { file_index: ended as u32 }
            } else {
                Next::Send {
                    message: TransferMessage::Complete { id: offered.id },
                    seconds: 30,
                }
            }
            &&& rounds.len() > 0 && rounds.last().data@.len() > 0 ==> rounds.last().next == (
            Next::Send {
                message: TransferMessage::Chunk {
                    id: offered.id,
                    file_index: ended as u32,
                    offset: (bytes_since(rounds) - rounds.last().data@.len()) as u64,
                    data: rounds.last().data,
                },
                seconds: 30,
            }) && rounds.last().answer.next == (Next::Read { file_index: ended as u32 })
        }),
    decreases rounds.len(),
{
    if rounds.len() > 0 {
        let fewer = rounds.drop_last();
        let last = rounds.last();
        assert forall|i: int| 0 <= i < fewer.len() implies goes_well(#[trigger] fewer[i]) by {
            assert(goes_well(rounds[i]));
        }
        assert forall|i: int| 0 <= i < fewer.len() implies (#[trigger] fewer[i]).before == if i
            == 0 {
            start
        } else {
            fewer[i - 1].after
        } by {
            assert(rounds[i].before == if i == 0 {
                start
            } else {
                rounds[i - 1].after
            });
        }
        law_files_are_sent_in_order(offered, id, start, answer, fewer);
        let n = rounds.len() - 1;
        assert(goes_well(rounds[n]));
        assert(rounds[n].before == if n == 0 {
            start
        } else {
            rounds[n - 1].after
        });
        assert(n > 0 ==> fewer.last() == rounds[n - 1]);
    }
}

/// The reason that the other end gave is told as it was given, and the other reasons are
/// told apart.
pub proof fn law_reasons_are_told(reason: String)
    ensures
        Failure::Ended(reason).told() == reason@,
        Failure::OfferTimedOut.told() != Failure::AckTimedOut.told(),
        Failure::OfferTimedOut.told() != Failure::CompletionTimedOut.told(),
        Failure::AckTimedOut.told() != Failure::CompletionTimedOut.told(),
        Failure::ChunkTooLarge.told() != Failure::OfferTimedOut.told(),
        Failure::ChunkTooLarge.told() != Failure::AckTimedOut.told(),
        Failure::ChunkTooLarge.told() != Failure::CompletionTimedOut.told(),
{
    reveal_strlit("transfer offer timed out");
    reveal_strlit("transfer acknowledgement timed out");
    reveal_strlit("transfer completion timed out");
    reveal_strlit("transfer chunk exceeds limit");
    assert(Failure::OfferTimedOut.told().len() == 24);
    assert(Failure::AckTimedOut.told().len() == 34);
    assert(Failure::CompletionTimedOut.told().len() == 29);
    assert(Failure::ChunkTooLarge.told().len() == 28);
}

} // verus!
