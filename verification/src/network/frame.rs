//! Cutting a message into chunks and putting it together again.

use vstd::prelude::*;

use crate::bytes;
use crate::network::MAX_NOISE_PLAINTEXT;
use crate::path;

verus! {

/// The bytes in front of a chunk: the message's number, the chunk's, and how
/// many there are.
pub const CHUNK_HEADER: usize = 16;

/// The most bytes of a message in one chunk.
pub const CHUNK_CONTENT: usize = 59_984;

/// The most chunks of a message.
pub const MAX_CHUNKS: u32 = 512;

/// The most bytes of a message: those of a payload and 256 KiB for the rest.
pub const MAX_MESSAGE_BYTES: usize = 17_039_360;

/// Why chunks make no message.
#[derive(Clone, Copy, Debug, PartialEq, Eq, Structural)]
pub enum FrameError {
    ShortChunk,
    WrongSequence,
    TooLarge,
}

/// What is in front of a chunk.
pub open spec fn header(group: u64, index: int, total: int) -> Seq<u8> {
    bytes::be(group as nat, 8) + bytes::be(index as nat, 4) + bytes::be(total as nat, 4)
}

/// How many chunks a message of so many bytes has.
pub open spec fn chunk_count(len: int) -> int {
    (len + CHUNK_CONTENT - 1) / (CHUNK_CONTENT as int)
}

/// Where a chunk of a message ends.
pub open spec fn chunk_end(len: int, index: int) -> int {
    if (index + 1) * CHUNK_CONTENT < len {
        (index + 1) * CHUNK_CONTENT
    } else {
        len
    }
}

/// A chunk of a message.
pub open spec fn chunk_of(message: Seq<u8>, group: u64, index: int) -> Seq<u8> {
    header(group, index, chunk_count(message.len() as int)) + message.subrange(
        index * CHUNK_CONTENT,
        chunk_end(message.len() as int, index),
    )
}

proof fn lemma_header_len(group: u64, index: int, total: int)
    requires
        0 <= index,
        0 <= total,
    ensures
        header(group, index, total).len() == CHUNK_HEADER,
{
    bytes::lemma_be_len(group as nat, 8);
    bytes::lemma_be_len(index as nat, 4);
    bytes::lemma_be_len(total as nat, 4);
}

proof fn lemma_header_read(group: u64, index: int, total: int, content: Seq<u8>)
    requires
        0 <= index <= u32::MAX,
        0 <= total <= u32::MAX,
    ensures
        ({
            let chunk = header(group, index, total) + content;
            &&& bytes::be_value(chunk.subrange(0, 8)) == group
            &&& bytes::be_value(chunk.subrange(8, 12)) == index
            &&& bytes::be_value(chunk.subrange(12, 16)) == total
            &&& chunk.skip(16) == content
        }),
{
    let chunk = header(group, index, total) + content;
    lemma_header_len(group, index, total);
    bytes::lemma_spans();
    bytes::lemma_be_len(group as nat, 8);
    bytes::lemma_be_len(index as nat, 4);
    bytes::lemma_be_len(total as nat, 4);
    bytes::lemma_be_round_trip(group as nat, 8);
    bytes::lemma_be_round_trip(index as nat, 4);
    bytes::lemma_be_round_trip(total as nat, 4);
    assert(chunk.subrange(0, 8) =~= bytes::be(group as nat, 8));
    assert(chunk.subrange(8, 12) =~= bytes::be(index as nat, 4));
    assert(chunk.subrange(12, 16) =~= bytes::be(total as nat, 4));
    assert(chunk.skip(16) =~= content);
}

/// The chunks of a message.
pub fn fragment(message: &[u8], group: u64) -> (chunks: Vec<Vec<u8>>)
    requires
        chunk_count(message@.len() as int) <= u32::MAX,
        message@.len() <= usize::MAX - CHUNK_CONTENT,
    ensures
        chunks@.len() == chunk_count(message@.len() as int),
        forall|i: int|
            0 <= i < chunks@.len() ==> (#[trigger] chunks@[i])@ == chunk_of(message@, group, i),
        forall|i: int|
            0 <= i < chunks@.len() ==> CHUNK_HEADER < (#[trigger] chunks@[i])@.len()
                <= MAX_NOISE_PLAINTEXT,
{
    let n: usize = message.len();
    let total: usize = (n + (CHUNK_CONTENT - 1)) / CHUNK_CONTENT;
    let mut chunks: Vec<Vec<u8>> = Vec::new();
    let mut start: usize = 0;
    let mut index: usize = 0;
    while start < n
        invariant
            n == message@.len(),
            n <= usize::MAX - CHUNK_CONTENT,
            total == chunk_count(n as int),
            total <= u32::MAX,
            chunks@.len() == index,
            start == if index * CHUNK_CONTENT < n {
                index * CHUNK_CONTENT
            } else {
                n as int
            },
            index <= total,
            forall|i: int|
                0 <= i < index ==> (#[trigger] chunks@[i])@ == chunk_of(message@, group, i),
            forall|i: int|
                0 <= i < index ==> CHUNK_HEADER < (#[trigger] chunks@[i])@.len()
                    <= MAX_NOISE_PLAINTEXT,
        decreases n - start,
    {
        assert(start == index * CHUNK_CONTENT);
        assert(index < total);
        let end: usize = if n - start > CHUNK_CONTENT {
            start + CHUNK_CONTENT
        } else {
            n
        };
        assert(end == chunk_end(n as int, index as int));
        let mut chunk: Vec<u8> = Vec::new();
        bytes::append_u64(&mut chunk, group);
        bytes::append_u32(&mut chunk, index as u32);
        bytes::append_u32(&mut chunk, total as u32);
        proof {
            lemma_header_len(group, index as int, total as int);
            assert(chunk@ =~= header(group, index as int, total as int));
        }
        let part = path::copy_range(message, start, end);
        bytes::append(&mut chunk, part.as_slice());
        assert(chunk@ =~= chunk_of(message@, group, index as int));
        chunks.push(chunk);
        start = end;
        index = index + 1;
    }
    chunks
}

/// A message that is being put together.
#[derive(Debug, PartialEq, Eq)]
pub struct Assembly {
    pub all: Vec<u8>,
    pub group: Option<u64>,
    pub index: u32,
}

/// What is wrong with a chunk, if anything is: it is too short, it is not the
/// next chunk of the same message, or the message gets too large with it.
pub open spec fn chunk_fault(a: Assembly, chunk: Seq<u8>) -> Option<FrameError> {
    let group = bytes::be_value(chunk.subrange(0, 8));
    let index = bytes::be_value(chunk.subrange(8, 12));
    let total = bytes::be_value(chunk.subrange(12, 16));
    if chunk.len() < CHUNK_HEADER {
        Some(FrameError::ShortChunk)
    } else if (a.group matches Some(known) && known != group) || index != a.index || total == 0
        || total > MAX_CHUNKS {
        Some(FrameError::WrongSequence)
    } else if a.all@.len() + chunk.len() - CHUNK_HEADER > MAX_MESSAGE_BYTES {
        Some(FrameError::TooLarge)
    } else {
        None
    }
}

/// Whether a chunk is taken in: what is put together then, and whether it was the last.
pub open spec fn accepts(
    before: Assembly,
    chunk: Seq<u8>,
    after: Assembly,
    result: Result<bool, FrameError>,
) -> bool {
    match chunk_fault(before, chunk) {
        Some(error) => result == Err::<bool, FrameError>(error) && after == before,
        None => {
            let total = bytes::be_value(chunk.subrange(12, 16));
            &&& result == Ok::<bool, FrameError>(before.index + 1 == total)
            &&& after.all@ == before.all@ + chunk.skip(CHUNK_HEADER as int)
            &&& after.group == Some(bytes::be_value(chunk.subrange(0, 8)) as u64)
            &&& after.index == before.index + 1
        },
    }
}

impl Assembly {
    /// Nothing has arrived yet.
    pub fn new() -> (assembly: Self)
        ensures
            assembly.all@.len() == 0,
            assembly.group is None,
            assembly.index == 0,
    {
        Assembly { all: Vec::new(), group: None, index: 0 }
    }

    /// Takes a chunk in, unless something is wrong with it, and says whether it
    /// was the last.
    pub fn accept(&mut self, chunk: &[u8]) -> (result: Result<bool, FrameError>)
        requires
            old(self).index < u32::MAX,
        ensures
            accepts(*old(self), chunk@, *final(self), result),
    {
        if chunk.len() < CHUNK_HEADER {
            return Err(FrameError::ShortChunk);
        }
        let group: u64 = bytes::read_be(chunk, 0, 8);
        let index: u64 = bytes::read_be(chunk, 8, 12);
        let total: u64 = bytes::read_be(chunk, 12, 16);
        let other = match self.group {
            Some(known) => known != group,
            None => false,
        };
        if other || index != self.index as u64 || total == 0 || total > MAX_CHUNKS as u64 {
            return Err(FrameError::WrongSequence);
        }
        let content = path::copy_range(chunk, CHUNK_HEADER, chunk.len());
        assert(content@ =~= chunk@.skip(CHUNK_HEADER as int));
        if content.len() > MAX_MESSAGE_BYTES || self.all.len() > MAX_MESSAGE_BYTES - content.len() {
            return Err(FrameError::TooLarge);
        }
        bytes::append(&mut self.all, content.as_slice());
        self.group = Some(group);
        self.index = self.index + 1;
        Ok(self.index as u64 == total)
    }
}

/// What a message is put together to from its first chunks, taken in order.
pub open spec fn assembled(message: Seq<u8>, n: int) -> Seq<u8> {
    message.take(
        if n <= 0 {
            0
        } else {
            chunk_end(message.len() as int, n - 1)
        },
    )
}

/// Whether something is put together from the first chunks of a message.
pub open spec fn holds_first(a: Assembly, message: Seq<u8>, group: u64, n: int) -> bool {
    &&& a.index == n
    &&& a.all@ == assembled(message, n)
    &&& a.group == if n == 0 {
        None::<u64>
    } else {
        Some(group)
    }
}

/// The next chunk of a message that is not too large is taken in, and with the last one
/// the message is there: it is the message that was cut.
pub proof fn law_next_chunk_is_taken_in(
    message: Seq<u8>,
    group: u64,
    before: Assembly,
    after: Assembly,
    result: Result<bool, FrameError>,
    n: int,
)
    requires
        0 < message.len() <= MAX_MESSAGE_BYTES,
        0 <= n < chunk_count(message.len() as int),
        holds_first(before, message, group, n),
        accepts(before, chunk_of(message, group, n), after, result),
    ensures
        chunk_fault(before, chunk_of(message, group, n)) is None,
        holds_first(after, message, group, n + 1),
        result == Ok::<bool, FrameError>(n + 1 == chunk_count(message.len() as int)),
        n + 1 == chunk_count(message.len() as int) ==> after.all@ == message,
{
    let len = message.len() as int;
    let total = chunk_count(len);
    let start = n * CHUNK_CONTENT;
    let end = chunk_end(len, n);
    let content = message.subrange(start, end);
    assert(total <= 285);
    assert(start < len);
    lemma_header_read(group, n, total, content);
    lemma_header_len(group, n, total);
    let chunk = chunk_of(message, group, n);
    assert(chunk == header(group, n, total) + content);
    if n > 0 {
        assert(chunk_end(len, n - 1) == start);
    }
    assert(assembled(message, n) =~= message.take(start));
    assert(message.take(start) + content =~= message.take(end));
    if n + 1 == total {
        assert(end == len);
        assert(message.take(len) =~= message);
    }
}

/// A message that is not too large is put together again from its chunks: each is taken
/// in, only the last is said to be the last, and what is there then is the message that
/// was cut.
pub proof fn law_chunks_make_the_message(
    message: Seq<u8>,
    group: u64,
    states: Seq<Assembly>,
    results: Seq<Result<bool, FrameError>>,
    n: int,
)
    requires
        0 < message.len() <= 17_039_360,
        states.len() == chunk_count(message.len() as int) + 1,
        results.len() == chunk_count(message.len() as int),
        states[0].all@.len() == 0,
        states[0].group is None,
        states[0].index == 0,
        forall|i: int|
            0 <= i < results.len() ==> accepts(
                states[i],
                chunk_of(message, group, i),
                states[i + 1],
                #[trigger] results[i],
            ),
        0 <= n <= results.len(),
    ensures
        forall|i: int|
            0 <= i < n ==> #[trigger] results[i] == Ok::<bool, FrameError>(i + 1 == results.len()),
        holds_first(states[n], message, group, n),
        n == results.len() ==> states[n].all@ == message,
    decreases n,
{
    if n > 0 {
        law_chunks_make_the_message(message, group, states, results, n - 1);
        assert(accepts(
            states[n - 1],
            chunk_of(message, group, n - 1),
            states[n],
            results[n - 1],
        ));
        law_next_chunk_is_taken_in(
            message,
            group,
            states[n - 1],
            states[n],
            results[n - 1],
            n - 1,
        );
    } else {
        assert(assembled(message, 0) =~= Seq::empty());
        assert(states[0].all@ =~= Seq::empty());
        assert(chunk_count(message.len() as int) > 0);
    }
}

/// How a message is cut: each chunk has the message's number, its own and how many there
/// are in front of it, in sixteen bytes, and the next part of the message behind that; no
/// chunk is longer than a record may be, and no two overlap or leave a gap.
pub proof fn law_message_is_cut_without_gaps(message: Seq<u8>, group: u64, i: int)
    requires
        0 <= i < chunk_count(message.len() as int),
        message.len() <= 17_039_360,
    ensures
        ({
            let chunk = chunk_of(message, group, i);
            let n = message.len() as int;
            &&& 16 < chunk.len() <= 60_000
            &&& bytes::be_value(chunk.subrange(0, 8)) == group
            &&& bytes::be_value(chunk.subrange(8, 12)) == i
            &&& bytes::be_value(chunk.subrange(12, 16)) == chunk_count(n)
            &&& chunk.skip(16) == message.subrange(
                i * 59_984,
                if i + 1 == chunk_count(n) {
                    n
                } else {
                    (i + 1) * 59_984
                },
            )
            &&& (chunk_count(n) - 1) * 59_984 < n <= chunk_count(n) * 59_984
        }),
{
    let n = message.len() as int;
    let total = chunk_count(n);
    let content = message.subrange(i * CHUNK_CONTENT, chunk_end(n, i));
    assert(total <= 285);
    lemma_header_read(group, i, total, content);
    lemma_header_len(group, i, total);
}

/// A chunk is refused that is too short to say what it is, that is not the next one, that
/// belongs to another message, that claims to be one of none or of more than 512, or with
/// which the message would get too large; nothing changes then. Any other is taken in, and
/// what it carries is put behind what is there.
pub proof fn law_misplaced_chunks_are_refused(
    before: Assembly,
    chunk: Seq<u8>,
    after: Assembly,
    result: Result<bool, FrameError>,
)
    requires
        accepts(before, chunk, after, result),
    ensures
        chunk.len() < 16 ==> result == Err::<bool, FrameError>(FrameError::ShortChunk),
        result is Err ==> after == before,
        chunk.len() >= 16 ==> {
            let group = bytes::be_value(chunk.subrange(0, 8));
            let index = bytes::be_value(chunk.subrange(8, 12));
            let total = bytes::be_value(chunk.subrange(12, 16));
            let next = (before.group is Some ==> before.group->0 == group) && index == before.index
                && 1 <= total <= 512;
            let small = before.all@.len() + chunk.len() - 16 <= 17_039_360;
            &&& !next ==> result == Err::<bool, FrameError>(FrameError::WrongSequence)
            &&& next && !small ==> result == Err::<bool, FrameError>(FrameError::TooLarge)
            &&& next && small ==> result == Ok::<bool, FrameError>(index + 1 == total)
                && after.all@ == before.all@ + chunk.skip(16) && after.index == before.index + 1
                && after.group is Some && (group <= u64::MAX ==> after.group->0 == group)
        },
{
}

} // verus!
