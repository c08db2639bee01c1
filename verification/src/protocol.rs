//! What paired devices tell each other about the clipboard.

use vstd::prelude::*;

use crate::bytes;
use crate::foreign;
use crate::ordering::VersionVector;
use crate::text;
use crate::transfer::protocol;
use crate::transfer::protocol::TransferMessage;

verus! {

/// The version of the messages.
pub const PROTOCOL_VERSION: u16 = 4;

/// The most bytes of a clipboard text on its own.
pub const MAX_TEXT_BYTES: usize = 1_048_576;

/// The most bytes of a clipboard payload: 16 MiB.
pub const MAX_PAYLOAD_BYTES: usize = 16_777_216;

/// The most files of a clipboard payload.
pub const MAX_FILES: usize = 64;

/// A copied file.
#[derive(Debug, PartialEq, Eq)]
pub struct ClipboardFile {
    pub name: String,
    pub data: Vec<u8>,
}

/// What is on a clipboard, in every form it is offered in.
#[derive(Debug, PartialEq, Eq)]
pub struct ClipboardPayload {
    pub text: Option<String>,
    pub html: Option<String>,
    pub rtf: Option<String>,
    pub png: Option<Vec<u8>>,
    pub files: Vec<ClipboardFile>,
}

/// What a copied file is.
#[verifier::ext_equal]
pub struct FileState {
    pub name: Seq<char>,
    pub data: Seq<u8>,
}

/// What is on a clipboard.
#[verifier::ext_equal]
pub struct PayloadState {
    pub text: Option<Seq<char>>,
    pub html: Option<Seq<char>>,
    pub rtf: Option<Seq<char>>,
    pub png: Option<Seq<u8>>,
    pub files: Seq<FileState>,
}

/// A clipboard change on some device.
#[derive(Debug, PartialEq, Eq)]
pub struct ClipboardEvent {
    pub id: u128,
    pub origin: String,
    pub sequence: u64,
    pub clock: VersionVector,
    pub payload: ClipboardPayload,
    pub digest: [u8; 32],
}

/// What a clipboard change is.
#[verifier::ext_equal]
pub struct EventState {
    pub id: u128,
    pub origin: Seq<char>,
    pub sequence: u64,
    pub clock: Map<Seq<char>, u64>,
    pub payload: PayloadState,
    pub digest: Seq<u8>,
}

/// A message between paired devices.
#[derive(Debug, PartialEq, Eq)]
pub enum Message {
    Hello { version: u16, device_id: String },
    Clipboard(ClipboardEvent),
    Transfer(TransferMessage),
    Ping,
}

/// Why a payload or an event is refused.
#[derive(Clone, Copy, Debug, PartialEq, Eq, Structural)]
pub enum ProtocolError {
    EmptyText,
    TextTooLarge,
    EmptyPayload,
    PayloadTooLarge,
    TooManyFiles,
    InvalidFileName,
    DuplicateFileName,
    DigestMismatch,
    SequenceMismatch,
}

/// How many bytes an optional text has.
pub open spec fn text_size(words: Option<Seq<char>>) -> int {
    match words {
        Some(words) => text::bytes_of(words).len() as int,
        None => 0,
    }
}

/// How many bytes files have, names included.
pub open spec fn files_size(files: Seq<FileState>) -> int
    decreases files.len(),
{
    if files.len() == 0 {
        0
    } else {
        files_size(files.drop_last()) + text::bytes_of(files.last().name).len()
            + files.last().data.len()
    }
}

/// How many bytes a payload has in all its forms.
pub open spec fn payload_size(p: PayloadState) -> int {
    text_size(p.text) + text_size(p.html) + text_size(p.rtf) + (match p.png {
        Some(png) => png.len() as int,
        None => 0,
    }) + files_size(p.files)
}

/// Whether the first names of a list of files are file names and differ from
/// all before them.
pub open spec fn files_fault(files: Seq<FileState>, n: int) -> Option<ProtocolError>
    decreases n,
{
    if n <= 0 {
        None
    } else if files_fault(files, n - 1) is Some {
        files_fault(files, n - 1)
    } else if !protocol::is_file_name(files[n - 1].name) {
        Some(ProtocolError::InvalidFileName)
    } else if exists|j: int| 0 <= j < n - 1 && (#[trigger] files[j]).name == files[n - 1].name {
        Some(ProtocolError::DuplicateFileName)
    } else {
        None
    }
}

/// What is wrong with a payload, if anything is.
pub open spec fn payload_fault(p: PayloadState) -> Option<ProtocolError> {
    if p.files.len() > MAX_FILES {
        Some(ProtocolError::TooManyFiles)
    } else if payload_size(p) == 0 {
        Some(ProtocolError::EmptyPayload)
    } else if payload_size(p) > MAX_PAYLOAD_BYTES {
        Some(ProtocolError::PayloadTooLarge)
    } else {
        files_fault(p.files, p.files.len() as int)
    }
}

/// A byte string with its length in front of it.
pub open spec fn framed(data: Seq<u8>) -> Seq<u8> {
    bytes::be(data.len(), 8) + data
}

/// An optional byte string as part of a digest.
pub open spec fn coded(data: Option<Seq<u8>>) -> Seq<u8> {
    match data {
        Some(data) => seq![1u8] + framed(data),
        None => seq![0u8],
    }
}

/// The bytes of an optional text.
pub open spec fn raw(words: Option<Seq<char>>) -> Option<Seq<u8>> {
    match words {
        Some(words) => Some(text::bytes_of(words)),
        None => None,
    }
}

/// Files as part of a digest.
pub open spec fn coded_files(files: Seq<FileState>) -> Seq<u8>
    decreases files.len(),
{
    if files.len() == 0 {
        Seq::empty()
    } else {
        coded_files(files.drop_last()) + framed(text::bytes_of(files.last().name)) + framed(
            files.last().data,
        )
    }
}

/// What the digest of a payload covers.
pub open spec fn coded_payload(p: PayloadState) -> Seq<u8> {
    coded(raw(p.text)) + coded(raw(p.html)) + coded(raw(p.rtf)) + coded(p.png) + bytes::be(
        p.files.len(),
        8,
    ) + coded_files(p.files)
}

/// The digest of a payload.
pub open spec fn digest_of(p: PayloadState) -> Seq<u8> {
    foreign::blake3_hash(coded_payload(p))
}

/// What is wrong with an event, if anything is: with its payload, with the
/// digest, or with the place that it claims in its own clock.
pub open spec fn event_fault(e: EventState) -> Option<ProtocolError> {
    if payload_fault(e.payload) is Some {
        payload_fault(e.payload)
    } else if e.digest != digest_of(e.payload) {
        Some(ProtocolError::DigestMismatch)
    } else if !(e.clock.dom().contains(e.origin) && e.clock[e.origin] == e.sequence) {
        Some(ProtocolError::SequenceMismatch)
    } else {
        None
    }
}

/// The characters of a text, if there is one.
pub open spec fn words_of(words: Option<String>) -> Option<Seq<char>> {
    match words {
        Some(words) => Some(words@),
        None => None,
    }
}

impl View for ClipboardFile {
    type V = FileState;

    open spec fn view(&self) -> FileState {
        FileState { name: self.name@, data: self.data@ }
    }
}

/// What a list of copied files is.
pub open spec fn files_of(files: Seq<ClipboardFile>) -> Seq<FileState> {
    files.map_values(|file: ClipboardFile| file@)
}

impl View for ClipboardPayload {
    type V = PayloadState;

    open spec fn view(&self) -> PayloadState {
        PayloadState {
            text: words_of(self.text),
            html: words_of(self.html),
            rtf: words_of(self.rtf),
            png: match self.png {
                Some(png) => Some(png@),
                None => None,
            },
            files: files_of(self.files@),
        }
    }
}

impl View for ClipboardEvent {
    type V = EventState;

    open spec fn view(&self) -> EventState {
        EventState {
            id: self.id,
            origin: self.origin@,
            sequence: self.sequence,
            clock: self.clock@,
            payload: self.payload@,
            digest: self.digest@,
        }
    }
}

/// A copy of a text, if there is one.
fn clone_words(words: &Option<String>) -> (copy: Option<String>)
    ensures
        words_of(copy) == words_of(*words),
{
    match words {
        Some(words) => Some(words.clone()),
        None => None,
    }
}

/// Whether two optional texts are the same.
fn same_words(a: &Option<String>, b: &Option<String>) -> (same: bool)
    ensures
        same == (words_of(*a) == words_of(*b)),
{
    match (a, b) {
        (Some(a), Some(b)) => text::str_eq(a.as_str(), b.as_str()),
        (None, None) => true,
        _ => false,
    }
}

impl Clone for ClipboardFile {
    fn clone(&self) -> (copy: Self)
        ensures
            copy@ == self@,
    {
        let data = self.data.clone();
        assert(data@ =~= self.data@);
        ClipboardFile { name: self.name.clone(), data }
    }
}

impl Default for ClipboardPayload {
    fn default() -> (payload: Self)
        ensures
            payload@ == (PayloadState {
                text: None,
                html: None,
                rtf: None,
                png: None,
                files: Seq::empty(),
            }),
    {
        let payload = ClipboardPayload {
            text: None,
            html: None,
            rtf: None,
            png: None,
            files: Vec::new(),
        };
        assert(payload@.files =~= Seq::empty());
        payload
    }
}

impl Clone for ClipboardPayload {
    fn clone(&self) -> (copy: Self)
        ensures
            copy@ == self@,
    {
        let png = match &self.png {
            Some(png) => {
                let copy = png.clone();
                assert(copy@ =~= png@);
                Some(copy)
            },
            None => None,
        };
        let mut files: Vec<ClipboardFile> = Vec::new();
        let mut i: usize = 0;
        while i < self.files.len()
            invariant
                i <= self.files@.len(),
                files@.len() == i,
                forall|k: int| 0 <= k < i ==> (#[trigger] files@[k])@ == self.files@[k]@,
            decreases self.files@.len() - i,
        {
            files.push(self.files[i].clone());
            i = i + 1;
        }
        assert(files_of(files@) =~= files_of(self.files@));
        ClipboardPayload {
            text: clone_words(&self.text),
            html: clone_words(&self.html),
            rtf: clone_words(&self.rtf),
            png,
            files,
        }
    }
}

/// The bytes of an optional text.
fn words_bytes(words: &Option<String>) -> (n: usize)
    ensures
        n == text_size(words_of(*words)),
{
    match words {
        Some(words) => text::byte_len(words.as_str()),
        None => 0,
    }
}

/// Adds an optional byte string to what a digest covers.
fn append_coded(out: &mut Vec<u8>, data: Option<&[u8]>)
    ensures
        final(out)@ == old(out)@ + coded(
            match data {
                Some(data) => Some(data@),
                None => None,
            },
        ),
{
    let ghost before = out@;
    match data {
        Some(data) => {
            out.push(1);
            append_framed(out, data);
            assert(out@ =~= before + (seq![1u8] + framed(data@)));
        },
        None => {
            out.push(0);
            assert(out@ =~= before + seq![0u8]);
        },
    }
}

/// Adds a byte string and its length to what a digest covers.
fn append_framed(out: &mut Vec<u8>, data: &[u8])
    ensures
        final(out)@ == old(out)@ + framed(data@),
{
    let ghost before = out@;
    bytes::append_u64(out, data.len() as u64);
    bytes::append(out, data);
    assert(out@ =~= before + framed(data@));
}

/// The bytes of an optional text.
fn words_slice(words: &Option<String>) -> (slice: Option<&[u8]>)
    ensures
        match slice {
            Some(slice) => raw(words_of(*words)) == Some(slice@),
            None => words_of(*words) is None,
        },
{
    match words {
        Some(words) => Some(words.as_str().as_bytes()),
        None => None,
    }
}

impl ClipboardPayload {
    /// A payload of plain text.
    pub fn text(words: String) -> (payload: Self)
        ensures
            payload@ == (PayloadState {
                text: Some(words@),
                html: None,
                rtf: None,
                png: None,
                files: Seq::empty(),
            }),
    {
        let payload = ClipboardPayload {
            text: Some(words),
            html: None,
            rtf: None,
            png: None,
            files: Vec::new(),
        };
        assert(payload@.files =~= Seq::empty());
        payload
    }

    /// Whether two payloads are the same.
    pub fn same(&self, other: &Self) -> (same: bool)
        ensures
            same == (self@ == other@),
    {
        let same_png = match (&self.png, &other.png) {
            (Some(a), Some(b)) => text::bytes_eq(a.as_slice(), b.as_slice()),
            (None, None) => true,
            _ => false,
        };
        if !same_png || !same_words(&self.text, &other.text) || !same_words(
            &self.html,
            &other.html,
        ) || !same_words(&self.rtf, &other.rtf) {
            return false;
        }
        if self.files.len() != other.files.len() {
            assert(self@.files.len() != other@.files.len());
            return false;
        }
        let mut i: usize = 0;
        while i < self.files.len()
            invariant
                i <= self.files@.len() == other.files@.len(),
                forall|k: int| 0 <= k < i ==> (#[trigger] self.files@[k])@ == other.files@[k]@,
            decreases self.files@.len() - i,
        {
            let a = &self.files[i];
            let b = &other.files[i];
            if !text::str_eq(a.name.as_str(), b.name.as_str()) || !text::bytes_eq(
                a.data.as_slice(),
                b.data.as_slice(),
            ) {
                proof {
                    assert(self@.files[i as int] == a@);
                    assert(other@.files[i as int] == b@);
                }
                return false;
            }
            i = i + 1;
        }
        assert(self@.files =~= other@.files);
        true
    }

    /// How many bytes the payload has, or nothing if they are more than a
    /// payload may have.
    fn size(&self) -> (size: Option<usize>)
        ensures
            match size {
                Some(size) => size == payload_size(self@) && size <= MAX_PAYLOAD_BYTES,
                None => payload_size(self@) > MAX_PAYLOAD_BYTES,
            },
    {
        let ghost p = self@;
        proof {
            lemma_files_size(p.files);
        }
        let text: usize = words_bytes(&self.text);
        let html: usize = words_bytes(&self.html);
        let rtf: usize = words_bytes(&self.rtf);
        let png: usize = match &self.png {
            Some(png) => png.len(),
            None => 0,
        };
        if text > MAX_PAYLOAD_BYTES || html > MAX_PAYLOAD_BYTES || rtf > MAX_PAYLOAD_BYTES || png
            > MAX_PAYLOAD_BYTES {
            return None;
        }
        let mut total: usize = text + html + rtf + png;
        if total > MAX_PAYLOAD_BYTES {
            return None;
        }
        let mut i: usize = 0;
        proof {
            assert(p.files.take(0) =~= Seq::empty());
        }
        let ghost others = total as int;
        while i < self.files.len()
            invariant
                i <= self.files@.len(),
                p == self@,
                p.files.len() == self.files@.len(),
                total <= MAX_PAYLOAD_BYTES,
                total == others + files_size(p.files.take(i as int)),
                payload_size(p) == others + files_size(p.files),
            decreases self.files@.len() - i,
        {
            let name: usize = text::byte_len(self.files[i].name.as_str());
            let data: usize = self.files[i].data.len();
            proof {
                let longer = p.files.take(i + 1);
                assert(longer.drop_last() =~= p.files.take(i as int));
                assert(longer.last() == self.files@[i as int]@);
                lemma_files_size_prefix(p.files, i + 1);
            }
            if name > MAX_PAYLOAD_BYTES || data > MAX_PAYLOAD_BYTES {
                return None;
            }
            total = total + name + data;
            if total > MAX_PAYLOAD_BYTES {
                return None;
            }
            i = i + 1;
        }
        assert(p.files.take(i as int) =~= p.files);
        Some(total)
    }

    /// Refuses a payload that is empty, too large, has too many files, or files
    /// with names that are no file names or occur twice.
    pub fn validate(&self) -> (result: Result<(), ProtocolError>)
        ensures
            result == match payload_fault(self@) {
                Some(error) => Err::<(), ProtocolError>(error),
                None => Ok(()),
            },
    {
        let ghost p = self@;
        if self.files.len() > MAX_FILES {
            return Err(ProtocolError::TooManyFiles);
        }
        match self.size() {
            Some(size) => if size == 0 {
                return Err(ProtocolError::EmptyPayload);
            },
            None => return Err(ProtocolError::PayloadTooLarge),
        }
        let mut i: usize = 0;
        while i < self.files.len()
            invariant
                i <= self.files@.len() <= MAX_FILES,
                p == self@,
                p.files.len() == self.files@.len(),
                0 < payload_size(p) <= MAX_PAYLOAD_BYTES,
                files_fault(p.files, i as int) is None,
            decreases self.files@.len() - i,
        {
            assert(p.files[i as int] == self.files@[i as int]@);
            if !protocol::check_file_name(self.files[i].name.as_str()) {
                proof {
                    lemma_fault_stays(p.files, i + 1, p.files.len() as int);
                }
                return Err(ProtocolError::InvalidFileName);
            }
            let mut j: usize = 0;
            while j < i
                invariant
                    j <= i < self.files@.len() <= MAX_FILES,
                    p == self@,
                    p.files.len() == self.files@.len(),
                    0 < payload_size(p) <= MAX_PAYLOAD_BYTES,
                    files_fault(p.files, i as int) is None,
                    protocol::is_file_name(p.files[i as int].name),
                    forall|k: int|
                        0 <= k < j ==> (#[trigger] p.files[k]).name != p.files[i as int].name,
                decreases i - j,
            {
                assert(p.files[i as int] == self.files@[i as int]@);
                assert(p.files[j as int] == self.files@[j as int]@);
                if text::str_eq(self.files[j].name.as_str(), self.files[i].name.as_str()) {
                    proof {
                        assert(p.files[j as int].name == p.files[i as int].name);
                        lemma_fault_stays(p.files, i + 1, p.files.len() as int);
                    }
                    return Err(ProtocolError::DuplicateFileName);
                }
                j = j + 1;
            }
            i = i + 1;
        }
        Ok(())
    }

    /// The digest of the payload.
    pub fn digest(&self) -> (digest: [u8; 32])
        ensures
            digest@ == digest_of(self@),
    {
        let ghost p = self@;
        let mut out: Vec<u8> = Vec::new();
        append_coded(&mut out, words_slice(&self.text));
        append_coded(&mut out, words_slice(&self.html));
        append_coded(&mut out, words_slice(&self.rtf));
        append_coded(
            &mut out,
            match &self.png {
                Some(png) => Some(png.as_slice()),
                None => None,
            },
        );
        bytes::append_u64(&mut out, self.files.len() as u64);
        let ghost head = out@;
        let mut i: usize = 0;
        proof {
            assert(head =~= coded(raw(p.text)) + coded(raw(p.html)) + coded(raw(p.rtf)) + coded(
                p.png,
            ) + bytes::be(p.files.len(), 8));
            assert(p.files.take(0) =~= Seq::empty());
            assert(head + coded_files(p.files.take(0)) =~= head);
        }
        while i < self.files.len()
            invariant
                i <= self.files@.len(),
                p == self@,
                p.files.len() == self.files@.len(),
                out@ == head + coded_files(p.files.take(i as int)),
            decreases self.files@.len() - i,
        {
            let ghost before = out@;
            append_framed(&mut out, self.files[i].name.as_str().as_bytes());
            append_framed(&mut out, self.files[i].data.as_slice());
            proof {
                let longer = p.files.take(i + 1);
                assert(longer.drop_last() =~= p.files.take(i as int));
                assert(longer.last() == self.files@[i as int]@);
                assert(out@ =~= head + coded_files(longer));
            }
            i = i + 1;
        }
        proof {
            assert(p.files.take(i as int) =~= p.files);
            assert(out@ =~= coded_payload(p));
        }
        foreign::hash(out.as_slice())
    }
}

proof fn lemma_fault_stays(files: Seq<FileState>, n: int, more: int)
    requires
        0 <= n <= more,
        files_fault(files, n) is Some,
    ensures
        files_fault(files, more) == files_fault(files, n),
    decreases more,
{
    if n < more {
        lemma_fault_stays(files, n, more - 1);
    }
}

proof fn lemma_files_size(files: Seq<FileState>)
    ensures
        files_size(files) >= 0,
    decreases files.len(),
{
    if files.len() > 0 {
        lemma_files_size(files.drop_last());
    }
}

proof fn lemma_files_size_prefix(files: Seq<FileState>, n: int)
    requires
        0 <= n <= files.len(),
    ensures
        0 <= files_size(files.take(n)) <= files_size(files),
    decreases files.len(),
{
    lemma_files_size(files.take(n));
    if n == files.len() {
        assert(files.take(n) =~= files);
    } else {
        lemma_files_size_prefix(files.drop_last(), n);
        assert(files.drop_last().take(n) =~= files.take(n));
    }
}

impl Clone for ClipboardEvent {
    fn clone(&self) -> (copy: Self)
        ensures
            copy@ == self@,
    {
        ClipboardEvent {
            id: self.id,
            origin: self.origin.clone(),
            sequence: self.sequence,
            clock: self.clock.clone(),
            payload: self.payload.clone(),
            digest: self.digest,
        }
    }
}

impl ClipboardEvent {
    /// A clipboard change under a new identifier. A payload with a fault is
    /// refused.
    pub fn new(
        origin: String,
        sequence: u64,
        clock: VersionVector,
        payload: ClipboardPayload,
    ) -> (result: Result<Self, ProtocolError>)
        ensures
            match payload_fault(payload@) {
                Some(error) => result == Err::<ClipboardEvent, ProtocolError>(error),
                None => result matches Ok(event) && foreign::is_random_id(event.id) && event@ == (
                EventState {
                    id: event.id,
                    origin: origin@,
                    sequence,
                    clock: clock@,
                    payload: payload@,
                    digest: digest_of(payload@),
                }),
            },
    {
        if let Err(error) = payload.validate() {
            return Err(error);
        }
        let id = foreign::fresh_id();
        let digest = payload.digest();
        Ok(ClipboardEvent { id, origin, sequence, clock, payload, digest })
    }

    /// Refuses an event whose payload has a fault or does not fit the digest,
    /// and one that claims another place than its clock gives it.
    pub fn validate(&self) -> (result: Result<(), ProtocolError>)
        ensures
            result == match event_fault(self@) {
                Some(error) => Err::<(), ProtocolError>(error),
                None => Ok(()),
            },
    {
        if let Err(error) = self.payload.validate() {
            return Err(error);
        }
        let digest = self.payload.digest();
        if !text::bytes_eq(self.digest.as_slice(), digest.as_slice()) {
            return Err(ProtocolError::DigestMismatch);
        }
        match self.clock.0.get(self.origin.as_str()) {
            Some(count) => if *count == self.sequence {
                Ok(())
            } else {
                Err(ProtocolError::SequenceMismatch)
            },
            None => Err(ProtocolError::SequenceMismatch),
        }
    }
}

/// What is wrong with a text on its own, if anything is.
pub open spec fn text_fault(words: Seq<char>) -> Option<ProtocolError> {
    if words.len() == 0 {
        Some(ProtocolError::EmptyText)
    } else if text::bytes_of(words).len() > MAX_TEXT_BYTES {
        Some(ProtocolError::TextTooLarge)
    } else {
        None
    }
}

/// Refuses an empty text and one that is too large.
pub fn validate_text(words: &str) -> (result: Result<(), ProtocolError>)
    ensures
        result == match text_fault(words@) {
            Some(error) => Err::<(), ProtocolError>(error),
            None => Ok(()),
        },
{
    if words.is_empty() {
        return Err(ProtocolError::EmptyText);
    }
    if text::byte_len(words) > MAX_TEXT_BYTES {
        return Err(ProtocolError::TextTooLarge);
    }
    Ok(())
}

/// An event made from a valid payload and a clock that counts it is valid.
pub proof fn law_new_event_is_valid(e: EventState)
    requires
        payload_fault(e.payload) is None,
        e.digest == digest_of(e.payload),
        e.clock.dom().contains(e.origin),
        e.clock[e.origin] == e.sequence,
    ensures
        event_fault(e) is None,
{
}

proof fn lemma_framed_prefix(a: Seq<u8>, b: Seq<u8>, rest_a: Seq<u8>, rest_b: Seq<u8>)
    requires
        a.len() <= u64::MAX,
        b.len() <= u64::MAX,
        framed(a) + rest_a == framed(b) + rest_b,
    ensures
        a == b,
        rest_a == rest_b,
{
    bytes::lemma_spans();
    bytes::lemma_be_len(a.len(), 8);
    bytes::lemma_be_len(b.len(), 8);
    bytes::lemma_be_round_trip(a.len(), 8);
    bytes::lemma_be_round_trip(b.len(), 8);
    let whole = framed(a) + rest_a;
    assert(whole.take(8) =~= bytes::be(a.len(), 8));
    assert((framed(b) + rest_b).take(8) =~= bytes::be(b.len(), 8));
    let n = a.len() as int;
    assert(whole.subrange(8, 8 + n) =~= a);
    assert((framed(b) + rest_b).subrange(8, 8 + n) =~= b);
    assert(whole.skip(8 + n) =~= rest_a);
    assert((framed(b) + rest_b).skip(8 + n) =~= rest_b);
}

proof fn lemma_coded_prefix(
    a: Option<Seq<u8>>,
    b: Option<Seq<u8>>,
    rest_a: Seq<u8>,
    rest_b: Seq<u8>,
)
    requires
        a matches Some(data) ==> data.len() <= u64::MAX,
        b matches Some(data) ==> data.len() <= u64::MAX,
        coded(a) + rest_a == coded(b) + rest_b,
    ensures
        a == b,
        rest_a == rest_b,
{
    let left = coded(a) + rest_a;
    let right = coded(b) + rest_b;
    assert(left[0] == coded(a)[0]);
    assert(right[0] == coded(b)[0]);
    match (a, b) {
        (Some(x), Some(y)) => {
            assert(left.skip(1) =~= framed(x) + rest_a);
            assert(right.skip(1) =~= framed(y) + rest_b);
            lemma_framed_prefix(x, y, rest_a, rest_b);
        },
        (None, None) => {
            assert(left.skip(1) =~= rest_a);
            assert(right.skip(1) =~= rest_b);
        },
        _ => {},
    }
}

/// Files in the order in which they are read from the front.
proof fn lemma_coded_files_front(files: Seq<FileState>)
    requires
        files.len() > 0,
    ensures
        coded_files(files) == framed(text::bytes_of(files[0].name)) + framed(files[0].data)
            + coded_files(files.skip(1)),
    decreases files.len(),
{
    if files.len() == 1 {
        assert(files.drop_last() =~= Seq::empty());
        assert(files.skip(1) =~= Seq::empty());
        assert(coded_files(files) =~= framed(text::bytes_of(files[0].name)) + framed(files[0].data)
            + coded_files(files.skip(1)));
    } else {
        lemma_coded_files_front(files.drop_last());
        assert(files.drop_last().skip(1) =~= files.skip(1).drop_last());
        assert(coded_files(files) =~= framed(text::bytes_of(files[0].name)) + framed(files[0].data)
            + coded_files(files.skip(1)));
    }
}

proof fn lemma_coded_files_injective(a: Seq<FileState>, b: Seq<FileState>)
    requires
        a.len() == b.len(),
        coded_files(a) == coded_files(b),
        forall|i: int|
            0 <= i < a.len() ==> text::bytes_of((#[trigger] a[i]).name).len() <= u64::MAX
                && a[i].data.len() <= u64::MAX,
        forall|i: int|
            0 <= i < b.len() ==> text::bytes_of((#[trigger] b[i]).name).len() <= u64::MAX
                && b[i].data.len() <= u64::MAX,
    ensures
        a == b,
    decreases a.len(),
{
    if a.len() > 0 {
        lemma_coded_files_front(a);
        lemma_coded_files_front(b);
        let rest_a = framed(a[0].data) + coded_files(a.skip(1));
        let rest_b = framed(b[0].data) + coded_files(b.skip(1));
        assert(coded_files(a) =~= framed(text::bytes_of(a[0].name)) + rest_a);
        assert(coded_files(b) =~= framed(text::bytes_of(b[0].name)) + rest_b);
        lemma_framed_prefix(text::bytes_of(a[0].name), text::bytes_of(b[0].name), rest_a, rest_b);
        lemma_framed_prefix(
            a[0].data,
            b[0].data,
            coded_files(a.skip(1)),
            coded_files(b.skip(1)),
        );
        text::lemma_bytes_injective(a[0].name, b[0].name);
        lemma_coded_files_injective(a.skip(1), b.skip(1));
        assert(a =~= seq![a[0]] + a.skip(1));
        assert(b =~= seq![b[0]] + b.skip(1));
    } else {
        assert(a =~= b);
    }
}

proof fn lemma_raw_injective(a: Option<Seq<char>>, b: Option<Seq<char>>)
    requires
        raw(a) == raw(b),
    ensures
        a == b,
{
    match (a, b) {
        (Some(x), Some(y)) => {
            text::lemma_bytes_injective(x, y);
        },
        _ => {},
    }
}

/// A payload that is small enough to be sent.
pub open spec fn is_small(p: PayloadState) -> bool {
    payload_size(p) <= MAX_PAYLOAD_BYTES && p.files.len() <= MAX_FILES
}

proof fn lemma_small_files(files: Seq<FileState>, n: int)
    requires
        files_size(files) <= n,
    ensures
        forall|i: int|
            0 <= i < files.len() ==> text::bytes_of((#[trigger] files[i]).name).len() <= n
                && files[i].data.len() <= n,
    decreases files.len(),
{
    if files.len() > 0 {
        lemma_files_size(files.drop_last());
        lemma_small_files(files.drop_last(), n);
        assert forall|i: int| 0 <= i < files.len() implies text::bytes_of(
            (#[trigger] files[i]).name,
        ).len() <= n && files[i].data.len() <= n by {
            if i < files.len() - 1 {
                assert(files.drop_last()[i] == files[i]);
            }
        }
    }
}

spec fn short(data: Option<Seq<u8>>) -> bool {
    data matches Some(data) ==> data.len() <= u64::MAX
}

proof fn lemma_four_fields(
    a1: Option<Seq<u8>>,
    a2: Option<Seq<u8>>,
    a3: Option<Seq<u8>>,
    a4: Option<Seq<u8>>,
    last_a: Seq<u8>,
    b1: Option<Seq<u8>>,
    b2: Option<Seq<u8>>,
    b3: Option<Seq<u8>>,
    b4: Option<Seq<u8>>,
    last_b: Seq<u8>,
)
    requires
        short(a1) && short(a2) && short(a3) && short(a4),
        short(b1) && short(b2) && short(b3) && short(b4),
        coded(a1) + coded(a2) + coded(a3) + coded(a4) + last_a == coded(b1) + coded(b2) + coded(b3)
            + coded(b4) + last_b,
    ensures
        a1 == b1,
        a2 == b2,
        a3 == b3,
        a4 == b4,
        last_a == last_b,
{
    lemma_regroup(coded(a1), coded(a2), coded(a3), coded(a4), last_a);
    lemma_regroup(coded(b1), coded(b2), coded(b3), coded(b4), last_b);
    let after_a3 = coded(a4) + last_a;
    let after_b3 = coded(b4) + last_b;
    let after_a2 = coded(a3) + after_a3;
    let after_b2 = coded(b3) + after_b3;
    lemma_coded_prefix(a1, b1, coded(a2) + after_a2, coded(b2) + after_b2);
    lemma_coded_prefix(a2, b2, after_a2, after_b2);
    lemma_coded_prefix(a3, b3, after_a3, after_b3);
    lemma_coded_prefix(a4, b4, last_a, last_b);
}

proof fn lemma_regroup(a: Seq<u8>, b: Seq<u8>, c: Seq<u8>, d: Seq<u8>, e: Seq<u8>)
    ensures
        a + b + c + d + e == a + (b + (c + (d + e))),
{
    assert(a + b + c + d + e =~= a + (b + (c + (d + e))));
}

/// Two payloads that differ in anything differ in what their digests cover: a
/// changed text, form, file name or file content cannot keep the digest unless
/// the hash itself collides.
pub proof fn law_digest_covers_the_whole_payload(a: PayloadState, b: PayloadState)
    requires
        is_small(a),
        is_small(b),
        coded_payload(a) == coded_payload(b),
    ensures
        a == b,
{
    lemma_files_size(a.files);
    lemma_files_size(b.files);
    lemma_small_files(a.files, MAX_PAYLOAD_BYTES as int);
    lemma_small_files(b.files, MAX_PAYLOAD_BYTES as int);
    bytes::lemma_spans();
    bytes::lemma_be_len(a.files.len(), 8);
    bytes::lemma_be_len(b.files.len(), 8);
    bytes::lemma_be_round_trip(a.files.len(), 8);
    bytes::lemma_be_round_trip(b.files.len(), 8);
    let last_a = bytes::be(a.files.len(), 8) + coded_files(a.files);
    let last_b = bytes::be(b.files.len(), 8) + coded_files(b.files);
    assert(coded_payload(a) =~= coded(raw(a.text)) + coded(raw(a.html)) + coded(raw(a.rtf)) + coded(
        a.png,
    ) + last_a);
    assert(coded_payload(b) =~= coded(raw(b.text)) + coded(raw(b.html)) + coded(raw(b.rtf)) + coded(
        b.png,
    ) + last_b);
    lemma_four_fields(
        raw(a.text),
        raw(a.html),
        raw(a.rtf),
        a.png,
        last_a,
        raw(b.text),
        raw(b.html),
        raw(b.rtf),
        b.png,
        last_b,
    );
    assert(last_a.take(8) =~= bytes::be(a.files.len(), 8));
    assert(last_b.take(8) =~= bytes::be(b.files.len(), 8));
    assert(last_a.skip(8) =~= coded_files(a.files));
    assert(last_b.skip(8) =~= coded_files(b.files));
    lemma_coded_files_injective(a.files, b.files);
    lemma_raw_injective(a.text, b.text);
    lemma_raw_injective(a.html, b.html);
    lemma_raw_injective(a.rtf, b.rtf);
}

/// A payload counts the bytes of all that it holds: the texts, the picture, and of each file
/// the name and the content.
pub proof fn law_size_counts_everything(p: PayloadState, file: FileState)
    ensures
        p.text is Some ==> payload_size(p) == payload_size(PayloadState { text: None, ..p })
            + text::bytes_of(p.text->0).len(),
        p.html is Some ==> payload_size(p) == payload_size(PayloadState { html: None, ..p })
            + text::bytes_of(p.html->0).len(),
        p.rtf is Some ==> payload_size(p) == payload_size(PayloadState { rtf: None, ..p })
            + text::bytes_of(p.rtf->0).len(),
        p.png is Some ==> payload_size(p) == payload_size(PayloadState { png: None, ..p })
            + p.png->0.len(),
        payload_size(PayloadState { files: p.files.push(file), ..p }) == payload_size(p)
            + text::bytes_of(file.name).len() + file.data.len(),
        payload_size(
            PayloadState {
                text: None,
                html: None,
                rtf: None,
                png: None,
                files: Seq::empty(),
            },
        ) == 0,
{
    assert(p.files.push(file).drop_last() =~= p.files);
}

proof fn lemma_files_fault(files: Seq<FileState>, n: int)
    requires
        0 <= n <= files.len(),
    ensures
        files_fault(files, n) is None <==> {
            &&& forall|i: int| 0 <= i < n ==> protocol::is_file_name((#[trigger] files[i]).name)
            &&& forall|i: int, j: int|
                #![trigger files[i], files[j]]
                0 <= i < j < n ==> files[i].name != files[j].name
        },
        files_fault(files, n) matches Some(error) ==> error == ProtocolError::InvalidFileName
            || error == ProtocolError::DuplicateFileName,
    decreases n,
{
    if n > 0 {
        lemma_files_fault(files, n - 1);
        if files_fault(files, n) is None {
            assert forall|i: int, j: int|
                #![trigger files[i], files[j]]
                0 <= i < j < n implies files[i].name != files[j].name by {
            }
        }
    }
}

/// A payload is valid exactly if it has at most 64 files, is not empty and has at most
/// 16 MiB, and its files have names of their own that are file names. Else it is said what
/// is wrong: too many files before an empty payload, that before one that is too large, and
/// that before the names.
pub proof fn law_payload_is_valid(p: PayloadState)
    ensures
        ({
            let few = p.files.len() <= 64;
            let named = forall|i: int|
                0 <= i < p.files.len() ==> protocol::is_file_name((#[trigger] p.files[i]).name);
            let told_apart = forall|i: int, j: int|
                #![trigger p.files[i], p.files[j]]
                0 <= i < j < p.files.len() ==> p.files[i].name != p.files[j].name;
            &&& payload_fault(p) is None <==> few && 0 < payload_size(p) <= 16_777_216 && named
                && told_apart
            &&& !few ==> payload_fault(p) == Some(ProtocolError::TooManyFiles)
            &&& few && payload_size(p) == 0 ==> payload_fault(p) == Some(
                ProtocolError::EmptyPayload,
            )
            &&& few && payload_size(p) > 16_777_216 ==> payload_fault(p) == Some(
                ProtocolError::PayloadTooLarge,
            )
            &&& few && 0 < payload_size(p) <= 16_777_216 && payload_fault(p) is Some
                ==> payload_fault(p) == Some(ProtocolError::InvalidFileName) || payload_fault(p)
                == Some(ProtocolError::DuplicateFileName)
        }),
{
    lemma_files_fault(p.files, p.files.len() as int);
    lemma_files_size(p.files);
}

/// An event is valid exactly if its payload is, its digest is that of its payload, and its
/// own clock counts its device up to it.
pub proof fn law_event_is_valid(e: EventState)
    ensures
        ({
            let whole = e.digest == digest_of(e.payload);
            let counted = e.clock.dom().contains(e.origin) && e.clock[e.origin] == e.sequence;
            &&& event_fault(e) is None <==> payload_fault(e.payload) is None && whole && counted
            &&& payload_fault(e.payload) is Some ==> event_fault(e) == payload_fault(e.payload)
            &&& payload_fault(e.payload) is None && !whole ==> event_fault(e) == Some(
                ProtocolError::DigestMismatch,
            )
            &&& payload_fault(e.payload) is None && whole && !counted ==> event_fault(e) == Some(
                ProtocolError::SequenceMismatch,
            )
        }),
{
}

/// Two different payloads have different digests, unless the hash gives the same for two
/// different byte strings.
pub proof fn law_digests_tell_payloads_apart(a: PayloadState, b: PayloadState)
    requires
        is_small(a),
        is_small(b),
        a != b,
        digest_of(a) == digest_of(b),
    ensures
        exists|x: Seq<u8>, y: Seq<u8>|
            x != y && #[trigger] foreign::blake3_hash(x) == #[trigger] foreign::blake3_hash(y),
{
    if coded_payload(a) == coded_payload(b) {
        law_digest_covers_the_whole_payload(a, b);
    }
    let x = coded_payload(a);
    let y = coded_payload(b);
    assert(x != y && foreign::blake3_hash(x) == foreign::blake3_hash(y));
}

/// A text on its own is valid exactly if it is not empty and has at most 1 MiB.
pub proof fn law_text_is_valid(words: Seq<char>)
    ensures
        words.len() == 0 ==> text_fault(words) == Some(ProtocolError::EmptyText),
        words.len() > 0 && text::bytes_of(words).len() <= 1_048_576 ==> text_fault(words) is None,
        words.len() > 0 && text::bytes_of(words).len() > 1_048_576 ==> text_fault(words) == Some(
            ProtocolError::TextTooLarge,
        ),
{
}

} // verus!
