//! Copied files: their names, how much of them fits, and the MIME types that
//! announce them.

use vstd::prelude::*;
use vstd::utf8::*;

use crate::foreign;
use crate::path;
use crate::protocol;
use crate::protocol::{
    ClipboardFile, ClipboardPayload, FileState, ProtocolError, MAX_FILES, MAX_PAYLOAD_BYTES,
};
use crate::text;

verus! {

/// Why copied files cannot be sent.
#[derive(Clone, Copy, Debug, PartialEq, Eq, Structural)]
pub enum GatherError {
    TooManyFiles,
    NameNotText,
    TooLarge,
    NotRegular,
    Payload(ProtocolError),
}

/// A file as it was found: its path, whether it is a regular file, its size,
/// and what was read of it.
#[derive(Debug, PartialEq, Eq)]
pub struct FoundFile {
    pub path: Vec<u8>,
    pub regular: bool,
    pub size: u64,
    pub data: Vec<u8>,
}

/// Where the last dot of a name is; -1 if there is none.
pub open spec fn last_dot(name: Seq<char>) -> int
    decreases name.len(),
{
    if name.len() == 0 {
        -1
    } else if name.last() == '.' {
        name.len() - 1
    } else {
        last_dot(name.drop_last())
    }
}

/// A name without its extension. A dot in front is no extension.
pub open spec fn stem(name: Seq<char>) -> Seq<char> {
    if last_dot(name) > 0 {
        name.take(last_dot(name))
    } else {
        name
    }
}

/// The extension of a name.
pub open spec fn extension(name: Seq<char>) -> Seq<char> {
    if last_dot(name) > 0 {
        name.skip(last_dot(name) + 1)
    } else {
        Seq::empty()
    }
}

/// A name with a number.
pub open spec fn numbered(name: Seq<char>, number: nat) -> Seq<char> {
    let base = stem(name) + " ("@ + text::decimal(number) + ")"@;
    if extension(name).len() == 0 {
        base
    } else {
        base + "."@ + extension(name)
    }
}

/// The names that are used.
pub open spec fn used_names(used: Seq<String>) -> Seq<Seq<char>> {
    used.map_values(|name: String| name@)
}

/// Whether a name is the one that a file gets: its own, or, if that is used,
/// the one with the least number from two on that is not.
pub open spec fn is_unique_name(chosen: Seq<char>, name: Seq<char>, used: Seq<Seq<char>>) -> bool {
    if !used.contains(name) {
        chosen == name
    } else {
        exists|number: nat|
            2 <= number && chosen == #[trigger] numbered(name, number) && !used.contains(chosen)
                && forall|lower: nat|
                2 <= lower < number ==> used.contains(#[trigger] numbered(name, lower))
    }
}

proof fn lemma_last_dot(name: Seq<char>, at: int)
    requires
        -1 <= at < name.len(),
        at >= 0 ==> name[at] == '.',
        forall|i: int| at < i < name.len() ==> name[i] != '.',
    ensures
        last_dot(name) == at,
    decreases name.len(),
{
    if name.len() > 0 && at < name.len() - 1 {
        assert(name.last() != '.');
        assert forall|i: int| at < i < name.drop_last().len() implies name.drop_last()[i]
            != '.' by {
            assert(name[i] != '.');
        }
        lemma_last_dot(name.drop_last(), at);
    }
}

proof fn lemma_numbered_injective(name: Seq<char>, a: nat, b: nat)
    requires
        numbered(name, a) == numbered(name, b),
    ensures
        a == b,
{
    reveal_strlit(")");
    let head = stem(name) + " ("@;
    let tail = if extension(name).len() == 0 {
        ")"@
    } else {
        ")"@ + "."@ + extension(name)
    };
    assert(numbered(name, a) =~= head + text::decimal(a) + tail);
    assert(numbered(name, b) =~= head + text::decimal(b) + tail);
    let n = head.len() as int;
    let da = text::decimal(a);
    let db = text::decimal(b);
    assert(da.len() == db.len());
    assert(numbered(name, a).subrange(n, n + da.len()) =~= da);
    assert(numbered(name, b).subrange(n, n + db.len()) =~= db);
    text::lemma_decimal_injective(a, b);
}

/// As many different names as there are used ones, and one more, cannot all be
/// used.
proof fn lemma_some_number_is_free(name: Seq<char>, used: Seq<Seq<char>>, next: nat)
    requires
        2 <= next,
        forall|lower: nat| 2 <= lower < next ==> used.contains(#[trigger] numbered(name, lower)),
    ensures
        next - 2 <= used.len(),
{
    let taken = Seq::new((next - 2) as nat, |i: int| numbered(name, (i + 2) as nat));
    assert forall|i: int, j: int| 0 <= i < taken.len() && 0 <= j < taken.len() && i
        != j implies taken[i] != taken[j] by {
        if taken[i] == taken[j] {
            lemma_numbered_injective(name, (i + 2) as nat, (j + 2) as nat);
        }
    }
    taken.unique_seq_to_set();
    assert forall|one: Seq<char>| taken.to_set().contains(one) implies used.to_set().contains(
        one,
    ) by {
        let i = choose|i: int| 0 <= i < taken.len() && taken[i] == one;
        assert(used.contains(numbered(name, (i + 2) as nat)));
    }
    used.lemma_cardinality_of_set();
    vstd::set_lib::lemma_len_subset(taken.to_set(), used.to_set());
}

/// Whether a name is used.
fn is_used(name: &str, used: &Vec<String>) -> (found: bool)
    ensures
        found == used_names(used@).contains(name@),
{
    let ghost names = used_names(used@);
    let mut i: usize = 0;
    while i < used.len()
        invariant
            i <= used@.len(),
            names == used_names(used@),
            forall|k: int| 0 <= k < i ==> #[trigger] names[k] != name@,
        decreases used@.len() - i,
    {
        assert(names[i as int] == used@[i as int]@);
        if text::str_eq(used[i].as_str(), name) {
            assert(names.contains(name@));
            return true;
        }
        i = i + 1;
    }
    false
}

/// Adds a name to those that are used.
fn use_name(name: String, used: &mut Vec<String>)
    ensures
        used_names(final(used)@) == used_names(old(used)@).push(name@),
{
    let ghost before = used@;
    used.push(name);
    assert(used_names(used@) =~= used_names(before).push(name@));
}

/// The name of a file among others: its own, or one with a number, if its own
/// is used. The name is used from then on.
pub fn unique_file_name(name: &str, used: &mut Vec<String>) -> (chosen: String)
    ensures
        is_unique_name(chosen@, name@, used_names(old(used)@)),
        !used_names(old(used)@).contains(chosen@),
        used_names(final(used)@) == used_names(old(used)@).push(chosen@),
{
    if !is_used(name, used) {
        use_name(name.to_owned(), used);
        return name.to_owned();
    }
    let chars = text::chars_of(name);
    let mut dot: usize = chars.len();
    while dot > 0 && chars[dot - 1] != '.'
        invariant
            dot <= chars@.len(),
            chars@ == name@,
            forall|i: int| dot <= i < chars@.len() ==> chars@[i] != '.',
        decreases dot,
    {
        dot = dot - 1;
    }
    proof {
        lemma_last_dot(name@, dot - 1);
    }
    let (base, ending) = if dot > 1 {
        let base = text::text_of(vstd::slice::slice_subrange(chars.as_slice(), 0, dot - 1));
        let ending = text::text_of(
            vstd::slice::slice_subrange(chars.as_slice(), dot, chars.len()),
        );
        assert(base@ =~= stem(name@));
        assert(ending@ =~= extension(name@));
        (base, ending)
    } else {
        (name.to_owned(), String::new())
    };
    assert(base@ == stem(name@));
    assert(ending@ =~= extension(name@));
    let ghost names = used_names(used@);
    let count: usize = used.len();
    let mut index: u128 = 2;
    loop
        invariant
            2 <= index,
            names.len() == count,
            names == used_names(used@),
            names == used_names(old(used)@),
            names.contains(name@),
            names.len() == used@.len(),
            base@ == stem(name@),
            ending@ == extension(name@),
            forall|lower: nat|
                2 <= lower < index ==> names.contains(#[trigger] numbered(name@, lower)),
        decreases names.len() + 2 - index,
    {
        proof {
            lemma_some_number_is_free(name@, names, index as nat);
        }
        let mut candidate = base.clone();
        candidate.append(" (");
        candidate.append(text::number_text(index).as_str());
        candidate.append(")");
        if !ending.as_str().is_empty() {
            candidate.append(".");
            candidate.append(ending.as_str());
        }
        assert(candidate@ == numbered(name@, index as nat));
        if !is_used(candidate.as_str(), used) {
            proof {
                assert(is_unique_name(candidate@, name@, names));
            }
            use_name(candidate.clone(), used);
            return candidate;
        }
        proof {
            assert forall|lower: nat| 2 <= lower < index + 1 implies names.contains(
                #[trigger] numbered(name@, lower),
            ) by {
                if lower == index {
                    assert(numbered(name@, lower) == candidate@);
                }
            }
            lemma_some_number_is_free(name@, names, (index + 1) as nat);
        }
        index = index + 1;
    }
}

/// The name that a file gets among others.
pub open spec fn unique_name(name: Seq<char>, used: Seq<Seq<char>>) -> Seq<char> {
    choose|chosen: Seq<char>| is_unique_name(chosen, name, used)
}

/// There is only one name that a file can get.
proof fn lemma_unique_name(chosen: Seq<char>, name: Seq<char>, used: Seq<Seq<char>>)
    requires
        is_unique_name(chosen, name, used),
    ensures
        unique_name(name, used) == chosen,
{
    let other = unique_name(name, used);
    assert(is_unique_name(other, name, used));
    if used.contains(name) {
        let a = choose|number: nat|
            2 <= number && chosen == #[trigger] numbered(name, number) && !used.contains(chosen)
                && forall|lower: nat|
                2 <= lower < number ==> used.contains(#[trigger] numbered(name, lower));
        let b = choose|number: nat|
            2 <= number && other == #[trigger] numbered(name, number) && !used.contains(other)
                && forall|lower: nat|
                2 <= lower < number ==> used.contains(#[trigger] numbered(name, lower));
        if a < b {
            assert(used.contains(numbered(name, a)));
        } else if b < a {
            assert(used.contains(numbered(name, b)));
        }
    }
}

/// The names of files.
pub open spec fn file_names(files: Seq<FileState>) -> Seq<Seq<char>> {
    files.map_values(|file: FileState| file.name)
}

/// Copied files, as far as they were taken in.
#[derive(Debug, PartialEq, Eq)]
pub struct Gather {
    files: Vec<ClipboardFile>,
    used: Vec<String>,
    remaining: usize,
}

/// The name that one more file gets.
pub open spec fn gathered_name(files: Seq<FileState>, path: Seq<u8>) -> Seq<char> {
    unique_name(decode_utf8(path::name_of(path)->0), file_names(files))
}

/// What speaks against reading one more file, if anything does.
pub open spec fn read_fault(files: Seq<FileState>, path: Seq<u8>) -> Option<GatherError> {
    if files.len() == MAX_FILES {
        Some(GatherError::TooManyFiles)
    } else if !(path::name_of(path) matches Some(name) && valid_utf8(name)) {
        Some(GatherError::NameNotText)
    } else if protocol::files_size(files) + text::bytes_of(gathered_name(files, path)).len()
        > MAX_PAYLOAD_BYTES {
        Some(GatherError::TooLarge)
    } else {
        None
    }
}

/// How much of one more file fits.
pub open spec fn room(files: Seq<FileState>, path: Seq<u8>) -> int {
    MAX_PAYLOAD_BYTES - protocol::files_size(files) - text::bytes_of(
        gathered_name(files, path),
    ).len()
}

/// What is wrong with one more file, if anything is.
pub open spec fn add_fault(
    files: Seq<FileState>,
    path: Seq<u8>,
    regular: bool,
    size: u64,
    len: int,
) -> Option<GatherError> {
    if read_fault(files, path) is Some {
        read_fault(files, path)
    } else if !regular {
        Some(GatherError::NotRegular)
    } else if size > room(files, path) || len > room(files, path) {
        Some(GatherError::TooLarge)
    } else {
        None
    }
}

impl View for Gather {
    type V = Seq<FileState>;

    closed spec fn view(&self) -> Seq<FileState> {
        protocol::files_of(self.files@)
    }
}

impl Gather {
    #[verifier::type_invariant]
    spec fn well_formed(self) -> bool {
        &&& self.files@.len() <= MAX_FILES
        &&& self.remaining + protocol::files_size(protocol::files_of(self.files@))
            == MAX_PAYLOAD_BYTES
        &&& used_names(self.used@) == file_names(protocol::files_of(self.files@))
        &&& used_names(self.used@).no_duplicates()
    }

    /// No file yet.
    pub fn new() -> (gather: Self)
        ensures
            gather@ == Seq::<FileState>::empty(),
    {
        let ghost files = Seq::<ClipboardFile>::empty();
        let ghost used = Seq::<String>::empty();
        assert(protocol::files_of(files) =~= Seq::empty());
        assert(used_names(used) =~= file_names(protocol::files_of(files)));
        let gather = Gather { files: Vec::new(), used: Vec::new(), remaining: MAX_PAYLOAD_BYTES };
        assert(gather@ =~= Seq::empty());
        gather
    }

    /// The name of one more file among those taken in, and how much of it fits.
    fn place(&self, path: &[u8]) -> (result: Result<(String, usize), GatherError>)
        ensures
            match read_fault(self@, path@) {
                Some(error) => result == Err::<(String, usize), GatherError>(error),
                None => result matches Ok(place) && place.0@ == gathered_name(self@, path@)
                    && place.1 == room(self@, path@) && !file_names(self@).contains(place.0@),
            },
    {
        proof {
            use_type_invariant(self);
        }
        if self.files.len() == MAX_FILES {
            return Err(GatherError::TooManyFiles);
        }
        let name = match path::file_name(path) {
            Some(name) => name,
            None => return Err(GatherError::NameNotText),
        };
        let name = match foreign::text_from_utf8(name) {
            Some(name) => name,
            None => return Err(GatherError::NameNotText),
        };
        let ghost names = used_names(self.used@);
        let mut used = self.used.clone();
        assert(used@ =~= self.used@);
        let chosen = unique_file_name(name.as_str(), &mut used);
        proof {
            lemma_unique_name(chosen@, name@, names);
        }
        let len: usize = text::byte_len(chosen.as_str());
        if len > self.remaining {
            return Err(GatherError::TooLarge);
        }
        Ok((chosen, self.remaining - len))
    }

    /// How much of one more file may be read.
    pub fn limit(&self, path: &[u8]) -> (result: Result<usize, GatherError>)
        ensures
            match read_fault(self@, path@) {
                Some(error) => result == Err::<usize, GatherError>(error),
                None => result matches Ok(limit) && limit == room(self@, path@),
            },
    {
        match self.place(path) {
            Ok((_, limit)) => Ok(limit),
            Err(error) => Err(error),
        }
    }

    /// Takes one more file in, unless something is wrong with it.
    pub fn add(self, found: FoundFile) -> (result: Result<Gather, GatherError>)
        ensures
            match add_fault(
                self@,
                found.path@,
                found.regular,
                found.size,
                found.data@.len() as int,
            ) {
                Some(error) => result == Err::<Gather, GatherError>(error),
                None => result matches Ok(next) && next@ == self@.push(
                    FileState { name: gathered_name(self@, found.path@), data: found.data@ },
                ),
            },
    {
        proof {
            use_type_invariant(&self);
        }
        let (name, room) = match self.place(found.path.as_slice()) {
            Ok(place) => place,
            Err(error) => return Err(error),
        };
        if !found.regular {
            return Err(GatherError::NotRegular);
        }
        let len: usize = found.data.len();
        if found.size > room as u64 || len > room {
            return Err(GatherError::TooLarge);
        }
        let Gather { files, used, remaining: _ } = self;
        let mut files = files;
        let mut used = used;
        let ghost before = files@;
        let ghost names = used_names(used@);
        let ghost chosen = name@;
        use_name(name.clone(), &mut used);
        files.push(ClipboardFile { name, data: found.data });
        proof {
            let more = protocol::files_of(files@);
            let added = FileState { name: chosen, data: found.data@ };
            assert(more =~= protocol::files_of(before).push(added));
            assert(more.drop_last() =~= protocol::files_of(before));
            assert(file_names(more) =~= file_names(protocol::files_of(before)).push(chosen));
            assert forall|i: int, j: int|
                0 <= i < names.len() + 1 && 0 <= j < names.len() + 1 && i != j implies names.push(
                chosen,
            )[i] != names.push(chosen)[j] by {
                if i == names.len() {
                    assert(names.contains(names[j]));
                } else if j == names.len() {
                    assert(names.contains(names[i]));
                }
            }
        }
        Ok(Gather { files, used, remaining: room - len })
    }

    /// The files that were taken in: not too many, not too large together, and
    /// each with a name of its own.
    fn finish(self) -> (files: Vec<ClipboardFile>)
        ensures
            protocol::files_of(files@) == self@,
            files@.len() <= MAX_FILES,
            protocol::files_size(self@) <= MAX_PAYLOAD_BYTES,
            file_names(self@).no_duplicates(),
    {
        proof {
            use_type_invariant(&self);
        }
        let Gather { files, used: _, remaining: _ } = self;
        files
    }

    /// The payload of the files that were taken in.
    pub fn payload(self) -> (result: Result<ClipboardPayload, GatherError>)
        ensures
            match protocol::payload_fault(files_payload(self@)) {
                Some(error) => result == Err::<ClipboardPayload, GatherError>(
                    GatherError::Payload(error),
                ),
                None => result matches Ok(made) && made@ == files_payload(self@),
            },
    {
        let mut payload = ClipboardPayload::default();
        payload.files = self.finish();
        match payload.validate() {
            Ok(()) => Ok(payload),
            Err(error) => Err(GatherError::Payload(error)),
        }
    }
}

/// A payload of files and nothing else.
pub open spec fn files_payload(files: Seq<FileState>) -> protocol::PayloadState {
    protocol::PayloadState { text: None, html: None, rtf: None, png: None, files }
}

/// The first files of a list, taken in one after the other, or what is wrong
/// with the first that is refused.
pub open spec fn gathered(found: Seq<FoundFile>, n: int) -> Result<Seq<FileState>, GatherError>
    decreases n,
{
    if n <= 0 {
        Ok(Seq::empty())
    } else {
        match gathered(found, n - 1) {
            Err(error) => Err(error),
            Ok(files) => {
                let file = found[n - 1];
                match add_fault(
                    files,
                    file.path@,
                    file.regular,
                    file.size,
                    file.data@.len() as int,
                ) {
                    Some(error) => Err(error),
                    None => Ok(
                        files.push(
                            FileState { name: gathered_name(files, file.path@), data: file.data@ },
                        ),
                    ),
                }
            },
        }
    }
}

/// The payload of copied files, as they were found.
pub fn payload_from_paths(found: Vec<FoundFile>) -> (result: Result<ClipboardPayload, GatherError>)
    ensures
        match gathered(found@, found@.len() as int) {
            Err(error) => result == Err::<ClipboardPayload, GatherError>(error),
            Ok(files) => match protocol::payload_fault(files_payload(files)) {
                Some(error) => result == Err::<ClipboardPayload, GatherError>(
                    GatherError::Payload(error),
                ),
                None => result matches Ok(made) && made@ == files_payload(files),
            },
        },
{
    let ghost all = found@;
    let mut left = found;
    let mut gather = Gather::new();
    let n: usize = left.len();
    let mut i: usize = 0;
    proof {
        assert(all.skip(0) =~= all);
    }
    while i < n
        invariant
            i <= n,
            n == all.len(),
            all == found@,
            left@ == all.skip(i as int),
            gathered(all, i as int) == Ok::<Seq<FileState>, GatherError>(gather@),
        decreases n - i,
    {
        assert(left@[0] == all[i as int]);
        let next = left.remove(0);
        assert(left@ =~= all.skip(i + 1));
        gather =
        match gather.add(next) {
            Ok(gather) => gather,
            Err(error) => {
                proof {
                    lemma_refusal_stays(all, i + 1, n as int);
                }
                return Err(error);
            },
        };
        i = i + 1;
    }
    gather.payload()
}

proof fn lemma_refusal_stays(found: Seq<FoundFile>, n: int, more: int)
    requires
        0 <= n <= more,
        gathered(found, n) is Err,
    ensures
        gathered(found, more) == gathered(found, n),
    decreases more,
{
    if n < more {
        lemma_refusal_stays(found, n, more - 1);
    }
}

/// A character without regard to the case of ASCII letters.
pub open spec fn folded(byte: u8) -> u8 {
    if 65 <= byte <= 90 {
        (byte + 32) as u8
    } else {
        byte
    }
}

/// A MIME type without its parameters.
pub open spec fn bare_mime(mime: Seq<u8>) -> Seq<u8>
    decreases mime.len(),
{
    if mime.len() == 0 || mime[0] == 59 {
        Seq::empty()
    } else {
        seq![mime[0]] + bare_mime(mime.skip(1))
    }
}

/// Whether a MIME type is a wanted one, whatever its case and parameters.
pub open spec fn mime_matches(mime: Seq<char>, wanted: Seq<char>) -> bool {
    let bare = bare_mime(text::bytes_of(mime));
    let want = text::bytes_of(wanted);
    bare.len() == want.len() && forall|i: int|
        0 <= i < bare.len() ==> folded(#[trigger] bare[i]) == folded(want[i])
}

/// The MIME types that match a wanted one, in order.
pub open spec fn matching(mimes: Seq<Seq<char>>, wanted: Seq<char>) -> Seq<Seq<char>> {
    mimes.filter(|mime: Seq<char>| mime_matches(mime, wanted))
}

/// A byte without regard to the case of ASCII letters.
fn fold(byte: u8) -> (low: u8)
    ensures
        low == folded(byte),
{
    if 65 <= byte && byte <= 90 {
        byte + 32
    } else {
        byte
    }
}

proof fn lemma_bare_mime(mime: Seq<u8>, end: int)
    requires
        0 <= end <= mime.len(),
        end < mime.len() ==> mime[end] == 59,
        forall|i: int| 0 <= i < end ==> mime[i] != 59,
    ensures
        bare_mime(mime) == mime.take(end),
    decreases mime.len(),
{
    if end > 0 {
        let rest = mime.skip(1);
        assert forall|i: int| 0 <= i < end - 1 implies rest[i] != 59 by {
            assert(mime[i + 1] != 59);
        }
        lemma_bare_mime(rest, end - 1);
        assert(seq![mime[0]] + rest.take(end - 1) =~= mime.take(end));
    } else {
        assert(mime.take(0) =~= Seq::empty());
    }
}

/// Whether a MIME type is a wanted one.
fn is_mime(mime: &str, wanted: &str) -> (found: bool)
    ensures
        found == mime_matches(mime@, wanted@),
{
    let raw = mime.as_bytes();
    let want = wanted.as_bytes();
    let mut end: usize = 0;
    while end < raw.len() && raw[end] != 59
        invariant
            end <= raw@.len(),
            forall|i: int| 0 <= i < end ==> raw@[i] != 59,
        decreases raw@.len() - end,
    {
        end = end + 1;
    }
    proof {
        lemma_bare_mime(raw@, end as int);
    }
    let ghost bare = bare_mime(raw@);
    if end != want.len() {
        return false;
    }
    let mut i: usize = 0;
    while i < end
        invariant
            i <= end <= raw@.len(),
            end == want@.len(),
            bare == raw@.take(end as int),
            bare == bare_mime(text::bytes_of(mime@)),
            want@ == text::bytes_of(wanted@),
            forall|k: int| 0 <= k < i ==> folded(#[trigger] bare[k]) == folded(want@[k]),
        decreases end - i,
    {
        if fold(raw[i]) != fold(want[i]) {
            assert(bare[i as int] == raw@[i as int]);
            return false;
        }
        i = i + 1;
    }
    true
}

/// Adds the MIME types that match a wanted one.
fn collect_mimes(mimes: &Vec<String>, wanted: &str, values: &mut Vec<String>)
    ensures
        used_names(final(values)@) == used_names(old(values)@) + matching(
            used_names(mimes@),
            wanted@,
        ),
{
    let ghost all = used_names(mimes@);
    let ghost before = used_names(values@);
    let ghost wants = |mime: Seq<char>| mime_matches(mime, wanted@);
    let mut i: usize = 0;
    proof {
        reveal(Seq::filter);
        assert(all.take(0).filter(wants) =~= Seq::empty());
        assert(before + Seq::<Seq<char>>::empty() =~= before);
    }
    while i < mimes.len()
        invariant
            i <= mimes@.len(),
            all == used_names(mimes@),
            all.len() == mimes@.len(),
            wants == (|mime: Seq<char>| mime_matches(mime, wanted@)),
            used_names(values@) == before + all.take(i as int).filter(wants),
        decreases mimes@.len() - i,
    {
        proof {
            assert(all.take(i + 1).drop_last() =~= all.take(i as int));
            assert(all.take(i + 1).last() == mimes@[i as int]@);
            reveal(Seq::filter);
        }
        if is_mime(mimes[i].as_str(), wanted) {
            use_name(mimes[i].clone(), values);
            proof {
                let part = all.take(i as int).filter(wants);
                assert((before + part).push(mimes@[i as int]@) =~= before + part.push(
                    mimes@[i as int]@,
                ));
            }
        }
        i = i + 1;
    }
    assert(all.take(i as int) =~= all);
}

/// The MIME types that announce copied files, those of GNOME first.
pub open spec fn file_mimes(mimes: Seq<Seq<char>>) -> Seq<Seq<char>> {
    matching(mimes, "x-special/gnome-copied-files"@) + matching(mimes, "text/uri-list"@)
}

/// The MIME types that announce copied files, those of GNOME first.
pub fn file_mime_candidates(mimes: &Vec<String>) -> (values: Vec<String>)
    ensures
        used_names(values@) == file_mimes(used_names(mimes@)),
{
    let mut values: Vec<String> = Vec::new();
    assert(used_names(values@) =~= Seq::empty());
    collect_mimes(mimes, "x-special/gnome-copied-files", &mut values);
    collect_mimes(mimes, "text/uri-list", &mut values);
    proof {
        let gnome = matching(used_names(mimes@), "x-special/gnome-copied-files"@);
        assert(Seq::<Seq<char>>::empty() + gnome =~= gnome);
    }
    values
}

/// A name with a number keeps its extension: the number stands between its last dot and
/// what is in front of that. A dot in front of a name starts no extension.
pub proof fn law_numbers_stand_before_the_extension(
    base: Seq<char>,
    ending: Seq<char>,
    number: nat,
)
    requires
        base.len() > 0,
        !ending.contains('.'),
    ensures
        ending.len() > 0 ==> numbered(base + seq!['.'] + ending, number) == base + seq![' ', '(']
            + text::decimal(number) + seq![')', '.'] + ending,
        !base.contains('.') ==> numbered(base, number) == base + seq![' ', '('] + text::decimal(
            number,
        ) + seq![')'],
        ending.len() > 0 ==> numbered(seq!['.'] + ending, number) == seq!['.'] + ending + seq![
            ' ',
            '(',
        ] + text::decimal(number) + seq![')'],
{
    reveal_strlit(" (");
    reveal_strlit(")");
    reveal_strlit(".");
    assert(" ("@ =~= seq![' ', '(']);
    assert(")"@ =~= seq![')']);
    assert("."@ =~= seq!['.']);
    let name = base + seq!['.'] + ending;
    let n = base.len() as int;
    assert forall|i: int| n < i < name.len() implies name[i] != '.' by {
        assert(ending.contains(ending[i - n - 1]));
    }
    lemma_last_dot(name, n);
    assert(name.take(n) =~= base);
    assert(name.skip(n + 1) =~= ending);
    if ending.len() > 0 {
        assert(numbered(name, number) =~= base + seq![' ', '('] + text::decimal(number) + seq![
            ')',
            '.',
        ] + ending);
        let hidden = seq!['.'] + ending;
        assert forall|i: int| 0 < i < hidden.len() implies hidden[i] != '.' by {
            assert(ending.contains(ending[i - 1]));
        }
        lemma_last_dot(hidden, 0);
    }
    if !base.contains('.') {
        assert forall|i: int| -1 < i < base.len() implies base[i] != '.' by {
            assert(base.contains(base[i]));
        }
        lemma_last_dot(base, -1);
    }
}

/// A file keeps its name where no other has it; else it gets the first number from two on
/// with which its name is free. Either way no two files have the same name.
pub proof fn law_files_get_free_names(
    chosen: Seq<char>,
    name: Seq<char>,
    used: Seq<Seq<char>>,
    number: nat,
)
    requires
        is_unique_name(chosen, name, used),
    ensures
        !used.contains(chosen),
        !used.contains(name) ==> chosen == name,
        used.contains(name) && number >= 2 && chosen == numbered(name, number) ==> forall|
            lower: nat,
        |
            2 <= lower < number ==> used.contains(#[trigger] numbered(name, lower)),
        used.contains(name) ==> exists|n: nat| n >= 2 && chosen == #[trigger] numbered(name, n),
{
    if used.contains(name) {
        let n = choose|n: nat|
            2 <= n && chosen == #[trigger] numbered(name, n) && !used.contains(chosen)
                && forall|lower: nat|
                2 <= lower < n ==> used.contains(#[trigger] numbered(name, lower));
        if chosen == numbered(name, number) {
            lemma_numbered_injective(name, n, number);
        }
    }
}

/// Copied files are taken in one after the other, each with its own content and under its
/// own name or one with a number: as many as were found, in their order. Only regular files
/// are, at most 64, of at most 16 MiB together with their names.
pub proof fn law_copied_files_are_taken_in(found: Seq<FoundFile>, n: int)
    requires
        0 <= n <= found.len(),
        gathered(found, n) is Ok,
    ensures
        ({
            let files = gathered(found, n)->Ok_0;
            &&& files.len() == n
            &&& n <= 64
            &&& protocol::files_size(files) <= 16_777_216
            &&& forall|i: int|
                0 <= i < n ==> (#[trigger] files[i]).data == found[i].data@ && found[i].regular
            &&& forall|i: int|
                0 <= i < n ==> (#[trigger] files[i]).name == unique_name(
                    decode_utf8(path::name_of(found[i].path@)->0),
                    file_names(files.take(i)),
                ) && path::name_of(found[i].path@) is Some
        }),
    decreases n,
{
    if n > 0 {
        law_copied_files_are_taken_in(found, n - 1);
        let before = gathered(found, n - 1)->Ok_0;
        let files = gathered(found, n)->Ok_0;
        assert(files.drop_last() =~= before);
        assert forall|i: int| 0 <= i < n implies (#[trigger] files[i]).data == found[i].data@
            && found[i].regular by {
            if i < n - 1 {
                assert(files[i] == before[i]);
            }
        }
        assert forall|i: int| 0 <= i < n implies (#[trigger] files[i]).name == unique_name(
            decode_utf8(path::name_of(found[i].path@)->0),
            file_names(files.take(i)),
        ) && path::name_of(found[i].path@) is Some by {
            if i < n - 1 {
                assert(files[i] == before[i]);
                assert(files.take(i) =~= before.take(i));
            } else {
                assert(files.take(i) =~= before);
            }
        }
    }
}

/// One more file is refused exactly if there are 64 already, if it has no name that is text,
/// if it is no regular file, or if it is too large for what is left of 16 MiB. Its own name
/// counts.
pub proof fn law_one_more_file_is_refused(
    files: Seq<FileState>,
    path: Seq<u8>,
    regular: bool,
    size: u64,
    len: int,
)
    requires
        0 <= len,
        files.len() <= 64,
    ensures
        ({
            let name = path::name_of(path);
            let taken = protocol::files_size(files) + text::bytes_of(
                gathered_name(files, path),
            ).len();
            let named = name is Some && valid_utf8(name->0);
            &&& add_fault(files, path, regular, size, len) is None <==> files.len() < 64 && named
                && regular && taken + size <= 16_777_216 && taken + len <= 16_777_216
            &&& files.len() == 64 ==> add_fault(files, path, regular, size, len) == Some(
                GatherError::TooManyFiles,
            )
            &&& files.len() < 64 && !named ==> add_fault(files, path, regular, size, len) == Some(
                GatherError::NameNotText,
            )
            &&& files.len() < 64 && named && taken <= 16_777_216 && !regular ==> add_fault(
                files,
                path,
                regular,
                size,
                len,
            ) == Some(GatherError::NotRegular)
            &&& room(files, path) == 16_777_216 - taken
        }),
{
}

/// A payload of files has the files and nothing else.
pub proof fn law_payload_of_files_has_only_files(files: Seq<FileState>)
    ensures
        files_payload(files).files == files,
        files_payload(files).text is None && files_payload(files).html is None && files_payload(
            files,
        ).rtf is None && files_payload(files).png is None,
        protocol::payload_size(files_payload(files)) == protocol::files_size(files),
{
}

proof fn lemma_bare(mime: Seq<u8>, rest: Seq<u8>)
    requires
        !mime.contains(59),
    ensures
        bare_mime(mime + seq![59u8] + rest) == mime,
        bare_mime(mime) == mime,
{
    let all = mime + seq![59u8] + rest;
    let n = mime.len() as int;
    assert forall|i: int| 0 <= i < n implies all[i] != 59 by {
        assert(mime.contains(mime[i]));
    }
    lemma_bare_mime(all, n);
    assert(all.take(n) =~= mime);
    assert forall|i: int| 0 <= i < n implies mime[i] != 59 by {
        assert(mime.contains(mime[i]));
    }
    lemma_bare_mime(mime, n);
    assert(mime.take(n) =~= mime);
}

/// A MIME type is a wanted one whatever its parameters are, and whatever the case of its
/// letters is; a type of another length is another.
pub proof fn law_types_are_compared_without_parameters(
    mime: Seq<char>,
    parameters: Seq<char>,
    wanted: Seq<char>,
)
    requires
        is_ascii_chars(mime),
        is_ascii_chars(parameters),
        is_ascii_chars(wanted),
        !mime.contains(';'),
    ensures
        mime_matches(mime + seq![';'] + parameters, wanted) == mime_matches(mime, wanted),
        mime_matches(mime, mime),
        mime_matches(mime, wanted) <==> mime.len() == wanted.len() && (forall|i: int|
            0 <= i < mime.len() ==> folded((#[trigger] mime[i]) as u8) == folded(wanted[i] as u8)),
        forall|byte: u8|
            #![trigger folded(byte)]
            folded(byte) == if 65 <= byte <= 90 {
                (byte + 32) as u8
            } else {
                byte
            },
{
    let all = mime + seq![';'] + parameters;
    assert(is_ascii_chars(all));
    is_ascii_chars_encode_utf8(mime);
    is_ascii_chars_encode_utf8(parameters);
    is_ascii_chars_encode_utf8(wanted);
    is_ascii_chars_encode_utf8(all);
    let raw = text::bytes_of(mime);
    let rest = text::bytes_of(parameters);
    assert(!raw.contains(59)) by {
        if raw.contains(59) {
            let i = raw.index_of(59);
            assert(raw[i] == mime[i] as u8);
            assert(mime[i] == ';');
        }
    }
    assert forall|i: int| 0 <= i < text::bytes_of(all).len() implies text::bytes_of(all)[i] == (raw
        + seq![59u8] + rest)[i] by {
        assert(text::bytes_of(all)[i] == all[i] as u8);
        if i < mime.len() {
            assert(raw[i] == mime[i] as u8);
        } else if i > mime.len() {
            assert(rest[i - mime.len() - 1] == parameters[i - mime.len() - 1] as u8);
        }
    }
    assert(text::bytes_of(all) =~= raw + seq![59u8] + rest);
    lemma_bare(raw, rest);
    let want = text::bytes_of(wanted);
    if mime_matches(mime, wanted) {
        assert forall|i: int| 0 <= i < mime.len() implies folded((#[trigger] mime[i]) as u8)
            == folded(wanted[i] as u8) by {
            assert(raw[i] == mime[i] as u8);
            assert(want[i] == wanted[i] as u8);
            assert(folded(raw[i]) == folded(want[i]));
        }
    }
    if mime.len() == wanted.len() && (forall|i: int|
        0 <= i < mime.len() ==> folded((#[trigger] mime[i]) as u8) == folded(wanted[i] as u8)) {
        assert forall|i: int| 0 <= i < raw.len() implies folded(#[trigger] raw[i]) == folded(
            want[i],
        ) by {
            assert(raw[i] == mime[i] as u8);
            assert(want[i] == wanted[i] as u8);
            assert(folded(mime[i] as u8) == folded(wanted[i] as u8));
        }
    }
}

/// The types that announce copied files are all those that are GNOME's or that of the list
/// that desktops share, and no others; and GNOME's come first.
pub proof fn law_types_of_copied_files(mimes: Seq<Seq<char>>, mime: Seq<char>)
    ensures
        file_mimes(mimes).contains(mime) <==> mimes.contains(mime) && (mime_matches(
            mime,
            "x-special/gnome-copied-files"@,
        ) || mime_matches(mime, "text/uri-list"@)),
        forall|i: int|
            0 <= i < matching(mimes, "x-special/gnome-copied-files"@).len() ==> mime_matches(
                #[trigger] file_mimes(mimes)[i],
                "x-special/gnome-copied-files"@,
            ),
{
    let gnome = "x-special/gnome-copied-files"@;
    let shared = "text/uri-list"@;
    lemma_matching(mimes, gnome, mime);
    lemma_matching(mimes, shared, mime);
    let a = matching(mimes, gnome);
    let b = matching(mimes, shared);
    let all = file_mimes(mimes);
    if a.contains(mime) {
        let i = a.index_of(mime);
        assert(all[i] == mime);
    }
    if b.contains(mime) {
        let i = b.index_of(mime);
        assert(all[a.len() + i] == mime);
    }
    assert forall|i: int| 0 <= i < a.len() implies mime_matches(#[trigger] all[i], gnome) by {
        assert(a.contains(a[i]));
        assert(all[i] == a[i]);
        lemma_matching(mimes, gnome, a[i]);
    }
}

proof fn lemma_matching(mimes: Seq<Seq<char>>, wanted: Seq<char>, mime: Seq<char>)
    ensures
        matching(mimes, wanted).contains(mime) <==> mimes.contains(mime) && mime_matches(
            mime,
            wanted,
        ),
    decreases mimes.len(),
{
    reveal(Seq::filter);
    let found = matching(mimes, wanted);
    if mimes.len() > 0 {
        let fewer = mimes.drop_last();
        let before = matching(fewer, wanted);
        lemma_matching(fewer, wanted, mime);
        if found.contains(mime) {
            let i = found.index_of(mime);
            if i < before.len() {
                assert(before[i] == mime);
            }
        }
        if before.contains(mime) {
            let i = before.index_of(mime);
            assert(found[i] == mime);
        }
        if mimes.contains(mime) {
            let i = mimes.index_of(mime);
            if i < fewer.len() {
                assert(fewer[i] == mime);
            }
        }
        if fewer.contains(mime) {
            let i = fewer.index_of(mime);
            assert(mimes[i] == mime);
        }
        assert(mimes[mimes.len() - 1] == mimes.last());
        if mime_matches(mimes.last(), wanted) {
            assert(found[found.len() - 1] == mimes.last());
        }
    }
}

} // verus!
