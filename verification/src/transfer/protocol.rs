//! What two devices say to each other while one sends files to the other.

use vstd::prelude::*;

use crate::text;

verus! {

/// The most bytes of a file in one message.
pub const CHUNK_BYTES: usize = 49_152;

/// The most bytes of one transfer: 100 GiB.
pub const MAX_TRANSFER_BYTES: u64 = 107_374_182_400;

/// The most files of one transfer.
pub const MAX_TRANSFER_FILES: usize = 256;

/// The longest reason for ending a transfer.
pub const MAX_REASON_BYTES: usize = 1024;

/// A file of a transfer.
#[derive(Debug, PartialEq, Eq)]
pub struct FileManifest {
    pub name: String,
    pub size: u64,
}

/// A message about a transfer.
#[derive(Debug, PartialEq, Eq)]
pub enum TransferMessage {
    Offer { id: u128, files: Vec<FileManifest>, total_bytes: u64 },
    Response { id: u128, accepted: bool },
    Chunk { id: u128, file_index: u32, offset: u64, data: Vec<u8> },
    Ack { id: u128, file_index: u32, next_offset: u64 },
    Complete { id: u128 },
    Finished { id: u128 },
    Cancel { id: u128, reason: String },
}

/// Why a list of files is refused.
#[derive(Clone, Copy, Debug, PartialEq, Eq, Structural)]
pub enum ManifestError {
    FileCount,
    TooLarge,
    InvalidName,
    /// The name of the file at this place occurs before.
    DuplicateName(usize),
    SizeOverflow,
    SizeMismatch,
}

impl Clone for FileManifest {
    fn clone(&self) -> (copy: Self)
        ensures
            copy == *self,
    {
        FileManifest { name: self.name.clone(), size: self.size }
    }
}

/// Whether a name can be that of a file in a folder and of nothing else.
pub open spec fn is_file_name(name: Seq<char>) -> bool {
    &&& name.len() > 0
    &&& name != "."@
    &&& name != ".."@
    &&& forall|i: int|
        0 <= i < name.len() ==> #[trigger] name[i] != '/' && name[i] != '\\' && name[i] != '\0'
}

/// The sum of a list of numbers.
pub open spec fn sum(numbers: Seq<u64>) -> int
    decreases numbers.len(),
{
    if numbers.len() == 0 {
        0
    } else {
        sum(numbers.drop_last()) + numbers.last()
    }
}

/// The sizes of a list of files.
pub open spec fn sizes(files: Seq<FileManifest>) -> Seq<u64> {
    files.map_values(|file: FileManifest| file.size)
}

/// Whether no two files have the same name.
pub open spec fn names_differ(files: Seq<FileManifest>) -> bool {
    forall|i: int, j: int|
        #![trigger files[i], files[j]]
        0 <= i < j < files.len() ==> files[i].name@ != files[j].name@
}

/// Whether a list of files can be transferred: not too many, not too large,
/// names that are file names and differ, and sizes that add up to the total.
pub open spec fn is_manifest(files: Seq<FileManifest>, total_bytes: u64) -> bool {
    &&& 1 <= files.len() <= MAX_TRANSFER_FILES
    &&& total_bytes <= MAX_TRANSFER_BYTES
    &&& forall|i: int| 0 <= i < files.len() ==> is_file_name((#[trigger] files[i]).name@)
    &&& names_differ(files)
    &&& sum(sizes(files)) == total_bytes
}

/// The first thing wrong with the first files of a list, if anything is.
pub open spec fn file_fault(files: Seq<FileManifest>, n: int) -> Option<ManifestError>
    decreases n,
{
    if n <= 0 {
        None
    } else if file_fault(files, n - 1) is Some {
        file_fault(files, n - 1)
    } else if !is_file_name(files[n - 1].name@) {
        Some(ManifestError::InvalidName)
    } else if exists|j: int|
        0 <= j < n - 1 && (#[trigger] files[j]).name@ == files[n - 1].name@ {
        Some(ManifestError::DuplicateName((n - 1) as usize))
    } else if sum(sizes(files.take(n))) > u64::MAX {
        Some(ManifestError::SizeOverflow)
    } else {
        None
    }
}

/// What is wrong with a list of files, if anything is.
pub open spec fn manifest_fault(files: Seq<FileManifest>, total_bytes: u64) -> Option<
    ManifestError,
> {
    if files.len() == 0 || files.len() > MAX_TRANSFER_FILES {
        Some(ManifestError::FileCount)
    } else if total_bytes > MAX_TRANSFER_BYTES {
        Some(ManifestError::TooLarge)
    } else if file_fault(files, files.len() as int) is Some {
        file_fault(files, files.len() as int)
    } else if sum(sizes(files)) != total_bytes {
        Some(ManifestError::SizeMismatch)
    } else {
        None
    }
}

/// Whether a name can be that of a file in a folder and of nothing else.
pub fn check_file_name(name: &str) -> (valid: bool)
    ensures
        valid == is_file_name(name@),
{
    if name.is_empty() || text::str_eq(name, ".") || text::str_eq(name, "..") {
        return false;
    }
    let chars = text::chars_of(name);
    let mut i: usize = 0;
    while i < chars.len()
        invariant
            i <= chars.len(),
            chars@ == name@,
            forall|k: int|
                0 <= k < i ==> #[trigger] name@[k] != '/' && name@[k] != '\\' && name@[k] != '\0',
        decreases chars.len() - i,
    {
        let c = chars[i];
        if c == '/' || c == '\\' || c == '\0' {
            assert(name@[i as int] == c);
            return false;
        }
        i = i + 1;
    }
    true
}

proof fn lemma_no_file_fault(files: Seq<FileManifest>, n: int)
    requires
        0 <= n <= files.len(),
    ensures
        file_fault(files, n) is None ==> {
            &&& forall|i: int| 0 <= i < n ==> is_file_name((#[trigger] files[i]).name@)
            &&& forall|i: int, j: int|
                #![trigger files[i], files[j]]
                0 <= i < j < n ==> files[i].name@ != files[j].name@
            &&& n > 0 ==> sum(sizes(files.take(n))) <= u64::MAX
        },
    decreases n,
{
    if n > 0 {
        lemma_no_file_fault(files, n - 1);
    }
}

proof fn lemma_valid_has_no_fault(files: Seq<FileManifest>, total_bytes: u64, n: int)
    requires
        is_manifest(files, total_bytes),
        0 <= n <= files.len(),
    ensures
        file_fault(files, n) is None,
    decreases n,
{
    if n > 0 {
        lemma_valid_has_no_fault(files, total_bytes, n - 1);
        lemma_sum_prefix(sizes(files), n);
        assert(sizes(files).take(n) =~= sizes(files.take(n)));
    }
}

/// A list of files is refused exactly if it cannot be transferred.
pub proof fn lemma_manifest_fault(files: Seq<FileManifest>, total_bytes: u64)
    ensures
        manifest_fault(files, total_bytes) is None <==> is_manifest(files, total_bytes),
{
    lemma_no_file_fault(files, files.len() as int);
    if is_manifest(files, total_bytes) {
        lemma_valid_has_no_fault(files, total_bytes, files.len() as int);
    }
}

/// The first numbers of a list add up to no more than all of them.
pub proof fn lemma_sum_prefix(numbers: Seq<u64>, n: int)
    requires
        0 <= n <= numbers.len(),
    ensures
        0 <= sum(numbers.take(n)) <= sum(numbers),
    decreases numbers.len(),
{
    if n == numbers.len() {
        assert(numbers.take(n) =~= numbers);
        if n > 0 {
            lemma_sum_prefix(numbers.drop_last(), n - 1);
        }
    } else {
        lemma_sum_prefix(numbers.drop_last(), n);
        assert(numbers.drop_last().take(n) =~= numbers.take(n));
    }
}

/// Changing one number changes the sum by the difference.
pub proof fn lemma_sum_update(numbers: Seq<u64>, at: int, value: u64)
    requires
        0 <= at < numbers.len(),
    ensures
        sum(numbers.update(at, value)) == sum(numbers) - numbers[at] + value,
    decreases numbers.len(),
{
    let changed = numbers.update(at, value);
    if at == numbers.len() - 1 {
        assert(changed.drop_last() =~= numbers.drop_last());
    } else {
        assert(changed.drop_last() =~= numbers.drop_last().update(at, value));
        lemma_sum_update(numbers.drop_last(), at, value);
    }
}

/// Numbers that are each at most another add up to at most the sum of the
/// others, and to all of it only if each is equal.
pub proof fn lemma_sum_bounded(low: Seq<u64>, high: Seq<u64>)
    requires
        low.len() == high.len(),
        forall|i: int| 0 <= i < low.len() ==> #[trigger] low[i] <= high[i],
    ensures
        sum(low) <= sum(high),
        sum(low) == sum(high) <==> low == high,
    decreases low.len(),
{
    if low.len() > 0 {
        let a = low.drop_last();
        let b = high.drop_last();
        assert forall|i: int| 0 <= i < a.len() implies #[trigger] a[i] <= b[i] by {
            assert(low[i] <= high[i]);
        }
        lemma_sum_bounded(a, b);
        if sum(low) == sum(high) {
            assert(low =~= a.push(low.last()));
            assert(high =~= b.push(high.last()));
        }
    } else {
        assert(low =~= high);
    }
}

/// As many zeros as wanted.
pub open spec fn zeros(n: nat) -> Seq<u64> {
    Seq::new(n, |i: int| 0u64)
}

pub proof fn lemma_sum_zeros(n: nat)
    ensures
        sum(zeros(n)) == 0,
    decreases n,
{
    if n > 0 {
        lemma_sum_zeros((n - 1) as nat);
        assert(zeros(n).drop_last() =~= zeros((n - 1) as nat));
    }
}

/// Refuses a list of files that cannot be transferred, and says what is wrong
/// with it first.
pub fn validate_manifest(files: &[FileManifest], total_bytes: u64) -> (result: Result<
    (),
    ManifestError,
>)
    ensures
        result == match manifest_fault(files@, total_bytes) {
            Some(error) => Err::<(), ManifestError>(error),
            None => Ok(()),
        },
        result is Ok <==> is_manifest(files@, total_bytes),
{
    proof {
        lemma_manifest_fault(files@, total_bytes);
    }
    if files.len() == 0 || files.len() > MAX_TRANSFER_FILES {
        return Err(ManifestError::FileCount);
    }
    if total_bytes > MAX_TRANSFER_BYTES {
        return Err(ManifestError::TooLarge);
    }
    let mut calculated: u64 = 0;
    let mut i: usize = 0;
    proof {
        assert(sizes(files@.take(0)) =~= Seq::empty());
    }
    while i < files.len()
        invariant
            i <= files.len() <= MAX_TRANSFER_FILES,
            files@.len() > 0,
            total_bytes <= MAX_TRANSFER_BYTES,
            manifest_fault(files@, total_bytes) is None <==> is_manifest(files@, total_bytes),
            calculated == sum(sizes(files@.take(i as int))),
            file_fault(files@, i as int) is None,
        decreases files.len() - i,
    {
        if !check_file_name(files[i].name.as_str()) {
            proof {
                lemma_fault_stays(files@, i + 1, files@.len() as int);
            }
            return Err(ManifestError::InvalidName);
        }
        let mut j: usize = 0;
        while j < i
            invariant
                j <= i < files.len() <= MAX_TRANSFER_FILES,
                files@.len() > 0,
                total_bytes <= MAX_TRANSFER_BYTES,
                manifest_fault(files@, total_bytes) is None <==> is_manifest(
                    files@,
                    total_bytes,
                ),
                file_fault(files@, i as int) is None,
                is_file_name(files@[i as int].name@),
                forall|k: int|
                    0 <= k < j ==> (#[trigger] files@[k]).name@ != files@[i as int].name@,
            decreases i - j,
        {
            if text::str_eq(files[j].name.as_str(), files[i].name.as_str()) {
                proof {
                    assert(files@[j as int].name@ == files@[i as int].name@);
                    lemma_fault_stays(files@, i + 1, files@.len() as int);
                }
                return Err(ManifestError::DuplicateName(i));
            }
            j = j + 1;
        }
        proof {
            let longer = sizes(files@.take(i + 1));
            assert(longer.drop_last() =~= sizes(files@.take(i as int)));
            assert(longer.last() == files@[i as int].size);
        }
        calculated =
        match calculated.checked_add(files[i].size) {
            Some(calculated) => calculated,
            None => {
                proof {
                    lemma_fault_stays(files@, i + 1, files@.len() as int);
                }
                return Err(ManifestError::SizeOverflow);
            },
        };
        i = i + 1;
    }
    proof {
        assert(files@.take(i as int) =~= files@);
    }
    if calculated != total_bytes {
        return Err(ManifestError::SizeMismatch);
    }
    Ok(())
}

proof fn lemma_fault_stays(files: Seq<FileManifest>, n: int, more: int)
    requires
        0 <= n <= more,
        file_fault(files, n) is Some,
    ensures
        file_fault(files, more) == file_fault(files, n),
    decreases more,
{
    if n < more {
        lemma_fault_stays(files, n, more - 1);
    }
}

/// A name is that of a file in a folder exactly if it is not empty, is neither `.` nor `..`,
/// and has no slash, no backslash and no NUL in it.
pub proof fn law_names_stay_in_their_folder(name: Seq<char>)
    ensures
        is_file_name(name) <==> name.len() > 0 && name != seq!['.'] && name != seq!['.', '.']
            && !name.contains('/') && !name.contains('\\') && !name.contains('\0'),
{
    reveal_strlit(".");
    reveal_strlit("..");
    assert("."@ =~= seq!['.']);
    assert(".."@ =~= seq!['.', '.']);
    if is_file_name(name) {
        if name.contains('/') {
            assert(name[name.index_of('/')] != '/');
        }
        if name.contains('\\') {
            assert(name[name.index_of('\\')] != '\\');
        }
        if name.contains('\0') {
            assert(name[name.index_of('\0')] != '\0');
        }
    }
    if !name.contains('/') && !name.contains('\\') && !name.contains('\0') {
        assert forall|i: int| 0 <= i < name.len() implies #[trigger] name[i] != '/' && name[i]
            != '\\' && name[i] != '\0' by {
            assert(name.contains(name[i]));
        }
    }
}

/// Files can be transferred exactly if there are 1 to 256 of them, of at most 100 GiB
/// together, with file names that differ, and with sizes that add up to the total that is
/// given. Too many files are refused before too many bytes, and those before the names.
pub proof fn law_files_can_be_transferred(files: Seq<FileManifest>, total_bytes: u64)
    ensures
        ({
            let count = 1 <= files.len() <= 256;
            let named = forall|i: int| 0 <= i < files.len() ==> is_file_name((#[trigger] files[i]).name@);
            let told_apart = forall|i: int, j: int|
                #![trigger files[i], files[j]]
                0 <= i < j < files.len() ==> files[i].name@ != files[j].name@;
            &&& manifest_fault(files, total_bytes) is None <==> count && total_bytes
                <= 107_374_182_400 && named && told_apart && sum(sizes(files)) == total_bytes
            &&& !count ==> manifest_fault(files, total_bytes) == Some(ManifestError::FileCount)
            &&& count && total_bytes > 107_374_182_400 ==> manifest_fault(files, total_bytes)
                == Some(ManifestError::TooLarge)
            &&& count && total_bytes <= 107_374_182_400 && named && told_apart && sum(sizes(files))
                != total_bytes && sum(sizes(files)) <= u64::MAX ==> manifest_fault(
                files,
                total_bytes,
            ) == Some(ManifestError::SizeMismatch)
        }),
{
    lemma_manifest_fault(files, total_bytes);
    let named = forall|i: int| 0 <= i < files.len() ==> is_file_name((#[trigger] files[i]).name@);
    let told_apart = forall|i: int, j: int|
        #![trigger files[i], files[j]]
        0 <= i < j < files.len() ==> files[i].name@ != files[j].name@;
    if 1 <= files.len() <= 256 && named && told_apart && sum(sizes(files)) <= u64::MAX {
        lemma_well_named(files, files.len() as int);
    }
}

proof fn lemma_well_named(files: Seq<FileManifest>, n: int)
    requires
        0 <= n <= files.len(),
        forall|i: int| 0 <= i < files.len() ==> is_file_name((#[trigger] files[i]).name@),
        forall|i: int, j: int|
            #![trigger files[i], files[j]]
            0 <= i < j < files.len() ==> files[i].name@ != files[j].name@,
        sum(sizes(files)) <= u64::MAX,
    ensures
        file_fault(files, n) is None,
    decreases n,
{
    if n > 0 {
        lemma_well_named(files, n - 1);
        lemma_sum_prefix(sizes(files), n);
        assert(sizes(files).take(n) =~= sizes(files.take(n)));
    }
}

/// The sizes of files add up: one more file adds its size, and no file is nothing.
pub proof fn law_sizes_add_up(files: Seq<FileManifest>, file: FileManifest)
    ensures
        sum(sizes(files.push(file))) == sum(sizes(files)) + file.size,
        sum(sizes(Seq::<FileManifest>::empty())) == 0,
{
    assert(sizes(files.push(file)).drop_last() =~= sizes(files));
    assert(sizes(Seq::<FileManifest>::empty()) =~= Seq::empty());
}

} // verus!
