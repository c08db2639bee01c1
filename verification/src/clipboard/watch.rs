//! Watching the clipboard: which changes are someone's, and which are this
//! device's own.

use vstd::prelude::*;

use crate::clipboard;
use crate::clipboard::{Change, ChangeState};
use crate::path;
use crate::protocol;
use crate::protocol::{ClipboardPayload, PayloadState};
use crate::text;

verus! {

/// What is remembered of a clipboard that says what is on it, but not whose
/// change it was.
pub struct Watcher {
    pub baseline: Option<ClipboardPayload>,
    pub baseline_files: Option<Vec<Vec<u8>>>,
    pub injected: Option<[u8; 32]>,
    pub injected_files: Option<Vec<Vec<u8>>>,
    pub handled_files: Option<Vec<Vec<u8>>>,
}

/// What is remembered of the clipboard.
#[verifier::ext_equal]
pub struct WatchState {
    /// What was last seen, if it was no files.
    pub baseline: Option<PayloadState>,
    /// The files that were last seen.
    pub baseline_files: Option<Seq<Seq<u8>>>,
    /// The digest of what this device put on the clipboard, until it is seen.
    pub injected: Option<Seq<u8>>,
    /// The files that this device put on the clipboard.
    pub injected_files: Option<Seq<Seq<u8>>>,
    /// The files that were sent on request.
    pub handled_files: Option<Seq<Seq<u8>>>,
}

/// Paths, if there are any.
pub open spec fn maybe_paths(paths: Option<Vec<Vec<u8>>>) -> Option<Seq<Seq<u8>>> {
    match paths {
        Some(paths) => Some(clipboard::paths_of(paths@)),
        None => None,
    }
}

impl View for Watcher {
    type V = WatchState;

    open spec fn view(&self) -> WatchState {
        WatchState {
            baseline: match self.baseline {
                Some(payload) => Some(payload@),
                None => None,
            },
            baseline_files: maybe_paths(self.baseline_files),
            injected: match self.injected {
                Some(digest) => Some(digest@),
                None => None,
            },
            injected_files: maybe_paths(self.injected_files),
            handled_files: maybe_paths(self.handled_files),
        }
    }
}

/// Whether some remembered paths are given ones.
pub open spec fn same_files(known: Option<Seq<Seq<u8>>>, paths: Seq<Seq<u8>>) -> bool {
    &&& known matches Some(known)
    &&& known.len() == paths.len()
    &&& forall|i: int| 0 <= i < paths.len() ==> path::same_path(#[trigger] known[i], paths[i])
}

/// What is remembered once something was seen on the clipboard, and whether it
/// is someone's change. `selected` says that the clipboard was set since it was
/// last looked at, even if to the same.
pub open spec fn observed(w: WatchState, selected: bool, change: ChangeState) -> (WatchState, bool) {
    match change {
        ChangeState::Payload(payload) => {
            let seen = WatchState { baseline_files: None, handled_files: None, ..w };
            if w.baseline == Some(payload) {
                (seen, false)
            } else {
                (
                    WatchState {
                        baseline: Some(payload),
                        injected_files: None,
                        injected: None,
                        ..seen
                    },
                    w.injected != Some(protocol::digest_of(payload)),
                )
            }
        },
        ChangeState::Files(paths) => {
            let seen = WatchState {
                baseline_files: Some(paths),
                baseline: None,
                handled_files: None,
                ..w
            };
            if !selected && (same_files(w.handled_files, paths) || same_files(w.baseline_files, paths)) {
                (w, false)
            } else if same_files(w.injected_files, paths) {
                (seen, false)
            } else {
                (WatchState { injected: None, ..seen }, w.injected is None)
            }
        },
    }
}

/// What is remembered once this device put something on the clipboard.
pub open spec fn injected(w: WatchState, digest: Seq<u8>, paths: Option<Seq<Seq<u8>>>) -> WatchState {
    WatchState { injected: Some(digest), injected_files: paths, ..w }
}

/// What is remembered once copied files were sent on request.
pub open spec fn handled(w: WatchState, paths: Seq<Seq<u8>>) -> WatchState {
    WatchState {
        baseline_files: Some(paths),
        injected_files: Some(paths),
        handled_files: Some(paths),
        injected: None,
        ..w
    }
}

/// What is remembered once watching starts anew from what is on the clipboard.
pub open spec fn rebased(
    w: WatchState,
    files: Option<Seq<Seq<u8>>>,
    payload: Option<PayloadState>,
) -> WatchState {
    WatchState {
        baseline_files: files,
        baseline: if files is None {
            payload
        } else {
            None
        },
        injected: None,
        injected_files: None,
        ..w
    }
}

/// What is remembered once watching starts from what is on the clipboard.
pub open spec fn started(
    files: Option<Seq<Seq<u8>>>,
    payload: Option<PayloadState>,
) -> WatchState {
    WatchState {
        baseline: payload,
        baseline_files: files,
        injected: None,
        injected_files: None,
        handled_files: None,
    }
}

/// Whether some remembered paths are given ones.
fn are_paths(known: &Option<Vec<Vec<u8>>>, paths: &Vec<Vec<u8>>) -> (same: bool)
    ensures
        same == same_files(maybe_paths(*known), clipboard::paths_of(paths@)),
{
    let listed = match known {
        Some(listed) => listed,
        None => return false,
    };
    if listed.len() != paths.len() {
        return false;
    }
    let ghost left = clipboard::paths_of(listed@);
    let ghost right = clipboard::paths_of(paths@);
    let mut i: usize = 0;
    while i < listed.len()
        invariant
            i <= listed@.len() == paths@.len(),
            left == clipboard::paths_of(listed@),
            maybe_paths(*known) == Some(left),
            right == clipboard::paths_of(paths@),
            forall|k: int| 0 <= k < i ==> path::same_path(#[trigger] left[k], right[k]),
        decreases listed@.len() - i,
    {
        if !path::is_same(listed[i].as_slice(), paths[i].as_slice()) {
            assert(!path::same_path(left[i as int], right[i as int]));
            return false;
        }
        i = i + 1;
    }
    true
}

/// A copy of a list of paths.
fn clone_paths(paths: &Vec<Vec<u8>>) -> (copy: Vec<Vec<u8>>)
    ensures
        clipboard::paths_of(copy@) == clipboard::paths_of(paths@),
{
    let mut copy: Vec<Vec<u8>> = Vec::new();
    let mut i: usize = 0;
    while i < paths.len()
        invariant
            i <= paths@.len(),
            copy@.len() == i,
            forall|k: int| 0 <= k < i ==> (#[trigger] copy@[k])@ == paths@[k]@,
        decreases paths@.len() - i,
    {
        let path = paths[i].clone();
        assert(path@ =~= paths@[i as int]@);
        copy.push(path);
        i = i + 1;
    }
    assert(clipboard::paths_of(copy@) =~= clipboard::paths_of(paths@));
    copy
}

impl Watcher {
    /// Watching starts from what is on the clipboard.
    pub fn new(files: Option<Vec<Vec<u8>>>, payload: Option<ClipboardPayload>) -> (watcher: Self)
        ensures
            watcher@ == started(
                maybe_paths(files),
                match payload {
                    Some(payload) => Some(payload@),
                    None => None,
                },
            ),
    {
        Watcher {
            baseline: payload,
            baseline_files: files,
            injected: None,
            injected_files: None,
            handled_files: None,
        }
    }

    /// This device put something on the clipboard, as files or not.
    pub fn written(&mut self, digest: [u8; 32], paths: Option<Vec<Vec<u8>>>)
        ensures
            final(self)@ == injected(old(self)@, digest@, maybe_paths(paths)),
    {
        self.injected = Some(digest);
        self.injected_files = paths;
    }

    /// Copied files were sent on request.
    pub fn mark_files_handled(&mut self, paths: Vec<Vec<u8>>)
        ensures
            final(self)@ == handled(old(self)@, clipboard::paths_of(paths@)),
    {
        self.baseline_files = Some(clone_paths(&paths));
        self.injected_files = Some(clone_paths(&paths));
        self.handled_files = Some(paths);
        self.injected = None;
    }

    /// Watching starts anew from what is on the clipboard.
    pub fn rebaseline(&mut self, files: Option<Vec<Vec<u8>>>, payload: Option<ClipboardPayload>)
        ensures
            final(self)@ == rebased(
                old(self)@,
                maybe_paths(files),
                match payload {
                    Some(payload) => Some(payload@),
                    None => None,
                },
            ),
    {
        self.baseline = if files.is_none() {
            payload
        } else {
            None
        };
        self.baseline_files = files;
        self.injected = None;
        self.injected_files = None;
    }

    /// Something is on the clipboard. Hands it out if it is someone's change.
    pub fn observe(&mut self, selected: bool, change: Change) -> (report: Option<Change>)
        ensures
            final(self)@ == observed(old(self)@, selected, change@).0,
            match report {
                Some(reported) => observed(old(self)@, selected, change@).1 && reported@ == change@,
                None => !observed(old(self)@, selected, change@).1,
            },
    {
        match change {
            Change::Payload(payload) => {
                self.baseline_files = None;
                self.handled_files = None;
                let known = match &self.baseline {
                    Some(baseline) => baseline.same(&payload),
                    None => false,
                };
                if known {
                    return None;
                }
                self.baseline = Some(payload.clone());
                self.injected_files = None;
                let digest = payload.digest();
                let own = match self.injected.take() {
                    Some(injected) => text::bytes_eq(injected.as_slice(), digest.as_slice()),
                    None => false,
                };
                if own {
                    return None;
                }
                Some(Change::Payload(payload))
            },
            Change::Files(paths) => {
                if !selected && (are_paths(&self.handled_files, &paths) || are_paths(
                    &self.baseline_files,
                    &paths,
                )) {
                    return None;
                }
                self.baseline_files = Some(clone_paths(&paths));
                self.baseline = None;
                self.handled_files = None;
                if are_paths(&self.injected_files, &paths) {
                    return None;
                }
                if self.injected.take().is_some() {
                    return None;
                }
                Some(Change::Files(paths))
            },
        }
    }
}

/// What is remembered of a clipboard that counts its changes.
#[derive(Clone, Copy, Debug, PartialEq, Eq, Structural)]
pub struct Counter {
    pub count: i64,
    pub injected: Option<i64>,
}

/// What is remembered once this device put something on the clipboard.
pub open spec fn put_at(c: Counter, count: i64) -> Counter {
    Counter { count, injected: Some(count) }
}

/// What is remembered once watching starts anew.
pub open spec fn restarted(c: Counter, count: i64) -> Counter {
    Counter { count, injected: None }
}

/// What is remembered once the clipboard was looked at, and whether someone changed
/// it.
pub open spec fn counted(c: Counter, count: i64) -> (Counter, bool) {
    if count == c.count {
        (c, false)
    } else {
        (Counter { count, injected: None }, c.injected != Some(count))
    }
}

impl Counter {
    /// Watching starts from a count.
    pub fn new(count: i64) -> (counter: Self)
        ensures
            counter == (Counter { count, injected: None }),
    {
        Counter { count, injected: None }
    }

    /// This device put something on the clipboard, which counts so now.
    pub fn written(&mut self, count: i64)
        ensures
            *final(self) == put_at(*old(self), count),
    {
        self.count = count;
        self.injected = Some(count);
    }

    /// Watching starts anew from a count.
    pub fn rebaseline(&mut self, count: i64)
        ensures
            *final(self) == restarted(*old(self), count),
    {
        self.count = count;
        self.injected = None;
    }

    /// Whether the clipboard changed and the change is someone's.
    pub fn observe(&mut self, count: i64) -> (changed: bool)
        ensures
            (*final(self), changed) == counted(*old(self), count),
    {
        if count == self.count {
            return false;
        }
        self.count = count;
        let own = match self.injected {
            Some(injected) => injected == count,
            None => false,
        };
        self.injected = None;
        !own
    }
}

/// What a peer sent and this device put on the clipboard does not come back as
/// a change of this device's: neither when it is first seen, nor when it is
/// seen again.
pub proof fn law_injected_payload_is_not_reported(w: WatchState, payload: PayloadState, selected: bool)
    ensures
        ({
            let put = injected(w, protocol::digest_of(payload), None);
            let first = observed(put, selected, ChangeState::Payload(payload));
            let second = observed(first.0, selected, ChangeState::Payload(payload));
            !first.1 && !second.1
        }),
{
}

/// Files that a peer sent and this device put on the clipboard do not come back
/// as files copied here, however their paths are written.
pub proof fn law_injected_files_are_not_reported(
    w: WatchState,
    digest: Seq<u8>,
    paths: Seq<Seq<u8>>,
    seen: Seq<Seq<u8>>,
    selected: bool,
)
    requires
        same_files(Some(paths), seen),
    ensures
        !observed(injected(w, digest, Some(paths)), selected, ChangeState::Files(seen)).1,
        !observed(handled(w, paths), selected, ChangeState::Files(seen)).1,
{
}

/// What someone copies is reported, once: a payload that was not there before
/// and that this device did not put there.
pub proof fn law_copy_is_reported_once(w: WatchState, payload: PayloadState, selected: bool)
    requires
        w.baseline != Some(payload),
        w.injected is None,
    ensures
        ({
            let first = observed(w, selected, ChangeState::Payload(payload));
            let second = observed(first.0, selected, ChangeState::Payload(payload));
            first.1 && !second.1
        }),
{
}

/// What is on the clipboard when watching starts anew is not reported.
pub proof fn law_baseline_is_not_reported(
    w: WatchState,
    files: Option<Seq<Seq<u8>>>,
    payload: Option<PayloadState>,
)
    ensures
        files matches Some(paths) ==> !observed(
            rebased(w, files, payload),
            false,
            ChangeState::Files(paths),
        ).1,
        files is None ==> (payload matches Some(seen) ==> !observed(
            rebased(w, files, payload),
            false,
            ChangeState::Payload(seen),
        ).1),
{
}

} // verus!
