//! The clipboard: copied files, what changed on it, and what this device put
//! there itself.

use vstd::prelude::*;

use crate::protocol::{ClipboardPayload, PayloadState};

pub mod files;
pub mod forms;
pub mod laws;
pub mod uri;
pub mod watch;

pub use crate::clipboard::files::payload_from_paths;

verus! {

/// What changed on the clipboard.
#[derive(Debug, PartialEq, Eq)]
pub enum Change {
    Payload(ClipboardPayload),
    /// Files were copied. Paths are byte strings.
    Files(Vec<Vec<u8>>),
}

/// What changed on the clipboard.
#[verifier::ext_equal]
pub enum ChangeState {
    Payload(PayloadState),
    Files(Seq<Seq<u8>>),
}

/// What a list of paths is.
pub open spec fn paths_of(paths: Seq<Vec<u8>>) -> Seq<Seq<u8>> {
    paths.map_values(|path: Vec<u8>| path@)
}

impl View for Change {
    type V = ChangeState;

    open spec fn view(&self) -> ChangeState {
        match self {
            Change::Payload(payload) => ChangeState::Payload(payload@),
            Change::Files(paths) => ChangeState::Files(paths_of(paths@)),
        }
    }
}

} // verus!
