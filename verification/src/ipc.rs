//! What is asked of the daemon on its socket, and what it answers.

use vstd::prelude::*;

use crate::text;
use crate::transfer::TransferView;

verus! {

/// The longest request in bytes.
pub const MAX_REQUEST_BYTES: usize = 4096;

/// What is asked of the daemon.
#[derive(Debug, PartialEq, Eq)]
pub enum Request {
    Status,
    Pause,
    Resume,
    Unpair { peer: String },
    PeerList,
    TransferList,
    TransferStart { peer: String, paths: Vec<Vec<u8>> },
    TransferGet { id: u128 },
    TransferAccept { id: u128, destination: Vec<u8> },
    TransferReject { id: u128 },
    TransferCancel { id: u128 },
    ClipboardSyncFiles { paths: Vec<Vec<u8>> },
}

/// What the daemon answers.
#[derive(Debug, PartialEq, Eq)]
pub struct Response {
    pub ok: bool,
    pub message: String,
    pub data: Option<ResponseData>,
}

/// A trusted peer as it is listed.
#[derive(Debug, PartialEq, Eq)]
pub struct PeerView {
    pub id: String,
    pub name: String,
    pub connected: bool,
}

/// What the daemon answers besides a message.
#[derive(Debug, PartialEq, Eq)]
pub enum ResponseData {
    Peers { peers: Vec<PeerView> },
    Transfers { transfers: Vec<TransferView> },
    Transfer { transfer: TransferView },
    Started { id: u128 },
}

/// Whether a request line is short enough to be read.
pub open spec fn is_short(line: Seq<char>) -> bool {
    text::bytes_of(line).len() <= MAX_REQUEST_BYTES
}

/// A request line of up to 4096 bytes is read, and a longer one is not.
pub proof fn law_long_requests_are_not_read(line: Seq<char>)
    ensures
        is_short(line) <==> text::bytes_of(line).len() <= 4096,
{
}

/// Whether a request line is short enough to be read.
pub fn fits(line: &str) -> (short: bool)
    ensures
        short == is_short(line@),
{
    text::byte_len(line) <= MAX_REQUEST_BYTES
}

} // verus!
