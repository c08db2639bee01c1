//! Between two devices: who is who, pairing, and encrypted connections.

use vstd::prelude::*;
use vstd::utf8::*;

use crate::bytes;
use crate::config;
use crate::config::{Config, ConfigError, Peer};
use crate::foreign;
use crate::input::transport::Address;
use crate::path;
use crate::text;

pub mod frame;
pub mod laws;

verus! {

/// The longest content of a record.
pub const MAX_NOISE_PLAINTEXT: usize = 60_000;

/// The longest handshake message.
pub const MAX_HANDSHAKE_BYTES: usize = 4096;

/// The version of the pairing.
pub const PAIRING_VERSION: u16 = 1;

/// How long a device name may be.
pub const MAX_PEER_NAME: usize = 63;

/// Why a connection or a pairing fails.
#[derive(Clone, Copy, Debug, PartialEq, Eq, Structural)]
pub enum NetworkError {
    UnsupportedPairing(u16),
    InvalidPeerName,
    MissingStaticKey,
    IdentityMismatch,
    Rejected,
    InvalidPreface,
    HandshakeTooLarge,
    RecordTooLarge,
    PeerKeyNotHex,
    PeerKeyLength,
    Identity(ConfigError),
    Handshake,
    Encryption,
    Decryption,
}

/// What a device says of itself while it pairs.
#[derive(Debug, PartialEq, Eq)]
pub struct Identity {
    pub version: u16,
    pub id: String,
    pub name: String,
}

/// The id of a device: the hexadecimal text of the first half of the hash of its
/// public key.
pub open spec fn id_of(public_key: Seq<u8>) -> Seq<char> {
    foreign::hex_text(foreign::blake3_hash(public_key).take(16))
}

/// What is wrong with an identity, if anything is.
pub open spec fn identity_fault(identity: Identity) -> Option<NetworkError> {
    if identity.version != PAIRING_VERSION {
        Some(NetworkError::UnsupportedPairing(identity.version))
    } else if identity.name@.len() == 0 || identity.name@.len() > MAX_PEER_NAME {
        Some(NetworkError::InvalidPeerName)
    } else {
        None
    }
}

/// What is wrong with an identity and the key that came with it, if anything
/// is.
pub open spec fn pairing_fault(identity: Identity, key: Option<Seq<u8>>) -> Option<NetworkError> {
    if identity_fault(identity) is Some {
        identity_fault(identity)
    } else {
        match key {
            None => Some(NetworkError::MissingStaticKey),
            Some(key) => if identity.id@ != id_of(key) {
                Some(NetworkError::IdentityMismatch)
            } else {
                None
            },
        }
    }
}

/// The authentication code of a handshake hash.
pub open spec fn code_of(hash: Seq<u8>) -> int {
    (bytes::be_value(hash.take(4)) % 1_000_000) as int
}

/// A code in six digits.
pub open spec fn code_digits(code: int) -> Seq<char> {
    Seq::new(6, |i: int| text::decimal_digit(code / power_of_ten(5 - i) % 10))
}

/// A power of ten.
pub open spec fn power_of_ten(n: int) -> int
    decreases n,
{
    if n <= 0 {
        1
    } else {
        10 * power_of_ten(n - 1)
    }
}

/// Whether an answer is a yes.
pub open spec fn is_yes(line: Seq<char>) -> bool {
    let answer = text::trimmed(line);
    answer == "y"@ || answer == "Y"@ || answer == "yes"@ || answer == "YES"@
}

/// The lowercase character of an ASCII byte.
pub open spec fn lower(byte: u8) -> char {
    if 65 <= byte <= 90 {
        (byte + 32) as char
    } else {
        byte as char
    }
}

/// Whether a byte string starts a connection: hexadecimal digits only.
pub open spec fn is_preface(preface: Seq<u8>) -> bool {
    forall|i: int| 0 <= i < preface.len() ==> foreign::hex_value(#[trigger] preface[i]) is Some
}

/// The id that a connection starts with, if it starts with one.
pub open spec fn announced_id(preface: Seq<u8>) -> Option<Seq<char>> {
    if is_preface(preface) {
        Some(preface.map_values(|byte: u8| lower(byte)))
    } else {
        None
    }
}

/// The id of a device.
pub fn device_id(public_key: &[u8]) -> (id: String)
    ensures
        id@ == id_of(public_key@),
{
    let hash = foreign::hash(public_key);
    let half = path::copy_range(hash.as_slice(), 0, 16);
    assert(half@ =~= foreign::blake3_hash(public_key@).take(16));
    foreign::hex_encode(half.as_slice())
}

/// Refuses an identity of another version and one without a proper name.
pub fn validate_identity(identity: &Identity) -> (result: Result<(), NetworkError>)
    ensures
        result == match identity_fault(*identity) {
            Some(error) => Err::<(), NetworkError>(error),
            None => Ok(()),
        },
{
    if identity.version != PAIRING_VERSION {
        return Err(NetworkError::UnsupportedPairing(identity.version));
    }
    let length: usize = text::chars_of(identity.name.as_str()).len();
    if length == 0 || length > MAX_PEER_NAME {
        return Err(NetworkError::InvalidPeerName);
    }
    Ok(())
}

/// A device can pair under every name that it can have: the one it is made with and
/// any that it is given later.
pub proof fn law_named_devices_can_pair(identity: Identity, host: Option<Seq<char>>)
    requires
        identity.version == PAIRING_VERSION,
        config::is_device_name(identity.name@) || identity.name@ == config::host_name(host),
    ensures
        identity_fault(identity) is None,
{
    reveal_strlit("lan-cat");
}

/// The authentication code of a handshake hash: six digits at most.
pub fn pairing_code(hash: &[u8]) -> (code: u32)
    requires
        hash@.len() >= 4,
    ensures
        code == code_of(hash@),
        code < 1_000_000,
{
    let value: u64 = bytes::read_be(hash, 0, 4);
    assert(hash@.subrange(0, 4) =~= hash@.take(4));
    (value % 1_000_000) as u32
}

/// A code in six digits.
pub fn code_text(code: u32) -> (digits: String)
    requires
        code < 1_000_000,
    ensures
        digits@ == code_digits(code as int),
{
    let mut chars: Vec<char> = Vec::new();
    chars.push(decimal_char(code / 100_000 % 10));
    chars.push(decimal_char(code / 10_000 % 10));
    chars.push(decimal_char(code / 1_000 % 10));
    chars.push(decimal_char(code / 100 % 10));
    chars.push(decimal_char(code / 10 % 10));
    chars.push(decimal_char(code % 10));
    proof {
        reveal_with_fuel(power_of_ten, 6);
        assert(chars@ =~= code_digits(code as int));
    }
    text::text_of(chars.as_slice())
}

/// A decimal digit.
fn decimal_char(value: u32) -> (digit: char)
    requires
        value < 10,
    ensures
        digit == text::decimal_digit(value as int),
{
    (value as u8 + 48) as char
}

/// Whether an answer is a yes.
pub fn confirms(line: &str) -> (yes: bool)
    ensures
        yes == is_yes(line@),
{
    let answer = text::trim(line);
    text::str_eq(answer.as_str(), "y") || text::str_eq(answer.as_str(), "Y") || text::str_eq(
        answer.as_str(),
        "yes",
    ) || text::str_eq(answer.as_str(), "YES")
}

/// Whether a device opens the connection to another: the one with the smaller id does.
pub open spec fn opens_to(local_id: Seq<char>, remote_id: Seq<char>) -> bool {
    text::text_lt(local_id, remote_id)
}

/// Whether this device opens the connection to another: the one with the smaller
/// id does.
pub fn dials(local_id: &str, remote_id: &str) -> (opens: bool)
    ensures
        opens == opens_to(local_id@, remote_id@),
{
    text::str_lt(local_id, remote_id)
}

/// Refuses an identity that does not belong to the key it came with.
pub fn check_pairing(identity: &Identity, key: &Option<Vec<u8>>) -> (result: Result<
    (),
    NetworkError,
>)
    ensures
        result == match pairing_fault(
            *identity,
            match *key {
                Some(key) => Some(key@),
                None => None,
            },
        ) {
            Some(error) => Err::<(), NetworkError>(error),
            None => Ok(()),
        },
{
    if let Err(error) = validate_identity(identity) {
        return Err(error);
    }
    match key {
        None => Err(NetworkError::MissingStaticKey),
        Some(key) => {
            let id = device_id(key.as_slice());
            if text::str_eq(id.as_str(), identity.id.as_str()) {
                Ok(())
            } else {
                Err(NetworkError::IdentityMismatch)
            }
        },
    }
}

/// Whether a pairing gives a peer, once both ends have answered.
pub open spec fn concludes(
    identity: Identity,
    key: Seq<u8>,
    confirmed: bool,
    confirmation: Seq<u8>,
    result: Result<(String, Peer), NetworkError>,
) -> bool {
    if confirmed && confirmation == seq![1u8] {
        result matches Ok(pair) && pair.0@ == identity.id@ && pair.1.name@ == identity.name@
            && pair.1.public_key@ == foreign::hex_text(key)
    } else {
        result == Err::<(String, Peer), NetworkError>(NetworkError::Rejected)
    }
}

/// The peer that a pairing gives, once both ends have answered. It gives none
/// unless both confirmed the code.
pub fn conclude_pairing(
    identity: Identity,
    key: &[u8],
    confirmed: bool,
    confirmation: &[u8],
) -> (result: Result<(String, Peer), NetworkError>)
    ensures
        concludes(identity, key@, confirmed, confirmation@, result),
{
    let agreed = confirmation.len() == 1 && confirmation[0] == 1;
    proof {
        if agreed {
            assert(confirmation@ =~= seq![1u8]);
        }
    }
    if !confirmed || !agreed {
        return Err(NetworkError::Rejected);
    }
    Ok((identity.id, Peer { name: identity.name, public_key: foreign::hex_encode(key) }))
}

/// The id that a connection starts with, in lowercase.
pub fn parse_preface(preface: &[u8]) -> (result: Result<String, NetworkError>)
    ensures
        match result {
            Ok(id) => announced_id(preface@) == Some(id@),
            Err(error) => announced_id(preface@) is None && error == NetworkError::InvalidPreface,
        },
{
    let mut id: Vec<char> = Vec::new();
    let mut i: usize = 0;
    while i < preface.len()
        invariant
            i <= preface@.len(),
            id@.len() == i,
            forall|k: int| 0 <= k < i ==> foreign::hex_value(#[trigger] preface@[k]) is Some,
            forall|k: int| 0 <= k < i ==> #[trigger] id@[k] == lower(preface@[k]),
        decreases preface@.len() - i,
    {
        let byte: u8 = preface[i];
        let digit = (48 <= byte && byte <= 57) || (65 <= byte && byte <= 70) || (97 <= byte && byte
            <= 102);
        if !digit {
            assert(foreign::hex_value(preface@[i as int]) is None);
            return Err(NetworkError::InvalidPreface);
        }
        if 65 <= byte && byte <= 90 {
            id.push((byte + 32) as char);
        } else {
            id.push(byte as char);
        }
        i = i + 1;
    }
    assert(id@ =~= preface@.map_values(|byte: u8| lower(byte)));
    Ok(text::text_of(id.as_slice()))
}

/// Whether a handshake is a pairing of which no message has passed. Neither end knows
/// anything beforehand.
pub open spec fn begins_pairing(state: snow::HandshakeState) -> bool {
    &&& foreign::handshake_setup(state).0 == "Noise_XX_25519_ChaChaPoly_BLAKE2s"@
    &&& foreign::handshake_known(state) == Seq::<Seq<u8>>::empty()
    &&& foreign::handshake_messages(state) == Seq::<Seq<u8>>::empty()
}

/// Whether the handshake of a pairing is set up.
pub open spec fn pairs(
    config: Config,
    initiator: bool,
    result: Result<snow::HandshakeState, NetworkError>,
) -> bool {
    match result {
        Ok(state) => private_key_fault(config) is None && foreign::handshake_setup(state) == (
            "Noise_XX_25519_ChaChaPoly_BLAKE2s"@,
            config::key_bytes(config.private_key@),
            Seq::<u8>::empty(),
            initiator,
        ) && foreign::handshake_length(state) == 3 && begins_pairing(state),
        Err(error) => private_key_fault(config) == Some(error),
    }
}

/// Whether the handshake of a connection to a peer is set up.
pub open spec fn connects(
    config: Config,
    peer: Peer,
    initiator: bool,
    result: Result<snow::HandshakeState, NetworkError>,
) -> bool {
    match result {
        Ok(state) => connection_fault(config, peer) is None && foreign::handshake_setup(state) == (
            "Noise_KK_25519_ChaChaPoly_BLAKE2s"@,
            config::key_bytes(config.private_key@),
            config::key_bytes(peer.public_key@),
            initiator,
        ) && foreign::handshake_length(state) == 2 && foreign::handshake_passed(state) == 0,
        Err(error) => connection_fault(config, peer) == Some(error),
    }
}

/// The handshake of a pairing.
pub fn start_pairing(config: &Config, initiator: bool) -> (result: Result<
    snow::HandshakeState,
    NetworkError,
>)
    ensures
        pairs(*config, initiator, result),
{
    let private = match config.private_key_bytes() {
        Ok(private) => private,
        Err(error) => return Err(NetworkError::Identity(error)),
    };
    let name = "Noise_XX_25519_ChaChaPoly_BLAKE2s";
    let begun = if initiator {
        foreign::noise_pairing_initiator(name, &private)
    } else {
        foreign::noise_pairing_responder(name, &private)
    };
    match begun {
        Ok(state) => Ok(state),
        Err(_) => Err(NetworkError::Handshake),
    }
}

/// The handshake of a connection to a peer. A peer's key of more than 56 bytes
/// is refused.
pub fn start_connection(config: &Config, peer: &Peer, initiator: bool) -> (result: Result<
    snow::HandshakeState,
    NetworkError,
>)
    ensures
        connects(*config, *peer, initiator, result),
{
    let private = match config.private_key_bytes() {
        Ok(private) => private,
        Err(error) => return Err(NetworkError::Identity(error)),
    };
    let remote = match foreign::hex_decode(peer.public_key.as_str()) {
        Ok(remote) => remote,
        Err(_) => return Err(NetworkError::PeerKeyNotHex),
    };
    if remote.len() > 56 {
        return Err(NetworkError::PeerKeyLength);
    }
    let name = "Noise_KK_25519_ChaChaPoly_BLAKE2s";
    let begun = if initiator {
        foreign::noise_connection_initiator(name, &private, remote.as_slice())
    } else {
        foreign::noise_connection_responder(name, &private, remote.as_slice())
    };
    match begun {
        Ok(state) => Ok(state),
        Err(_) => Err(NetworkError::Handshake),
    }
}

/// What is wrong with this device's private key, if anything is.
pub open spec fn private_key_fault(config: Config) -> Option<NetworkError> {
    if !foreign::is_hex(text::bytes_of(config.private_key@)) {
        Some(NetworkError::Identity(ConfigError::PrivateKeyNotHex))
    } else if !config::is_key_text(config.private_key@) {
        Some(NetworkError::Identity(ConfigError::PrivateKeyLength))
    } else {
        None
    }
}

/// What stands in the way of a connection to a peer, if anything does.
pub open spec fn connection_fault(config: Config, peer: Peer) -> Option<NetworkError> {
    if private_key_fault(config) is Some {
        private_key_fault(config)
    } else if !foreign::is_hex(text::bytes_of(peer.public_key@)) {
        Some(NetworkError::PeerKeyNotHex)
    } else if config::key_bytes(peer.public_key@).len() > 56 {
        Some(NetworkError::PeerKeyLength)
    } else {
        None
    }
}

/// How many bytes a handshake message may have.
pub open spec fn handshake_room(len: u16) -> Result<usize, NetworkError> {
    if len <= MAX_HANDSHAKE_BYTES {
        Ok(len as usize)
    } else {
        Err(NetworkError::HandshakeTooLarge)
    }
}

/// How many bytes a handshake message has. One that claims too many is refused.
pub fn handshake_size(len: u16) -> (result: Result<usize, NetworkError>)
    ensures
        result == handshake_room(len),
{
    if len as usize > MAX_HANDSHAKE_BYTES {
        return Err(NetworkError::HandshakeTooLarge);
    }
    Ok(len as usize)
}

/// The message that passed, if one was made.
pub open spec fn passed_message(result: Result<Vec<u8>, NetworkError>) -> Option<Seq<u8>> {
    match result {
        Ok(message) => Some(message@),
        Err(_) => None,
    }
}

/// The next message of a handshake, with a payload in it. Out of turn, and for a
/// payload that is too long, there is none, and the handshake stays where it is. The
/// last message of a pairing is refused for no other reason.
pub fn handshake_message(state: &mut snow::HandshakeState, payload: &[u8]) -> (result: Result<
    Vec<u8>,
    NetworkError,
>)
    ensures
        foreign::handshake_moves(*old(state), *final(state), passed_message(result)),
        match result {
            Ok(message) => {
                &&& foreign::handshake_carried(*final(state), message@) == payload@
                &&& foreign::handshake_turn(*old(state))
                &&& !foreign::handshake_over(*old(state))
                &&& payload@.len() <= message@.len() <= payload@.len() + 256
                &&& message@.len() <= 65535
                &&& foreign::handshake_is_ours(*old(state)) ==> message@.len() == payload@.len()
                    + foreign::handshake_extra(*old(state))
            },
            Err(error) => {
                &&& error == NetworkError::Handshake
                &&& foreign::handshake_needs_no_chance(*old(state)) ==> payload@.len()
                    + foreign::handshake_extra(*old(state)) > 65535
            },
        },
{
    if payload.len() > foreign::MAX_NOISE_MESSAGE {
        return Err(NetworkError::Handshake);
    }
    let mut out = zeroed(payload.len() + 256);
    match foreign::handshake_write(state, payload, &mut out) {
        Ok(len) => {
            let ghost buffer = out@;
            out.truncate(len);
            assert(out@ =~= buffer.take(len as int));
            Ok(out)
        },
        Err(_) => Err(NetworkError::Handshake),
    }
}

/// The payload of the next message of a handshake. A message that cannot be read
/// leaves the handshake where it is.
pub fn handshake_payload(state: &mut snow::HandshakeState, message: &[u8]) -> (result: Result<
    Vec<u8>,
    NetworkError,
>)
    ensures
        foreign::handshake_moves(
            *old(state),
            *final(state),
            if result is Ok {
                Some(message@)
            } else {
                None
            },
        ),
        result is Ok ==> !foreign::handshake_turn(*old(state)) && !foreign::handshake_over(
            *old(state),
        ),
        match foreign::handshake_opened(*old(state), message@) {
            Some(payload) => if payload.len() <= MAX_HANDSHAKE_BYTES {
                result matches Ok(read) && read@ == payload
            } else {
                result == Err::<Vec<u8>, NetworkError>(NetworkError::Handshake)
            },
            None => result == Err::<Vec<u8>, NetworkError>(NetworkError::Handshake),
        },
{
    let mut out = zeroed(MAX_HANDSHAKE_BYTES);
    match foreign::handshake_read(state, message, &mut out) {
        Ok(len) => {
            let ghost buffer = out@;
            out.truncate(len);
            assert(out@ =~= buffer.take(len as int));
            Ok(out)
        },
        Err(_) => Err(NetworkError::Handshake),
    }
}

/// The static key that the other end of a handshake has shown, and the code
/// that both ends see.
pub fn pairing_facts(state: &snow::HandshakeState) -> (facts: (Option<Vec<u8>>, u32))
    ensures
        match facts.0 {
            Some(key) => foreign::handshake_remote(*state) == Some(key@),
            None => foreign::handshake_remote(*state) is None,
        },
        facts.1 == code_of(foreign::handshake_digest(*state)),
        facts.1 < 1_000_000,
{
    let key = foreign::handshake_remote_key(state);
    let hash = foreign::handshake_hash(state);
    (key, pairing_code(hash.as_slice()))
}

/// The session that a handshake gives once it is over.
pub fn finish_handshake(state: snow::HandshakeState) -> (result: Result<
    snow::TransportState,
    NetworkError,
>)
    ensures
        match result {
            Ok(session) => foreign::handshake_over(state) && (
                foreign::noise_sending(session),
                foreign::noise_receiving(session),
            ) == foreign::handshake_session(state),
            Err(error) => !foreign::handshake_over(state) && error == NetworkError::Handshake,
        },
{
    match foreign::handshake_finish(state) {
        Ok(session) => Ok(session),
        Err(_) => Err(NetworkError::Handshake),
    }
}

/// As many zero bytes as asked for.
fn zeroed(len: usize) -> (zeros: Vec<u8>)
    ensures
        zeros@.len() == len,
{
    let mut zeros: Vec<u8> = Vec::new();
    zeros.resize(len, 0);
    zeros
}

/// How many bytes a record may have.
pub open spec fn record_room(len: u32) -> Result<usize, NetworkError> {
    if len <= MAX_NOISE_PLAINTEXT + 32 {
        Ok(len as usize)
    } else {
        Err(NetworkError::RecordTooLarge)
    }
}

/// How many bytes a record has. One that claims too many is refused.
pub fn record_size(len: u32) -> (result: Result<usize, NetworkError>)
    ensures
        result == record_room(len),
{
    if len > 60_032 {
        return Err(NetworkError::RecordTooLarge);
    }
    Ok(len as usize)
}

/// What encrypting a content does to a session and gives: the record of the
/// content under the session's next number, or nothing where the session can
/// send no more or the content is too long.
pub open spec fn encrypts(
    before: snow::TransportState,
    after: snow::TransportState,
    plain: Seq<u8>,
    record: Option<Seq<u8>>,
) -> bool {
    &&& foreign::noise_receiving(after) == foreign::noise_receiving(before)
    &&& match record {
        Some(record) => {
            &&& foreign::noise_sending(before) matches Some((key, number))
            &&& plain.len() + 16 <= foreign::MAX_NOISE_MESSAGE
            &&& record == foreign::noise_record(key, number, plain)
            &&& record.len() == plain.len() + 16
            &&& foreign::noise_content(key, number, record) == Some(plain)
            &&& foreign::noise_sending(after) == foreign::noise_next(foreign::noise_sending(before))
        },
        None => {
            &&& foreign::noise_sending(before) is None || plain.len() + 16
                > foreign::MAX_NOISE_MESSAGE
            &&& foreign::noise_sending(after) == foreign::noise_sending(before)
        },
    }
}

/// What decrypting a record does to a session and gives: its content where it is
/// the authentic record of the session's next number.
pub open spec fn decrypts(
    before: snow::TransportState,
    after: snow::TransportState,
    record: Seq<u8>,
    plain: Option<Seq<u8>>,
) -> bool {
    &&& foreign::noise_sending(after) == foreign::noise_sending(before)
    &&& plain == match foreign::noise_receiving(before) {
        Some((key, number)) => if 16 <= record.len() <= foreign::MAX_NOISE_MESSAGE {
            foreign::noise_content(key, number, record)
        } else {
            None
        },
        None => None,
    }
    &&& plain matches Some(plain) ==> plain.len() == record.len() - 16
    &&& foreign::noise_receiving(after) == if plain is Some {
        foreign::noise_next(foreign::noise_receiving(before))
    } else {
        foreign::noise_receiving(before)
    }
}

/// The record of a content.
pub fn encrypt_record(state: &mut snow::TransportState, plain: &[u8]) -> (result: Result<
    Vec<u8>,
    NetworkError,
>)
    requires
        plain@.len() <= usize::MAX - 32,
    ensures
        match result {
            Ok(record) => encrypts(*old(state), *final(state), plain@, Some(record@)),
            Err(error) => error == NetworkError::Encryption && encrypts(
                *old(state),
                *final(state),
                plain@,
                None,
            ),
        },
{
    let mut out = zeroed(plain.len() + 32);
    match foreign::noise_write(state, plain, &mut out) {
        Ok(len) => {
            let ghost buffer = out@;
            out.truncate(len);
            assert(out@ =~= buffer.take(len as int));
            Ok(out)
        },
        Err(_) => Err(NetworkError::Encryption),
    }
}

/// The content of a record.
pub fn decrypt_record(state: &mut snow::TransportState, record: &[u8]) -> (result: Result<
    Vec<u8>,
    NetworkError,
>)
    ensures
        match result {
            Ok(plain) => decrypts(*old(state), *final(state), record@, Some(plain@)),
            Err(error) => error == NetworkError::Decryption && decrypts(
                *old(state),
                *final(state),
                record@,
                None,
            ),
        },
{
    let mut out = zeroed(record.len());
    match foreign::noise_read(state, record, &mut out) {
        Ok(len) => {
            let ghost buffer = out@;
            out.truncate(len);
            assert(out@ =~= buffer.take(len as int));
            Ok(out)
        },
        Err(_) => Err(NetworkError::Decryption),
    }
}

/// Whether two ends of a session are in step: what one sends next is what the
/// other receives next.
pub open spec fn in_step(sender: snow::TransportState, receiver: snow::TransportState) -> bool {
    foreign::noise_sending(sender) == foreign::noise_receiving(receiver)
}

/// A content that one end of a session encrypts arrives at the other end as it
/// was, and the ends stay in step.
pub proof fn law_record_arrives(
    sender: snow::TransportState,
    sent: snow::TransportState,
    receiver: snow::TransportState,
    received: snow::TransportState,
    plain: Seq<u8>,
    record: Seq<u8>,
    arrived: Option<Seq<u8>>,
)
    requires
        in_step(sender, receiver),
        encrypts(sender, sent, plain, Some(record)),
        decrypts(receiver, received, record, arrived),
    ensures
        arrived == Some(plain),
        in_step(sent, received),
{
}

/// A record that is not authentic leaves the receiver waiting for the same one.
pub proof fn law_forged_record_changes_nothing(
    receiver: snow::TransportState,
    received: snow::TransportState,
    record: Seq<u8>,
)
    requires
        decrypts(receiver, received, record, None),
    ensures
        foreign::noise_receiving(received) == foreign::noise_receiving(receiver),
        foreign::noise_sending(received) == foreign::noise_sending(receiver),
{
}

/// What a device does with the next message of a handshake.
#[derive(Clone, Copy, Debug, PartialEq, Eq, Structural)]
pub enum Turn {
    /// Write a message without a payload.
    Write,
    /// Write a message with this device's identity in it.
    WriteIdentity,
    /// Read a message, whatever its payload.
    Read,
    /// Read a message with the other device's identity in it.
    ReadIdentity,
}

/// The messages of a pairing, as one of the two devices sees them.
pub open spec fn pairing_turns(initiator: bool) -> Seq<Turn> {
    if initiator {
        seq![Turn::Write, Turn::ReadIdentity, Turn::WriteIdentity]
    } else {
        seq![Turn::Read, Turn::WriteIdentity, Turn::ReadIdentity]
    }
}

/// The messages before a connection, as one of the two devices sees them.
pub open spec fn connection_turns(initiator: bool) -> Seq<Turn> {
    if initiator {
        seq![Turn::Write, Turn::Read]
    } else {
        seq![Turn::Read, Turn::Write]
    }
}

/// The messages of a pairing, in order.
pub fn plan_pairing(initiator: bool) -> (turns: Vec<Turn>)
    ensures
        turns@ == pairing_turns(initiator),
{
    let mut turns: Vec<Turn> = Vec::new();
    if initiator {
        turns.push(Turn::Write);
        turns.push(Turn::ReadIdentity);
        turns.push(Turn::WriteIdentity);
    } else {
        turns.push(Turn::Read);
        turns.push(Turn::WriteIdentity);
        turns.push(Turn::ReadIdentity);
    }
    assert(turns@ =~= pairing_turns(initiator));
    turns
}

/// The messages before a connection, in order.
pub fn plan_connection(initiator: bool) -> (turns: Vec<Turn>)
    ensures
        turns@ == connection_turns(initiator),
{
    let mut turns: Vec<Turn> = Vec::new();
    if initiator {
        turns.push(Turn::Write);
        turns.push(Turn::Read);
    } else {
        turns.push(Turn::Read);
        turns.push(Turn::Write);
    }
    assert(turns@ =~= connection_turns(initiator));
    turns
}

/// What the other device does with a message that one device reads or writes.
pub open spec fn facing(turn: Turn) -> Turn {
    match turn {
        Turn::Write => Turn::Read,
        Turn::WriteIdentity => Turn::ReadIdentity,
        Turn::Read => Turn::Write,
        Turn::ReadIdentity => Turn::WriteIdentity,
    }
}

/// The two devices of a handshake take complementary turns: whatever one writes
/// the other reads. In a pairing each reads the other's identity exactly once.
pub proof fn law_turns_match(initiator: bool)
    ensures
        pairing_turns(!initiator) == pairing_turns(initiator).map_values(|turn: Turn| facing(turn)),
        connection_turns(!initiator) == connection_turns(initiator).map_values(
            |turn: Turn| facing(turn),
        ),
        exists|i: int|
            0 <= i < 3 && #[trigger] pairing_turns(initiator)[i] is ReadIdentity && forall|j: int|
                0 <= j < 3 && #[trigger] pairing_turns(initiator)[j] is ReadIdentity ==> j == i,
{
    assert(pairing_turns(!initiator) =~= pairing_turns(initiator).map_values(
        |turn: Turn| facing(turn),
    ));
    assert(connection_turns(!initiator) =~= connection_turns(initiator).map_values(
        |turn: Turn| facing(turn),
    ));
    let at: int = if initiator {
        1
    } else {
        2
    };
    assert(pairing_turns(initiator)[at] is ReadIdentity);
}

/// Whether a handshake has gone through some states, each of which one more message
/// led to.
pub open spec fn went_through(
    states: Seq<snow::HandshakeState>,
    messages: Seq<Seq<u8>>,
) -> bool {
    &&& states.len() == messages.len() + 1
    &&& forall|i: int|
        0 <= i < messages.len() ==> foreign::handshake_moves(
            #[trigger] states[i],
            states[i + 1],
            Some(messages[i]),
        )
}

/// The turns of a pairing and of a connection are those that the handshake asks
/// for: each message is written where it is this device's turn and read where it
/// is the other's, and after the last the handshake is over, so that it gives a
/// session.
pub proof fn law_turns_lead_to_a_session(
    states: Seq<snow::HandshakeState>,
    messages: Seq<Seq<u8>>,
    turns: Seq<Turn>,
    initiator: bool,
)
    requires
        went_through(states, messages),
        messages.len() == turns.len(),
        foreign::handshake_setup(states[0]).3 == initiator,
        foreign::handshake_passed(states[0]) == 0,
        (turns == pairing_turns(initiator) && foreign::handshake_length(states[0]) == 3) || (turns
            == connection_turns(initiator) && foreign::handshake_length(states[0]) == 2),
    ensures
        forall|i: int|
            0 <= i < turns.len() ==> !foreign::handshake_over(states[i])
                && foreign::handshake_turn(states[i]) == (#[trigger] turns[i] is Write
                || turns[i] is WriteIdentity),
        foreign::handshake_over(states.last()),
{
    assert(foreign::handshake_moves(states[0], states[1], Some(messages[0])));
    assert(foreign::handshake_moves(states[1], states[2], Some(messages[1])));
    if turns == pairing_turns(initiator) {
        assert(foreign::handshake_moves(states[2], states[3], Some(messages[2])));
    }
}

/// A handshake that has gone through some messages is still what it was set up as,
/// and holds these messages after those that it held before.
proof fn lemma_went_through(
    states: Seq<snow::HandshakeState>,
    messages: Seq<Seq<u8>>,
    n: int,
)
    requires
        went_through(states, messages),
        0 <= n <= messages.len(),
    ensures
        foreign::handshake_setup(states[n]) == foreign::handshake_setup(states[0]),
        foreign::handshake_known(states[n]) == foreign::handshake_known(states[0]),
        foreign::handshake_messages(states[n]) == foreign::handshake_messages(states[0])
            + messages.take(n),
    decreases n,
{
    if n > 0 {
        lemma_went_through(states, messages, n - 1);
        assert(foreign::handshake_moves(states[n - 1], states[n], Some(messages[n - 1])));
        assert(foreign::handshake_messages(states[n]) =~= foreign::handshake_messages(states[0])
            + messages.take(n));
    } else {
        assert(foreign::handshake_messages(states[0]) =~= foreign::handshake_messages(states[0])
            + messages.take(0));
    }
}

/// Both ends of a pairing that nobody disturbs see the same code: where the same
/// messages pass at both, what `pairing_facts` makes of either is the same.
pub proof fn law_both_ends_see_the_same_code(
    left: Seq<snow::HandshakeState>,
    right: Seq<snow::HandshakeState>,
    messages: Seq<Seq<u8>>,
)
    requires
        begins_pairing(left[0]),
        begins_pairing(right[0]),
        went_through(left, messages),
        went_through(right, messages),
    ensures
        code_of(foreign::handshake_digest(left.last())) == code_of(
            foreign::handshake_digest(right.last()),
        ),
{
    lemma_went_through(left, messages, messages.len() as int);
    lemma_went_through(right, messages, messages.len() as int);
}

/// Whether a device says who it is.
pub open spec fn introduces(config: Config, result: Result<Identity, NetworkError>) -> bool {
    match result {
        Ok(identity) => config::is_key_text(config.public_key@) && identity.version
            == PAIRING_VERSION && identity.id@ == id_of(config::key_bytes(config.public_key@))
            && identity.name@ == config.name@,
        Err(error) => !config::is_key_text(config.public_key@) && error == NetworkError::Identity(
            if foreign::is_hex(text::bytes_of(config.public_key@)) {
                ConfigError::PublicKeyLength
            } else {
                ConfigError::PublicKeyNotHex
            },
        ),
    }
}

/// What this device says of itself while it pairs.
pub fn own_identity(config: &Config) -> (result: Result<Identity, NetworkError>)
    ensures
        introduces(*config, result),
{
    match config.public_key() {
        Ok(key) => Ok(
            Identity {
                version: PAIRING_VERSION,
                id: device_id(key.as_slice()),
                name: config.name.clone(),
            },
        ),
        Err(error) => Err(NetworkError::Identity(error)),
    }
}

/// The first of some addresses that is of version 4, else the first, with a
/// port.
pub open spec fn preferred(addresses: Seq<Address>, port: u16) -> Option<Address>
    decreases addresses.len(),
{
    if addresses.len() == 0 {
        None
    } else if !addresses[0].is_v6 {
        Some(Address { port, ..addresses[0] })
    } else {
        match preferred(addresses.skip(1), port) {
            Some(other) => if other.is_v6 {
                Some(Address { port, ..addresses[0] })
            } else {
                Some(other)
            },
            None => Some(Address { port, ..addresses[0] }),
        }
    }
}

/// The address under which a service is reached: the first of version 4, else
/// the first.
pub fn service_addr(addresses: &Vec<Address>, port: u16) -> (found: Option<Address>)
    ensures
        found == preferred(addresses@, port),
{
    let mut found: Option<Address> = None;
    let mut i: usize = addresses.len();
    assert(addresses@.skip(i as int) =~= Seq::empty());
    while i > 0
        invariant
            i <= addresses@.len(),
            found == preferred(addresses@.skip(i as int), port),
        decreases i,
    {
        i = i - 1;
        let ghost rest = addresses@.skip(i as int);
        assert(rest.skip(1) =~= addresses@.skip(i + 1));
        assert(rest[0] == addresses@[i as int]);
        let address = addresses[i];
        let here = Address {
            is_v6: address.is_v6,
            ip: address.ip,
            port,
            flow: address.flow,
            scope: address.scope,
        };
        let later = match found {
            Some(other) => !other.is_v6,
            None => false,
        };
        if !address.is_v6 || !later {
            found = Some(here);
        }
    }
    assert(addresses@.skip(0) =~= addresses@);
    found
}

/// Whether an announced service belongs to a peer at an address.
pub open spec fn resolves(
    version: Option<String>,
    id: Option<String>,
    addresses: Seq<Address>,
    port: u16,
    found: Option<(String, Address)>,
) -> bool {
    match found {
        Some((peer, address)) => {
            &&& version matches Some(version)
            &&& version@ == "1"@
            &&& id matches Some(id)
            &&& peer@ == id@
            &&& preferred(addresses, port) == Some(address)
        },
        None => !(version matches Some(version) && version@ == "1"@) || id is None
            || addresses.len() == 0,
    }
}

/// The peer that an announced service belongs to, and its address: a service of
/// the known version with an id and an address.
pub fn resolved_peer(
    version: Option<String>,
    id: Option<String>,
    addresses: &Vec<Address>,
    port: u16,
) -> (found: Option<(String, Address)>)
    ensures
        resolves(version, id, addresses@, port, found),
{
    let known = match &version {
        Some(version) => text::str_eq(version.as_str(), "1"),
        None => false,
    };
    if !known {
        return None;
    }
    match id {
        None => None,
        Some(id) => match service_addr(addresses, port) {
            Some(address) => Some((id, address)),
            None => {
                proof {
                    if addresses@.len() > 0 {
                        assert(preferred(addresses@, port) is Some);
                    }
                }
                None
            },
        },
    }
}

/// The first bytes of an instance name: 32 of them, or all.
pub open spec fn name_start(instance: Seq<char>) -> Seq<u8> {
    let raw = text::bytes_of(instance);
    if raw.len() > 32 {
        raw.take(32)
    } else {
        raw
    }
}

/// The host name under which an instance is announced.
pub open spec fn host_of(instance: Seq<char>) -> Seq<char> {
    decode_utf8(name_start(instance)) + ".local."@
}

/// The host name under which an instance is announced.
pub fn announced_host(instance: &str) -> (host: String)
    requires
        valid_utf8(name_start(instance@)),
    ensures
        host@ == host_of(instance@),
{
    let raw = instance.as_bytes();
    let end: usize = if raw.len() > 32 {
        32
    } else {
        raw.len()
    };
    let start = path::copy_range(raw, 0, end);
    assert(start@ =~= name_start(instance@));
    let mut host = match foreign::text_from_utf8(start) {
        Some(host) => host,
        None => String::new(),
    };
    host.append(".local.");
    host
}

/// A device that pairs is known by an id that only its key gives: an identity
/// that is not refused has the id of the key it came with.
pub proof fn law_paired_id_belongs_to_the_key(identity: Identity, key: Seq<u8>)
    requires
        pairing_fault(identity, Some(key)) is None,
    ensures
        identity.id@ == id_of(key),
{
}

} // verus!
