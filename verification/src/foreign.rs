//! Calls into other crates and the parts of the standard library that have no
//! contract of their own. What is claimed of each is believed, not proved.

use vstd::prelude::*;
use vstd::utf8::*;

use crate::text;

verus! {

/// The error of `hex::decode`.
#[verifier::external_type_specification]
#[verifier::external_body]
pub struct ExFromHexError(hex::FromHexError);

/// The error of the ChaCha20-Poly1305 calls.
#[verifier::external_type_specification]
#[verifier::external_body]
pub struct ExAeadError(chacha20poly1305::aead::Error);

/// The error of the `snow` calls.
#[verifier::external_type_specification]
#[verifier::external_body]
pub struct ExSnowError(snow::Error);

/// A Noise session, ready to carry records.
#[verifier::external_type_specification]
#[verifier::external_body]
pub struct ExTransportState(snow::TransportState);

/// A Noise handshake.
#[verifier::external_type_specification]
#[verifier::external_body]
pub struct ExHandshakeState(snow::HandshakeState);

/// The lowercase hexadecimal digit of a value below sixteen.
pub open spec fn hex_digit(value: int) -> char {
    if value < 10 {
        (value + 48) as char
    } else {
        (value + 87) as char
    }
}

/// The lowercase hexadecimal text of a byte string, two digits a byte.
pub open spec fn hex_text(bytes: Seq<u8>) -> Seq<char> {
    Seq::new(
        2 * bytes.len(),
        |i: int|
            hex_digit(
                if i % 2 == 0 {
                    bytes[i / 2] as int / 16
                } else {
                    bytes[i / 2] as int % 16
                },
            ),
    )
}

/// The value of an ASCII hexadecimal digit of either case, if the byte is one.
pub open spec fn hex_value(byte: u8) -> Option<int> {
    if 48 <= byte <= 57 {
        Some(byte - 48)
    } else if 65 <= byte <= 70 {
        Some(byte - 55)
    } else if 97 <= byte <= 102 {
        Some(byte - 87)
    } else {
        None
    }
}

/// A text of an even number of bytes, each a hexadecimal digit.
pub open spec fn is_hex(text: Seq<u8>) -> bool {
    text.len() % 2 == 0 && forall|i: int| 0 <= i < text.len() ==> hex_value(#[trigger] text[i]) is Some
}

/// The bytes that a hexadecimal text stands for.
pub open spec fn hex_bytes(text: Seq<u8>) -> Seq<u8> {
    Seq::new(
        text.len() / 2,
        |i: int| (hex_value(text[2 * i])->0 * 16 + hex_value(text[2 * i + 1])->0) as u8,
    )
}

/// `hex::encode`: two lowercase digits for each byte, the high half first.
#[verifier::external_body]
pub(crate) fn hex_encode(bytes: &[u8]) -> (text: String)
    ensures
        text@ == hex_text(bytes@),
{
    hex::encode(bytes)
}

/// `hex::decode`: succeeds on an even number of hexadecimal digits of either
/// case and on nothing else; two digits make a byte, the high half first.
#[verifier::external_body]
pub(crate) fn hex_decode(text: &str) -> (result: Result<Vec<u8>, hex::FromHexError>)
    ensures
        result is Ok <==> is_hex(text::bytes_of(text@)),
        result matches Ok(bytes) ==> bytes@ == hex_bytes(text::bytes_of(text@)),
{
    hex::decode(text)
}

/// The BLAKE3 hash of a byte string.
pub uninterp spec fn blake3_hash(data: Seq<u8>) -> Seq<u8>;

/// `blake3::hash`: the 32-byte hash of the data.
#[verifier::external_body]
pub(crate) fn hash(data: &[u8]) -> (digest: [u8; 32])
    ensures
        digest@ == blake3_hash(data@),
{
    *blake3::hash(data).as_bytes()
}

/// The keyed BLAKE3 hash of a byte string.
pub uninterp spec fn blake3_keyed(key: Seq<u8>, data: Seq<u8>) -> Seq<u8>;

/// `blake3::keyed_hash`: the 32-byte keyed hash of the data.
#[verifier::external_body]
pub(crate) fn keyed_hash(key: &[u8; 32], data: &[u8]) -> (digest: [u8; 32])
    ensures
        digest@ == blake3_keyed(key@, data@),
{
    *blake3::keyed_hash(key, data).as_bytes()
}

/// The X25519 function: a scalar applied to the u-coordinate of a point.
pub uninterp spec fn x25519_product(scalar: Seq<u8>, point: Seq<u8>) -> Seq<u8>;

/// The u-coordinate of the X25519 base point.
pub open spec fn base_point() -> Seq<u8> {
    Seq::new(32, |i: int| if i == 0 { 9u8 } else { 0u8 })
}

/// The X25519 public key of a private key.
pub open spec fn x25519_public(scalar: Seq<u8>) -> Seq<u8> {
    x25519_product(scalar, base_point())
}

/// `x25519_dalek::x25519`: the product of a scalar and a point. With the
/// public key of another party it is the secret that the two share, which the
/// other party computes from this one's public key.
#[verifier::external_body]
pub(crate) fn x25519(scalar: [u8; 32], point: [u8; 32]) -> (product: [u8; 32])
    ensures
        product@ == x25519_product(scalar@, point@),
        forall|other: Seq<u8>|
            other.len() == 32 && point@ == #[trigger] x25519_public(other) ==> product@
                == x25519_product(other, x25519_public(scalar@)),
{
    x25519_dalek::x25519(scalar, point)
}

/// What ChaCha20-Poly1305 makes of a plaintext: its ciphertext and tag.
pub uninterp spec fn chacha_sealed(
    key: Seq<u8>,
    nonce: Seq<u8>,
    aad: Seq<u8>,
    plain: Seq<u8>,
) -> Seq<u8>;

/// What ChaCha20-Poly1305 recovers from a ciphertext and tag, if the tag
/// belongs to them.
pub uninterp spec fn chacha_opened(
    key: Seq<u8>,
    nonce: Seq<u8>,
    aad: Seq<u8>,
    sealed: Seq<u8>,
) -> Option<Seq<u8>>;

/// The longest plaintext that the block counter of ChaCha20 covers: it counts up to
/// 0xffff_ffff, and the first of the blocks of 64 bytes that it encrypts is number 1.
pub const MAX_CHACHA_BYTES: u64 = 274_877_906_816;

/// Whether a plaintext is short enough for the block counter of ChaCha20.
pub open spec fn chacha_fits(len: int) -> bool {
    len <= MAX_CHACHA_BYTES
}

/// `ChaCha20Poly1305::encrypt`: a plaintext that the block counter covers is always
/// encrypted; a longer one may make it panic. What it returns is 16 bytes longer
/// than the plaintext, and opens to it under the same key, nonce and associated
/// data.
#[verifier::external_body]
pub(crate) fn chacha_seal(
    key: &[u8; 32],
    nonce: &[u8; 12],
    aad: &[u8],
    plain: &[u8],
) -> (result: Result<Vec<u8>, chacha20poly1305::aead::Error>)
    requires
        chacha_fits(plain@.len() as int),
    ensures
        result is Ok,
        result matches Ok(sealed) ==> {
            &&& sealed@ == chacha_sealed(key@, nonce@, aad@, plain@)
            &&& sealed@.len() == plain@.len() + 16
            &&& chacha_opened(key@, nonce@, aad@, sealed@) == Some(plain@)
        },
{
    let cipher: chacha20poly1305::ChaCha20Poly1305 = chacha20poly1305::KeyInit::new(key.into());
    let payload = chacha20poly1305::aead::Payload { msg: plain, aad };
    chacha20poly1305::aead::Aead::encrypt(&cipher, nonce.into(), payload)
}

/// `ChaCha20Poly1305::decrypt`: returns the plaintext if the tag belongs to
/// the ciphertext under this key, nonce and associated data, and fails
/// otherwise. The plaintext is 16 bytes shorter than what was given. One that the
/// block counter does not cover may make it panic.
#[verifier::external_body]
pub(crate) fn chacha_open(
    key: &[u8; 32],
    nonce: &[u8; 12],
    aad: &[u8],
    sealed: &[u8],
) -> (result: Result<Vec<u8>, chacha20poly1305::aead::Error>)
    requires
        chacha_fits(sealed@.len() - 16),
    ensures
        match result {
            Ok(plain) => chacha_opened(key@, nonce@, aad@, sealed@) == Some(plain@)
                && plain@.len() + 16 == sealed@.len(),
            Err(_) => chacha_opened(key@, nonce@, aad@, sealed@) is None,
        },
{
    let cipher: chacha20poly1305::ChaCha20Poly1305 = chacha20poly1305::KeyInit::new(key.into());
    let payload = chacha20poly1305::aead::Payload { msg: sealed, aad };
    chacha20poly1305::aead::Aead::decrypt(&cipher, nonce.into(), payload)
}

/// `snow::Builder::generate_keypair` for Curve25519: a random private key of 32
/// bytes and the public key that belongs to it, in this order. It fails where
/// the machine has no random numbers to give.
#[verifier::external_body]
pub(crate) fn noise_keypair() -> (result: Result<(Vec<u8>, Vec<u8>), snow::Error>)
    ensures
        result matches Ok(pair) ==> {
            &&& pair.0@.len() == 32
            &&& pair.1@.len() == 32
            &&& pair.1@ == x25519_public(pair.0@)
        },
{
    let params: snow::params::NoiseParams = "Noise_NN_25519_ChaChaPoly_BLAKE2s".parse()?;
    let key = snow::Builder::new(params).generate_keypair()?;
    Ok((key.private, key.public))
}

/// The longest Noise message.
pub const MAX_NOISE_MESSAGE: usize = 65535;

/// What a Noise session holds for sending: the key and the number of the next
/// record, if it can send one.
pub uninterp spec fn noise_sending(state: snow::TransportState) -> Option<(Seq<u8>, u64)>;

/// What a Noise session holds for receiving: the key and the number of the next
/// record, if it can receive one.
pub uninterp spec fn noise_receiving(state: snow::TransportState) -> Option<(Seq<u8>, u64)>;

/// The record that a Noise session makes of a content.
pub uninterp spec fn noise_record(key: Seq<u8>, number: u64, plain: Seq<u8>) -> Seq<u8>;

/// The content of a record, if it is authentic.
pub uninterp spec fn noise_content(key: Seq<u8>, number: u64, record: Seq<u8>) -> Option<Seq<u8>>;

/// What a Noise session holds once the record that was next has passed. The
/// largest number is never used.
pub open spec fn noise_next(held: Option<(Seq<u8>, u64)>) -> Option<(Seq<u8>, u64)> {
    match held {
        Some((key, number)) => if number + 1 < u64::MAX {
            Some((key, (number + 1) as u64))
        } else {
            None
        },
        None => None,
    }
}

/// `snow::TransportState::write_message`: writes the record of a content to the
/// front of a buffer and returns its length, 16 bytes more than the content's.
/// It fails, and leaves the session as it was, where the session can send no
/// more, where the record is longer than a Noise message, and where the buffer
/// is too short. The record opens to the content under the same key and number.
#[verifier::external_body]
pub(crate) fn noise_write(
    state: &mut snow::TransportState,
    plain: &[u8],
    out: &mut Vec<u8>,
) -> (result: Result<usize, snow::Error>)
    requires
        plain@.len() <= usize::MAX - 16,
    ensures
        final(out)@.len() == old(out)@.len(),
        noise_receiving(*final(state)) == noise_receiving(*old(state)),
        result is Ok <==> (noise_sending(*old(state)) is Some && plain@.len() + 16
            <= MAX_NOISE_MESSAGE && plain@.len() + 16 <= old(out)@.len()),
        result matches Ok(len) ==> len == plain@.len() + 16,
        result matches Ok(len) ==> final(out)@.take(len as int) == noise_record(
            (noise_sending(*old(state))->0).0,
            (noise_sending(*old(state))->0).1,
            plain@,
        ),
        result matches Ok(len) ==> noise_content(
            (noise_sending(*old(state))->0).0,
            (noise_sending(*old(state))->0).1,
            final(out)@.take(len as int),
        ) == Some(plain@),
        noise_sending(*final(state)) == if result is Ok {
            noise_next(noise_sending(*old(state)))
        } else {
            noise_sending(*old(state))
        },
{
    state.write_message(plain, out)
}

/// `snow::TransportState::read_message`: writes the content of a record to the
/// front of a buffer and returns its length, 16 bytes less than the record's. It
/// fails, and leaves the session as it was, where the session can receive no
/// more, where the record is longer than a Noise message or shorter than its tag,
/// where the buffer is too short, and where the record is not the authentic next
/// one.
#[verifier::external_body]
pub(crate) fn noise_read(
    state: &mut snow::TransportState,
    record: &[u8],
    out: &mut Vec<u8>,
) -> (result: Result<usize, snow::Error>)
    ensures
        final(out)@.len() == old(out)@.len(),
        noise_sending(*final(state)) == noise_sending(*old(state)),
        result is Ok <==> (noise_receiving(*old(state)) matches Some((key, number)) && 16
            <= record@.len() <= MAX_NOISE_MESSAGE && record@.len() - 16 <= old(out)@.len()
            && noise_content(key, number, record@) is Some),
        result matches Ok(len) ==> len == record@.len() - 16,
        result matches Ok(len) ==> noise_content(
            (noise_receiving(*old(state))->0).0,
            (noise_receiving(*old(state))->0).1,
            record@,
        ) == Some(final(out)@.take(len as int)),
        noise_receiving(*final(state)) == if result is Ok {
            noise_next(noise_receiving(*old(state)))
        } else {
            noise_receiving(*old(state))
        },
{
    state.read_message(record, out)
}

/// What a Noise handshake was set up with: the name of its protocol, this end's
/// private key, the other end's public key as far as it was known, and whether
/// this end began.
pub uninterp spec fn handshake_setup(
    state: snow::HandshakeState,
) -> (Seq<char>, Seq<u8>, Seq<u8>, bool);

/// What both ends of a Noise handshake know beforehand, as far as its hash covers
/// it.
pub uninterp spec fn handshake_known(state: snow::HandshakeState) -> Seq<Seq<u8>>;

/// The messages of a Noise handshake that have passed, in either direction.
pub uninterp spec fn handshake_messages(state: snow::HandshakeState) -> Seq<Seq<u8>>;

/// The hash that a Noise handshake of a given name makes of what both ends know
/// beforehand and of the messages that have passed.
pub uninterp spec fn noise_hash(
    name: Seq<char>,
    known: Seq<Seq<u8>>,
    messages: Seq<Seq<u8>>,
) -> Seq<u8>;

/// The hash of everything that passed in a Noise handshake.
pub open spec fn handshake_digest(state: snow::HandshakeState) -> Seq<u8> {
    noise_hash(handshake_setup(state).0, handshake_known(state), handshake_messages(state))
}

/// The static public key that the other end of a Noise handshake has shown.
pub uninterp spec fn handshake_remote(state: snow::HandshakeState) -> Option<Seq<u8>>;

/// How many messages a Noise handshake has.
pub uninterp spec fn handshake_length(state: snow::HandshakeState) -> nat;

/// How many messages of a Noise handshake have passed.
pub open spec fn handshake_passed(state: snow::HandshakeState) -> nat {
    handshake_messages(state).len()
}

/// Whether a Noise handshake is at an end.
pub open spec fn handshake_over(state: snow::HandshakeState) -> bool {
    handshake_passed(state) == handshake_length(state)
}

/// Whether the next message of a Noise handshake is this end's. The two ends
/// take turns, and the end that began writes first.
pub open spec fn handshake_turn(state: snow::HandshakeState) -> bool {
    handshake_setup(state).3 == (handshake_passed(state) % 2 == 0)
}

/// How a message of a Noise handshake moves it on, if one passes. One that fails
/// does not.
pub open spec fn handshake_moves(
    before: snow::HandshakeState,
    after: snow::HandshakeState,
    message: Option<Seq<u8>>,
) -> bool {
    &&& handshake_setup(after) == handshake_setup(before)
    &&& handshake_known(after) == handshake_known(before)
    &&& handshake_length(after) == handshake_length(before)
    &&& handshake_messages(after) == match message {
        Some(message) => handshake_messages(before).push(message),
        None => handshake_messages(before),
    }
}

/// How many bytes the next message of a Noise handshake has besides its payload: a
/// public key for this handshake, a static one in a pairing, and the tags of what
/// is encrypted.
pub open spec fn handshake_extra(state: snow::HandshakeState) -> nat {
    if handshake_setup(state).0 == "Noise_XX_25519_ChaChaPoly_BLAKE2s"@ {
        if handshake_passed(state) == 0 {
            32
        } else if handshake_passed(state) == 1 {
            96
        } else {
            64
        }
    } else {
        48
    }
}

/// Whether a Noise handshake is a pairing or a connection.
pub open spec fn handshake_is_ours(state: snow::HandshakeState) -> bool {
    handshake_setup(state).0 == "Noise_XX_25519_ChaChaPoly_BLAKE2s"@ || handshake_setup(state).0
        == "Noise_KK_25519_ChaChaPoly_BLAKE2s"@
}

/// Whether this end can write the next message of a Noise handshake without random
/// numbers: the last of a pairing, which needs no new key.
pub open spec fn handshake_needs_no_chance(state: snow::HandshakeState) -> bool {
    handshake_setup(state).0 == "Noise_XX_25519_ChaChaPoly_BLAKE2s"@ && handshake_passed(state) == 2
        && handshake_turn(state)
}

/// `snow::Builder::build_initiator` for a pairing: a handshake of three messages in
/// which both ends show their static keys, and that this end begins. Neither knows
/// anything beforehand.
#[verifier::external_body]
pub(crate) fn noise_pairing_initiator(name: &str, private: &[u8; 32]) -> (result: Result<
    snow::HandshakeState,
    snow::Error,
>)
    requires
        name@ == "Noise_XX_25519_ChaChaPoly_BLAKE2s"@,
    ensures
        result is Ok,
        result matches Ok(state) ==> handshake_length(state) == 3,
        result matches Ok(state) ==> handshake_known(state) == Seq::<Seq<u8>>::empty(),
        result matches Ok(state) ==> handshake_messages(state) == Seq::<Seq<u8>>::empty(),
        result matches Ok(state) ==> handshake_setup(state) == (
            name@,
            private@,
            Seq::<u8>::empty(),
            true,
        ),
{
    snow::Builder::new(name.parse()?).local_private_key(private)?.build_initiator()
}

/// `snow::Builder::build_responder` for a pairing: a handshake of three messages in
/// which both ends show their static keys, and that the other end begins. Neither
/// knows anything beforehand.
#[verifier::external_body]
pub(crate) fn noise_pairing_responder(name: &str, private: &[u8; 32]) -> (result: Result<
    snow::HandshakeState,
    snow::Error,
>)
    requires
        name@ == "Noise_XX_25519_ChaChaPoly_BLAKE2s"@,
    ensures
        result is Ok,
        result matches Ok(state) ==> handshake_length(state) == 3,
        result matches Ok(state) ==> handshake_known(state) == Seq::<Seq<u8>>::empty(),
        result matches Ok(state) ==> handshake_messages(state) == Seq::<Seq<u8>>::empty(),
        result matches Ok(state) ==> handshake_setup(state) == (
            name@,
            private@,
            Seq::<u8>::empty(),
            false,
        ),
{
    snow::Builder::new(name.parse()?).local_private_key(private)?.build_responder()
}

/// `snow::Builder::build_initiator` for a connection: a handshake of two messages in
/// which both ends know each other's static keys, and that this end begins.
#[verifier::external_body]
pub(crate) fn noise_connection_initiator(
    name: &str,
    private: &[u8; 32],
    remote: &[u8],
) -> (result: Result<snow::HandshakeState, snow::Error>)
    requires
        name@ == "Noise_KK_25519_ChaChaPoly_BLAKE2s"@,
        remote@.len() <= 56,
    ensures
        result is Ok,
        result matches Ok(state) ==> handshake_length(state) == 2,
        result matches Ok(state) ==> handshake_messages(state) == Seq::<Seq<u8>>::empty(),
        result matches Ok(state) ==> handshake_setup(state) == (name@, private@, remote@, true),
{
    let builder = snow::Builder::new(name.parse()?).local_private_key(private)?;
    builder.remote_public_key(remote)?.build_initiator()
}

/// `snow::Builder::build_responder` for a connection: a handshake of two messages in
/// which both ends know each other's static keys, and that the other end begins.
#[verifier::external_body]
pub(crate) fn noise_connection_responder(
    name: &str,
    private: &[u8; 32],
    remote: &[u8],
) -> (result: Result<snow::HandshakeState, snow::Error>)
    requires
        name@ == "Noise_KK_25519_ChaChaPoly_BLAKE2s"@,
        remote@.len() <= 56,
    ensures
        result is Ok,
        result matches Ok(state) ==> handshake_length(state) == 2,
        result matches Ok(state) ==> handshake_messages(state) == Seq::<Seq<u8>>::empty(),
        result matches Ok(state) ==> handshake_setup(state) == (name@, private@, remote@, false),
{
    let builder = snow::Builder::new(name.parse()?).local_private_key(private)?;
    builder.remote_public_key(remote)?.build_responder()
}

/// The payload of the message that a Noise handshake has just written: what the
/// message was made to carry.
pub uninterp spec fn handshake_carried(state: snow::HandshakeState, message: Seq<u8>) -> Seq<u8>;

/// `snow::HandshakeState::write_message`: writes the next message of a handshake,
/// with a payload in it, to the front of a buffer and returns its length. What it
/// writes rests on random numbers, but carries this payload and no other. It fails
/// where it is not this end's turn, where the handshake is over, and on a payload
/// that makes the message longer than a Noise message. The last message of a pairing
/// fails for no other reason. Whether another succeeds is not said: the machine may
/// have no random numbers to give. A payload that the cipher cannot take would make
/// it panic.
#[verifier::external_body]
pub(crate) fn handshake_write(
    state: &mut snow::HandshakeState,
    payload: &[u8],
    out: &mut Vec<u8>,
) -> (result: Result<usize, snow::Error>)
    requires
        payload@.len() <= MAX_NOISE_MESSAGE,
        payload@.len() + 256 <= old(out)@.len(),
    ensures
        final(out)@.len() == old(out)@.len(),
        handshake_moves(
            *old(state),
            *final(state),
            match result {
                Ok(len) => Some(final(out)@.take(len as int)),
                Err(_) => None,
            },
        ),
        result is Ok ==> (handshake_turn(*old(state)) && !handshake_over(*old(state))),
        result matches Ok(len) ==> (payload@.len() <= len <= payload@.len() + 256 && len
            <= MAX_NOISE_MESSAGE),
        result matches Ok(len) ==> (handshake_is_ours(*old(state)) ==> len == payload@.len()
            + handshake_extra(*old(state))),
        handshake_needs_no_chance(*old(state)) && payload@.len() + handshake_extra(*old(state))
            <= MAX_NOISE_MESSAGE ==> result is Ok,
        result matches Ok(len) ==> handshake_carried(
            *final(state),
            final(out)@.take(len as int),
        ) == payload@,
{
    state.write_message(payload, out)
}

/// The payload that a Noise handshake finds in its next message, if it waits for
/// one and the message is the authentic next one.
pub uninterp spec fn handshake_opened(
    state: snow::HandshakeState,
    message: Seq<u8>,
) -> Option<Seq<u8>>;

/// `snow::HandshakeState::read_message`: takes in the next message of a handshake,
/// writes its payload to the front of a buffer and returns its length. It fails
/// where it is this end's turn, where the handshake is over, on a message that is
/// not the authentic next one, and where the buffer is too short for the payload.
#[verifier::external_body]
pub(crate) fn handshake_read(
    state: &mut snow::HandshakeState,
    message: &[u8],
    out: &mut Vec<u8>,
) -> (result: Result<usize, snow::Error>)
    ensures
        final(out)@.len() == old(out)@.len(),
        handshake_moves(
            *old(state),
            *final(state),
            match result {
                Ok(_) => Some(message@),
                Err(_) => None,
            },
        ),
        result is Ok ==> (!handshake_turn(*old(state)) && !handshake_over(*old(state))),
        result is Ok <==> (handshake_opened(*old(state), message@) matches Some(payload)
            && payload.len() <= old(out)@.len()),
        result matches Ok(len) ==> (len <= message@.len() && len <= final(out)@.len()),
        result matches Ok(len) ==> handshake_opened(*old(state), message@) == Some(
            final(out)@.take(len as int),
        ),
{
    state.read_message(message, out)
}

/// `snow::HandshakeState::get_remote_static`: the static key that the other end
/// has shown, if it has.
#[verifier::external_body]
pub(crate) fn handshake_remote_key(state: &snow::HandshakeState) -> (key: Option<Vec<u8>>)
    ensures
        match key {
            Some(key) => handshake_remote(*state) == Some(key@),
            None => handshake_remote(*state) is None,
        },
{
    state.get_remote_static().map(|key| key.to_vec())
}

/// `snow::HandshakeState::get_handshake_hash`: the hash of everything that passed,
/// at least 32 bytes. It covers the name of the protocol, what both ends knew
/// beforehand, and the messages, and nothing that only one end has.
#[verifier::external_body]
pub(crate) fn handshake_hash(state: &snow::HandshakeState) -> (hash: Vec<u8>)
    ensures
        hash@ == noise_hash(
            handshake_setup(*state).0,
            handshake_known(*state),
            handshake_messages(*state),
        ),
        hash@.len() >= 32,
{
    state.get_handshake_hash().to_vec()
}

/// The keys and record numbers that a Noise handshake gives, for what this end
/// sends and for what it receives.
pub uninterp spec fn handshake_session(state: snow::HandshakeState) -> (
    Option<(Seq<u8>, u64)>,
    Option<(Seq<u8>, u64)>,
);

/// `snow::HandshakeState::into_transport_mode`: the session that a handshake gives
/// once it is over, and not before. Its keys are those of the handshake. Nothing is
/// said of which they are: that the two ends have the same ones rests on both having
/// run the same handshake, on random numbers of both.
#[verifier::external_body]
pub(crate) fn handshake_finish(state: snow::HandshakeState) -> (result: Result<
    snow::TransportState,
    snow::Error,
>)
    ensures
        result is Ok <==> handshake_over(state),
        result matches Ok(session) ==> (noise_sending(session), noise_receiving(session))
            == handshake_session(state),
{
    state.into_transport_mode()
}

/// Whether an identifier is of version 4, whose bits are random, and of the RFC 4122
/// variant.
pub open spec fn is_random_id(id: u128) -> bool {
    id / 0x1000_0000_0000_0000_0000 % 16 == 4 && id / 0x4000_0000_0000_0000 % 4 == 2
}

/// `uuid::Uuid::new_v4`: an identifier of version 4 and the RFC 4122 variant;
/// its other bits are random.
#[verifier::external_body]
pub(crate) fn fresh_id() -> (id: u128)
    ensures
        is_random_id(id),
{
    uuid::Uuid::new_v4().as_u128()
}

/// `rand::random`: 32 random bytes.
#[verifier::external_body]
pub(crate) fn random_bytes() -> (bytes: [u8; 32])
{
    rand::random()
}

/// `String::push`: one more character at the end.
pub assume_specification[ String::push ](s: &mut String, c: char)
    ensures
        final(s)@ == old(s)@.push(c),
;

/// `String::from_utf8`: the text that the bytes encode, if they are UTF-8.
#[verifier::external_body]
pub(crate) fn text_from_utf8(bytes: Vec<u8>) -> (text: Option<String>)
    ensures
        text is Some <==> valid_utf8(bytes@),
        text matches Some(t) ==> t@ == decode_utf8(bytes@),
{
    String::from_utf8(bytes).ok()
}

} // verus!
