//! Keys and packets of the input transport.

use vstd::prelude::*;

use crate::bytes;
use crate::config;
use crate::config::{Config, ConfigError};
use crate::foreign;
use crate::text;

verus! {

/// Why a datagram is refused or cannot be made.
#[derive(Clone, Copy, Debug, PartialEq, Eq, Structural)]
pub enum TransportError {
    UnknownPeer,
    NotPaired,
    PeerKeyNotHex,
    PeerKeyLength,
    Identity(ConfigError),
    HelloAuthentication,
    StaleHandshake,
    NoSession,
    Misrouted,
    Authentication,
    Duplicate,
    Exhausted,
    Encryption,
}

/// Whether a peer may share input: it is trusted and input sharing is on.
pub open spec fn cursor_peer(config: Config, peer: Seq<char>) -> bool {
    config.cursor.enabled && config.peers@.dom().contains(peer)
}

/// What the authentication of a hello covers.
pub open spec fn hello_text(
    sender: Seq<char>,
    ephemeral: Seq<u8>,
    nonce: Seq<u8>,
    response: bool,
) -> Seq<u8> {
    text::bytes_of("lan-cat-input-hello-v1"@) + text::bytes_of(sender) + ephemeral + nonce
        + seq![if response { 1u8 } else { 0u8 }]
}

/// The authentication of a hello.
pub open spec fn hello_mac(
    shared: Seq<u8>,
    sender: Seq<char>,
    ephemeral: Seq<u8>,
    nonce: Seq<u8>,
    response: bool,
) -> Seq<u8> {
    foreign::blake3_keyed(shared, hello_text(sender, ephemeral, nonce, response))
}

/// What a session's base key is made of. The end with the smaller id comes
/// first.
pub open spec fn session_text(
    ephemeral_shared: Seq<u8>,
    local_id: Seq<char>,
    peer_id: Seq<char>,
    local_nonce: Seq<u8>,
    peer_nonce: Seq<u8>,
) -> Seq<u8> {
    let head = text::bytes_of("lan-cat-input-session-v1"@) + ephemeral_shared;
    if text::text_lt(local_id, peer_id) {
        head + text::bytes_of(local_id) + text::bytes_of(peer_id) + local_nonce + peer_nonce
    } else {
        head + text::bytes_of(peer_id) + text::bytes_of(local_id) + peer_nonce + local_nonce
    }
}

/// What the key of one direction of a session is made of.
pub open spec fn direction_text(sender: Seq<char>, receiver: Seq<char>) -> Seq<u8> {
    text::bytes_of("direction"@) + text::bytes_of(sender) + text::bytes_of(receiver)
}

/// The key of one direction of a session.
pub open spec fn directed(base: Seq<u8>, sender: Seq<char>, receiver: Seq<char>) -> Seq<u8> {
    foreign::blake3_keyed(base, direction_text(sender, receiver))
}

/// The keys of a session as one end has them: the one it sends with and the one
/// it receives with.
pub open spec fn keys_of(
    static_shared: Seq<u8>,
    ephemeral_shared: Seq<u8>,
    local_id: Seq<char>,
    peer_id: Seq<char>,
    local_nonce: Seq<u8>,
    peer_nonce: Seq<u8>,
) -> (Seq<u8>, Seq<u8>) {
    let base = foreign::blake3_keyed(
        static_shared,
        session_text(ephemeral_shared, local_id, peer_id, local_nonce, peer_nonce),
    );
    (directed(base, local_id, peer_id), directed(base, peer_id, local_id))
}

/// The nonce of a packet: four zero bytes and the sequence number.
pub open spec fn nonce_of(sequence: u64) -> Seq<u8> {
    seq![0u8, 0u8, 0u8, 0u8] + bytes::be(sequence as nat, 8)
}

/// What the authentication of a packet covers besides its content.
pub open spec fn aad_of(sender: Seq<char>, sequence: u64) -> Seq<u8> {
    text::bytes_of("lan-cat-input-data-v1"@) + text::bytes_of(sender) + bytes::be(
        sequence as nat,
        8,
    )
}

/// What a packet carries for a content.
pub open spec fn packet_of(
    key: Seq<u8>,
    sender: Seq<char>,
    sequence: u64,
    plain: Seq<u8>,
) -> Seq<u8> {
    foreign::chacha_sealed(key, nonce_of(sequence), aad_of(sender, sequence), plain)
}

/// The content of a packet, if it is authentic. A packet that is too long for the
/// cipher has none.
pub open spec fn content_of(
    key: Seq<u8>,
    sender: Seq<char>,
    sequence: u64,
    ciphertext: Seq<u8>,
) -> Option<Seq<u8>> {
    if foreign::chacha_fits(ciphertext.len() - 16) {
        foreign::chacha_opened(key, nonce_of(sequence), aad_of(sender, sequence), ciphertext)
    } else {
        None
    }
}

/// The secret that the static keys of this device and a peer share.
pub open spec fn shared_with(config: Config, peer: Seq<char>) -> Seq<u8> {
    foreign::x25519_product(
        config::key_bytes(config.private_key@),
        config::key_bytes(config.peers@[peer].public_key@),
    )
}

/// What stands in the way of computing that secret, if anything does.
pub open spec fn shared_fault(config: Config, peer: Seq<char>) -> Option<TransportError> {
    if !config.peers@.dom().contains(peer) {
        Some(TransportError::NotPaired)
    } else {
        let key = config.peers@[peer].public_key@;
        if !foreign::is_hex(text::bytes_of(key)) {
            Some(TransportError::PeerKeyNotHex)
        } else if !config::is_key_text(key) {
            Some(TransportError::PeerKeyLength)
        } else if !foreign::is_hex(text::bytes_of(config.private_key@)) {
            Some(TransportError::Identity(ConfigError::PrivateKeyNotHex))
        } else if !config::is_key_text(config.private_key@) {
            Some(TransportError::Identity(ConfigError::PrivateKeyLength))
        } else {
            None
        }
    }
}

/// Whether a peer may share input.
pub fn is_cursor_peer(config: &Config, peer: &str) -> (trusted: bool)
    ensures
        trusted == cursor_peer(*config, peer@),
{
    config.cursor.enabled && config.peers.contains_key(peer)
}

/// The secret that the static keys of this device and a peer share. The peer
/// computes the same from its private key and this device's public key.
pub fn static_shared(config: &Config, peer_id: &str) -> (result: Result<[u8; 32], TransportError>)
    ensures
        match shared_fault(*config, peer_id@) {
            Some(error) => result == Err::<[u8; 32], TransportError>(error),
            None => {
                &&& result is Ok
                &&& result->Ok_0@ == shared_with(*config, peer_id@)
                &&& forall|other: Seq<u8>|
                    other.len() == 32 && config::key_bytes(config.peers@[peer_id@].public_key@)
                        == #[trigger] foreign::x25519_public(other) ==> result->Ok_0@
                        == foreign::x25519_product(
                        other,
                        foreign::x25519_public(config::key_bytes(config.private_key@)),
                    )
            },
        },
{
    let peer = match config.peers.get(peer_id) {
        Some(peer) => peer,
        None => return Err(TransportError::NotPaired),
    };
    let remote = match config::decode_key(
        peer.public_key.as_str(),
        ConfigError::PublicKeyNotHex,
        ConfigError::PublicKeyLength,
    ) {
        Ok(remote) => remote,
        Err(error) => return Err(
            match error {
                ConfigError::PublicKeyNotHex => TransportError::PeerKeyNotHex,
                _ => TransportError::PeerKeyLength,
            },
        ),
    };
    let private = match config.private_key_bytes() {
        Ok(private) => private,
        Err(error) => return Err(TransportError::Identity(error)),
    };
    Ok(foreign::x25519(private, remote))
}

/// The authentication of a hello.
pub fn hello_tag(
    shared: &[u8; 32],
    sender: &str,
    ephemeral: &[u8; 32],
    nonce: &[u8; 16],
    response: bool,
) -> (tag: [u8; 32])
    ensures
        tag@ == hello_mac(shared@, sender@, ephemeral@, nonce@, response),
{
    let mut covered: Vec<u8> = Vec::new();
    bytes::append(&mut covered, "lan-cat-input-hello-v1".as_bytes());
    bytes::append(&mut covered, sender.as_bytes());
    bytes::append(&mut covered, ephemeral.as_slice());
    bytes::append(&mut covered, nonce.as_slice());
    covered.push(
        if response {
            1
        } else {
            0
        },
    );
    assert(covered@ =~= hello_text(sender@, ephemeral@, nonce@, response));
    foreign::keyed_hash(shared, covered.as_slice())
}

/// The key of one direction of a session.
pub fn direction_key(base: &[u8; 32], sender: &str, receiver: &str) -> (key: [u8; 32])
    ensures
        key@ == directed(base@, sender@, receiver@),
{
    let mut covered: Vec<u8> = Vec::new();
    bytes::append(&mut covered, "direction".as_bytes());
    bytes::append(&mut covered, sender.as_bytes());
    bytes::append(&mut covered, receiver.as_bytes());
    assert(covered@ =~= text::bytes_of("direction"@) + text::bytes_of(sender@) + text::bytes_of(
        receiver@,
    ));
    foreign::keyed_hash(base, covered.as_slice())
}

/// The keys of a session: the one to send with and the one to receive with.
pub fn session_keys(
    static_shared: &[u8; 32],
    ephemeral_shared: [u8; 32],
    local_id: &str,
    peer_id: &str,
    local_nonce: &[u8; 16],
    peer_nonce: &[u8; 16],
) -> (keys: ([u8; 32], [u8; 32]))
    ensures
        (keys.0@, keys.1@) == keys_of(
            static_shared@,
            ephemeral_shared@,
            local_id@,
            peer_id@,
            local_nonce@,
            peer_nonce@,
        ),
{
    let mut covered: Vec<u8> = Vec::new();
    bytes::append(&mut covered, "lan-cat-input-session-v1".as_bytes());
    bytes::append(&mut covered, ephemeral_shared.as_slice());
    if text::str_lt(local_id, peer_id) {
        bytes::append(&mut covered, local_id.as_bytes());
        bytes::append(&mut covered, peer_id.as_bytes());
        bytes::append(&mut covered, local_nonce.as_slice());
        bytes::append(&mut covered, peer_nonce.as_slice());
    } else {
        bytes::append(&mut covered, peer_id.as_bytes());
        bytes::append(&mut covered, local_id.as_bytes());
        bytes::append(&mut covered, peer_nonce.as_slice());
        bytes::append(&mut covered, local_nonce.as_slice());
    }
    assert(covered@ =~= session_text(
        ephemeral_shared@,
        local_id@,
        peer_id@,
        local_nonce@,
        peer_nonce@,
    ));
    let base = foreign::keyed_hash(static_shared, covered.as_slice());
    (direction_key(&base, local_id, peer_id), direction_key(&base, peer_id, local_id))
}

/// The nonce of a packet.
pub fn packet_nonce(sequence: u64) -> (nonce: [u8; 12])
    ensures
        nonce@ == nonce_of(sequence),
{
    let tail = bytes::u64_bytes(sequence);
    proof {
        bytes::lemma_be_len(sequence as nat, 8);
    }
    let nonce: [u8; 12] = [
        0,
        0,
        0,
        0,
        tail[0],
        tail[1],
        tail[2],
        tail[3],
        tail[4],
        tail[5],
        tail[6],
        tail[7],
    ];
    assert(nonce@ =~= nonce_of(sequence));
    nonce
}

/// What the authentication of a packet covers besides its content.
pub fn packet_aad(sender: &str, sequence: u64) -> (aad: Vec<u8>)
    ensures
        aad@ == aad_of(sender@, sequence),
{
    let mut aad: Vec<u8> = Vec::new();
    bytes::append(&mut aad, "lan-cat-input-data-v1".as_bytes());
    bytes::append(&mut aad, sender.as_bytes());
    bytes::append_u64(&mut aad, sequence);
    assert(aad@ =~= aad_of(sender@, sequence));
    aad
}

/// Encrypts the content of a packet. It fails on a content that is too long
/// for the cipher and on no other; what it returns decrypts to the content under
/// the same key, sender and sequence number.
pub fn encrypt(key: &[u8; 32], sender: &str, sequence: u64, plain: &[u8]) -> (result: Result<
    Vec<u8>,
    TransportError,
>)
    ensures
        match result {
            Ok(ciphertext) => {
                &&& foreign::chacha_fits(plain@.len() as int)
                &&& ciphertext@ == packet_of(key@, sender@, sequence, plain@)
                &&& content_of(key@, sender@, sequence, ciphertext@) == Some(plain@)
            },
            Err(error) => !foreign::chacha_fits(plain@.len() as int) && error
                == TransportError::Encryption,
        },
{
    if plain.len() as u64 > foreign::MAX_CHACHA_BYTES {
        return Err(TransportError::Encryption);
    }
    let nonce = packet_nonce(sequence);
    let aad = packet_aad(sender, sequence);
    match foreign::chacha_seal(key, &nonce, aad.as_slice(), plain) {
        Ok(ciphertext) => Ok(ciphertext),
        Err(_) => Err(TransportError::Encryption),
    }
}

/// Decrypts the content of a packet, if the packet is authentic under this key,
/// sender and sequence number.
pub fn decrypt(key: &[u8; 32], sender: &str, sequence: u64, ciphertext: &[u8]) -> (result: Result<
    Vec<u8>,
    TransportError,
>)
    ensures
        match result {
            Ok(plain) => content_of(key@, sender@, sequence, ciphertext@) == Some(plain@),
            Err(error) => content_of(key@, sender@, sequence, ciphertext@) is None && error
                == TransportError::Authentication,
        },
{
    if ciphertext.len() >= 16 && (ciphertext.len() - 16) as u64 > foreign::MAX_CHACHA_BYTES {
        return Err(TransportError::Authentication);
    }
    let nonce = packet_nonce(sequence);
    let aad = packet_aad(sender, sequence);
    match foreign::chacha_open(key, &nonce, aad.as_slice(), ciphertext) {
        Ok(plain) => Ok(plain),
        Err(_) => Err(TransportError::Authentication),
    }
}

/// The two ends of a session have the same keys: what one sends with, the other
/// receives with.
pub proof fn law_session_keys_match(
    static_shared: Seq<u8>,
    ephemeral_shared: Seq<u8>,
    a: Seq<char>,
    b: Seq<char>,
    nonce_a: Seq<u8>,
    nonce_b: Seq<u8>,
)
    requires
        a != b,
    ensures
        keys_of(static_shared, ephemeral_shared, a, b, nonce_a, nonce_b).0 == keys_of(
            static_shared,
            ephemeral_shared,
            b,
            a,
            nonce_b,
            nonce_a,
        ).1,
        keys_of(static_shared, ephemeral_shared, a, b, nonce_a, nonce_b).1 == keys_of(
            static_shared,
            ephemeral_shared,
            b,
            a,
            nonce_b,
            nonce_a,
        ).0,
{
    text::lemma_text_order(a, b);
}

/// No two packets of a session are encrypted under the same nonce.
pub proof fn law_nonces_differ(first: u64, second: u64)
    requires
        first != second,
    ensures
        nonce_of(first) != nonce_of(second),
{
    bytes::lemma_spans();
    bytes::lemma_be_round_trip(first as nat, 8);
    bytes::lemma_be_round_trip(second as nat, 8);
    bytes::lemma_be_len(first as nat, 8);
    bytes::lemma_be_len(second as nat, 8);
    if nonce_of(first) == nonce_of(second) {
        assert(nonce_of(first).skip(4) =~= bytes::be(first as nat, 8));
        assert(nonce_of(second).skip(4) =~= bytes::be(second as nat, 8));
    }
}

/// The secret that two devices share can be computed exactly if the peer is paired and both
/// keys are the hexadecimal text of 32 bytes; what is wrong with the peer's key is said
/// first.
pub proof fn law_secret_needs_both_keys(config: Config, peer: Seq<char>)
    ensures
        shared_fault(config, peer) is None <==> config.peers@.dom().contains(peer)
            && config::is_key_text(config.peers@[peer].public_key@) && config::is_key_text(
            config.private_key@,
        ),
        !config.peers@.dom().contains(peer) ==> shared_fault(config, peer) == Some(
            TransportError::NotPaired,
        ),
        config.peers@.dom().contains(peer) && !foreign::is_hex(
            text::bytes_of(config.peers@[peer].public_key@),
        ) ==> shared_fault(config, peer) == Some(TransportError::PeerKeyNotHex),
        config.peers@.dom().contains(peer) && foreign::is_hex(
            text::bytes_of(config.peers@[peer].public_key@),
        ) && config::key_bytes(config.peers@[peer].public_key@).len() != 32 ==> shared_fault(
            config,
            peer,
        ) == Some(TransportError::PeerKeyLength),
{
}

/// Input is shared with a peer exactly if it is paired and input sharing is on.
pub proof fn law_input_is_shared_with_paired_peers(config: Config, peer: Seq<char>)
    ensures
        cursor_peer(config, peer) ==> config.cursor.enabled && config.peers@.dom().contains(peer),
        config.cursor.enabled && config.peers@.dom().contains(peer) ==> cursor_peer(config, peer),
{
}

} // verus!
