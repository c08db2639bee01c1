//! What holds of pairing and of connections as a whole.

use vstd::prelude::*;
use vstd::utf8::*;

use crate::bytes;
use crate::config;
use crate::config::{Config, Peer};
use crate::foreign;
use crate::input::transport::Address;
use crate::network;
use crate::network::{Identity, NetworkError};
use crate::text;

verus! {

/// A pairing gives a peer exactly if the user of this device confirmed the code and the
/// other end sent that its user did: the peer has the id and the name that it gave, and
/// the very key that it showed. Else the pairing is rejected.
pub proof fn law_pairing_needs_both_users(
    identity: Identity,
    key: Seq<u8>,
    confirmed: bool,
    confirmation: Seq<u8>,
    result: Result<(String, Peer), NetworkError>,
)
    requires
        network::concludes(identity, key, confirmed, confirmation, result),
    ensures
        result is Ok <==> confirmed && confirmation.len() == 1 && confirmation[0] == 1,
        result is Err ==> result == Err::<(String, Peer), NetworkError>(NetworkError::Rejected),
        result is Ok ==> result->Ok_0.0@ == identity.id@ && result->Ok_0.1.name@ == identity.name@
            && config::key_bytes(result->Ok_0.1.public_key@) == key && foreign::is_hex(
            text::bytes_of(result->Ok_0.1.public_key@),
        ),
{
    config::lemma_hex_round_trip(key);
    if confirmation.len() == 1 && confirmation[0] == 1 {
        assert(confirmation =~= seq![1u8]);
    }
}

/// An identity is taken exactly if it has the first version, a name of 1 to 63
/// characters, and the id of the key that came with it.
pub proof fn law_identity_belongs_to_its_key(identity: Identity, key: Option<Seq<u8>>)
    ensures
        network::pairing_fault(identity, key) is None <==> identity.version == 1 && 1
            <= identity.name@.len() <= 63 && key is Some && identity.id@ == network::id_of(key->0),
        identity.version != 1 ==> network::pairing_fault(identity, key) == Some(
            NetworkError::UnsupportedPairing(identity.version),
        ),
        identity.version == 1 && !(1 <= identity.name@.len() <= 63) ==> network::pairing_fault(
            identity,
            key,
        ) == Some(NetworkError::InvalidPeerName),
        identity.version == 1 && 1 <= identity.name@.len() <= 63 && key is None
            ==> network::pairing_fault(identity, key) == Some(NetworkError::MissingStaticKey),
        identity.version == 1 && 1 <= identity.name@.len() <= 63 && key is Some && identity.id@
            != network::id_of(key->0) ==> network::pairing_fault(identity, key) == Some(
            NetworkError::IdentityMismatch,
        ),
        network::identity_fault(identity) is None <==> identity.version == 1 && 1
            <= identity.name@.len() <= 63,
{
}

/// What a device says of itself is taken by the other end, which sees its key, whatever
/// name it can have.
pub proof fn law_own_identity_is_taken(config: Config, result: Result<Identity, NetworkError>)
    requires
        network::introduces(config, result),
        config::is_key_text(config.public_key@),
        1 <= config.name@.len() <= 63,
    ensures
        result is Ok,
        network::pairing_fault(
            result->Ok_0,
            Some(config::key_bytes(config.public_key@)),
        ) is None,
        result->Ok_0.name@ == config.name@,
{
}

/// The id of a device is the hexadecimal text of the first half of the hash of its key, in
/// lowercase: reading it gives that half back.
pub proof fn law_id_is_half_the_hash(key: Seq<u8>)
    requires
        foreign::blake3_hash(key).len() == 32,
    ensures
        network::id_of(key).len() == 32,
        foreign::hex_bytes(text::bytes_of(network::id_of(key))) == foreign::blake3_hash(
            key,
        ).subrange(0, 16),
{
    let half = foreign::blake3_hash(key).take(16);
    config::lemma_hex_round_trip(half);
    assert(half =~= foreign::blake3_hash(key).subrange(0, 16));
}

/// A connection that starts with the id of a device is one of that device, in whatever
/// case the id is written; one that starts with anything but hexadecimal digits is
/// refused.
pub proof fn law_connection_starts_with_an_id(key: Seq<u8>, preface: Seq<u8>)
    ensures
        network::announced_id(text::bytes_of(network::id_of(key))) == Some(network::id_of(key)),
        network::announced_id(preface) is Some <==> (forall|i: int|
            0 <= i < preface.len() ==> (48 <= #[trigger] preface[i] <= 57 || 65 <= preface[i] <= 70
                || 97 <= preface[i] <= 102)),
        network::announced_id(preface) matches Some(id) ==> id.len() == preface.len() && forall|
            i: int,
        |
            0 <= i < preface.len() ==> #[trigger] id[i] == if 65 <= preface[i] <= 70 {
                (preface[i] + 32) as char
            } else {
                preface[i] as char
            },
{
    let half = foreign::blake3_hash(key).take(16);
    let chars = network::id_of(key);
    config::lemma_hex_round_trip(half);
    assert(is_ascii_chars(chars));
    is_ascii_chars_encode_utf8(chars);
    let raw = text::bytes_of(chars);
    assert forall|i: int| 0 <= i < raw.len() implies foreign::hex_value(#[trigger] raw[i]) is Some
        && network::lower(raw[i]) == chars[i] by {
        assert(raw[i] == chars[i] as u8);
    }
    assert(network::is_preface(raw));
    assert(raw.map_values(|byte: u8| network::lower(byte)) =~= chars);
    if forall|i: int|
        0 <= i < preface.len() ==> (48 <= #[trigger] preface[i] <= 57 || 65 <= preface[i] <= 70
            || 97 <= preface[i] <= 102) {
        assert(network::is_preface(preface));
    }
    if network::is_preface(preface) {
        assert forall|i: int| 0 <= i < preface.len() implies (48 <= #[trigger] preface[i] <= 57
            || 65 <= preface[i] <= 70 || 97 <= preface[i] <= 102) by {
            assert(foreign::hex_value(preface[i]) is Some);
        }
    }
}

/// Of two devices exactly one opens the connection between them.
pub proof fn law_one_of_two_devices_dials(a: Seq<char>, b: Seq<char>)
    ensures
        a != b ==> network::opens_to(a, b) != network::opens_to(b, a),
        !network::opens_to(a, a),
{
    text::lemma_text_order(a, b);
    text::lemma_text_order(b, a);
}

/// The code of a pairing is what the first four bytes of the hash of the handshake make,
/// without all but the last six decimal digits.
pub proof fn law_code_is_made_of_the_hash(hash: Seq<u8>)
    requires
        hash.len() >= 4,
    ensures
        0 <= network::code_of(hash) < 1_000_000,
        network::code_of(hash) == (((hash[0] as int * 256 + hash[1]) * 256 + hash[2]) * 256
            + hash[3]) % 1_000_000,
{
    let four = hash.take(4);
    let three = four.drop_last();
    let two = three.drop_last();
    let one = two.drop_last();
    assert(one.drop_last() =~= Seq::empty());
    assert(bytes::be_value(one.drop_last()) == 0);
    assert(bytes::be_value(one) == hash[0] as nat);
    assert(bytes::be_value(two) == hash[0] as nat * 256 + hash[1] as nat);
    assert(bytes::be_value(three) == (hash[0] as nat * 256 + hash[1] as nat) * 256
        + hash[2] as nat);
}

/// A code is shown in six digits that make it, with zeros in front where it is smaller;
/// so two users who see different codes see different digits.
pub proof fn law_code_is_shown_in_six_digits(code: int)
    requires
        0 <= code < 1_000_000,
    ensures
        network::code_digits(code).len() == 6,
        forall|i: int| 0 <= i < 6 ==> '0' <= #[trigger] network::code_digits(code)[i] <= '9',
        text::number_of(network::code_digits(code)) == code,
{
    reveal_with_fuel(network::power_of_ten, 7);
    let digits = network::code_digits(code);
    assert(digits[0] == text::decimal_digit(code / 100_000 % 10));
    assert(digits[1] == text::decimal_digit(code / 10_000 % 10));
    assert(digits[2] == text::decimal_digit(code / 1_000 % 10));
    assert(digits[3] == text::decimal_digit(code / 100 % 10));
    assert(digits[4] == text::decimal_digit(code / 10 % 10));
    assert(digits[5] == text::decimal_digit(code / 1 % 10));
    let d5 = digits.drop_last();
    let d4 = d5.drop_last();
    let d3 = d4.drop_last();
    let d2 = d3.drop_last();
    let d1 = d2.drop_last();
    assert(d1.drop_last() =~= Seq::empty());
    assert(text::number_of(d1.drop_last()) == 0);
    assert(text::number_of(d1) == code / 100_000 % 10);
    assert(text::number_of(d2) == code / 100_000 % 10 * 10 + code / 10_000 % 10);
    assert(text::number_of(d3) == (code / 100_000 % 10 * 10 + code / 10_000 % 10) * 10 + code
        / 1_000 % 10);
    assert(text::number_of(d4) == code / 100);
    assert(text::number_of(d5) == code / 10);
    assert(text::number_of(digits) == code);
}

/// An answer confirms the code exactly if it is `y`, `Y`, `yes` or `YES`, with any white
/// space around it.
pub proof fn law_only_a_yes_confirms(line: Seq<char>, from: int, to: int)
    requires
        0 <= from <= to <= line.len(),
        forall|i: int| 0 <= i < from ==> text::is_white_space(#[trigger] line[i]),
        forall|i: int| to <= i < line.len() ==> text::is_white_space(#[trigger] line[i]),
        from < to ==> !text::is_white_space(line[from]) && !text::is_white_space(line[to - 1]),
    ensures
        ({
            let word = line.subrange(from, to);
            network::is_yes(line) <==> word == seq!['y'] || word == seq!['Y'] || word
                == seq!['y', 'e', 's'] || word == seq!['Y', 'E', 'S']
        }),
{
    text::law_trimming_cuts_white_space(line, from, to);
    reveal_strlit("y");
    reveal_strlit("Y");
    reveal_strlit("yes");
    reveal_strlit("YES");
    assert("y"@ =~= seq!['y']);
    assert("Y"@ =~= seq!['Y']);
    assert("yes"@ =~= seq!['y', 'e', 's']);
    assert("YES"@ =~= seq!['Y', 'E', 'S']);
}

/// A message of a handshake may have up to 4096 bytes, and a record up to 60032.
pub proof fn law_sizes_are_limited(message: u16, record: u32)
    ensures
        message <= 4096 ==> network::handshake_room(message) == Ok::<usize, NetworkError>(
            message as usize,
        ),
        message > 4096 ==> network::handshake_room(message) == Err::<usize, NetworkError>(
            NetworkError::HandshakeTooLarge,
        ),
        record <= 60_032 ==> network::record_room(record) == Ok::<usize, NetworkError>(
            record as usize,
        ),
        record > 60_032 ==> network::record_room(record) == Err::<usize, NetworkError>(
            NetworkError::RecordTooLarge,
        ),
{
}

/// A service is reached at the first of its addresses that is of version 4, and where
/// there is none at its first; and always at its own port.
pub proof fn law_version_4_is_preferred(addresses: Seq<Address>, port: u16, i: int)
    requires
        0 <= i < addresses.len(),
        forall|j: int| 0 <= j < i ==> (#[trigger] addresses[j]).is_v6,
    ensures
        !addresses[i].is_v6 ==> network::preferred(addresses, port) == Some(
            Address { port, ..addresses[i] },
        ),
        (forall|j: int| 0 <= j < addresses.len() ==> (#[trigger] addresses[j]).is_v6)
            ==> network::preferred(addresses, port) == Some(Address { port, ..addresses[0] }),
    decreases addresses.len(),
{
    let rest = addresses.skip(1);
    assert forall|j: int| 0 <= j < rest.len() implies #[trigger] rest[j] == addresses[j + 1] by {
    }
    if i > 0 {
        assert(addresses[0].is_v6);
        assert forall|j: int| 0 <= j < i - 1 implies (#[trigger] rest[j]).is_v6 by {
            assert(addresses[j + 1].is_v6);
        }
        law_version_4_is_preferred(rest, port, i - 1);
    }
    if forall|j: int| 0 <= j < addresses.len() ==> (#[trigger] addresses[j]).is_v6 {
        assert(addresses[0].is_v6);
        if rest.len() > 0 {
            assert forall|j: int| 0 <= j < rest.len() implies (#[trigger] rest[j]).is_v6 by {
                assert(addresses[j + 1].is_v6);
            }
            law_version_4_is_preferred(rest, port, 0);
        } else {
            assert(network::preferred(rest, port) is None);
        }
    }
}

/// An announced service belongs to a peer exactly if it has the first version, an id and
/// an address: the peer is the one with that id.
pub proof fn law_services_are_resolved(
    version: Option<String>,
    id: Option<String>,
    addresses: Seq<Address>,
    port: u16,
    found: Option<(String, Address)>,
)
    requires
        network::resolves(version, id, addresses, port, found),
    ensures
        found is Some <==> version is Some && (version->0)@ == seq!['1'] && id is Some
            && addresses.len() > 0,
        found is Some ==> (found->0).0@ == (id->0)@ && (found->0).1.port == port,
{
    reveal_strlit("1");
    assert("1"@ =~= seq!['1']);
    if addresses.len() > 0 {
        lemma_port(addresses, port);
    }
}

proof fn lemma_port(addresses: Seq<Address>, port: u16)
    requires
        addresses.len() > 0,
    ensures
        network::preferred(addresses, port) is Some,
        network::preferred(addresses, port)->0.port == port,
    decreases addresses.len(),
{
    if addresses[0].is_v6 && addresses.len() > 1 {
        lemma_port(addresses.skip(1), port);
    } else if addresses[0].is_v6 {
        assert(network::preferred(addresses.skip(1), port) is None);
    }
}

/// The host name of an instance starts with the first 32 bytes of the instance's name, or
/// all of them.
pub proof fn law_host_is_named_after_the_instance(instance: Seq<char>)
    requires
        is_ascii_chars(instance),
    ensures
        network::host_of(instance) == (if instance.len() <= 32 {
            instance
        } else {
            instance.subrange(0, 32)
        }) + ".local."@,
{
    let part = if instance.len() <= 32 {
        instance
    } else {
        instance.subrange(0, 32)
    };
    assert(is_ascii_chars(part));
    is_ascii_chars_encode_utf8(instance);
    is_ascii_chars_encode_utf8(part);
    assert forall|i: int| 0 <= i < part.len() implies network::name_start(instance)[i]
        == encode_utf8(part)[i] by {
        assert(encode_utf8(instance)[i] == instance[i] as u8);
    }
    assert(network::name_start(instance) =~= encode_utf8(part));
    encode_utf8_decode_utf8(part);
}

/// A connection to a peer can be begun exactly if this device's private key is the
/// hexadecimal text of 32 bytes and the peer's key that of at most 56.
pub proof fn law_connection_needs_both_keys(config: Config, peer: Peer)
    ensures
        network::private_key_fault(config) is None <==> config::is_key_text(config.private_key@),
        network::connection_fault(config, peer) is None <==> config::is_key_text(
            config.private_key@,
        ) && foreign::is_hex(text::bytes_of(peer.public_key@)) && config::key_bytes(
            peer.public_key@,
        ).len() <= 56,
        config::is_key_text(config.private_key@) && !foreign::is_hex(
            text::bytes_of(peer.public_key@),
        ) ==> network::connection_fault(config, peer) == Some(NetworkError::PeerKeyNotHex),
{
}

/// The handshake of a connection is made with this device's private key and the peer's public
/// key, and with nothing else; the turns that are planned for this device lead through it to
/// a session.
pub proof fn law_connection_leads_to_a_session(
    config: Config,
    peer: Peer,
    initiator: bool,
    result: Result<snow::HandshakeState, NetworkError>,
    states: Seq<snow::HandshakeState>,
    messages: Seq<Seq<u8>>,
)
    requires
        network::connects(config, peer, initiator, result),
        result is Ok,
        network::went_through(states, messages),
        messages.len() == network::connection_turns(initiator).len(),
        states[0] == result->Ok_0,
    ensures
        foreign::handshake_setup(states[0]).0 == "Noise_KK_25519_ChaChaPoly_BLAKE2s"@,
        foreign::handshake_setup(states[0]).1 == config::key_bytes(config.private_key@),
        foreign::handshake_setup(states[0]).2 == config::key_bytes(peer.public_key@),
        foreign::handshake_turn(states[0]) == initiator,
        foreign::handshake_over(states.last()),
{
    let turns = network::connection_turns(initiator);
    network::law_turns_lead_to_a_session(states, messages, turns, initiator);
    assert(turns[0] is Write == initiator);
    assert(!(turns[0] is WriteIdentity));
}

/// The handshake of a pairing is made with this device's private key, and no other key is
/// known beforehand; the turns that are planned for this device lead through it to the end.
pub proof fn law_pairing_leads_to_its_end(
    config: Config,
    initiator: bool,
    result: Result<snow::HandshakeState, NetworkError>,
    states: Seq<snow::HandshakeState>,
    messages: Seq<Seq<u8>>,
)
    requires
        network::pairs(config, initiator, result),
        result is Ok,
        foreign::handshake_passed(result->Ok_0) == 0,
        network::went_through(states, messages),
        messages.len() == network::pairing_turns(initiator).len(),
        states[0] == result->Ok_0,
    ensures
        foreign::handshake_setup(states[0]).0 == "Noise_XX_25519_ChaChaPoly_BLAKE2s"@,
        foreign::handshake_setup(states[0]).1 == config::key_bytes(config.private_key@),
        foreign::handshake_setup(states[0]).2.len() == 0,
        foreign::handshake_turn(states[0]) == initiator,
        foreign::handshake_over(states.last()),
        network::begins_pairing(states[0]),
{
    let turns = network::pairing_turns(initiator);
    network::law_turns_lead_to_a_session(states, messages, turns, initiator);
    assert(turns[0] is Write == initiator);
    assert(!(turns[0] is WriteIdentity));
}

/// Without a proper private key neither is set up.
pub proof fn law_handshakes_need_a_private_key(
    config: Config,
    peer: Peer,
    initiator: bool,
    pairing: Result<snow::HandshakeState, NetworkError>,
    connection: Result<snow::HandshakeState, NetworkError>,
)
    requires
        network::pairs(config, initiator, pairing),
        network::connects(config, peer, initiator, connection),
    ensures
        pairing is Ok <==> config::is_key_text(config.private_key@),
        connection is Ok ==> pairing is Ok,
        pairing is Ok && foreign::is_hex(text::bytes_of(peer.public_key@)) && config::key_bytes(
            peer.public_key@,
        ).len() <= 56 ==> connection is Ok,
{
}

} // verus!
