//! What holds of the sessions of input sharing as a whole.

use vstd::prelude::*;

use crate::bytes;
use crate::config::Config;
use crate::foreign;
use crate::input::packet;
use crate::input::packet::TransportError;
use crate::input::protocol::InputMessage;
use crate::input::transport;
use crate::input::transport::{
    Address, EndpointState, Packet, Received, Route, SessionState, Wire,
};
use crate::input::window::Window;
use crate::text;

verus! {

/// Whether two ends can talk: each trusts the other and shares input, they have
/// different ids, and what they compute of their keys is the same at both ends.
pub open spec fn paired(
    a: EndpointState,
    a_config: Config,
    b: EndpointState,
    b_config: Config,
) -> bool {
    &&& a.local_id != b.local_id
    &&& a_config.cursor.enabled && a_config.peers@.dom().contains(b.local_id)
    &&& b_config.cursor.enabled && b_config.peers@.dom().contains(a.local_id)
    &&& packet::shared_fault(a_config, b.local_id) is None
    &&& packet::shared_fault(b_config, a.local_id) is None
    &&& packet::shared_with(a_config, b.local_id) == packet::shared_with(b_config, a.local_id)
    &&& foreign::x25519_product(a.secret, b.public) == foreign::x25519_product(b.secret, a.public)
}

/// A hello and its answer give both ends a session: each knows where the other is, and
/// what one sends with the other receives with. The end that was greeted answers once,
/// and the answer is not answered.
pub proof fn law_hello_gives_both_ends_a_session(
    a: EndpointState,
    a_config: Config,
    b: EndpointState,
    b_config: Config,
    from: Address,
    to: Address,
    hello: Wire,
    b_after: EndpointState,
    b_result: Result<Received, TransportError>,
    a_after: EndpointState,
    a_result: Result<Received, TransportError>,
)
    requires
        paired(a, a_config, b, b_config),
        transport::session_of(a, b.local_id) is None,
        transport::session_of(b, a.local_id) is None,
        transport::is_hello_to(hello, a, a_config, b.local_id, false),
        transport::receives(b, b_config, from, hello, b_after, b_result),
        b_result matches Ok(Received::Session { peer, reply }) ==> (reply matches Some(answer)
            ==> transport::receives(a, a_config, to, answer, a_after, a_result)),
    ensures
        b_result matches Ok(Received::Session { peer, reply }) && peer@ == a.local_id
            && reply is Some,
        a_result matches Ok(Received::Session { peer, reply }) && peer@ == b.local_id
            && reply is None,
        b_after.sessions.dom().contains(a.local_id),
        a_after.sessions.dom().contains(b.local_id),
        b_after.sessions[a.local_id].addr == from,
        a_after.sessions[b.local_id].addr == to,
        a_after.sessions[b.local_id].send_key == b_after.sessions[a.local_id].receive_key,
        a_after.sessions[b.local_id].receive_key == b_after.sessions[a.local_id].send_key,
        a_after.sessions[b.local_id].send_sequence == 0,
        b_after.sessions[a.local_id].send_sequence == 0,
{
    packet::law_session_keys_match(
        packet::shared_with(a_config, b.local_id),
        foreign::x25519_product(a.secret, b.public),
        a.local_id,
        b.local_id,
        a.nonce,
        b.nonce,
    );
}

/// What one end seals for the other, the other opens: it learns who sent it and gets
/// the same content, and it takes the datagram once.
pub proof fn law_sealed_message_arrives(
    a: EndpointState,
    b: EndpointState,
    b_config: Config,
    message: InputMessage,
    plain: Seq<u8>,
    a_after: EndpointState,
    sealed: Result<Packet, TransportError>,
    from: Address,
    b_after: EndpointState,
    opened: Result<Received, TransportError>,
    b_again: EndpointState,
    again: Result<Received, TransportError>,
)
    requires
        transport::session_of(a, b.local_id) is Some,
        transport::session_of(b, a.local_id) is Some,
        a.sessions[b.local_id].send_key == b.sessions[a.local_id].receive_key,
        a.sessions[b.local_id].send_sequence < u64::MAX,
        b.sessions[a.local_id].window.highest <= a.sessions[b.local_id].send_sequence,
        b.sessions[a.local_id].addr == from,
        b_config.cursor.enabled,
        b_config.peers@.dom().contains(a.local_id),
        foreign::chacha_fits(plain.len() as int),
        transport::seals(a, b.local_id, message, plain, a_after, sealed),
        sealed matches Ok(out) ==> transport::receives(b, b_config, from, out.wire, b_after, opened),
        sealed matches Ok(out) ==> transport::receives(
            b_after,
            b_config,
            from,
            out.wire,
            b_again,
            again,
        ),
    ensures
        sealed matches Ok(out) && out.addr == a.sessions[b.local_id].addr,
        opened matches Ok(Received::Content { peer, plain: content }) && peer@ == a.local_id
            && content@ == plain,
        again == Err::<Received, TransportError>(TransportError::Duplicate),
        b_again == b_after,
{
    let sequence = (a.sessions[b.local_id].send_sequence + 1) as u64;
    let wire = sealed->Ok_0.wire;
    if let Wire::Data { version, sender, sequence: number, ciphertext } = wire {
        transport::law_sealed_packet_is_opened_once(a, b, b_config, from, plain, ciphertext@);
    }
}

/// What an end seals goes to where the peer is, under the name of this end and a
/// sequence number that was never used in the session, the next one. What would hurt if
/// it were lost is sent three times, all else once. Without a session nothing is sealed.
pub proof fn law_sealing_numbers_the_datagrams(
    e: EndpointState,
    peer: Seq<char>,
    message: InputMessage,
    plain: Seq<u8>,
    after: EndpointState,
    result: Result<Packet, TransportError>,
    other: Seq<char>,
)
    requires
        transport::seals(e, peer, message, plain, after, result),
    ensures
        ({
            let known = e.sessions.dom().contains(peer);
            let left = known && e.sessions[peer].send_sequence < u64::MAX;
            &&& !known ==> result == Err::<Packet, TransportError>(TransportError::NoSession)
            &&& known && !left ==> result == Err::<Packet, TransportError>(TransportError::Exhausted)
            &&& !left ==> after == e
            &&& left && !foreign::chacha_fits(plain.len() as int) ==> result == Err::<
                Packet,
                TransportError,
            >(TransportError::Encryption)
            &&& left && foreign::chacha_fits(plain.len() as int) ==> result is Ok
            &&& left ==> after.sessions.dom().contains(peer) && after.sessions[peer] == (
            SessionState {
                send_sequence: (e.sessions[peer].send_sequence + 1) as u64,
                ..e.sessions[peer]
            })
            &&& result matches Ok(out) ==> {
                &&& out.addr == e.sessions[peer].addr
                &&& (message is Enter || message is Leave || message is Ack || (message is Pointer
                    && message->Pointer_0 is Button)) ==> out.copies == 3
                &&& !(message is Enter || message is Leave || message is Ack || (message is Pointer
                    && message->Pointer_0 is Button)) ==> out.copies == 1
                &&& out.wire matches Wire::Data { version, sender, sequence, ciphertext } && version
                    == 1 && sender@ == e.local_id && sequence == e.sessions[peer].send_sequence + 1
            }
            &&& other != peer ==> (after.sessions.dom().contains(other)
                <==> e.sessions.dom().contains(other)) && after.sessions[other]
                == e.sessions[other]
            &&& after.pending == e.pending && after.addresses == e.addresses && after.handshakes
                == e.handshakes && after.local_id == e.local_id
        }),
{
}

/// A hello is taken exactly if it has the version of this end, comes from a trusted
/// peer while input is shared, carries the tag that only that peer can make, and does
/// not repeat an earlier one against the session that there is. It gives a session at
/// the address that it came from: the one that there was, with its counters, if the keys
/// are the same, and else a new one.
pub proof fn law_hello_is_taken(
    e: EndpointState,
    config: Config,
    addr: Address,
    version: u8,
    sender: String,
    ephemeral: [u8; 32],
    nonce: [u8; 16],
    response: bool,
    tag: [u8; 32],
    after: EndpointState,
    result: Result<Received, TransportError>,
    other: Seq<char>,
)
    requires
        transport::receives(
            e,
            config,
            addr,
            Wire::Hello { version, sender, ephemeral, nonce, response, tag },
            after,
            result,
        ),
    ensures
        ({
            let known = config.cursor.enabled && config.peers@.dom().contains(sender@) && version
                == 1;
            let keys = transport::hello_keys(e, config, sender@, ephemeral@, nonce@);
            let authentic = tag@ == packet::hello_mac(
                packet::shared_with(config, sender@),
                sender@,
                ephemeral@,
                nonce@,
                response,
            );
            let session = e.sessions.dom().contains(sender@);
            let stale = e.handshakes.contains((sender@, ephemeral@, nonce@)) && session && (
            e.sessions[sender@].send_key != keys.0 || e.sessions[sender@].addr != addr);
            let able = packet::shared_fault(config, sender@) is None;
            &&& result is Ok <==> known && able && authentic && !stale
            &&& result is Err ==> after == e
            &&& !known ==> result == Err::<Received, TransportError>(TransportError::UnknownPeer)
            &&& known && able && !authentic ==> result == Err::<Received, TransportError>(
                TransportError::HelloAuthentication,
            )
            &&& known && able && authentic && stale ==> result == Err::<Received, TransportError>(
                TransportError::StaleHandshake,
            )
            &&& result is Ok ==> {
                let now = after.sessions[sender@];
                &&& result->Ok_0 is Session
                &&& result->Ok_0->Session_peer@ == sender@
                &&& result->Ok_0->reply is Some <==> !response
                &&& after.sessions.dom().contains(sender@)
                &&& now.addr == addr
                &&& now.send_key == keys.0
                &&& session && e.sessions[sender@].send_key == keys.0 ==> now.send_sequence
                    == e.sessions[sender@].send_sequence && now.window == e.sessions[sender@].window
                    && now.receive_key == e.sessions[sender@].receive_key
                &&& !(session && e.sessions[sender@].send_key == keys.0) ==> now.send_sequence == 0
                    && now.window == (Window { highest: 0, bits: 0 }) && now.receive_key == keys.1
                &&& after.handshakes.contains((sender@, ephemeral@, nonce@))
                &&& other != sender@ ==> (after.sessions.dom().contains(other)
                    <==> e.sessions.dom().contains(other)) && after.sessions[other]
                    == e.sessions[other]
                &&& after.pending == e.pending && after.addresses == e.addresses
            }
        }),
{
}

/// A datagram is taken exactly if it has the version of this end, comes from a trusted
/// peer while input is shared, from where the session with that peer is, is authentic,
/// and was not taken before. It is then not taken again; nothing else changes.
pub proof fn law_datagram_is_taken(
    e: EndpointState,
    config: Config,
    addr: Address,
    version: u8,
    sender: String,
    sequence: u64,
    ciphertext: Vec<u8>,
    after: EndpointState,
    result: Result<Received, TransportError>,
)
    requires
        transport::receives(
            e,
            config,
            addr,
            Wire::Data { version, sender, sequence, ciphertext },
            after,
            result,
        ),
    ensures
        ({
            let known = config.cursor.enabled && config.peers@.dom().contains(sender@) && version
                == 1;
            let session = e.sessions.dom().contains(sender@);
            let now = e.sessions[sender@];
            let content = packet::content_of(now.receive_key, sender@, sequence, ciphertext@);
            &&& result is Ok <==> known && session && addr == now.addr && content is Some
                && now.window.accepts(sequence)
            &&& result is Err ==> after == e
            &&& !known ==> result == Err::<Received, TransportError>(TransportError::UnknownPeer)
            &&& known && !session ==> result == Err::<Received, TransportError>(
                TransportError::NoSession,
            )
            &&& known && session && addr != now.addr ==> result == Err::<Received, TransportError>(
                TransportError::Misrouted,
            )
            &&& known && session && addr == now.addr && content is None ==> result == Err::<
                Received,
                TransportError,
            >(TransportError::Authentication)
            &&& known && session && addr == now.addr && content is Some && !now.window.accepts(
                sequence,
            ) ==> result == Err::<Received, TransportError>(TransportError::Duplicate)
            &&& result is Ok ==> {
                &&& result->Ok_0 is Content
                &&& result->Ok_0->Content_peer@ == sender@
                &&& Some(result->Ok_0->plain@) == content
                &&& !after.sessions[sender@].window.accepts(sequence)
                &&& after == (EndpointState {
                    sessions: e.sessions.insert(
                        sender@,
                        SessionState { window: after.sessions[sender@].window, ..now },
                    ),
                    ..e
                })
            }
        }),
{
    if result is Ok {
        let now = e.sessions[sender@];
        crate::input::window::law_sequence_is_accepted_once(now.window, sequence, Seq::empty());
    }
}

/// The messages that wait once some more were put behind them, one after the other.
pub open spec fn queued_all(
    waiting: Seq<InputMessage>,
    messages: Seq<InputMessage>,
) -> Seq<InputMessage>
    decreases messages.len(),
{
    if messages.len() == 0 {
        waiting
    } else {
        transport::queued(queued_all(waiting, messages.drop_last()), messages.last())
    }
}

/// Messages wait in the order in which they came, and of more than 32 the last 32 do.
pub proof fn law_last_messages_wait_in_order(
    waiting: Seq<InputMessage>,
    messages: Seq<InputMessage>,
)
    requires
        waiting.len() <= 32,
    ensures
        ({
            let all = waiting + messages;
            queued_all(waiting, messages) == if all.len() <= 32 {
                all
            } else {
                all.skip(all.len() - 32)
            }
        }),
    decreases messages.len(),
{
    let all = waiting + messages;
    if messages.len() > 0 {
        let fewer = messages.drop_last();
        law_last_messages_wait_in_order(waiting, fewer);
        let before = waiting + fewer;
        assert(all =~= before.push(messages.last()));
        if all.len() > 32 {
            if before.len() == 32 {
                assert(all.skip(all.len() - 32) =~= before.skip(1).push(messages.last()));
            } else {
                assert(all.skip(all.len() - 32) =~= before.skip(before.len() - 32).skip(1).push(
                    messages.last(),
                ));
            }
        }
    } else {
        assert(all =~= waiting);
    }
}

/// A message for a peer that may not share input goes nowhere, and all that was known of
/// the peer is forgotten. One for a peer with a session goes into the session. Any other
/// waits behind those that wait already, and where the peer is known to be somewhere it
/// is greeted there.
pub proof fn law_messages_find_their_way(
    e: EndpointState,
    config: Config,
    peer: Seq<char>,
    message: InputMessage,
    after: EndpointState,
    route: Route,
)
    requires
        transport::routes(e, config, peer, message, after, route),
        transport::waiting_for(e, peer).len() < 32,
    ensures
        ({
            let trusted = config.cursor.enabled && config.peers@.dom().contains(peer);
            let session = e.sessions.dom().contains(peer);
            let able = packet::shared_fault(config, peer) is None;
            &&& route is Nowhere <==> !trusted
            &&& route is Session <==> trusted && session
            &&& route is Hello <==> trusted && !session && able && e.addresses.dom().contains(peer)
            &&& !trusted ==> !after.sessions.dom().contains(peer)
                && !after.addresses.dom().contains(peer) && !after.pending.dom().contains(peer)
            &&& route is Session ==> after == e
            &&& route is Wait || route is Hello ==> transport::waiting_for(after, peer)
                == transport::waiting_for(e, peer).push(message) && after.sessions == e.sessions
            &&& route matches Route::Hello(out) ==> out.addr == e.addresses[peer] && out.copies == 1
                && transport::is_hello_to(out.wire, e, config, peer, false)
            &&& forall|other: Seq<char>|
                other != peer ==> transport::waiting_for(after, other)
                    == #[trigger] transport::waiting_for(e, other)
        }),
{
}

/// Once there is a session with a peer, all that waits for it is handed out, in its
/// order, and waits no longer; before, nothing is.
pub proof fn law_waiting_messages_are_handed_out_once(
    e: EndpointState,
    peer: Seq<char>,
    after: EndpointState,
    messages: Seq<InputMessage>,
    other: Seq<char>,
)
    requires
        transport::flushes(e, peer, after, messages),
    ensures
        e.sessions.dom().contains(peer) ==> messages == transport::waiting_for(e, peer)
            && transport::waiting_for(after, peer).len() == 0,
        !e.sessions.dom().contains(peer) ==> messages.len() == 0 && after == e,
        other != peer ==> transport::waiting_for(after, other) == transport::waiting_for(e, other),
        after.sessions == e.sessions,
        after.addresses == e.addresses,
        after.handshakes == e.handshakes,
{
}

/// A message that had to wait goes out when the session comes: it is the last of those
/// that are then handed out.
pub proof fn law_waiting_message_goes_out(
    e: EndpointState,
    peer: Seq<char>,
    message: InputMessage,
    ready: EndpointState,
    after: EndpointState,
    messages: Seq<InputMessage>,
)
    requires
        ready.pending == transport::with_pending(e, peer, message).pending,
        ready.sessions.dom().contains(peer),
        transport::flushes(ready, peer, after, messages),
    ensures
        messages.len() > 0,
        messages.last() == message,
        messages.len() <= transport::waiting_for(e, peer).len() + 1,
        transport::waiting_for(after, peer).len() == 0,
{
}

/// A trusted peer that is found is greeted where it is, and this end knows it to be
/// there; this end itself, and a stranger, are not.
pub proof fn law_found_peers_are_greeted(
    e: EndpointState,
    config: Config,
    peer: Seq<char>,
    addr: Address,
    after: EndpointState,
    hello: Option<Packet>,
)
    requires
        transport::discovers(e, config, peer, addr, after, hello),
    ensures
        ({
            let wanted = peer != e.local_id && config.cursor.enabled && config.peers@.dom().contains(
                peer,
            );
            let able = packet::shared_fault(config, peer) is None;
            &&& hello is Some <==> wanted && able
            &&& !wanted ==> after == e
            &&& hello is Some ==> after.addresses.dom().contains(peer) && after.addresses[peer]
                == addr
            &&& wanted && !able ==> !after.addresses.dom().contains(peer)
            &&& hello matches Some(out) ==> out.addr == addr && out.copies == 1
                && transport::is_hello_to(out.wire, e, config, peer, false)
            &&& after.sessions == e.sessions && after.pending == e.pending
        }),
        forall|other: Seq<char>|
            other != peer ==> (#[trigger] after.addresses.dom().contains(other)
                <==> e.addresses.dom().contains(other)) && after.addresses[other]
                == e.addresses[other],
{
}

/// A peer whose address is known is greeted there; one whose address is not is not.
pub proof fn law_known_peers_are_greeted(
    e: EndpointState,
    config: Config,
    peer: Seq<char>,
    after: EndpointState,
    hello: Option<Packet>,
)
    requires
        transport::greets(e, config, peer, after, hello),
    ensures
        hello is Some <==> e.addresses.dom().contains(peer) && packet::shared_fault(config, peer) is None,
        hello matches Some(out) ==> out.addr == e.addresses[peer] && out.copies == 1
            && transport::is_hello_to(out.wire, e, config, peer, false) && after == e,
        after.addresses.dom().contains(peer) <==> hello is Some,
        after.sessions == e.sessions,
        after.pending == e.pending,
{
}

/// A peer that is gone has no address, and one that is cut off no session either; what
/// is known of others stays, and so does what waits.
pub proof fn law_gone_peers_are_forgotten(e: EndpointState, peer: Seq<char>, other: Seq<char>)
    ensures
        ({
            let gone = transport::out_of_sight(e, peer);
            let cut = transport::disconnected(e, peer);
            &&& !gone.addresses.dom().contains(peer)
            &&& gone.sessions == e.sessions && gone.pending == e.pending
            &&& !cut.addresses.dom().contains(peer)
            &&& !cut.sessions.dom().contains(peer)
            &&& cut.pending == e.pending
            &&& other != peer && e.addresses.dom().contains(other) ==> gone.addresses.dom().contains(
                other,
            ) && gone.addresses[other] == e.addresses[other] && cut.addresses.dom().contains(other)
                && cut.addresses[other] == e.addresses[other]
            &&& other != peer && e.sessions.dom().contains(other) ==> cut.sessions.dom().contains(
                other,
            ) && cut.sessions[other] == e.sessions[other]
        }),
{
}

/// Peers that are no longer trusted, and all peers once input is no longer shared, lose
/// their sessions, their addresses and what waits for them; the others keep all of it.
pub proof fn law_untrusted_peers_are_forgotten(e: EndpointState, config: Config, peer: Seq<char>)
    ensures
        ({
            let after = transport::kept(e, config);
            let trusted = config.cursor.enabled && config.peers@.dom().contains(peer);
            &&& after.sessions.dom().contains(peer) <==> trusted && e.sessions.dom().contains(peer)
            &&& after.addresses.dom().contains(peer) <==> trusted && e.addresses.dom().contains(peer)
            &&& after.pending.dom().contains(peer) <==> trusted && e.pending.dom().contains(peer)
            &&& after.sessions.dom().contains(peer) ==> after.sessions[peer] == e.sessions[peer]
            &&& after.addresses.dom().contains(peer) ==> after.addresses[peer] == e.addresses[peer]
            &&& after.pending.dom().contains(peer) ==> after.pending[peer] == e.pending[peer]
            &&& after.handshakes == e.handshakes && after.local_id == e.local_id
        }),
{
}

/// Those that are greeted again are the peers with an address and without a session.
pub proof fn law_peers_without_session_are_greeted_again(
    e: EndpointState,
    peers: Seq<Seq<char>>,
    peer: Seq<char>,
)
    ensures
        transport::without_session(e, peers).contains(peer) <==> peers.contains(peer)
            && !e.sessions.dom().contains(peer),
{
    let wanted = |peer: Seq<char>| !e.sessions.dom().contains(peer);
    let found = peers.filter(wanted);
    if found.contains(peer) {
        let i = found.index_of(peer);
        peers.lemma_filter_pred(wanted, i);
        lemma_filtered_from(peers, wanted, i);
    }
    if peers.contains(peer) && wanted(peer) {
        let i = peers.index_of(peer);
        peers.lemma_filter_contains(wanted, i);
    }
}

proof fn lemma_filtered_from(
    peers: Seq<Seq<char>>,
    wanted: spec_fn(Seq<char>) -> bool,
    i: int,
)
    requires
        0 <= i < peers.filter(wanted).len(),
    ensures
        peers.contains(peers.filter(wanted)[i]),
    decreases peers.len(),
{
    reveal(Seq::filter);
    if peers.len() > 0 {
        let fewer = peers.drop_last();
        let before = fewer.filter(wanted);
        if i < before.len() {
            lemma_filtered_from(fewer, wanted, i);
            let k = fewer.index_of(before[i]);
            assert(peers[k] == before[i]);
        } else {
            assert(peers[peers.len() - 1] == peers.last());
        }
    }
}

/// The tag of a hello covers all of it: two hellos of one peer with the same tag text
/// have the same key, the same nonce, and are both answers or neither.
pub proof fn law_tag_covers_the_hello(
    sender: Seq<char>,
    ephemeral: Seq<u8>,
    nonce: Seq<u8>,
    response: bool,
    other_ephemeral: Seq<u8>,
    other_nonce: Seq<u8>,
    other_response: bool,
)
    requires
        ephemeral.len() == 32,
        other_ephemeral.len() == 32,
        nonce.len() == 16,
        other_nonce.len() == 16,
        packet::hello_text(sender, ephemeral, nonce, response) == packet::hello_text(
            sender,
            other_ephemeral,
            other_nonce,
            other_response,
        ),
    ensures
        ephemeral == other_ephemeral,
        nonce == other_nonce,
        response == other_response,
{
    let a = packet::hello_text(sender, ephemeral, nonce, response);
    let b = packet::hello_text(sender, other_ephemeral, other_nonce, other_response);
    let n = a.len() - 49;
    assert(a.subrange(n, n + 32) =~= ephemeral);
    assert(b.subrange(n, n + 32) =~= other_ephemeral);
    assert(a.subrange(n + 32, n + 48) =~= nonce);
    assert(b.subrange(n + 32, n + 48) =~= other_nonce);
    assert(a[n + 48] == if response {
        1u8
    } else {
        0u8
    });
    assert(b[n + 48] == if other_response {
        1u8
    } else {
        0u8
    });
}

/// The tag of a hello covers who sent it.
pub proof fn law_tag_covers_the_sender(
    sender: Seq<char>,
    other: Seq<char>,
    ephemeral: Seq<u8>,
    nonce: Seq<u8>,
    response: bool,
)
    requires
        packet::hello_text(sender, ephemeral, nonce, response) == packet::hello_text(
            other,
            ephemeral,
            nonce,
            response,
        ),
    ensures
        sender == other,
{
    let a = packet::hello_text(sender, ephemeral, nonce, response);
    let b = packet::hello_text(other, ephemeral, nonce, response);
    let head = text::bytes_of("lan-cat-input-hello-v1"@);
    let tail = (ephemeral.len() + nonce.len() + 1) as int;
    assert(a.subrange(head.len() as int, a.len() - tail) =~= text::bytes_of(sender));
    assert(b.subrange(head.len() as int, b.len() - tail) =~= text::bytes_of(other));
    text::lemma_bytes_injective(sender, other);
}

/// What is authenticated with a datagram names its sender and its sequence number: no
/// two that differ in either are authenticated alike.
pub proof fn law_datagrams_are_told_apart(
    sender: Seq<char>,
    sequence: u64,
    other: Seq<char>,
    number: u64,
)
    requires
        packet::aad_of(sender, sequence) == packet::aad_of(other, number),
    ensures
        sender == other,
        sequence == number,
{
    let a = packet::aad_of(sender, sequence);
    let b = packet::aad_of(other, number);
    let head = text::bytes_of("lan-cat-input-data-v1"@);
    bytes::lemma_spans();
    bytes::lemma_be_len(sequence as nat, 8);
    bytes::lemma_be_len(number as nat, 8);
    bytes::lemma_be_round_trip(sequence as nat, 8);
    bytes::lemma_be_round_trip(number as nat, 8);
    assert(a.skip(a.len() - 8) =~= bytes::be(sequence as nat, 8));
    assert(b.skip(b.len() - 8) =~= bytes::be(number as nat, 8));
    assert(a.subrange(head.len() as int, a.len() - 8) =~= text::bytes_of(sender));
    assert(b.subrange(head.len() as int, b.len() - 8) =~= text::bytes_of(other));
    text::lemma_bytes_injective(sender, other);
}

/// The two directions of a session have keys of their own: they are made of different
/// texts, where both ids have the same length.
pub proof fn law_directions_are_told_apart(a: Seq<char>, b: Seq<char>)
    requires
        a != b,
        text::bytes_of(a).len() == text::bytes_of(b).len(),
    ensures
        packet::direction_text(a, b) != packet::direction_text(b, a),
{
    let one = packet::direction_text(a, b);
    let two = packet::direction_text(b, a);
    let head = text::bytes_of("direction"@).len() as int;
    let n = text::bytes_of(a).len() as int;
    if one == two {
        assert(one.subrange(head, head + n) =~= text::bytes_of(a));
        assert(two.subrange(head, head + n) =~= text::bytes_of(b));
        text::lemma_bytes_injective(a, b);
    }
}

/// The base key of a session is made of both nonces and of the shared secret: sessions
/// that differ in any of them, between the same two ends, have keys made of different
/// texts.
pub proof fn law_sessions_are_told_apart(
    shared: Seq<u8>,
    other_shared: Seq<u8>,
    a: Seq<char>,
    b: Seq<char>,
    a_nonce: Seq<u8>,
    b_nonce: Seq<u8>,
    other_a: Seq<u8>,
    other_b: Seq<u8>,
)
    requires
        shared.len() == 32,
        other_shared.len() == 32,
        a_nonce.len() == 16,
        b_nonce.len() == 16,
        other_a.len() == 16,
        other_b.len() == 16,
        packet::session_text(shared, a, b, a_nonce, b_nonce) == packet::session_text(
            other_shared,
            a,
            b,
            other_a,
            other_b,
        ),
    ensures
        shared == other_shared,
        a_nonce == other_a,
        b_nonce == other_b,
{
    let one = packet::session_text(shared, a, b, a_nonce, b_nonce);
    let two = packet::session_text(other_shared, a, b, other_a, other_b);
    let head = text::bytes_of("lan-cat-input-session-v1"@).len() as int;
    let n = one.len() as int;
    assert(one.subrange(head, head + 32) =~= shared);
    assert(two.subrange(head, head + 32) =~= other_shared);
    if text::text_lt(a, b) {
        assert(one.subrange(n - 32, n - 16) =~= a_nonce);
        assert(two.subrange(n - 32, n - 16) =~= other_a);
        assert(one.skip(n - 16) =~= b_nonce);
        assert(two.skip(n - 16) =~= other_b);
    } else {
        assert(one.subrange(n - 32, n - 16) =~= b_nonce);
        assert(two.subrange(n - 32, n - 16) =~= other_b);
        assert(one.skip(n - 16) =~= a_nonce);
        assert(two.skip(n - 16) =~= other_a);
    }
}

} // verus!
