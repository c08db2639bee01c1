//! The datagram transport of input sharing: who is where, who has a session,
//! and what waits for one.

use vstd::prelude::*;

use crate::config;
use crate::config::{Config, Peer};
use crate::foreign;
use crate::input::packet;
use crate::input::packet::TransportError;
use crate::input::protocol::InputMessage;
use crate::input::window;
use crate::input::window::Window;
use crate::strmap::StrMap;
use crate::text;

verus! {

/// The version of the datagrams.
pub const WIRE_VERSION: u8 = 1;

/// How many messages wait for a session with a peer.
pub const MAX_PENDING_MESSAGES: usize = 32;

/// A message for a peer.
#[derive(Debug, PartialEq, Eq)]
pub struct Outbound {
    pub peer: String,
    pub message: InputMessage,
}

/// A message of a peer.
#[derive(Debug, PartialEq, Eq)]
pub struct Inbound {
    pub peer: String,
    pub message: InputMessage,
}

/// The address of a socket.
#[derive(Clone, Copy, Debug, PartialEq, Eq, Structural)]
pub struct Address {
    pub is_v6: bool,
    pub ip: u128,
    pub port: u16,
    pub flow: u32,
    pub scope: u32,
}

/// A datagram.
#[derive(Debug, PartialEq, Eq)]
pub enum Wire {
    Hello {
        version: u8,
        sender: String,
        ephemeral: [u8; 32],
        nonce: [u8; 16],
        response: bool,
        tag: [u8; 32],
    },
    Data { version: u8, sender: String, sequence: u64, ciphertext: Vec<u8> },
}

/// A session with a peer.
#[derive(Clone, Copy, Debug)]
pub struct Session {
    pub addr: Address,
    pub send_key: [u8; 32],
    pub receive_key: [u8; 32],
    pub send_sequence: u64,
    pub window: Window,
}

/// What a session is.
#[verifier::ext_equal]
pub struct SessionState {
    pub addr: Address,
    pub send_key: Seq<u8>,
    pub receive_key: Seq<u8>,
    pub send_sequence: u64,
    pub window: Window,
}

/// A hello that was answered.
pub struct Handshake {
    pub sender: String,
    pub ephemeral: [u8; 32],
    pub nonce: [u8; 16],
}

/// One end of the transport.
pub struct Endpoint {
    pub local_id: String,
    pub secret: [u8; 32],
    pub public: [u8; 32],
    pub nonce: [u8; 16],
    pub addresses: StrMap<Address>,
    pub sessions: StrMap<Session>,
    pub pending: StrMap<Vec<InputMessage>>,
    pub handshakes: Vec<Handshake>,
}

/// What one end of the transport knows.
#[verifier::ext_equal]
pub struct EndpointState {
    pub local_id: Seq<char>,
    pub secret: Seq<u8>,
    pub public: Seq<u8>,
    pub nonce: Seq<u8>,
    pub addresses: Map<Seq<char>, Address>,
    pub sessions: Map<Seq<char>, SessionState>,
    pub pending: Map<Seq<char>, Seq<InputMessage>>,
    pub handshakes: Set<(Seq<char>, Seq<u8>, Seq<u8>)>,
}

/// A datagram for an address.
#[derive(Debug, PartialEq, Eq)]
pub struct Packet {
    pub wire: Wire,
    pub addr: Address,
    pub copies: u32,
}

/// What came of a datagram.
#[derive(Debug, PartialEq, Eq)]
pub enum Received {
    /// There is a session with the peer; the hello is to be answered, if an
    /// answer is given.
    Session { peer: String, reply: Option<Wire> },
    /// The content of an authentic packet of the peer.
    Content { peer: String, plain: Vec<u8> },
}

/// Where a message for a peer goes.
#[derive(Debug, PartialEq, Eq)]
pub enum Route {
    /// Nowhere: the peer may not share input.
    Nowhere,
    /// Into the session with the peer.
    Session,
    /// It waits, and a hello goes to the peer.
    Hello(Packet),
    /// It waits.
    Wait,
}

impl View for Session {
    type V = SessionState;

    open spec fn view(&self) -> SessionState {
        SessionState {
            addr: self.addr,
            send_key: self.send_key@,
            receive_key: self.receive_key@,
            send_sequence: self.send_sequence,
            window: self.window,
        }
    }
}

impl Handshake {
    pub open spec fn seen(self) -> (Seq<char>, Seq<u8>, Seq<u8>) {
        (self.sender@, self.ephemeral@, self.nonce@)
    }
}

impl View for Endpoint {
    type V = EndpointState;

    open spec fn view(&self) -> EndpointState {
        EndpointState {
            local_id: self.local_id@,
            secret: self.secret@,
            public: self.public@,
            nonce: self.nonce@,
            addresses: self.addresses@,
            sessions: self.sessions@.map_values(|session: Session| session@),
            pending: self.pending@.map_values(|queue: Vec<InputMessage>| queue@),
            handshakes: self.handshakes@.map_values(|known: Handshake| known.seen()).to_set(),
        }
    }
}

/// A session that just began.
pub open spec fn fresh_session(
    addr: Address,
    send_key: Seq<u8>,
    receive_key: Seq<u8>,
) -> SessionState {
    SessionState {
        addr,
        send_key,
        receive_key,
        send_sequence: 0,
        window: Window { highest: 0, bits: 0 },
    }
}

/// The session with a peer once its hello came from an address. A hello that
/// gives the keys the session has keeps the session's counters.
pub open spec fn refreshed(
    session: Option<SessionState>,
    addr: Address,
    send_key: Seq<u8>,
    receive_key: Seq<u8>,
) -> SessionState {
    match session {
        Some(known) => if known.send_key == send_key {
            SessionState { addr, ..known }
        } else {
            fresh_session(addr, send_key, receive_key)
        },
        None => fresh_session(addr, send_key, receive_key),
    }
}

/// The session with a peer, if there is one.
pub open spec fn session_of(e: EndpointState, peer: Seq<char>) -> Option<SessionState> {
    if e.sessions.dom().contains(peer) {
        Some(e.sessions[peer])
    } else {
        None
    }
}

/// The keys of the session that a hello of a peer gives.
pub open spec fn hello_keys(
    e: EndpointState,
    config: Config,
    sender: Seq<char>,
    ephemeral: Seq<u8>,
    nonce: Seq<u8>,
) -> (Seq<u8>, Seq<u8>) {
    packet::keys_of(
        packet::shared_with(config, sender),
        foreign::x25519_product(e.secret, ephemeral),
        e.local_id,
        sender,
        e.nonce,
        nonce,
    )
}

/// What is wrong with a hello, if anything is.
pub open spec fn hello_fault(
    e: EndpointState,
    config: Config,
    addr: Address,
    version: u8,
    sender: Seq<char>,
    ephemeral: Seq<u8>,
    nonce: Seq<u8>,
    response: bool,
    tag: Seq<u8>,
) -> Option<TransportError> {
    let session = session_of(e, sender);
    if version != WIRE_VERSION || !packet::cursor_peer(config, sender) {
        Some(TransportError::UnknownPeer)
    } else if packet::shared_fault(config, sender) is Some {
        packet::shared_fault(config, sender)
    } else if tag != packet::hello_mac(
        packet::shared_with(config, sender),
        sender,
        ephemeral,
        nonce,
        response,
    ) {
        Some(TransportError::HelloAuthentication)
    } else if e.handshakes.contains((sender, ephemeral, nonce)) && session is Some && (
    session->0.send_key != hello_keys(e, config, sender, ephemeral, nonce).0 || session->0.addr
        != addr) {
        Some(TransportError::StaleHandshake)
    } else {
        None
    }
}

/// What an end knows once a hello without fault came in.
pub open spec fn after_hello(
    e: EndpointState,
    config: Config,
    addr: Address,
    sender: Seq<char>,
    ephemeral: Seq<u8>,
    nonce: Seq<u8>,
) -> EndpointState {
    let keys = hello_keys(e, config, sender, ephemeral, nonce);
    EndpointState {
        handshakes: e.handshakes.insert((sender, ephemeral, nonce)),
        sessions: e.sessions.insert(
            sender,
            refreshed(session_of(e, sender), addr, keys.0, keys.1),
        ),
        ..e
    }
}

/// What is wrong with a packet, if anything is.
pub open spec fn data_fault(
    e: EndpointState,
    config: Config,
    addr: Address,
    version: u8,
    sender: Seq<char>,
    sequence: u64,
    ciphertext: Seq<u8>,
) -> Option<TransportError> {
    if version != WIRE_VERSION || !packet::cursor_peer(config, sender) {
        Some(TransportError::UnknownPeer)
    } else {
        match session_of(e, sender) {
            None => Some(TransportError::NoSession),
            Some(session) => if addr != session.addr {
                Some(TransportError::Misrouted)
            } else if packet::content_of(session.receive_key, sender, sequence, ciphertext)
                is None {
                Some(TransportError::Authentication)
            } else if !session.window.accepts(sequence) {
                Some(TransportError::Duplicate)
            } else {
                None
            },
        }
    }
}

/// What an end knows once a packet without fault came in.
pub open spec fn after_data(e: EndpointState, sender: Seq<char>, sequence: u64) -> EndpointState {
    let session = e.sessions[sender];
    EndpointState {
        sessions: e.sessions.insert(
            sender,
            SessionState { window: session.window.offered(sequence), ..session },
        ),
        ..e
    }
}

/// Whether a datagram is the hello of this end to a peer.
pub open spec fn is_hello_to(
    wire: Wire,
    e: EndpointState,
    config: Config,
    peer: Seq<char>,
    response: bool,
) -> bool {
    wire matches Wire::Hello { version, sender, ephemeral, nonce, response: answers, tag }
        && version == WIRE_VERSION && sender@ == e.local_id && ephemeral@ == e.public && nonce@
        == e.nonce && answers == response && tag@ == packet::hello_mac(
        packet::shared_with(config, peer),
        e.local_id,
        e.public,
        e.nonce,
        response,
    )
}

/// The messages that wait for a peer once one more does. Of more than 32, the
/// oldest is dropped.
pub open spec fn queued(waiting: Seq<InputMessage>, message: InputMessage) -> Seq<InputMessage> {
    if waiting.len() == MAX_PENDING_MESSAGES {
        waiting.skip(1).push(message)
    } else {
        waiting.push(message)
    }
}

/// The messages that wait for a peer.
pub open spec fn waiting_for(e: EndpointState, peer: Seq<char>) -> Seq<InputMessage> {
    if e.pending.dom().contains(peer) {
        e.pending[peer]
    } else {
        Seq::empty()
    }
}

/// No more messages than allowed wait for any peer.
pub open spec fn bounded(e: EndpointState) -> bool {
    forall|peer: Seq<char>| #[trigger]
        e.pending.dom().contains(peer) ==> e.pending[peer].len() <= MAX_PENDING_MESSAGES
}

/// Whether a datagram comes in: what this end knows then, and what came of it.
pub open spec fn receives(
    e: EndpointState,
    config: Config,
    addr: Address,
    wire: Wire,
    after: EndpointState,
    result: Result<Received, TransportError>,
) -> bool {
    match wire {
        Wire::Hello { version, sender, ephemeral, nonce, response, tag } => match hello_fault(
            e,
            config,
            addr,
            version,
            sender@,
            ephemeral@,
            nonce@,
            response,
            tag@,
        ) {
            Some(error) => result == Err::<Received, TransportError>(error) && after == e,
            None => {
                &&& after == after_hello(e, config, addr, sender@, ephemeral@, nonce@)
                &&& result matches Ok(Received::Session { peer, reply }) && peer@ == sender@ && (
                match reply {
                    Some(answer) => !response && is_hello_to(answer, after, config, sender@, true),
                    None => response,
                })
            },
        },
        Wire::Data { version, sender, sequence, ciphertext } => match data_fault(
            e,
            config,
            addr,
            version,
            sender@,
            sequence,
            ciphertext@,
        ) {
            Some(error) => result == Err::<Received, TransportError>(error) && after == e,
            None => {
                &&& after == after_data(e, sender@, sequence)
                &&& result matches Ok(Received::Content { peer, plain }) && peer@ == sender@
                    && packet::content_of(
                    e.sessions[sender@].receive_key,
                    sender@,
                    sequence,
                    ciphertext@,
                ) == Some(plain@)
            },
        },
    }
}

/// Whether a peer is found at an address: what this end knows then, and the hello that
/// goes there.
pub open spec fn discovers(
    e: EndpointState,
    config: Config,
    peer: Seq<char>,
    addr: Address,
    after: EndpointState,
    hello: Option<Packet>,
) -> bool {
    let wanted = peer != e.local_id && packet::cursor_peer(config, peer);
    if !wanted {
        hello is None && after == e
    } else if packet::shared_fault(config, peer) is Some {
        hello is None && after == out_of_sight(e, peer)
    } else {
        &&& hello matches Some(out) && out.addr == addr && out.copies == 1 && is_hello_to(
            out.wire,
            e,
            config,
            peer,
            false,
        )
        &&& after == (EndpointState { addresses: e.addresses.insert(peer, addr), ..e })
    }
}

/// What an end knows once a peer has no address any more.
pub open spec fn out_of_sight(e: EndpointState, peer: Seq<char>) -> EndpointState {
    EndpointState { addresses: e.addresses.remove(peer), ..e }
}

/// What an end knows once a peer has neither an address nor a session any more.
pub open spec fn disconnected(e: EndpointState, peer: Seq<char>) -> EndpointState {
    EndpointState {
        addresses: e.addresses.remove(peer),
        sessions: e.sessions.remove(peer),
        ..e
    }
}

/// What an end knows once a message waits for a peer.
pub open spec fn with_pending(
    e: EndpointState,
    peer: Seq<char>,
    message: InputMessage,
) -> EndpointState {
    EndpointState { pending: e.pending.insert(peer, queued(waiting_for(e, peer), message)), ..e }
}

/// Whether a message for a peer goes a route: what this end knows then.
pub open spec fn routes(
    e: EndpointState,
    config: Config,
    peer: Seq<char>,
    message: InputMessage,
    after: EndpointState,
    route: Route,
) -> bool {
    let waits = with_pending(e, peer, message);
    if !packet::cursor_peer(config, peer) {
        route is Nowhere && after == (EndpointState {
            addresses: e.addresses.remove(peer),
            sessions: e.sessions.remove(peer),
            pending: e.pending.remove(peer),
            ..e
        })
    } else if e.sessions.dom().contains(peer) {
        route is Session && after == e
    } else if !e.addresses.dom().contains(peer) {
        route is Wait && after == waits
    } else if packet::shared_fault(config, peer) is Some {
        route is Wait && after == (EndpointState { addresses: e.addresses.remove(peer), ..waits })
    } else {
        &&& route matches Route::Hello(out) && out.addr == e.addresses[peer] && out.copies == 1
            && is_hello_to(out.wire, e, config, peer, false)
        &&& after == waits
    }
}

/// Whether a message is sealed for a peer: what this end knows then, and the datagram.
pub open spec fn seals(
    e: EndpointState,
    peer: Seq<char>,
    message: InputMessage,
    plain: Seq<u8>,
    after: EndpointState,
    result: Result<Packet, TransportError>,
) -> bool {
    match session_of(e, peer) {
        None => {
            &&& result == Err::<Packet, TransportError>(TransportError::NoSession)
            &&& after == e
        },
        Some(session) => if session.send_sequence == u64::MAX {
            &&& result == Err::<Packet, TransportError>(TransportError::Exhausted)
            &&& after == e
        } else {
            let sequence = (session.send_sequence + 1) as u64;
            &&& after == (EndpointState {
                sessions: e.sessions.insert(
                    peer,
                    SessionState { send_sequence: sequence, ..session },
                ),
                ..e
            })
            &&& if !foreign::chacha_fits(plain.len() as int) {
                result == Err::<Packet, TransportError>(TransportError::Encryption)
            } else {
                &&& result matches Ok(out) && out.addr == session.addr && out.copies == (
                if message.is_vital() {
                    3u32
                } else {
                    1u32
                }) && (out.wire matches Wire::Data { version, sender, sequence: number, ciphertext }
                    && version == WIRE_VERSION && sender@ == e.local_id && number == sequence
                    && ciphertext@ == packet::packet_of(
                    session.send_key,
                    e.local_id,
                    sequence,
                    plain,
                ) && packet::content_of(session.send_key, e.local_id, sequence, ciphertext@)
                    == Some(plain))
            }
        },
    }
}

/// Whether what waits for a peer is handed out: what this end knows then.
pub open spec fn flushes(
    e: EndpointState,
    peer: Seq<char>,
    after: EndpointState,
    messages: Seq<InputMessage>,
) -> bool {
    if e.sessions.dom().contains(peer) {
        &&& messages == waiting_for(e, peer)
        &&& after == (EndpointState { pending: e.pending.remove(peer), ..e })
    } else {
        messages.len() == 0 && after == e
    }
}

/// What an end still knows once peers that may not share input are forgotten.
pub open spec fn kept(e: EndpointState, config: Config) -> EndpointState {
    let trusted = if config.cursor.enabled {
        config.peers@.dom()
    } else {
        Set::empty()
    };
    EndpointState {
        addresses: e.addresses.restrict(trusted),
        sessions: e.sessions.restrict(trusted),
        pending: e.pending.restrict(trusted),
        ..e
    }
}

/// The peers of a list with whom there is no session.
pub open spec fn without_session(e: EndpointState, peers: Seq<Seq<char>>) -> Seq<Seq<char>> {
    peers.filter(|peer: Seq<char>| !e.sessions.dom().contains(peer))
}

/// Whether a hello goes to a peer whose address is known: what this end knows then.
pub open spec fn greets(
    e: EndpointState,
    config: Config,
    peer: Seq<char>,
    after: EndpointState,
    hello: Option<Packet>,
) -> bool {
    if !e.addresses.dom().contains(peer) {
        hello is None && after == e
    } else if packet::shared_fault(config, peer) is Some {
        hello is None && after == out_of_sight(e, peer)
    } else {
        &&& hello matches Some(out) && out.addr == e.addresses[peer] && out.copies == 1
            && is_hello_to(out.wire, e, config, peer, false)
        &&& after == e
    }
}

proof fn lemma_insert_view<K, V, W>(map: Map<K, V>, f: spec_fn(V) -> W, key: K, value: V)
    ensures
        map.insert(key, value).map_values(f) == map.map_values(f).insert(key, f(value)),
{
    assert(map.insert(key, value).map_values(f) =~= map.map_values(f).insert(key, f(value)));
}

proof fn lemma_remove_view<K, V, W>(map: Map<K, V>, f: spec_fn(V) -> W, key: K)
    ensures
        map.remove(key).map_values(f) == map.map_values(f).remove(key),
{
    assert(map.remove(key).map_values(f) =~= map.map_values(f).remove(key));
}

proof fn lemma_restrict_view<K, V, W>(map: Map<K, V>, f: spec_fn(V) -> W, keys: Set<K>)
    ensures
        map.restrict(keys).map_values(f) == map.map_values(f).restrict(keys),
{
    assert(map.restrict(keys).map_values(f) =~= map.map_values(f).restrict(keys));
}

proof fn lemma_push_set<A>(all: Seq<A>, one: A)
    ensures
        all.push(one).to_set() == all.to_set().insert(one),
{
    let more = all.push(one);
    assert forall|a: A| more.to_set().contains(a) == all.to_set().insert(one).contains(a) by {
        if all.contains(a) {
            let i = choose|i: int| 0 <= i < all.len() && all[i] == a;
            assert(more[i] == a);
        }
        if a == one {
            assert(more[all.len() as int] == a);
        }
    }
    assert(more.to_set() =~= all.to_set().insert(one));
}

/// The first 16 of 32 bytes.
fn first_half(all: &[u8; 32]) -> (half: [u8; 16])
    ensures
        half@ == all@.take(16),
{
    let mut half: [u8; 16] = [0u8; 16];
    let mut i: usize = 0;
    while i < 16
        invariant
            i <= 16,
            half@.len() == 16,
            all@.len() == 32,
            forall|k: int| 0 <= k < i ==> half@[k] == all@[k],
        decreases 16 - i,
    {
        half[i] = all[i];
        i = i + 1;
    }
    assert(half@ =~= all@.take(16));
    half
}

impl Endpoint {
    /// One end of the transport with keys of its own for this run.
    pub fn new(local_id: String) -> (endpoint: Self)
        ensures
            endpoint@.local_id == local_id@,
            endpoint@.public == foreign::x25519_public(endpoint@.secret),
            endpoint@.addresses == Map::<Seq<char>, Address>::empty(),
            endpoint@.sessions == Map::<Seq<char>, SessionState>::empty(),
            endpoint@.pending == Map::<Seq<char>, Seq<InputMessage>>::empty(),
            endpoint@.handshakes == Set::<(Seq<char>, Seq<u8>, Seq<u8>)>::empty(),
    {
        let secret = foreign::random_bytes();
        let nonce = first_half(&foreign::random_bytes());
        Endpoint::with_keys(local_id, secret, nonce)
    }

    /// One end of the transport with a given secret and nonce.
    pub fn with_keys(local_id: String, secret: [u8; 32], nonce: [u8; 16]) -> (endpoint: Self)
        ensures
            endpoint@ == (EndpointState {
                local_id: local_id@,
                secret: secret@,
                public: foreign::x25519_public(secret@),
                nonce: nonce@,
                addresses: Map::empty(),
                sessions: Map::empty(),
                pending: Map::empty(),
                handshakes: Set::empty(),
            }),
    {
        let base: [u8; 32] = [
            9,
            0,
            0,
            0,
            0,
            0,
            0,
            0,
            0,
            0,
            0,
            0,
            0,
            0,
            0,
            0,
            0,
            0,
            0,
            0,
            0,
            0,
            0,
            0,
            0,
            0,
            0,
            0,
            0,
            0,
            0,
            0,
        ];
        assert(base@ =~= foreign::base_point());
        let public = foreign::x25519(secret, base);
        let endpoint = Endpoint {
            local_id,
            secret,
            public,
            nonce,
            addresses: StrMap::new(),
            sessions: StrMap::new(),
            pending: StrMap::new(),
            handshakes: Vec::new(),
        };
        assert(endpoint@.sessions =~= Map::empty());
        assert(endpoint@.pending =~= Map::empty());
        assert(endpoint@.handshakes =~= Set::empty());
        endpoint
    }

    /// The hello of this end to a peer.
    pub fn hello(&self, config: &Config, peer: &str, response: bool) -> (result: Result<
        Wire,
        TransportError,
    >)
        ensures
            match packet::shared_fault(*config, peer@) {
                Some(error) => result == Err::<Wire, TransportError>(error),
                None => result is Ok && is_hello_to(
                    result->Ok_0,
                    self@,
                    *config,
                    peer@,
                    response,
                ),
            },
    {
        let shared = match packet::static_shared(config, peer) {
            Ok(shared) => shared,
            Err(error) => return Err(error),
        };
        let tag = packet::hello_tag(
            &shared,
            self.local_id.as_str(),
            &self.public,
            &self.nonce,
            response,
        );
        Ok(
            Wire::Hello {
                version: WIRE_VERSION,
                sender: self.local_id.clone(),
                ephemeral: self.public,
                nonce: self.nonce,
                response,
                tag,
            },
        )
    }

    /// The keys of the session that a peer's hello gives: the one to send with
    /// and the one to receive with. The peer, which computes them from its own
    /// secrets and this end's hello, gets the same two the other way round.
    pub fn agree(&self, config: &Config, sender: &str, ephemeral: [u8; 32], nonce: [u8; 16]) -> (
    result: Result<([u8; 32], [u8; 32]), TransportError>)
        ensures
            match packet::shared_fault(*config, sender@) {
                Some(error) => result == Err::<([u8; 32], [u8; 32]), TransportError>(error),
                None => {
                    &&& result is Ok
                    &&& (result->Ok_0.0@, result->Ok_0.1@) == hello_keys(
                        self@,
                        *config,
                        sender@,
                        ephemeral@,
                        nonce@,
                    )
                    &&& forall|private: Seq<u8>, secret: Seq<u8>|
                        private.len() == 32 && secret.len() == 32 && sender@ != self@.local_id
                            && config::key_bytes(config.peers@[sender@].public_key@)
                            == #[trigger] foreign::x25519_public(private) && ephemeral@
                            == #[trigger] foreign::x25519_public(secret) ==> (
                        result->Ok_0.1@,
                        result->Ok_0.0@,
                    ) == packet::keys_of(
                            foreign::x25519_product(
                                private,
                                foreign::x25519_public(config::key_bytes(config.private_key@)),
                            ),
                            foreign::x25519_product(
                                secret,
                                foreign::x25519_public(self@.secret),
                            ),
                            sender@,
                            self@.local_id,
                            nonce@,
                            self@.nonce,
                        )
                },
            },
    {
        let shared = match packet::static_shared(config, sender) {
            Ok(shared) => shared,
            Err(error) => return Err(error),
        };
        let ephemeral_shared = foreign::x25519(self.secret, ephemeral);
        proof {
            if sender@ != self@.local_id {
                packet::law_session_keys_match(
                    shared@,
                    ephemeral_shared@,
                    self@.local_id,
                    sender@,
                    self@.nonce,
                    nonce@,
                );
            }
        }
        Ok(
            packet::session_keys(
                &shared,
                ephemeral_shared,
                self.local_id.as_str(),
                sender,
                &self.nonce,
                &nonce,
            ),
        )
    }

    /// Whether a hello was answered before.
    fn knows(&self, sender: &str, ephemeral: &[u8; 32], nonce: &[u8; 16]) -> (known: bool)
        ensures
            known == self@.handshakes.contains((sender@, ephemeral@, nonce@)),
    {
        let ghost all = self.handshakes@.map_values(|known: Handshake| known.seen());
        let mut i: usize = 0;
        while i < self.handshakes.len()
            invariant
                i <= self.handshakes@.len(),
                all == self.handshakes@.map_values(|known: Handshake| known.seen()),
                forall|j: int| 0 <= j < i ==> #[trigger] all[j] != (sender@, ephemeral@, nonce@),
            decreases self.handshakes@.len() - i,
        {
            let known = &self.handshakes[i];
            if text::str_eq(known.sender.as_str(), sender) && text::bytes_eq(
                known.ephemeral.as_slice(),
                ephemeral.as_slice(),
            ) && text::bytes_eq(known.nonce.as_slice(), nonce.as_slice()) {
                assert(all[i as int] == (sender@, ephemeral@, nonce@));
                return true;
            }
            assert(all[i as int] == self.handshakes@[i as int].seen());
            i = i + 1;
        }
        false
    }

    /// A hello of a peer comes in from an address.
    fn greeted(
        &mut self,
        config: &Config,
        addr: Address,
        version: u8,
        sender: String,
        ephemeral: [u8; 32],
        nonce: [u8; 16],
        response: bool,
        tag: [u8; 32],
    ) -> (result: Result<Received, TransportError>)
        ensures
            match hello_fault(
                old(self)@,
                *config,
                addr,
                version,
                sender@,
                ephemeral@,
                nonce@,
                response,
                tag@,
            ) {
                Some(error) => {
                    &&& result == Err::<Received, TransportError>(error)
                    &&& final(self)@ == old(self)@
                },
                None => {
                    &&& final(self)@ == after_hello(
                        old(self)@,
                        *config,
                        addr,
                        sender@,
                        ephemeral@,
                        nonce@,
                    )
                    &&& result matches Ok(Received::Session { peer, reply }) && peer@ == sender@
                        && (match reply {
                        Some(wire) => !response && is_hello_to(
                            wire,
                            final(self)@,
                            *config,
                            sender@,
                            true,
                        ),
                        None => response,
                    })
                },
            },
    {
        if version != WIRE_VERSION || !packet::is_cursor_peer(config, sender.as_str()) {
            return Err(TransportError::UnknownPeer);
        }
        let shared = match packet::static_shared(config, sender.as_str()) {
            Ok(shared) => shared,
            Err(error) => return Err(error),
        };
        let expected = packet::hello_tag(&shared, sender.as_str(), &ephemeral, &nonce, response);
        if !text::bytes_eq(expected.as_slice(), tag.as_slice()) {
            return Err(TransportError::HelloAuthentication);
        }
        let (send_key, receive_key) = match self.agree(
            config,
            sender.as_str(),
            ephemeral,
            nonce,
        ) {
            Ok(keys) => keys,
            Err(error) => return Err(error),
        };
        let known = self.knows(sender.as_str(), &ephemeral, &nonce);
        let ghost before = self@;
        let next = match self.sessions.get(sender.as_str()) {
            Some(session) => {
                let same = text::bytes_eq(session.send_key.as_slice(), send_key.as_slice());
                if known && (!same || session.addr != addr) {
                    return Err(TransportError::StaleHandshake);
                }
                if same {
                    Session {
                        addr,
                        send_key: session.send_key,
                        receive_key: session.receive_key,
                        send_sequence: session.send_sequence,
                        window: session.window,
                    }
                } else {
                    Session {
                        addr,
                        send_key,
                        receive_key,
                        send_sequence: 0,
                        window: Window { highest: 0, bits: 0 },
                    }
                }
            },
            None => Session {
                addr,
                send_key,
                receive_key,
                send_sequence: 0,
                window: Window { highest: 0, bits: 0 },
            },
        };
        proof {
            lemma_insert_view(
                self.sessions@,
                |session: Session| session@,
                sender@,
                next,
            );
        }
        self.sessions.insert(sender.clone(), next);
        let ghost earlier = self.handshakes@;
        if !known {
            self.handshakes.push(Handshake { sender: sender.clone(), ephemeral, nonce });
        }
        proof {
            let f = |known: Handshake| known.seen();
            let all = earlier.map_values(f);
            let more = self.handshakes@.map_values(f);
            if !known {
                assert(more =~= all.push((sender@, ephemeral@, nonce@)));
                lemma_push_set(all, (sender@, ephemeral@, nonce@));
            }
            assert(self@ =~= after_hello(
                before,
                *config,
                addr,
                sender@,
                ephemeral@,
                nonce@,
            ));
        }
        let reply = if response {
            None
        } else {
            match self.hello(config, sender.as_str(), true) {
                Ok(wire) => Some(wire),
                Err(_) => None,
            }
        };
        Ok(Received::Session { peer: sender, reply })
    }

    /// A packet of a peer comes in from an address.
    fn opened(
        &mut self,
        config: &Config,
        addr: Address,
        version: u8,
        sender: String,
        sequence: u64,
        ciphertext: &[u8],
    ) -> (result: Result<Received, TransportError>)
        ensures
            match data_fault(
                old(self)@,
                *config,
                addr,
                version,
                sender@,
                sequence,
                ciphertext@,
            ) {
                Some(error) => {
                    &&& result == Err::<Received, TransportError>(error)
                    &&& final(self)@ == old(self)@
                },
                None => {
                    &&& final(self)@ == after_data(old(self)@, sender@, sequence)
                    &&& result matches Ok(Received::Content { peer, plain }) && peer@ == sender@
                        && packet::content_of(
                        old(self)@.sessions[sender@].receive_key,
                        sender@,
                        sequence,
                        ciphertext@,
                    ) == Some(plain@)
                },
            },
    {
        if version != WIRE_VERSION || !packet::is_cursor_peer(config, sender.as_str()) {
            return Err(TransportError::UnknownPeer);
        }
        let mut session = match self.sessions.get(sender.as_str()) {
            Some(session) => *session,
            None => return Err(TransportError::NoSession),
        };
        if addr != session.addr {
            return Err(TransportError::Misrouted);
        }
        let plain = match packet::decrypt(
            &session.receive_key,
            sender.as_str(),
            sequence,
            ciphertext,
        ) {
            Ok(plain) => plain,
            Err(error) => return Err(error),
        };
        let mut highest: u64 = session.window.highest;
        let mut bits: u64 = session.window.bits;
        if !window::accept_sequence(&mut highest, &mut bits, sequence) {
            return Err(TransportError::Duplicate);
        }
        session.window = Window { highest, bits };
        proof {
            lemma_insert_view(
                self.sessions@,
                |session: Session| session@,
                sender@,
                session,
            );
        }
        self.sessions.insert(sender.clone(), session);
        Ok(Received::Content { peer: sender, plain })
    }

    /// A datagram comes in from an address.
    pub fn receive(&mut self, config: &Config, addr: Address, wire: Wire) -> (result: Result<
        Received,
        TransportError,
    >)
        ensures
            receives(old(self)@, *config, addr, wire, final(self)@, result),
    {
        match wire {
            Wire::Hello { version, sender, ephemeral, nonce, response, tag } => self.greeted(
                config,
                addr,
                version,
                sender,
                ephemeral,
                nonce,
                response,
                tag,
            ),
            Wire::Data { version, sender, sequence, ciphertext } => self.opened(
                config,
                addr,
                version,
                sender,
                sequence,
                ciphertext.as_slice(),
            ),
        }
    }

    /// A peer was found at an address: this end remembers where it is and has a
    /// hello for it. A peer that may not share input, and this end itself, are
    /// ignored.
    pub fn discovered(&mut self, config: &Config, peer: &str, addr: Address) -> (hello: Option<
        Packet,
    >)
        ensures
            discovers(old(self)@, *config, peer@, addr, final(self)@, hello),
    {
        if text::str_eq(peer, self.local_id.as_str()) || !packet::is_cursor_peer(config, peer) {
            return None;
        }
        match self.hello(config, peer, false) {
            Ok(wire) => {
                self.addresses.insert(peer.to_owned(), addr);
                Some(Packet { wire, addr, copies: 1 })
            },
            Err(_) => {
                let _ = self.addresses.remove(peer);
                None
            },
        }
    }

    /// A hello could not be sent to a peer: this end no longer knows where the
    /// peer is.
    pub fn unreachable(&mut self, peer: &str)
        ensures
            final(self)@ == out_of_sight(old(self)@, peer@),
    {
        let _ = self.addresses.remove(peer);
    }

    /// A packet could not be sent to a peer: there is no session any more, and
    /// this end no longer knows where the peer is.
    pub fn disconnect(&mut self, peer: &str)
        ensures
            final(self)@ == disconnected(old(self)@, peer@),
    {
        proof {
            lemma_remove_view(self.sessions@, |session: Session| session@, peer@);
        }
        let _ = self.sessions.remove(peer);
        let _ = self.addresses.remove(peer);
    }

    /// Puts a message among those that wait for a peer.
    pub fn queue_pending(&mut self, peer: &str, message: InputMessage)
        ensures
            final(self)@ == with_pending(old(self)@, peer@, message),
            bounded(old(self)@) ==> bounded(final(self)@),
    {
        let ghost before = self@;
        let mut queue = match self.pending.remove(peer) {
            Some(queue) => queue,
            None => Vec::new(),
        };
        let ghost waiting = queue@;
        assert(waiting == waiting_for(before, peer@));
        if queue.len() == MAX_PENDING_MESSAGES {
            let _ = queue.remove(0);
            assert(queue@ =~= waiting.skip(1));
        }
        queue.push(message);
        proof {
            lemma_remove_view(
                old(self).pending@,
                |queue: Vec<InputMessage>| queue@,
                peer@,
            );
            lemma_insert_view(
                self.pending@,
                |queue: Vec<InputMessage>| queue@,
                peer@,
                queue,
            );
        }
        self.pending.insert(peer.to_owned(), queue);
        assert(self@.pending =~= before.pending.insert(
            peer@,
            queued(waiting_for(before, peer@), message),
        ));
    }

    /// Decides where a message for a peer goes. One that may not share input is
    /// forgotten; one without a session keeps the message waiting, and gets a
    /// hello where this end knows its address.
    pub fn route(&mut self, config: &Config, peer: &str, message: InputMessage) -> (route: Route)
        ensures
            routes(old(self)@, *config, peer@, message, final(self)@, route),
    {
        let ghost before = self@;
        if !packet::is_cursor_peer(config, peer) {
            self.disconnect(peer);
            proof {
                lemma_remove_view(
                    self.pending@,
                    |queue: Vec<InputMessage>| queue@,
                    peer@,
                );
            }
            let _ = self.pending.remove(peer);
            return Route::Nowhere;
        }
        if self.sessions.contains_key(peer) {
            return Route::Session;
        }
        let known = match self.addresses.get(peer) {
            Some(addr) => Some(*addr),
            None => None,
        };
        let route = match known {
            Some(addr) => match self.hello(config, peer, false) {
                Ok(wire) => Route::Hello(Packet { wire, addr, copies: 1 }),
                Err(_) => {
                    self.unreachable(peer);
                    Route::Wait
                },
            },
            None => Route::Wait,
        };
        self.queue_pending(peer, message);
        route
    }

    /// The packet that takes a message into the session with a peer. `plain` is
    /// the message as it is sent.
    pub fn seal(&mut self, peer: &str, message: InputMessage, plain: &[u8]) -> (result: Result<
        Packet,
        TransportError,
    >)
        ensures
            seals(old(self)@, peer@, message, plain@, final(self)@, result),
    {
        let mut session = match self.sessions.get(peer) {
            Some(session) => *session,
            None => return Err(TransportError::NoSession),
        };
        if session.send_sequence == u64::MAX {
            return Err(TransportError::Exhausted);
        }
        session.send_sequence = session.send_sequence + 1;
        proof {
            lemma_insert_view(
                self.sessions@,
                |session: Session| session@,
                peer@,
                session,
            );
        }
        self.sessions.insert(peer.to_owned(), session);
        match packet::encrypt(
            &session.send_key,
            self.local_id.as_str(),
            session.send_sequence,
            plain,
        ) {
            Ok(ciphertext) => Ok(
                Packet {
                    wire: Wire::Data {
                        version: WIRE_VERSION,
                        sender: self.local_id.clone(),
                        sequence: session.send_sequence,
                        ciphertext,
                    },
                    addr: session.addr,
                    copies: message.copies(),
                },
            ),
            Err(error) => Err(error),
        }
    }

    /// Hands out the messages that wait for a peer, in order, once there is a
    /// session with it. Without a session they go on waiting.
    pub fn flush_pending(&mut self, peer: &str) -> (messages: Vec<InputMessage>)
        ensures
            flushes(old(self)@, peer@, final(self)@, messages@),
    {
        if !self.sessions.contains_key(peer) {
            return Vec::new();
        }
        proof {
            lemma_remove_view(
                self.pending@,
                |queue: Vec<InputMessage>| queue@,
                peer@,
            );
        }
        match self.pending.remove(peer) {
            Some(queue) => queue,
            None => Vec::new(),
        }
    }

    /// Whoever may no longer share input is forgotten.
    fn forget_untrusted(&mut self, config: &Config)
        ensures
            final(self)@ == kept(old(self)@, *config),
    {
        let ghost trusted = if config.cursor.enabled {
            config.peers@.dom()
        } else {
            Set::empty()
        };
        proof {
            lemma_restrict_view(self.sessions@, |session: Session| session@, trusted);
            lemma_restrict_view(
                self.pending@,
                |queue: Vec<InputMessage>| queue@,
                trusted,
            );
        }
        if config.cursor.enabled {
            self.addresses.restrict_to(&config.peers);
            self.sessions.restrict_to(&config.peers);
            self.pending.restrict_to(&config.peers);
        } else {
            let nobody: StrMap<Peer> = StrMap::new();
            assert(nobody@.dom() =~= Set::empty());
            self.addresses.restrict_to(&nobody);
            self.sessions.restrict_to(&nobody);
            self.pending.restrict_to(&nobody);
        }
    }

    /// A second has passed: whoever may no longer share input is forgotten.
    /// Returns the peers whose address is known and that have no session, in
    /// order of their ids; each is to get a hello.
    pub fn tick(&mut self, config: &Config) -> (strangers: Vec<String>)
        ensures
            final(self)@ == kept(old(self)@, *config),
            strangers@.map_values(|peer: String| peer@) == without_session(
                final(self)@,
                final(self).addresses.key_order(),
            ),
    {
        self.forget_untrusted(config);
        let n: usize = self.addresses.len();
        let mut strangers: Vec<String> = Vec::new();
        let mut i: usize = 0;
        let ghost order = self.addresses.key_order();
        let ghost sessions = self@.sessions.dom();
        let ghost alone = |peer: Seq<char>| !sessions.contains(peer);
        proof {
            reveal(Seq::filter);
            assert(order.take(0).filter(alone) =~= Seq::empty());
            assert(strangers@.map_values(|peer: String| peer@) =~= Seq::empty());
        }
        while i < n
            invariant
                i <= n,
                n == order.len(),
                order == self.addresses.key_order(),
                sessions == self@.sessions.dom(),
                alone == (|peer: Seq<char>| !sessions.contains(peer)),
                strangers@.map_values(|peer: String| peer@) == order.take(i as int).filter(alone),
            decreases n - i,
        {
            let peer = self.addresses.key_at(i);
            proof {
                assert(order.take(i + 1).drop_last() =~= order.take(i as int));
                assert(order.take(i + 1).last() == peer@);
                reveal(Seq::filter);
            }
            if !self.sessions.contains_key(peer) {
                let ghost before = strangers@;
                strangers.push(peer.to_owned());
                proof {
                    assert(strangers@.map_values(|peer: String| peer@) =~= before.map_values(
                        |peer: String| peer@,
                    ).push(peer@));
                }
            }
            i = i + 1;
        }
        proof {
            assert(order.take(n as int) =~= order);
        }
        strangers
    }

    /// The hello to a peer whose address is known. Where none can be made, the
    /// address is forgotten.
    pub fn greet(&mut self, config: &Config, peer: &str) -> (hello: Option<Packet>)
        ensures
            greets(old(self)@, *config, peer@, final(self)@, hello),
    {
        let addr = match self.addresses.get(peer) {
            Some(addr) => *addr,
            None => return None,
        };
        match self.hello(config, peer, false) {
            Ok(wire) => Some(Packet { wire, addr, copies: 1 }),
            Err(_) => {
                self.unreachable(peer);
                None
            },
        }
    }
}

/// A packet that one end seals is opened by the other end of the session to
/// what was sealed, once: the second copy is refused.
pub proof fn law_sealed_packet_is_opened_once(
    from: EndpointState,
    to: EndpointState,
    config: Config,
    addr: Address,
    plain: Seq<u8>,
    ciphertext: Seq<u8>,
)
    requires
        session_of(from, to.local_id) is Some,
        session_of(to, from.local_id) is Some,
        // The two ends have the same keys, the receiver trusts the sender and
        // saw nothing of the session yet,
        from.sessions[to.local_id].send_key == to.sessions[from.local_id].receive_key,
        from.sessions[to.local_id].send_sequence < u64::MAX,
        to.sessions[from.local_id].window.highest <= from.sessions[to.local_id].send_sequence,
        packet::cursor_peer(config, from.local_id),
        to.sessions[from.local_id].addr == addr,
        // and the ciphertext is what the sender makes of the content.
        packet::content_of(
            from.sessions[to.local_id].send_key,
            from.local_id,
            (from.sessions[to.local_id].send_sequence + 1) as u64,
            ciphertext,
        ) == Some(plain),
    ensures
        ({
            let sequence = (from.sessions[to.local_id].send_sequence + 1) as u64;
            &&& data_fault(
                to,
                config,
                addr,
                WIRE_VERSION,
                from.local_id,
                sequence,
                ciphertext,
            ) is None
            &&& packet::content_of(
                to.sessions[from.local_id].receive_key,
                from.local_id,
                sequence,
                ciphertext,
            ) == Some(plain)
            &&& data_fault(
                after_data(to, from.local_id, sequence),
                config,
                addr,
                WIRE_VERSION,
                from.local_id,
                sequence,
                ciphertext,
            ) == Some(TransportError::Duplicate)
        }),
{
    let sequence = (from.sessions[to.local_id].send_sequence + 1) as u64;
    let window = to.sessions[from.local_id].window;
    window::law_sequence_is_accepted_once(window, sequence, Seq::empty());
}

/// A device that was unpaired, and every device while input sharing is off, is
/// refused at once.
pub proof fn law_unpaired_peer_is_refused(
    e: EndpointState,
    config: Config,
    addr: Address,
    version: u8,
    sender: Seq<char>,
    ephemeral: Seq<u8>,
    nonce: Seq<u8>,
    response: bool,
    tag: Seq<u8>,
    sequence: u64,
    ciphertext: Seq<u8>,
)
    requires
        !config.cursor.enabled || !config.peers@.dom().contains(sender),
    ensures
        hello_fault(e, config, addr, version, sender, ephemeral, nonce, response, tag) == Some(
            TransportError::UnknownPeer,
        ),
        data_fault(e, config, addr, version, sender, sequence, ciphertext) == Some(
            TransportError::UnknownPeer,
        ),
{
}

} // verus!
