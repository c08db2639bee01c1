//! Portals: which screen edges lead to which peer.

use vstd::prelude::*;

use crate::input::protocol::Edge;
use crate::strmap::StrMap;
use crate::text;

verus! {

/// A set of edges.
#[derive(Clone, Copy, Debug, PartialEq, Eq, Structural)]
pub struct EdgeSet {
    pub left: bool,
    pub right: bool,
    pub top: bool,
    pub bottom: bool,
}

/// For each peer, the edges that lead to it.
pub type PortalEdges = StrMap<EdgeSet>;

impl EdgeSet {
    /// Whether an edge is in the set.
    pub open spec fn has(self, edge: Edge) -> bool {
        match edge {
            Edge::Left => self.left,
            Edge::Right => self.right,
            Edge::Top => self.top,
            Edge::Bottom => self.bottom,
        }
    }

    /// The set with an edge in it or not.
    pub open spec fn with(self, edge: Edge, present: bool) -> EdgeSet {
        match edge {
            Edge::Left => EdgeSet { left: present, ..self },
            Edge::Right => EdgeSet { right: present, ..self },
            Edge::Top => EdgeSet { top: present, ..self },
            Edge::Bottom => EdgeSet { bottom: present, ..self },
        }
    }

    /// Whether no edge is in the set.
    pub open spec fn is_none(self) -> bool {
        forall|edge: Edge| !#[trigger] self.has(edge)
    }

    /// The empty set.
    pub open spec fn nothing() -> EdgeSet {
        EdgeSet { left: false, right: false, top: false, bottom: false }
    }

    /// The empty set.
    pub fn new() -> (set: Self)
        ensures
            set == EdgeSet::nothing(),
            set.is_none(),
    {
        EdgeSet { left: false, right: false, top: false, bottom: false }
    }

    /// Whether an edge is in the set.
    pub fn contains(&self, edge: Edge) -> (found: bool)
        ensures
            found == self.has(edge),
    {
        match edge {
            Edge::Left => self.left,
            Edge::Right => self.right,
            Edge::Top => self.top,
            Edge::Bottom => self.bottom,
        }
    }

    /// Puts an edge into the set or takes it out.
    pub fn set(&mut self, edge: Edge, present: bool)
        ensures
            *final(self) == old(self).with(edge, present),
            forall|other: Edge| #[trigger]
                final(self).has(other) == if other == edge {
                    present
                } else {
                    old(self).has(other)
                },
    {
        match edge {
            Edge::Left => self.left = present,
            Edge::Right => self.right = present,
            Edge::Top => self.top = present,
            Edge::Bottom => self.bottom = present,
        }
    }

    /// Whether no edge is in the set.
    pub fn is_empty(&self) -> (empty: bool)
        ensures
            empty == self.is_none(),
    {
        let empty = !self.left && !self.right && !self.top && !self.bottom;
        proof {
            if !empty {
                assert(self.has(Edge::Left) || self.has(Edge::Right) || self.has(Edge::Top)
                    || self.has(Edge::Bottom));
            }
        }
        empty
    }
}

/// Whether an edge is known to lead to a peer.
pub open spec fn confirmed(
    portals: Map<Seq<char>, EdgeSet>,
    peer: Seq<char>,
    edge: Edge,
) -> bool {
    portals.dom().contains(peer) && portals[peer].has(edge)
}

/// Whether an edge leads to another peer.
pub open spec fn claimed_by_other(
    portals: Map<Seq<char>, EdgeSet>,
    peer: Seq<char>,
    edge: Edge,
) -> bool {
    exists|other: Seq<char>| other != peer && #[trigger] confirmed(portals, other, edge)
}

/// Whether an edge may lead to a peer: it does already, or it leads to no
/// other.
pub open spec fn available(
    portals: Map<Seq<char>, EdgeSet>,
    peer: Seq<char>,
    edge: Edge,
) -> bool {
    confirmed(portals, peer, edge) || !claimed_by_other(portals, peer, edge)
}

/// The portals once an edge leads to a peer.
pub open spec fn bound(
    portals: Map<Seq<char>, EdgeSet>,
    peer: Seq<char>,
    edge: Edge,
) -> Map<Seq<char>, EdgeSet> {
    let edges = if portals.dom().contains(peer) {
        portals[peer]
    } else {
        EdgeSet::nothing()
    };
    portals.insert(peer, edges.with(edge, true))
}

/// The portals once an edge no longer leads to a peer. A peer without edges is
/// dropped.
pub open spec fn forgotten(
    portals: Map<Seq<char>, EdgeSet>,
    peer: Seq<char>,
    edge: Edge,
) -> Map<Seq<char>, EdgeSet> {
    if !portals.dom().contains(peer) {
        portals
    } else if portals[peer].with(edge, false).is_none() {
        portals.remove(peer)
    } else {
        portals.insert(peer, portals[peer].with(edge, false))
    }
}

/// No edge leads to two peers.
pub open spec fn unambiguous(portals: Map<Seq<char>, EdgeSet>) -> bool {
    forall|peer: Seq<char>, other: Seq<char>, edge: Edge|
        #![trigger confirmed(portals, peer, edge), confirmed(portals, other, edge)]
        confirmed(portals, peer, edge) && confirmed(portals, other, edge) ==> peer == other
}

/// Whether an edge is known to lead to a peer.
pub fn portal_edge_confirmed(portals: &PortalEdges, peer: &str, edge: Edge) -> (found: bool)
    ensures
        found == confirmed(portals@, peer@, edge),
{
    match portals.get(peer) {
        Some(edges) => edges.contains(edge),
        None => false,
    }
}

/// Whether an edge may lead to a peer.
pub fn portal_edge_available(portals: &PortalEdges, peer: &str, edge: Edge) -> (free: bool)
    ensures
        free == available(portals@, peer@, edge),
{
    if portal_edge_confirmed(portals, peer, edge) {
        return true;
    }
    let n: usize = portals.len();
    let mut i: usize = 0;
    while i < n
        invariant
            i <= n,
            n == portals.key_order().len(),
            portals.key_order().to_set() == portals@.dom(),
            !confirmed(portals@, peer@, edge),
            forall|j: int|
                0 <= j < i ==> portals.key_order()[j] == peer@ || !confirmed(
                    portals@,
                    #[trigger] portals.key_order()[j],
                    edge,
                ),
        decreases n - i,
    {
        let other = portals.key_at(i);
        let edges = portals.value_at(i);
        proof {
            assert(portals.key_order().to_set().contains(other@));
        }
        if !text::str_eq(other, peer) && edges.contains(edge) {
            assert(confirmed(portals@, other@, edge));
            return false;
        }
        i = i + 1;
    }
    proof {
        if claimed_by_other(portals@, peer@, edge) {
            let other = choose|other: Seq<char>|
                other != peer@ && #[trigger] confirmed(portals@, other, edge);
            assert(portals.key_order().to_set().contains(other));
            let j = choose|j: int| 0 <= j < n && portals.key_order()[j] == other;
            assert(confirmed(portals@, portals.key_order()[j], edge));
        }
    }
    true
}

/// Lets an edge lead to a peer.
pub fn bind_portal_edge(portals: &mut PortalEdges, peer: &str, edge: Edge)
    ensures
        final(portals)@ == bound(old(portals)@, peer@, edge),
{
    let mut edges = match portals.get(peer) {
        Some(edges) => *edges,
        None => EdgeSet::new(),
    };
    edges.set(edge, true);
    portals.insert(peer.to_owned(), edges);
}

/// Lets an edge no longer lead to a peer, and drops the peer with its last
/// edge.
pub fn forget_portal_edge(portals: &mut PortalEdges, peer: &str, edge: Edge)
    ensures
        final(portals)@ == forgotten(old(portals)@, peer@, edge),
{
    let mut edges = match portals.get(peer) {
        Some(edges) => *edges,
        None => return ,
    };
    edges.set(edge, false);
    if edges.is_empty() {
        let _ = portals.remove(peer);
    } else {
        portals.insert(peer.to_owned(), edges);
    }
}

/// Binding an available edge keeps every edge with one peer, and makes the edge
/// lead to the peer.
pub proof fn law_binding_keeps_edges_unambiguous(
    portals: Map<Seq<char>, EdgeSet>,
    peer: Seq<char>,
    edge: Edge,
)
    requires
        unambiguous(portals),
        available(portals, peer, edge),
    ensures
        unambiguous(bound(portals, peer, edge)),
        confirmed(bound(portals, peer, edge), peer, edge),
        forall|other: Seq<char>, side: Edge| #[trigger]
            confirmed(bound(portals, peer, edge), other, side) == (confirmed(portals, other, side)
                || (other == peer && side == edge)),
{
    let after = bound(portals, peer, edge);
    assert forall|other: Seq<char>, side: Edge| #[trigger] confirmed(after, other, side) == (
    confirmed(portals, other, side) || (other == peer && side == edge)) by {
    }
    assert forall|a: Seq<char>, b: Seq<char>, side: Edge|
        #![trigger confirmed(after, a, side), confirmed(after, b, side)]
        confirmed(after, a, side) && confirmed(after, b, side) implies a == b by {
        if side == edge && a != b {
            assert(confirmed(portals, a, side) == confirmed(after, a, side) || a == peer);
            assert(confirmed(portals, b, side) == confirmed(after, b, side) || b == peer);
            if confirmed(portals, peer, edge) {
                assert(confirmed(portals, a, side) && confirmed(portals, b, side));
            }
        } else if side != edge {
            assert(confirmed(portals, a, side) && confirmed(portals, b, side));
        }
    }
}

/// Forgetting an edge takes exactly that edge from that peer.
pub proof fn law_forgetting_takes_one_edge(
    portals: Map<Seq<char>, EdgeSet>,
    peer: Seq<char>,
    edge: Edge,
)
    ensures
        forall|other: Seq<char>, side: Edge| #[trigger]
            confirmed(forgotten(portals, peer, edge), other, side) == (confirmed(
                portals,
                other,
                side,
            ) && !(other == peer && side == edge)),
        unambiguous(portals) ==> unambiguous(forgotten(portals, peer, edge)),
{
    let after = forgotten(portals, peer, edge);
    assert forall|other: Seq<char>, side: Edge| #[trigger] confirmed(after, other, side) == (
    confirmed(portals, other, side) && !(other == peer && side == edge)) by {
        if portals.dom().contains(peer) && other == peer {
            let left = portals[peer].with(edge, false);
            assert(left.has(side) == (portals[peer].has(side) && side != edge));
        }
    }
    if unambiguous(portals) {
        assert forall|a: Seq<char>, b: Seq<char>, side: Edge|
            #![trigger confirmed(after, a, side), confirmed(after, b, side)]
            confirmed(after, a, side) && confirmed(after, b, side) implies a == b by {
            assert(confirmed(portals, a, side) && confirmed(portals, b, side));
        }
    }
}

/// A peer keeps its portals exactly as long as an edge leads to it: with its last edge it
/// is dropped, and the others keep theirs.
pub proof fn law_peers_without_edges_are_dropped(
    portals: Map<Seq<char>, EdgeSet>,
    peer: Seq<char>,
    edge: Edge,
    other: Seq<char>,
)
    requires
        portals.dom().contains(peer),
    ensures
        ({
            let after = forgotten(portals, peer, edge);
            &&& after.dom().contains(peer) <==> exists|side: Edge|
                side != edge && #[trigger] portals[peer].has(side)
            &&& other != peer ==> (after.dom().contains(other) <==> portals.dom().contains(other))
            &&& other != peer && portals.dom().contains(other) ==> after[other] == portals[other]
        }),
{
    let left = portals[peer].with(edge, false);
    assert forall|side: Edge| #[trigger] left.has(side) == (portals[peer].has(side) && side
        != edge) by {
    }
    if exists|side: Edge| side != edge && #[trigger] portals[peer].has(side) {
        let side = choose|side: Edge| side != edge && #[trigger] portals[peer].has(side);
        assert(left.has(side));
    }
    if !left.is_none() {
        let side = choose|side: Edge| #[trigger] left.has(side);
        assert(portals[peer].has(side));
    }
}

/// An edge may lead to a peer exactly if it leads to it already or to nobody else.
pub proof fn law_edges_are_available(
    portals: Map<Seq<char>, EdgeSet>,
    peer: Seq<char>,
    other: Seq<char>,
    edge: Edge,
)
    ensures
        portals.dom().contains(peer) && portals[peer].has(edge) ==> available(portals, peer, edge),
        unambiguous(portals) && other != peer && portals.dom().contains(other)
            && portals[other].has(edge) ==> !available(portals, peer, edge),
        portals.dom() =~= Set::empty() ==> available(portals, peer, edge),
{
    if unambiguous(portals) && other != peer && confirmed(portals, other, edge) {
        assert(claimed_by_other(portals, peer, edge));
        assert(!confirmed(portals, peer, edge));
    }
}

} // verus!
