//! Capturing local input: what the events of the platform mean.

use vstd::prelude::*;

use crate::float::Double;
use crate::input::protocol::{Edge, KeyboardInput, PointerInput};

pub mod linux;
pub mod macos;
pub mod wayland;

verus! {

/// All edges.
pub const ALL_EDGE_MASK: u8 = 0x0f;

/// What was captured.
#[derive(Clone, Copy, Debug, PartialEq, Eq, Structural)]
pub enum CaptureEvent {
    /// The pointer was pushed over an edge.
    Begin { edge: Edge, position: Double, screen_width: Double, screen_height: Double },
    /// The pointer did something while it was captured.
    Pointer(PointerInput),
    /// The keyboard did something while it was captured.
    Keyboard(KeyboardInput),
    /// The device was used while nothing was captured.
    LocalInput,
    /// A key was used while nothing was captured.
    LocalKeyboard(KeyboardInput),
    /// What was captured is captured no more.
    CaptureLost,
}

/// The bit of an edge.
pub open spec fn mask_of(edge: Edge) -> u8 {
    match edge {
        Edge::Left => 1,
        Edge::Right => 2,
        Edge::Top => 4,
        Edge::Bottom => 8,
    }
}

/// Whether a set of edges has an edge in it.
pub open spec fn allows(edges: u8, edge: Edge) -> bool {
    edges & mask_of(edge) != 0
}

/// The bit of an edge.
pub fn edge_mask(edge: Edge) -> (mask: u8)
    ensures
        mask == mask_of(edge),
{
    match edge {
        Edge::Left => 1,
        Edge::Right => 2,
        Edge::Top => 4,
        Edge::Bottom => 8,
    }
}

/// Whether a set of edges has an edge in it.
pub fn is_allowed(edges: u8, edge: Edge) -> (allowed: bool)
    ensures
        allowed == allows(edges, edge),
{
    edges & edge_mask(edge) != 0
}

/// All edges are in the set of all edges, and only one edge is in the set of that
/// edge.
pub proof fn law_edge_sets(edge: Edge, other: Edge)
    ensures
        allows(ALL_EDGE_MASK, edge),
        allows(mask_of(edge), other) <==> edge == other,
        !allows(0, edge),
{
    assert(0x0fu8 & 1 != 0 && 0x0fu8 & 2 != 0 && 0x0fu8 & 4 != 0 && 0x0fu8 & 8 != 0
        && 0u8 & 1 == 0 && 0u8 & 2 == 0 && 0u8 & 4 == 0 && 0u8 & 8 == 0 && 1u8 & 1 != 0 && 1u8 & 2
        == 0 && 1u8 & 4 == 0 && 1u8 & 8 == 0 && 2u8 & 1 == 0 && 2u8 & 2 != 0 && 2u8 & 4 == 0 && 2u8
        & 8 == 0 && 4u8 & 1 == 0 && 4u8 & 2 == 0 && 4u8 & 4 != 0 && 4u8 & 8 == 0 && 8u8 & 1 == 0
        && 8u8 & 2 == 0 && 8u8 & 4 == 0 && 8u8 & 8 != 0) by (bit_vector);
}

/// Whether a motion goes out over an edge.
pub open spec fn goes_out(edge: Edge, dx: Double, dy: Double) -> bool {
    match edge {
        Edge::Left => !dx.is_nan() && dx.rank() < 0,
        Edge::Right => dx.is_positive(),
        Edge::Top => !dy.is_nan() && dy.rank() < 0,
        Edge::Bottom => dy.is_positive(),
    }
}

/// Whether a motion goes out over an edge.
pub fn is_outward(edge: Edge, dx: Double, dy: Double) -> (outward: bool)
    ensures
        outward == goes_out(edge, dx, dy),
{
    match edge {
        Edge::Left => dx.negated().positive(),
        Edge::Right => dx.positive(),
        Edge::Top => dy.negated().positive(),
        Edge::Bottom => dy.positive(),
    }
}

/// A motion goes out over at most one of two opposite edges; the motion back goes out over
/// the other. Left and up are where the coordinates fall.
pub proof fn law_motions_go_out_one_way(edge: Edge, dx: Double, dy: Double)
    requires
        !dx.is_nan(),
        !dy.is_nan(),
    ensures
        !(goes_out(edge, dx, dy) && goes_out(edge.across(), dx, dy)),
        goes_out(edge, dx, dy) <==> goes_out(edge.across(), dx.opposite(), dy.opposite()),
        goes_out(Edge::Left, dx, dy) <==> dx.rank() < 0,
        goes_out(Edge::Right, dx, dy) <==> dx.rank() > 0,
        goes_out(Edge::Top, dx, dy) <==> dy.rank() < 0,
        goes_out(Edge::Bottom, dx, dy) <==> dy.rank() > 0,
{
}

/// A motion that is no number goes nowhere.
pub proof fn law_no_number_goes_out(edge: Edge, dx: Double, dy: Double)
    requires
        dx.is_nan(),
        dy.is_nan(),
    ensures
        !goes_out(edge, dx, dy),
{
}

} // verus!
