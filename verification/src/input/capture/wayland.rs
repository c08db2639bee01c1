//! Capturing input from a Wayland compositor, over thin surfaces along the edges
//! of the screen.

use vstd::prelude::*;

use crate::float::Double;
use crate::input::capture;
use crate::input::capture::CaptureEvent;
use crate::input::protocol::{Edge, InputError, KeyboardInput, PointerInput};

verus! {

/// How thick the surface along an edge is.
pub const EDGE_THICKNESS: u32 = 2;

/// How many bytes there are for what the surfaces show.
pub const POOL_BYTES: usize = 524_288;

/// Where the coordinates of a virtual pointer end.
pub const EXTENT: u32 = 65_535;

/// How far from its edge the pointer enters, in those coordinates.
pub const INSET: u32 = 64;

/// The surface along an edge.
#[derive(Clone, Copy, Debug, PartialEq, Eq, Structural)]
pub struct EdgeLayer {
    pub edge: Edge,
    pub width: u32,
    pub height: u32,
    pub configured: bool,
}

/// Whether an edge runs from top to bottom.
pub open spec fn is_upright(edge: Edge) -> bool {
    edge == Edge::Left || edge == Edge::Right
}

/// At least one.
pub open spec fn at_least_one(value: u32) -> u32 {
    if value == 0 {
        1
    } else {
        value
    }
}

/// The size of the surface along an edge, in the room that the compositor gives it.
pub open spec fn size_of_layer(edge: Edge, width: u32, height: u32) -> (u32, u32) {
    if is_upright(edge) {
        (EDGE_THICKNESS, at_least_one(height))
    } else {
        (at_least_one(width), EDGE_THICKNESS)
    }
}

/// How long an edge is, in the surface's units.
pub open spec fn length_of(edge: Edge, width: u32, height: u32) -> u32 {
    at_least_one(
        if is_upright(edge) {
            height
        } else {
            width
        },
    )
}

/// How far along an edge a place on its surface is.
pub open spec fn place_along(edge: Edge, x: Double, y: Double) -> Double {
    if is_upright(edge) {
        y
    } else {
        x
    }
}

/// How many bytes the picture of a surface takes, if there is room for it and anything to
/// show.
pub open spec fn room_for(width: u32, height: u32) -> Option<int> {
    if width * height * 4 == 0 || width * height * 4 > POOL_BYTES {
        None
    } else {
        Some(width * height * 4)
    }
}

/// The size of the screen, as far as the surfaces along its edges show it.
pub open spec fn size_of_screen(layers: Seq<EdgeLayer>) -> (u32, u32) {
    (
        if longest(layers, false) > 0 {
            longest(layers, false)
        } else {
            1920
        },
        if longest(layers, true) > 0 {
            longest(layers, true)
        } else {
            1080
        },
    )
}

/// Where the virtual pointer enters over an edge.
pub open spec fn entry_at(edge: Edge, along: u32) -> (u32, u32) {
    match edge {
        Edge::Left => (INSET, along),
        Edge::Right => ((EXTENT - INSET) as u32, along),
        Edge::Top => (along, INSET),
        Edge::Bottom => (along, (EXTENT - INSET) as u32),
    }
}

/// The direction of a scroll event.
pub open spec fn axis_of(axis: u8) -> Result<Axis, InputError> {
    if axis == 0 {
        Ok(Axis::Vertical)
    } else if axis == 1 {
        Ok(Axis::Horizontal)
    } else {
        Err(InputError::InvalidAxis)
    }
}

/// The size of the surface along an edge, in the room that the compositor gives
/// it.
pub fn layer_size(edge: Edge, width: u32, height: u32) -> (size: (u32, u32))
    ensures
        size == size_of_layer(edge, width, height),
{
    match edge {
        Edge::Left | Edge::Right => (
            EDGE_THICKNESS,
            if height == 0 {
                1
            } else {
                height
            },
        ),
        Edge::Top | Edge::Bottom => (
            if width == 0 {
                1
            } else {
                width
            },
            EDGE_THICKNESS,
        ),
    }
}

/// How long an edge is, in the surface's units.
pub fn span(edge: Edge, width: u32, height: u32) -> (length: u32)
    ensures
        length == length_of(edge, width, height),
{
    let length: u32 = match edge {
        Edge::Left | Edge::Right => height,
        Edge::Top | Edge::Bottom => width,
    };
    if length == 0 {
        1
    } else {
        length
    }
}

/// How far along an edge a place on its surface is.
pub fn along(edge: Edge, x: Double, y: Double) -> (place: Double)
    ensures
        place == place_along(edge, x, y),
{
    match edge {
        Edge::Left | Edge::Right => y,
        Edge::Top | Edge::Bottom => x,
    }
}

/// How many bytes the picture of a surface takes, if there is room for it and
/// anything to show.
pub fn picture_bytes(width: u32, height: u32) -> (size: Option<usize>)
    ensures
        match size {
            Some(size) => room_for(width, height) == Some(size as int),
            None => room_for(width, height) is None,
        },
{
    assert(0 <= width * height <= 0xffff_ffff * 0xffff_ffff) by (nonlinear_arith)
        requires
            0 <= width <= 0xffff_ffff,
            0 <= height <= 0xffff_ffff,
    ;
    let bytes: u128 = width as u128 * height as u128 * 4;
    if bytes == 0 || bytes > POOL_BYTES as u128 {
        return None;
    }
    Some(bytes as usize)
}

/// The longest of the edges of one direction that have a size.
pub open spec fn longest(layers: Seq<EdgeLayer>, upright: bool) -> u32
    decreases layers.len(),
{
    if layers.len() == 0 {
        0
    } else {
        let layer = layers.last();
        let rest = longest(layers.drop_last(), upright);
        let length = if upright {
            layer.height
        } else {
            layer.width
        };
        if layer.configured && is_upright(layer.edge) == upright && length > rest {
            length
        } else {
            rest
        }
    }
}

/// The size of the screen, as far as the surfaces along its edges show it; else
/// 1920 by 1080.
pub fn screen_size(layers: &Vec<EdgeLayer>) -> (size: (u32, u32))
    ensures
        size == size_of_screen(layers@),
{
    let mut width: u32 = 0;
    let mut height: u32 = 0;
    let mut i: usize = 0;
    assert(layers@.take(0) =~= Seq::empty());
    while i < layers.len()
        invariant
            i <= layers@.len(),
            width == longest(layers@.take(i as int), false),
            height == longest(layers@.take(i as int), true),
        decreases layers@.len() - i,
    {
        assert(layers@.take(i + 1).drop_last() =~= layers@.take(i as int));
        let layer = layers[i];
        if layer.configured {
            match layer.edge {
                Edge::Left | Edge::Right => {
                    if layer.height > height {
                        height = layer.height;
                    }
                },
                Edge::Top | Edge::Bottom => {
                    if layer.width > width {
                        width = layer.width;
                    }
                },
            }
        }
        i = i + 1;
    }
    assert(layers@.take(i as int) =~= layers@);
    (
        if width > 0 {
            width
        } else {
            1920
        },
        if height > 0 {
            height
        } else {
            1080
        },
    )
}

/// Where the virtual pointer enters over an edge.
pub fn entry_point(edge: Edge, along: u32) -> (point: (u32, u32))
    ensures
        point == entry_at(edge, along),
{
    match edge {
        Edge::Left => (INSET, along),
        Edge::Right => (EXTENT - INSET, along),
        Edge::Top => (along, INSET),
        Edge::Bottom => (along, EXTENT - INSET),
    }
}

/// A direction of scrolling.
#[derive(Clone, Copy, Debug, PartialEq, Eq, Structural)]
pub enum Axis {
    Vertical,
    Horizontal,
}

/// The direction of a scroll event.
pub fn scroll_axis(axis: u8) -> (result: Result<Axis, InputError>)
    ensures
        result == axis_of(axis),
{
    if axis == 0 {
        Ok(Axis::Vertical)
    } else if axis == 1 {
        Ok(Axis::Horizontal)
    } else {
        Err(InputError::InvalidAxis)
    }
}

/// How far one direction was scrolled.
#[derive(Clone, Copy, Debug, PartialEq, Eq, Structural)]
pub struct Scroll {
    pub absolute: Double,
    pub discrete: i32,
}

/// What scrolling in one direction means.
pub open spec fn scrolled(axis: u8, scroll: Option<Scroll>) -> Seq<PointerInput> {
    match scroll {
        None => Seq::empty(),
        Some(scroll) => seq![PointerInput::Axis { axis, value: scroll.absolute }] + (
        if scroll.discrete != 0 {
            seq![PointerInput::AxisDiscrete120 { axis, value: (scroll.discrete * 120) as i32 }]
        } else {
            Seq::empty()
        }),
    }
}

/// Whether the steps of a scroll can be counted in parts of 120.
pub open spec fn is_countable(scroll: Option<Scroll>) -> bool {
    scroll matches Some(scroll) ==> i32::MIN <= scroll.discrete * 120 <= i32::MAX
}

/// What the pointer does on the surfaces along the edges.
#[derive(Clone, Copy, Debug, PartialEq, Eq, Structural)]
pub struct EdgeWatch {
    /// The edge that the pointer is on.
    pub hovered: Option<Edge>,
    /// The serial number of its arrival.
    pub serial: Option<u32>,
    /// How far along the edge it is, from zero to one.
    pub position: Double,
    /// The edge over which it is captured.
    pub current: Option<Edge>,
}

impl EdgeWatch {
    /// The pointer is on no edge.
    pub open spec fn nowhere(middle: Double) -> EdgeWatch {
        EdgeWatch { hovered: None, serial: None, position: middle, current: None }
    }

    /// The pointer came to a surface.
    pub open spec fn entered(self, serial: u32, place: Option<(Edge, Double)>) -> EdgeWatch {
        EdgeWatch { serial: Some(serial), ..self.moved_to(place) }
    }

    /// The pointer left a surface.
    pub open spec fn departed(self) -> EdgeWatch {
        EdgeWatch {
            serial: None,
            hovered: if self.current is None {
                None
            } else {
                self.hovered
            },
            ..self
        }
    }

    /// What a button means.
    pub open spec fn clicked(self, button: u32, state: u32) -> Option<PointerInput> {
        if self.current is Some {
            Some(PointerInput::Button { button, state })
        } else {
            None
        }
    }

    /// What turning the wheel means.
    pub open spec fn turned(
        self,
        vertical: Option<Scroll>,
        horizontal: Option<Scroll>,
    ) -> Seq<PointerInput> {
        if self.current is Some {
            scrolled(0, vertical) + scrolled(1, horizontal)
        } else {
            Seq::empty()
        }
    }

    /// What a key means.
    pub open spec fn typed(self, key: u32, state: Option<u32>) -> Option<KeyboardInput> {
        match state {
            Some(state) => if self.current is Some {
                Some(KeyboardInput { key, state })
            } else {
                None
            },
            None => None,
        }
    }

    /// The edge over which a motion takes the pointer, among those that are allowed.
    pub open spec fn taken_over(self, dx: Double, dy: Double, allowed: u8) -> Option<Edge> {
        match self.pushed(dx, dy) {
            Some(edge) => if capture::allows(allowed, edge) {
                Some(edge)
            } else {
                None
            },
            None => None,
        }
    }

    /// The pointer is captured over an edge: what is known then, and what is reported.
    pub open spec fn begun(
        self,
        edge: Edge,
        screen_width: Double,
        screen_height: Double,
    ) -> (EdgeWatch, CaptureEvent) {
        (
            EdgeWatch { current: Some(edge), ..self },
            CaptureEvent::Begin { edge, position: self.position, screen_width, screen_height },
        )
    }

    /// What a motion means.
    pub open spec fn travelled(self, dx: Double, dy: Double) -> Option<PointerInput> {
        if self.current is Some {
            Some(PointerInput::Motion { dx, dy })
        } else {
            None
        }
    }

    /// The pointer is let go, if it should not be captured any more: what is known then,
    /// and the edge over which it was captured.
    pub open spec fn synced(self, active: bool) -> (EdgeWatch, Option<Edge>) {
        if active {
            (self, None)
        } else {
            (EdgeWatch { current: None, ..self }, self.current)
        }
    }

    /// The pointer is on no edge.
    pub fn new(middle: Double) -> (watch: Self)
        ensures
            watch == EdgeWatch::nowhere(middle),
    {
        EdgeWatch { hovered: None, serial: None, position: middle, current: None }
    }

    /// The pointer is at a place on an edge, some part of its length along it.
    pub open spec fn moved_to(self, place: Option<(Edge, Double)>) -> EdgeWatch {
        match place {
            Some((edge, part)) => EdgeWatch {
                hovered: Some(edge),
                position: part.held_in_unit(),
                ..self
            },
            None => self,
        }
    }

    /// The pointer came to a surface.
    pub fn enter(&mut self, serial: u32, place: Option<(Edge, Double)>)
        ensures
            *final(self) == old(self).entered(serial, place),
    {
        self.serial = Some(serial);
        self.motion(place);
    }

    /// The pointer moved on a surface.
    pub fn motion(&mut self, place: Option<(Edge, Double)>)
        ensures
            *final(self) == old(self).moved_to(place),
    {
        if let Some((edge, part)) = place {
            self.hovered = Some(edge);
            self.position = part.clamp_unit();
        }
    }

    /// The pointer left a surface.
    pub fn leave(&mut self)
        ensures
            *final(self) == old(self).departed(),
    {
        self.serial = None;
        if self.current.is_none() {
            self.hovered = None;
        }
    }

    /// A button went down or up.
    pub fn button(&self, button: u32, state: u32) -> (input: Option<PointerInput>)
        ensures
            input == self.clicked(button, state),
    {
        if self.current.is_some() {
            Some(PointerInput::Button { button, state })
        } else {
            None
        }
    }

    /// The wheel was turned.
    pub fn axis(&self, vertical: Option<Scroll>, horizontal: Option<Scroll>) -> (inputs: Vec<
        PointerInput,
    >)
        requires
            is_countable(vertical),
            is_countable(horizontal),
        ensures
            inputs@ == self.turned(vertical, horizontal),
    {
        let mut inputs: Vec<PointerInput> = Vec::new();
        if self.current.is_some() {
            add_scroll(&mut inputs, 0, vertical);
            add_scroll(&mut inputs, 1, horizontal);
        }
        inputs
    }

    /// A key went down or up. A state that is neither is left out.
    pub fn key(&self, key: u32, state: Option<u32>) -> (input: Option<KeyboardInput>)
        ensures
            input == self.typed(key, state),
    {
        if self.current.is_none() {
            return None;
        }
        match state {
            Some(state) => Some(KeyboardInput { key, state }),
            None => None,
        }
    }

    /// The edge over which a motion would take the pointer: the one that it is
    /// on, if nothing is captured and the motion goes out over it.
    pub open spec fn pushed(self, dx: Double, dy: Double) -> Option<Edge> {
        match self.hovered {
            Some(edge) => if self.current is None && capture::goes_out(edge, dx, dy) {
                Some(edge)
            } else {
                None
            },
            None => None,
        }
    }

    /// The edge over which a motion takes the pointer, among those that are
    /// allowed.
    pub fn push(&self, dx: Double, dy: Double, allowed: u8) -> (edge: Option<Edge>)
        ensures
            edge == self.taken_over(dx, dy, allowed),
    {
        if self.current.is_some() {
            return None;
        }
        match self.hovered {
            Some(edge) => if capture::is_outward(edge, dx, dy) && capture::is_allowed(
                allowed,
                edge,
            ) {
                Some(edge)
            } else {
                None
            },
            None => None,
        }
    }

    /// The pointer is captured over an edge.
    pub fn begin(&mut self, edge: Edge, screen_width: Double, screen_height: Double) -> (event:
        CaptureEvent)
        ensures
            (*final(self), event) == old(self).begun(edge, screen_width, screen_height),
    {
        self.current = Some(edge);
        CaptureEvent::Begin { edge, position: self.position, screen_width, screen_height }
    }

    /// The motion of a captured pointer.
    pub fn travel(&self, dx: Double, dy: Double) -> (input: Option<PointerInput>)
        ensures
            input == self.travelled(dx, dy),
    {
        if self.current.is_some() {
            Some(PointerInput::Motion { dx, dy })
        } else {
            None
        }
    }

    /// Lets the pointer go when it should not be captured any more, and says
    /// over which edge it was.
    pub fn sync_release(&mut self, active: bool) -> (edge: Option<Edge>)
        ensures
            (*final(self), edge) == old(self).synced(active),
    {
        if active {
            return None;
        }
        let edge = self.current;
        self.current = None;
        edge
    }
}

/// Adds what scrolling in one direction means.
fn add_scroll(inputs: &mut Vec<PointerInput>, axis: u8, scroll: Option<Scroll>)
    requires
        is_countable(scroll),
    ensures
        final(inputs)@ == old(inputs)@ + scrolled(axis, scroll),
{
    let ghost before = inputs@;
    if let Some(scroll) = scroll {
        inputs.push(PointerInput::Axis { axis, value: scroll.absolute });
        if scroll.discrete != 0 {
            inputs.push(PointerInput::AxisDiscrete120 { axis, value: scroll.discrete * 120 });
        }
    }
    assert(inputs@ =~= before + scrolled(axis, scroll));
}

/// The surface along an edge is two units thick and as long as the edge, at least one unit;
/// a place on it is as far along the edge as it is along the surface.
pub proof fn law_surfaces_lie_along_their_edges(
    edge: Edge,
    width: u32,
    height: u32,
    x: Double,
    y: Double,
)
    ensures
        ({
            let size = size_of_layer(edge, width, height);
            let upright = edge == Edge::Left || edge == Edge::Right;
            &&& upright ==> size.0 == 2 && size.1 == length_of(edge, width, height)
            &&& !upright ==> size.1 == 2 && size.0 == length_of(edge, width, height)
            &&& upright && height > 0 ==> length_of(edge, width, height) == height
            &&& !upright && width > 0 ==> length_of(edge, width, height) == width
            &&& length_of(edge, width, height) >= 1
            &&& upright ==> place_along(edge, x, y) == y
            &&& !upright ==> place_along(edge, x, y) == x
        }),
{
}

/// A picture takes four bytes a point, and there is room for up to half a mebibyte; an
/// empty one has none.
pub proof fn law_pictures_need_room(width: u32, height: u32)
    ensures
        0 < width * height * 4 <= 524_288 ==> room_for(width, height) == Some(width * height * 4),
        width * height * 4 > 524_288 ==> room_for(width, height) is None,
        width == 0 || height == 0 ==> room_for(width, height) is None,
{
    if width == 0 || height == 0 {
        assert(width * height == 0) by (nonlinear_arith)
            requires
                width == 0 || height == 0,
        ;
    }
}

proof fn lemma_longest(layers: Seq<EdgeLayer>, upright: bool)
    ensures
        forall|i: int|
            0 <= i < layers.len() && (#[trigger] layers[i]).configured && is_upright(layers[i].edge)
                == upright ==> longest(layers, upright) >= if upright {
                layers[i].height
            } else {
                layers[i].width
            },
        longest(layers, upright) == 0 || exists|i: int|
            0 <= i < layers.len() && (#[trigger] layers[i]).configured && is_upright(layers[i].edge)
                == upright && longest(layers, upright) == if upright {
                layers[i].height
            } else {
                layers[i].width
            },
    decreases layers.len(),
{
    if layers.len() > 0 {
        let fewer = layers.drop_last();
        lemma_longest(fewer, upright);
        assert forall|i: int|
            0 <= i < layers.len() && (#[trigger] layers[i]).configured && is_upright(layers[i].edge)
                == upright implies longest(layers, upright) >= if upright {
            layers[i].height
        } else {
            layers[i].width
        } by {
            if i < fewer.len() {
                assert(fewer[i] == layers[i]);
            }
        }
        if longest(layers, upright) == longest(fewer, upright) {
            if longest(fewer, upright) != 0 {
                let i = choose|i: int|
                    0 <= i < fewer.len() && (#[trigger] fewer[i]).configured && is_upright(
                        fewer[i].edge,
                    ) == upright && longest(fewer, upright) == if upright {
                        fewer[i].height
                    } else {
                        fewer[i].width
                    };
                assert(layers[i] == fewer[i]);
            }
        } else {
            assert(layers[layers.len() - 1] == layers.last());
        }
    }
}

/// The screen is as wide as the longest of the surfaces along its top and bottom, and as
/// high as the longest of those along its sides, of those that have a size; it is 1920 wide
/// and 1080 high where none shows it.
pub proof fn law_screen_is_as_large_as_its_edges(layers: Seq<EdgeLayer>, i: int)
    requires
        0 <= i < layers.len(),
        layers[i].configured,
    ensures
        ({
            let size = size_of_screen(layers);
            &&& (layers[i].edge == Edge::Top || layers[i].edge == Edge::Bottom) && layers[i].width
                > 0 ==> size.0 >= layers[i].width
            &&& (layers[i].edge == Edge::Left || layers[i].edge == Edge::Right) && layers[i].height
                > 0 ==> size.1 >= layers[i].height
            &&& size.0 == 1920 || exists|j: int|
                0 <= j < layers.len() && (#[trigger] layers[j]).configured && layers[j].width
                    == size.0
            &&& size.1 == 1080 || exists|j: int|
                0 <= j < layers.len() && (#[trigger] layers[j]).configured && layers[j].height
                    == size.1
        }),
        size_of_screen(Seq::empty()) == (1920u32, 1080u32),
{
    lemma_longest(layers, true);
    lemma_longest(layers, false);
}

/// The pointer enters 64 of 65535 parts inside the screen, from the edge that it enters by,
/// as far along the edge as it was.
pub proof fn law_pointer_enters_inside_its_edge(edge: Edge, along: u32)
    ensures
        edge == Edge::Left ==> entry_at(edge, along) == (64u32, along),
        edge == Edge::Right ==> entry_at(edge, along) == (65_471u32, along),
        edge == Edge::Top ==> entry_at(edge, along) == (along, 64u32),
        edge == Edge::Bottom ==> entry_at(edge, along) == (along, 65_471u32),
{
}

/// The first direction of scrolling is the vertical one and the second the horizontal one,
/// and there is no third.
pub proof fn law_directions_of_scrolling(axis: u8)
    ensures
        axis_of(0) == Ok::<Axis, InputError>(Axis::Vertical),
        axis_of(1) == Ok::<Axis, InputError>(Axis::Horizontal),
        axis > 1 ==> axis_of(axis) == Err::<Axis, InputError>(InputError::InvalidAxis),
{
}

/// A captured wheel reports how far it was turned, vertically first, and where it was turned
/// in steps also how many 120ths of a step; a wheel that is not captured reports nothing.
pub proof fn law_captured_wheel_is_reported(
    watch: EdgeWatch,
    vertical: Option<Scroll>,
    horizontal: Option<Scroll>,
)
    requires
        is_countable(vertical),
        is_countable(horizontal),
    ensures
        watch.current is None ==> watch.turned(vertical, horizontal).len() == 0,
        watch.current is Some && vertical is Some && horizontal is None && vertical->0.discrete == 0
            ==> watch.turned(vertical, horizontal) == seq![
            PointerInput::Axis { axis: 0, value: vertical->0.absolute },
        ],
        watch.current is Some && vertical is Some && horizontal is None && vertical->0.discrete != 0
            ==> watch.turned(vertical, horizontal) == seq![
            PointerInput::Axis { axis: 0, value: vertical->0.absolute },
            PointerInput::AxisDiscrete120 { axis: 0, value: (vertical->0.discrete * 120) as i32 },
        ],
        watch.current is Some && vertical is None && horizontal is Some && horizontal->0.discrete
            == 0 ==> watch.turned(vertical, horizontal) == seq![
            PointerInput::Axis { axis: 1, value: horizontal->0.absolute },
        ],
        watch.current is Some && vertical is None && horizontal is Some && horizontal->0.discrete
            != 0 ==> watch.turned(vertical, horizontal) == seq![
            PointerInput::Axis { axis: 1, value: horizontal->0.absolute },
            PointerInput::AxisDiscrete120 { axis: 1, value: (horizontal->0.discrete * 120) as i32 },
        ],
        watch.current is Some && vertical is Some && horizontal is Some ==> watch.turned(
            vertical,
            horizontal,
        ) == watch.turned(vertical, None) + watch.turned(None, horizontal),
{
    if watch.current is Some {
        let all = watch.turned(vertical, horizontal);
        assert(all =~= scrolled(0, vertical) + scrolled(1, horizontal));
        assert(watch.turned(vertical, None) =~= scrolled(0, vertical));
        assert(watch.turned(None, horizontal) =~= scrolled(1, horizontal));
        if vertical is Some && horizontal is None {
            assert(all =~= scrolled(0, vertical));
            if vertical->0.discrete == 0 {
                assert(all =~= seq![PointerInput::Axis { axis: 0, value: vertical->0.absolute }]);
            } else {
                assert(all =~= seq![
                    PointerInput::Axis { axis: 0, value: vertical->0.absolute },
                    PointerInput::AxisDiscrete120 {
                        axis: 0,
                        value: (vertical->0.discrete * 120) as i32,
                    },
                ]);
            }
        }
        if vertical is None && horizontal is Some {
            assert(all =~= scrolled(1, horizontal));
            if horizontal->0.discrete == 0 {
                assert(all =~= seq![PointerInput::Axis { axis: 1, value: horizontal->0.absolute }]);
            } else {
                assert(all =~= seq![
                    PointerInput::Axis { axis: 1, value: horizontal->0.absolute },
                    PointerInput::AxisDiscrete120 {
                        axis: 1,
                        value: (horizontal->0.discrete * 120) as i32,
                    },
                ]);
            }
        }
    }
}

/// While the pointer is captured, every motion, button and key is reported as it is; while
/// it is not, none is.
pub proof fn law_captured_pointer_is_reported(
    watch: EdgeWatch,
    dx: Double,
    dy: Double,
    button: u32,
    state: u32,
    key: u32,
)
    ensures
        watch.current is Some ==> watch.travelled(dx, dy) == Some(PointerInput::Motion { dx, dy })
            && watch.clicked(button, state) == Some(PointerInput::Button { button, state })
            && watch.typed(key, Some(state)) == Some(KeyboardInput { key, state }),
        watch.current is None ==> watch.travelled(dx, dy) is None && watch.clicked(
            button,
            state,
        ) is None && watch.typed(key, Some(state)) is None,
        watch.typed(key, None) is None,
{
}

/// The pointer is taken over an edge exactly if it is on the surface along that edge, is not
/// captured, moves out over it, and the edge is allowed.
pub proof fn law_pointer_is_taken_over_its_edge(
    watch: EdgeWatch,
    dx: Double,
    dy: Double,
    allowed: u8,
    edge: Edge,
)
    ensures
        watch.taken_over(dx, dy, allowed) == Some(edge) <==> watch.hovered == Some(edge)
            && watch.current is None && capture::goes_out(edge, dx, dy) && allowed
            & capture::mask_of(edge) != 0,
        watch.taken_over(dx, dy, allowed) is Some ==> watch.taken_over(dx, dy, allowed)
            == watch.hovered,
{
}

/// A pointer on a surface is on that edge, between its ends; it leaves the edge with the
/// surface, unless it is captured. A capture reports the edge and the place, lasts until the
/// pointer is to be let go, and ends once.
pub proof fn law_pointer_comes_and_goes(
    watch: EdgeWatch,
    serial: u32,
    edge: Edge,
    part: Double,
    screen_width: Double,
    screen_height: Double,
)
    ensures
        ({
            let there = watch.entered(serial, Some((edge, part)));
            let (held, event) = there.begun(edge, screen_width, screen_height);
            let freed = held.synced(false);
            &&& there.serial == Some(serial)
            &&& there.hovered == Some(edge)
            &&& there.current == watch.current
            &&& !part.is_nan() ==> 0 <= there.position.rank() <= 0x3ff0_0000_0000_0000
            &&& !part.is_nan() && 0 <= part.rank() <= 0x3ff0_0000_0000_0000 ==> there.position
                == part
            &&& watch.entered(serial, None) == (EdgeWatch { serial: Some(serial), ..watch })
            &&& there.departed().serial is None
            &&& watch.current is None ==> there.departed().hovered is None
            &&& held.departed().hovered == Some(edge)
            &&& held.current == Some(edge)
            &&& event == (CaptureEvent::Begin {
                edge,
                position: there.position,
                screen_width,
                screen_height,
            })
            &&& held.synced(true) == (held, None::<Edge>)
            &&& freed.1 == Some(edge)
            &&& freed.0.current is None
            &&& freed.0.synced(false).1 is None
            &&& freed.0.hovered == held.hovered
        }),
{
}

} // verus!
