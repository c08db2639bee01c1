//! What devices say to each other while they share input.

use vstd::prelude::*;

use crate::float::{Double, Single, DOUBLE_ONE, SINGLE_ONE};

verus! {

/// The largest motion or scroll distance of one event: ten thousand.
pub const MAX_DISTANCE: u64 = 0x40c3_8800_0000_0000;

/// The largest key code.
pub const MAX_KEY: u32 = 0x2ff;

/// A side of the screen.
#[derive(Clone, Copy, Debug, PartialEq, Eq, PartialOrd, Ord, Hash, Structural)]
pub enum Edge {
    Left,
    Right,
    Top,
    Bottom,
}

/// A pointer event.
#[allow(inconsistent_fields)]
#[derive(Clone, Copy, Debug, PartialEq, Eq, Structural)]
pub enum PointerInput {
    Motion { dx: Double, dy: Double },
    Button { button: u32, state: u32 },
    Axis { axis: u8, value: Double },
    AxisDiscrete120 { axis: u8, value: i32 },
}

/// A keyboard event.
#[derive(Clone, Copy, Debug, PartialEq, Eq, Structural)]
pub struct KeyboardInput {
    pub key: u32,
    pub state: u32,
}

/// A message between two devices that share input.
#[derive(Clone, Copy, Debug, PartialEq, Eq, Structural)]
pub enum InputMessage {
    Probe { edge: Edge, position: Double, progress: Single },
    ProbeAck,
    Cancel,
    Enter { edge: Edge, position: Double, screen_width: Double, screen_height: Double },
    Ack,
    Leave,
    Pointer(PointerInput),
    Keyboard(KeyboardInput),
    Ping,
    Pong,
}

/// Why a message is refused.
#[derive(Clone, Copy, Debug, PartialEq, Eq, Structural)]
pub enum InputError {
    InvalidKeyboard,
    InvalidMotion,
    InvalidAxis,
    InvalidButton,
    InvalidProbe,
    InvalidEntry,
}

/// Whether a number may be the length of a motion: finite, and at most ten
/// thousand either way.
pub open spec fn is_distance(value: Double) -> bool {
    value.magnitude() <= MAX_DISTANCE
}

/// Whether a number may be a place along an edge: from zero to one.
pub open spec fn is_position(value: Double) -> bool {
    value.lies_in(Double { bits: 0 }, Double { bits: DOUBLE_ONE })
}

/// Whether a number may be a progress: from zero to one.
pub open spec fn is_progress(value: Single) -> bool {
    value.lies_in(Single { bits: 0 }, Single { bits: SINGLE_ONE })
}

impl Edge {
    /// The edge across the screen.
    pub open spec fn across(self) -> Edge {
        match self {
            Edge::Left => Edge::Right,
            Edge::Right => Edge::Left,
            Edge::Top => Edge::Bottom,
            Edge::Bottom => Edge::Top,
        }
    }

    /// The edge across the screen.
    pub fn opposite(self) -> (edge: Self)
        ensures
            edge == self.across(),
    {
        match self {
            Edge::Left => Edge::Right,
            Edge::Right => Edge::Left,
            Edge::Top => Edge::Bottom,
            Edge::Bottom => Edge::Top,
        }
    }

    /// The name of the edge.
    pub open spec fn named(self) -> Seq<char> {
        match self {
            Edge::Left => "left"@,
            Edge::Right => "right"@,
            Edge::Top => "top"@,
            Edge::Bottom => "bottom"@,
        }
    }

    /// The name of the edge.
    pub fn name(self) -> (name: &'static str)
        ensures
            name@ == self.named(),
    {
        match self {
            Edge::Left => "left",
            Edge::Right => "right",
            Edge::Top => "top",
            Edge::Bottom => "bottom",
        }
    }
}

/// The edge across the screen is another edge, and its own opposite is the
/// first again.
pub proof fn law_opposite_is_its_own_inverse(edge: Edge)
    ensures
        edge.across() != edge,
        edge.across().across() == edge,
{
}

impl KeyboardInput {
    /// Whether key and state are in range.
    pub open spec fn is_valid(self) -> bool {
        self.key <= MAX_KEY && self.state <= 1
    }

    /// Refuses a key code or a state out of range.
    pub fn validate(self) -> (result: Result<(), InputError>)
        ensures
            result == if self.is_valid() {
                Ok::<(), InputError>(())
            } else {
                Err(InputError::InvalidKeyboard)
            },
    {
        if self.key > MAX_KEY || self.state > 1 {
            return Err(InputError::InvalidKeyboard);
        }
        Ok(())
    }
}

impl PointerInput {
    /// What is wrong with the event, if anything is.
    pub open spec fn fault(self) -> Option<InputError> {
        match self {
            PointerInput::Motion { dx, dy } => if is_distance(dx) && is_distance(dy) {
                None
            } else {
                Some(InputError::InvalidMotion)
            },
            PointerInput::Axis { axis, value } => if is_distance(value) {
                None
            } else {
                Some(InputError::InvalidAxis)
            },
            PointerInput::Button { button, state } => if state <= 1 {
                None
            } else {
                Some(InputError::InvalidButton)
            },
            PointerInput::AxisDiscrete120 { axis, value } => None,
        }
    }

    /// Refuses a motion or a scroll that is no distance, and a button state out
    /// of range.
    pub fn validate(self) -> (result: Result<(), InputError>)
        ensures
            result == match self.fault() {
                Some(error) => Err::<(), InputError>(error),
                None => Ok(()),
            },
    {
        match self {
            PointerInput::Motion { dx, dy } => if !dx.within(MAX_DISTANCE) || !dy.within(
                MAX_DISTANCE,
            ) {
                return Err(InputError::InvalidMotion);
            },
            PointerInput::Axis { axis: _, value } => if !value.within(MAX_DISTANCE) {
                return Err(InputError::InvalidAxis);
            },
            PointerInput::Button { button: _, state } => if state > 1 {
                return Err(InputError::InvalidButton);
            },
            PointerInput::AxisDiscrete120 { axis: _, value: _ } => {},
        }
        Ok(())
    }
}

impl InputMessage {
    /// What is wrong with the message, if anything is.
    pub open spec fn fault(self) -> Option<InputError> {
        match self {
            InputMessage::Pointer(event) => event.fault(),
            InputMessage::Keyboard(event) => if event.is_valid() {
                None
            } else {
                Some(InputError::InvalidKeyboard)
            },
            InputMessage::Probe { edge, position, progress } => if is_position(position)
                && is_progress(progress) {
                None
            } else {
                Some(InputError::InvalidProbe)
            },
            InputMessage::Enter { edge, position, screen_width, screen_height } => if is_position(
                position,
            ) {
                None
            } else {
                Some(InputError::InvalidEntry)
            },
            _ => None,
        }
    }

    /// Refuses a message with a value out of range.
    pub fn validate(self) -> (result: Result<(), InputError>)
        ensures
            result == match self.fault() {
                Some(error) => Err::<(), InputError>(error),
                None => Ok(()),
            },
    {
        match self {
            InputMessage::Pointer(event) => event.validate(),
            InputMessage::Keyboard(event) => event.validate(),
            InputMessage::Probe { edge: _, position, progress } => if position.in_unit()
                && progress.in_unit() {
                Ok(())
            } else {
                Err(InputError::InvalidProbe)
            },
            InputMessage::Enter { edge: _, position, screen_width: _, screen_height: _ } => if position.in_unit() {
                Ok(())
            } else {
                Err(InputError::InvalidEntry)
            },
            _ => Ok(()),
        }
    }

    /// Whether the message is sent more than once, because losing it would
    /// leave a device without its cursor or with a button held down.
    pub open spec fn is_vital(self) -> bool {
        match self {
            InputMessage::Enter { .. } => true,
            InputMessage::Ack => true,
            InputMessage::Leave => true,
            InputMessage::Pointer(PointerInput::Button { .. }) => true,
            _ => false,
        }
    }

    /// How many copies of the message are sent.
    pub fn copies(self) -> (copies: u32)
        ensures
            copies == if self.is_vital() { 3u32 } else { 1u32 },
    {
        match self {
            InputMessage::Enter { .. } => 3,
            InputMessage::Ack => 3,
            InputMessage::Leave => 3,
            InputMessage::Pointer(PointerInput::Button { .. }) => 3,
            _ => 1,
        }
    }
}

/// Each edge has the name that it is known by.
pub proof fn law_edges_are_named(edge: Edge)
    ensures
        edge.named() == "left"@ <==> edge == Edge::Left,
        edge.named() == "right"@ <==> edge == Edge::Right,
        edge.named() == "top"@ <==> edge == Edge::Top,
        edge.named() == "bottom"@ <==> edge == Edge::Bottom,
{
    reveal_strlit("left");
    reveal_strlit("right");
    reveal_strlit("top");
    reveal_strlit("bottom");
    assert("left"@.len() == 4);
    assert("right"@.len() == 5);
    assert("top"@.len() == 3);
    assert("bottom"@.len() == 6);
}

/// Left and right face each other, and so do top and bottom.
pub proof fn law_edges_face_each_other()
    ensures
        Edge::Left.across() == Edge::Right,
        Edge::Right.across() == Edge::Left,
        Edge::Top.across() == Edge::Bottom,
        Edge::Bottom.across() == Edge::Top,
{
}

} // verus!
