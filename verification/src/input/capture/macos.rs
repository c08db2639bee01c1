//! Capturing input from macOS, and what is injected there.

use vstd::prelude::*;

use crate::float::{Double, DOUBLE_ONE};
use crate::input::capture;
use crate::input::capture::{CaptureEvent, ALL_EDGE_MASK};
use crate::input::keys;
use crate::input::protocol::{Edge, KeyboardInput, PointerInput};

verus! {

pub const LEFT_DOWN: u32 = 1;

pub const LEFT_UP: u32 = 2;

pub const RIGHT_DOWN: u32 = 3;

pub const RIGHT_UP: u32 = 4;

pub const MOUSE_MOVED: u32 = 5;

pub const LEFT_DRAGGED: u32 = 6;

pub const RIGHT_DRAGGED: u32 = 7;

pub const KEY_DOWN: u32 = 10;

pub const KEY_UP: u32 = 11;

pub const FLAGS_CHANGED: u32 = 12;

pub const SCROLL_WHEEL: u32 = 22;

pub const OTHER_DOWN: u32 = 25;

pub const OTHER_UP: u32 = 26;

pub const OTHER_DRAGGED: u32 = 27;

/// The system disabled the tap because it was slow.
pub const TAP_DISABLED_TIMEOUT: u32 = 0xffff_fffe;

/// The user disabled the tap.
pub const TAP_DISABLED_USER: u32 = 0xffff_ffff;

/// The left button.
pub const BTN_LEFT: u32 = 0x110;

/// The right button.
pub const BTN_RIGHT: u32 = 0x111;

/// The middle button.
pub const BTN_MIDDLE: u32 = 0x112;

/// Whether an event is a motion of the pointer.
pub open spec fn moves(kind: u32) -> bool {
    kind == MOUSE_MOVED || kind == LEFT_DRAGGED || kind == RIGHT_DRAGGED || kind == OTHER_DRAGGED
}

/// Whether an event is a key that goes down or up.
pub open spec fn types(kind: u32) -> bool {
    kind == KEY_DOWN || kind == KEY_UP
}

/// Whether an event shows that the device is used.
pub open spec fn uses(kind: u32) -> bool {
    moves(kind) || types(kind) || kind == FLAGS_CHANGED || kind == SCROLL_WHEEL || kind == LEFT_DOWN
        || kind == LEFT_UP || kind == RIGHT_DOWN || kind == RIGHT_UP || kind == OTHER_DOWN || kind
        == OTHER_UP
}

/// Whether an event is a motion of the pointer.
pub fn is_motion(kind: u32) -> (motion: bool)
    ensures
        motion == moves(kind),
{
    kind == MOUSE_MOVED || kind == LEFT_DRAGGED || kind == RIGHT_DRAGGED || kind == OTHER_DRAGGED
}

/// Whether an event shows that the device is used.
pub fn is_local_input(kind: u32) -> (local: bool)
    ensures
        local == uses(kind),
{
    is_motion(kind) || kind == KEY_DOWN || kind == KEY_UP || kind == FLAGS_CHANGED || kind
        == SCROLL_WHEEL || kind == LEFT_DOWN || kind == LEFT_UP || kind == RIGHT_DOWN || kind
        == RIGHT_UP || kind == OTHER_DOWN || kind == OTHER_UP
}

/// The bits of a thousandth.
pub const NEAR: u64 = 0x3f50_624d_d2f1_a9fc;

/// The bits of 999 thousandths.
pub const FAR: u64 = 0x3fef_f7ce_d916_872b;

/// The edge that the pointer is pushed over, and how far along it: the pointer is
/// within a thousandth of the edge and moves outwards. In a corner the sides come
/// first.
pub open spec fn pushed_over(x: Double, y: Double, dx: Double, dy: Double) -> Option<
    (Edge, Double),
> {
    let near = Double { bits: NEAR };
    let far = Double { bits: FAR };
    if capture::goes_out(Edge::Left, dx, dy) && x.reaches_no_further(near) {
        Some((Edge::Left, y.held_in_unit()))
    } else if capture::goes_out(Edge::Right, dx, dy) && far.reaches_no_further(x) {
        Some((Edge::Right, y.held_in_unit()))
    } else if capture::goes_out(Edge::Top, dx, dy) && y.reaches_no_further(near) {
        Some((Edge::Top, x.held_in_unit()))
    } else if capture::goes_out(Edge::Bottom, dx, dy) && far.reaches_no_further(y) {
        Some((Edge::Bottom, x.held_in_unit()))
    } else {
        None
    }
}

/// The edge that the pointer is pushed over, and how far along it.
pub fn crossed_edge(x: Double, y: Double, dx: Double, dy: Double) -> (crossed: Option<
    (Edge, Double),
>)
    ensures
        crossed == pushed_over(x, y, dx, dy),
{
    let near = Double { bits: NEAR };
    let far = Double { bits: FAR };
    if capture::is_outward(Edge::Left, dx, dy) && x.at_most(near) {
        Some((Edge::Left, y.clamp_unit()))
    } else if capture::is_outward(Edge::Right, dx, dy) && far.at_most(x) {
        Some((Edge::Right, y.clamp_unit()))
    } else if capture::is_outward(Edge::Top, dx, dy) && y.at_most(near) {
        Some((Edge::Top, x.clamp_unit()))
    } else if capture::is_outward(Edge::Bottom, dx, dy) && far.at_most(y) {
        Some((Edge::Bottom, x.clamp_unit()))
    } else {
        None
    }
}

/// Whether a motion takes the pointer out by the edge that it came in by.
pub open spec fn goes_back(
    edge: Edge,
    input: PointerInput,
    point: (Double, Double),
    low: (Double, Double),
    high: (Double, Double),
) -> bool {
    input matches PointerInput::Motion { dx, dy } && capture::goes_out(edge, dx, dy) && match edge {
        Edge::Left => point.0.reaches_no_further(low.0),
        Edge::Right => high.0.reaches_no_further(point.0),
        Edge::Top => point.1.reaches_no_further(low.1),
        Edge::Bottom => high.1.reaches_no_further(point.1),
    }
}

/// Whether a motion takes the pointer out by the edge that it came in by. The
/// pointer is at `point` and may go as far as `low` and `high`.
pub fn left_entry_edge(
    edge: Edge,
    input: PointerInput,
    point: (Double, Double),
    low: (Double, Double),
    high: (Double, Double),
) -> (left: bool)
    ensures
        left == goes_back(edge, input, point, low, high),
{
    match input {
        PointerInput::Motion { dx, dy } => capture::is_outward(edge, dx, dy) && match edge {
            Edge::Left => point.0.at_most(low.0),
            Edge::Right => high.0.at_most(point.0),
            Edge::Top => point.1.at_most(low.1),
            Edge::Bottom => high.1.at_most(point.1),
        },
        _ => false,
    }
}

/// How far a motion is said to go: at least one whole step, if it goes anywhere.
pub open spec fn whole_steps(distance: Double) -> Double {
    if distance.is_positive() {
        if distance.precedes(Double { bits: DOUBLE_ONE }) {
            Double { bits: DOUBLE_ONE }
        } else {
            distance
        }
    } else if distance.opposite().is_positive() {
        if distance.opposite().precedes(Double { bits: DOUBLE_ONE }) {
            (Double { bits: DOUBLE_ONE }).opposite()
        } else {
            distance
        }
    } else {
        Double { bits: 0 }
    }
}

/// How far a motion is said to go: at least one whole step, if it goes anywhere.
pub fn delta_field(distance: Double) -> (told: Double)
    ensures
        told == whole_steps(distance),
{
    let one = Double { bits: DOUBLE_ONE };
    let back = distance.negated();
    if distance.positive() {
        if distance.below(one) {
            one
        } else {
            distance
        }
    } else if back.positive() {
        if back.below(one) {
            one.negated()
        } else {
            distance
        }
    } else {
        Double { bits: 0 }
    }
}

/// An event of macOS.
#[derive(Clone, Copy, Debug, PartialEq, Eq)]
pub struct MacEvent {
    pub kind: u32,
    /// Whether this program made it.
    pub synthetic: bool,
    /// Where the pointer is: which part of the screen lies to its left, and which
    /// above it.
    pub x: Double,
    pub y: Double,
    pub key: u16,
    pub flags: u64,
    pub button: i64,
    pub dx: Double,
    pub dy: Double,
    /// How far the wheel was turned up, in whole steps and as a number.
    pub up_steps: i64,
    pub up: Double,
    /// How far the wheel was turned sideways.
    pub sideways: Double,
}

/// What is known while events come in.
#[derive(Clone, Copy, Debug, PartialEq, Eq, Structural)]
pub struct MacCapture {
    pub active: bool,
    pub edge: Edge,
    pub position: Double,
    pub allowed: u8,
}

/// What is done with an event.
#[derive(Debug, PartialEq, Eq)]
pub struct MacStep {
    /// What is reported.
    pub events: Vec<CaptureEvent>,
    /// Whether the event is kept from the programs on this device.
    pub swallow: bool,
    /// Whether the pointer is hidden.
    pub hide: bool,
    /// Whether the pointer is put back to its edge.
    pub warp: bool,
    /// Whether the tap is enabled again.
    pub enable: bool,
}

/// What is done with an event.
pub struct MacStepState {
    pub events: Seq<CaptureEvent>,
    pub swallow: bool,
    pub hide: bool,
    pub warp: bool,
    pub enable: bool,
}

impl View for MacStep {
    type V = MacStepState;

    open spec fn view(&self) -> MacStepState {
        MacStepState {
            events: self.events@,
            swallow: self.swallow,
            hide: self.hide,
            warp: self.warp,
            enable: self.enable,
        }
    }
}

/// The number that says whether something is so.
pub open spec fn flag(set: bool) -> u32 {
    if set {
        1
    } else {
        0
    }
}

/// What a key that goes down or up means, if it has a code in Linux.
pub open spec fn typed(event: MacEvent) -> Option<KeyboardInput> {
    if exists|code: u32| keys::same_key(event.key, code) {
        Some(
            KeyboardInput {
                key: choose|code: u32| keys::same_key(event.key, code),
                state: flag(event.kind == KEY_DOWN),
            },
        )
    } else {
        None
    }
}

/// What a change of the modifier keys means.
pub open spec fn modified(event: MacEvent) -> Option<KeyboardInput> {
    match keys::flag_of(event.key) {
        Some(mask) => Some(
            KeyboardInput {
                key: choose|code: u32| keys::same_key(event.key, code),
                state: flag(event.flags & mask != 0),
            },
        ),
        None => None,
    }
}

/// What the pointer does in an event.
pub open spec fn pointed(event: MacEvent) -> Option<PointerInput> {
    if moves(event.kind) {
        Some(PointerInput::Motion { dx: event.dx, dy: event.dy })
    } else if event.kind == LEFT_DOWN || event.kind == LEFT_UP {
        Some(PointerInput::Button { button: BTN_LEFT, state: flag(event.kind == LEFT_DOWN) })
    } else if event.kind == RIGHT_DOWN || event.kind == RIGHT_UP {
        Some(PointerInput::Button { button: BTN_RIGHT, state: flag(event.kind == RIGHT_DOWN) })
    } else if (event.kind == OTHER_DOWN || event.kind == OTHER_UP) && event.button == 2 {
        Some(PointerInput::Button { button: BTN_MIDDLE, state: flag(event.kind == OTHER_DOWN) })
    } else if event.kind == SCROLL_WHEEL {
        Some(
            if event.up_steps != 0 {
                PointerInput::Axis { axis: 0, value: event.up }
            } else {
                PointerInput::Axis { axis: 1, value: event.sideways }
            },
        )
    } else {
        None
    }
}

/// One event, or none.
pub open spec fn one(event: Option<CaptureEvent>) -> Seq<CaptureEvent> {
    match event {
        Some(event) => seq![event],
        None => Seq::empty(),
    }
}

/// What an event reports while nothing is captured.
pub open spec fn noticed(event: MacEvent) -> Seq<CaptureEvent> {
    if !uses(event.kind) {
        Seq::empty()
    } else {
        seq![CaptureEvent::LocalInput] + one(
            match typed(event) {
                Some(input) => if types(event.kind) {
                    Some(CaptureEvent::LocalKeyboard(input))
                } else {
                    None
                },
                None => None,
            },
        )
    }
}

/// What an event reports while input is captured.
pub open spec fn forwarded(event: MacEvent) -> Seq<CaptureEvent> {
    one(
        if types(event.kind) {
            match typed(event) {
                Some(input) => Some(CaptureEvent::Keyboard(input)),
                None => None,
            }
        } else if event.kind == FLAGS_CHANGED {
            match modified(event) {
                Some(input) => Some(CaptureEvent::Keyboard(input)),
                None => None,
            }
        } else {
            match pointed(event) {
                Some(input) => Some(CaptureEvent::Pointer(input)),
                None => None,
            }
        },
    )
}

/// Whether an event starts a capture: the pointer is pushed over an edge that is
/// allowed.
pub open spec fn starts(c: MacCapture, event: MacEvent) -> bool {
    !c.active && moves(event.kind) && (pushed_over(event.x, event.y, event.dx, event.dy) matches Some(
        (edge, _),
    ) && capture::allows(c.allowed, edge))
}

/// Whether an event says that the tap was disabled.
pub open spec fn disables(kind: u32) -> bool {
    kind == TAP_DISABLED_TIMEOUT || kind == TAP_DISABLED_USER
}

/// Whether an event says that the tap was disabled. Such an event carries nothing
/// that could be read.
pub fn is_disabling(kind: u32) -> (disabling: bool)
    ensures
        disabling == disables(kind),
{
    kind == TAP_DISABLED_TIMEOUT || kind == TAP_DISABLED_USER
}

/// What is done with an event. What this program made itself goes through
/// untouched.
pub open spec fn step_of(
    c: MacCapture,
    event: MacEvent,
    screen_width: Double,
    screen_height: Double,
) -> MacStepState {
    let idle = MacStepState {
        events: Seq::empty(),
        swallow: false,
        hide: false,
        warp: false,
        enable: false,
    };
    if disables(event.kind) {
        MacStepState { enable: true, ..idle }
    } else if event.synthetic {
        idle
    } else if starts(c, event) {
        let (edge, position) = pushed_over(event.x, event.y, event.dx, event.dy)->0;
        MacStepState {
            events: seq![
                CaptureEvent::Begin { edge, position, screen_width, screen_height },
            ],
            swallow: true,
            hide: true,
            ..idle
        }
    } else if !c.active {
        MacStepState { events: noticed(event), ..idle }
    } else {
        MacStepState {
            events: forwarded(event),
            swallow: true,
            warp: moves(event.kind),
            ..idle
        }
    }
}

/// What is known once an event came in.
pub open spec fn known_after(c: MacCapture, event: MacEvent) -> MacCapture {
    if !disables(event.kind) && !event.synthetic && starts(c, event) {
        MacCapture {
            active: true,
            edge: (pushed_over(event.x, event.y, event.dx, event.dy)->0).0,
            position: (pushed_over(event.x, event.y, event.dx, event.dy)->0).1,
            ..c
        }
    } else {
        c
    }
}

/// The Linux code of a key is the one that its macOS code goes with.
proof fn lemma_code(key: u16, code: u32)
    requires
        keys::same_key(key, code),
    ensures
        (choose|code: u32| keys::same_key(key, code)) == code,
{
    keys::law_key_codes_translate_back(key, code);
}

/// What a key that goes down or up means.
fn key_input(event: MacEvent) -> (input: Option<KeyboardInput>)
    ensures
        input == typed(event),
{
    match keys::mac_to_evdev(event.key) {
        Some(key) => {
            proof {
                lemma_code(event.key, key);
            }
            let state: u32 = if event.kind == KEY_DOWN {
                1
            } else {
                0
            };
            Some(KeyboardInput { key, state })
        },
        None => None,
    }
}

/// What a change of the modifier keys means.
fn modifier_input(event: MacEvent) -> (input: Option<KeyboardInput>)
    ensures
        input == modified(event),
{
    match keys::modifier_to_evdev(event.key) {
        Some((key, mask)) => {
            proof {
                lemma_code(event.key, key);
            }
            let state: u32 = if event.flags & mask != 0 {
                1
            } else {
                0
            };
            Some(KeyboardInput { key, state })
        },
        None => None,
    }
}

/// One for something that is so.
fn flag_value(set: bool) -> (value: u32)
    ensures
        value == flag(set),
{
    if set {
        1
    } else {
        0
    }
}

/// What the pointer does in an event.
fn pointer_input(event: MacEvent) -> (input: Option<PointerInput>)
    ensures
        input == pointed(event),
{
    if is_motion(event.kind) {
        Some(PointerInput::Motion { dx: event.dx, dy: event.dy })
    } else if event.kind == LEFT_DOWN || event.kind == LEFT_UP {
        Some(
            PointerInput::Button { button: BTN_LEFT, state: flag_value(event.kind == LEFT_DOWN) },
        )
    } else if event.kind == RIGHT_DOWN || event.kind == RIGHT_UP {
        Some(
            PointerInput::Button { button: BTN_RIGHT, state: flag_value(event.kind == RIGHT_DOWN) },
        )
    } else if (event.kind == OTHER_DOWN || event.kind == OTHER_UP) && event.button == 2 {
        Some(
            PointerInput::Button {
                button: BTN_MIDDLE,
                state: flag_value(event.kind == OTHER_DOWN),
            },
        )
    } else if event.kind == SCROLL_WHEEL {
        if event.up_steps != 0 {
            Some(PointerInput::Axis { axis: 0, value: event.up })
        } else {
            Some(PointerInput::Axis { axis: 1, value: event.sideways })
        }
    } else {
        None
    }
}

impl MacCapture {
    /// What is known once a capture ends, and whether there was one.
    pub open spec fn let_go(self) -> (MacCapture, bool) {
        (MacCapture { active: false, ..self }, self.active)
    }

    /// Nothing is captured, and all edges are allowed.
    pub fn new(middle: Double) -> (capture: Self)
        ensures
            capture == (MacCapture {
                active: false,
                edge: Edge::Right,
                position: middle,
                allowed: ALL_EDGE_MASK,
            }),
    {
        MacCapture { active: false, edge: Edge::Right, position: middle, allowed: ALL_EDGE_MASK }
    }

    /// Takes in an event and says what is done with it.
    pub fn observe(&mut self, event: MacEvent, screen_width: Double, screen_height: Double)
        -> (step: MacStep)
        ensures
            step@ == step_of(*old(self), event, screen_width, screen_height),
            *final(self) == known_after(*old(self), event),
    {
        let mut step = MacStep {
            events: Vec::new(),
            swallow: false,
            hide: false,
            warp: false,
            enable: false,
        };
        if is_disabling(event.kind) {
            step.enable = true;
            return step;
        }
        if event.synthetic {
            return step;
        }
        if !self.active && is_motion(event.kind) {
            if let Some((edge, position)) = crossed_edge(event.x, event.y, event.dx, event.dy) {
                if capture::is_allowed(self.allowed, edge) {
                    self.active = true;
                    self.edge = edge;
                    self.position = position;
                    step.events.push(
                        CaptureEvent::Begin { edge, position, screen_width, screen_height },
                    );
                    step.swallow = true;
                    step.hide = true;
                    assert(step.events@ =~= seq![
                        CaptureEvent::Begin { edge, position, screen_width, screen_height },
                    ]);
                    return step;
                }
            }
        }
        let typing = event.kind == KEY_DOWN || event.kind == KEY_UP;
        if !self.active {
            if is_local_input(event.kind) {
                step.events.push(CaptureEvent::LocalInput);
                if typing {
                    if let Some(input) = key_input(event) {
                        step.events.push(CaptureEvent::LocalKeyboard(input));
                    }
                }
            }
            assert(step.events@ =~= noticed(event));
            return step;
        }
        step.swallow = true;
        step.warp = is_motion(event.kind);
        if typing {
            if let Some(input) = key_input(event) {
                step.events.push(CaptureEvent::Keyboard(input));
            }
        } else if event.kind == FLAGS_CHANGED {
            if let Some(input) = modifier_input(event) {
                step.events.push(CaptureEvent::Keyboard(input));
            }
        } else if let Some(input) = pointer_input(event) {
            step.events.push(CaptureEvent::Pointer(input));
        }
        assert(step.events@ =~= forwarded(event));
        step
    }

    /// Ends a capture and says whether there was one.
    pub fn release(&mut self) -> (was_active: bool)
        ensures
            (*final(self), was_active) == old(self).let_go(),
    {
        let was_active = self.active;
        self.active = false;
        was_active
    }
}

/// The buttons that are held down on behalf of a peer.
#[derive(Clone, Copy, Debug, PartialEq, Eq, Structural)]
pub struct MacButtons {
    pub left: bool,
    pub right: bool,
    pub middle: bool,
}

impl MacButtons {
    /// The kind of event that a motion is while buttons are held.
    pub open spec fn moving(self) -> u32 {
        if self.left {
            LEFT_DRAGGED
        } else if self.right {
            RIGHT_DRAGGED
        } else if self.middle {
            OTHER_DRAGGED
        } else {
            MOUSE_MOVED
        }
    }

    /// The buttons once one went down or up, and the kind of the event that is made of it
    /// with the button's number.
    pub open spec fn changed(self, button: u32, state: u32) -> (MacButtons, Option<(u32, u32)>) {
        if button == BTN_LEFT {
            (
                MacButtons { left: state != 0, ..self },
                Some(
                    (
                        if state == 0 {
                            LEFT_UP
                        } else {
                            LEFT_DOWN
                        },
                        0u32,
                    ),
                ),
            )
        } else if button == BTN_RIGHT {
            (
                MacButtons { right: state != 0, ..self },
                Some(
                    (
                        if state == 0 {
                            RIGHT_UP
                        } else {
                            RIGHT_DOWN
                        },
                        1u32,
                    ),
                ),
            )
        } else if button == BTN_MIDDLE {
            (
                MacButtons { middle: state != 0, ..self },
                Some(
                    (
                        if state == 0 {
                            OTHER_UP
                        } else {
                            OTHER_DOWN
                        },
                        2u32,
                    ),
                ),
            )
        } else {
            (self, None)
        }
    }

    /// The buttons that are held.
    pub open spec fn all_held(self) -> Seq<u32> {
        (if self.left {
            seq![BTN_LEFT]
        } else {
            Seq::empty()
        }) + (if self.right {
            seq![BTN_RIGHT]
        } else {
            Seq::empty()
        }) + (if self.middle {
            seq![BTN_MIDDLE]
        } else {
            Seq::empty()
        })
    }

    /// No button is held.
    pub fn new() -> (buttons: Self)
        ensures
            !buttons.left,
            !buttons.right,
            !buttons.middle,
    {
        MacButtons { left: false, right: false, middle: false }
    }

    /// The kind of event that a motion is while buttons are held.
    pub fn motion_kind(&self) -> (kind: u32)
        ensures
            kind == self.moving(),
    {
        if self.left {
            LEFT_DRAGGED
        } else if self.right {
            RIGHT_DRAGGED
        } else if self.middle {
            OTHER_DRAGGED
        } else {
            MOUSE_MOVED
        }
    }

    /// Takes in a button that goes down or up. Returns the kind of the event
    /// that is made of it and the button's number; buttons that macOS does not
    /// know are left out.
    pub fn apply(&mut self, button: u32, state: u32) -> (made: Option<(u32, u32)>)
        ensures
            (*final(self), made) == old(self).changed(button, state),
    {
        let down = state != 0;
        if button == BTN_LEFT {
            self.left = down;
            if down {
                Some((LEFT_DOWN, 0))
            } else {
                Some((LEFT_UP, 0))
            }
        } else if button == BTN_RIGHT {
            self.right = down;
            if down {
                Some((RIGHT_DOWN, 1))
            } else {
                Some((RIGHT_UP, 1))
            }
        } else if button == BTN_MIDDLE {
            self.middle = down;
            if down {
                Some((OTHER_DOWN, 2))
            } else {
                Some((OTHER_UP, 2))
            }
        } else {
            None
        }
    }

    /// The buttons that are held.
    pub fn held(&self) -> (buttons: Vec<u32>)
        ensures
            buttons@ == self.all_held(),
    {
        let mut buttons: Vec<u32> = Vec::new();
        if self.left {
            buttons.push(BTN_LEFT);
        }
        if self.right {
            buttons.push(BTN_RIGHT);
        }
        if self.middle {
            buttons.push(BTN_MIDDLE);
        }
        assert(buttons@ =~= self.all_held());
        buttons
    }
}

/// What this program injects itself is neither reported nor kept from the
/// programs on this device.
pub proof fn law_injected_events_pass(
    c: MacCapture,
    event: MacEvent,
    screen_width: Double,
    screen_height: Double,
)
    requires
        event.synthetic,
    ensures
        step_of(c, event, screen_width, screen_height).events == Seq::<CaptureEvent>::empty(),
        !step_of(c, event, screen_width, screen_height).swallow,
{
}

/// While input is captured, no event of the user reaches the programs on this
/// device.
pub proof fn law_captured_events_are_swallowed(
    c: MacCapture,
    event: MacEvent,
    screen_width: Double,
    screen_height: Double,
)
    requires
        c.active,
        !event.synthetic,
        !disables(event.kind),
    ensures
        step_of(c, event, screen_width, screen_height).swallow,
{
}

/// Whether the pointer is within a thousandth of an edge and moves out over it.
pub open spec fn presses(edge: Edge, x: Double, y: Double, dx: Double, dy: Double) -> bool {
    match edge {
        Edge::Left => !x.is_nan() && x.rank() <= 0x3f50_624d_d2f1_a9fc && !dx.is_nan() && dx.rank()
            < 0,
        Edge::Right => !x.is_nan() && x.rank() >= 0x3fef_f7ce_d916_872b && !dx.is_nan() && dx.rank()
            > 0,
        Edge::Top => !y.is_nan() && y.rank() <= 0x3f50_624d_d2f1_a9fc && !dy.is_nan() && dy.rank()
            < 0,
        Edge::Bottom => !y.is_nan() && y.rank() >= 0x3fef_f7ce_d916_872b && !dy.is_nan()
            && dy.rank() > 0,
    }
}

/// The pointer is pushed over an edge exactly if it is within a thousandth of it and moves
/// out over it; in a corner over the side. How far along the edge it is, is held between
/// the ends of the edge.
pub proof fn law_pointer_is_pushed_over_an_edge(x: Double, y: Double, dx: Double, dy: Double)
    ensures
        ({
            let pushed = pushed_over(x, y, dx, dy);
            let along = if pushed is Some && ((pushed->0).0 == Edge::Left || (pushed->0).0
                == Edge::Right) {
                y
            } else {
                x
            };
            &&& pushed is Some ==> presses((pushed->0).0, x, y, dx, dy)
            &&& pushed is None ==> forall|edge: Edge| !#[trigger] presses(edge, x, y, dx, dy)
            &&& presses(Edge::Left, x, y, dx, dy) ==> (pushed->0).0 == Edge::Left
            &&& presses(Edge::Right, x, y, dx, dy) ==> (pushed->0).0 == Edge::Right
            &&& pushed is Some && !along.is_nan() ==> !(pushed->0).1.is_nan() && 0
                <= (pushed->0).1.rank() <= 0x3ff0_0000_0000_0000
            &&& pushed is Some && !along.is_nan() && 0 <= along.rank() <= 0x3ff0_0000_0000_0000
                ==> (pushed->0).1 == along
        }),
{
    let pushed = pushed_over(x, y, dx, dy);
    if pushed is None {
        assert forall|edge: Edge| !#[trigger] presses(edge, x, y, dx, dy) by {
            match edge {
                Edge::Left => {},
                Edge::Right => {},
                Edge::Top => {},
                Edge::Bottom => {},
            }
        }
    }
}

/// A motion of the user over an edge that is allowed begins a capture, and only that does:
/// it is reported with the edge, the place and the size of the screen, kept from the
/// programs on this device, and the pointer is hidden. From then on input is captured.
pub proof fn law_capture_begins_over_an_allowed_edge(
    c: MacCapture,
    event: MacEvent,
    screen_width: Double,
    screen_height: Double,
)
    requires
        !event.synthetic,
        event.kind != 0xffff_fffe,
        event.kind != 0xffff_ffff,
        !c.active,
    ensures
        ({
            let step = step_of(c, event, screen_width, screen_height);
            let after = known_after(c, event);
            let motion = event.kind == 5 || event.kind == 6 || event.kind == 7 || event.kind == 27;
            let pushed = pushed_over(event.x, event.y, event.dx, event.dy);
            let begins = motion && pushed is Some && c.allowed & capture::mask_of((pushed->0).0)
                != 0;
            &&& after.active <==> begins
            &&& after.allowed == c.allowed
            &&& step.swallow == begins
            &&& step.hide == begins
            &&& !step.warp && !step.enable
            &&& begins ==> step.events == seq![
                CaptureEvent::Begin {
                    edge: (pushed->0).0,
                    position: (pushed->0).1,
                    screen_width,
                    screen_height,
                },
            ] && after.edge == (pushed->0).0 && after.position == (pushed->0).1
            &&& !begins ==> after == c
        }),
{
}

/// The state of a key or a button that goes down, and of one that goes up.
pub open spec fn down(goes_down: bool) -> u32 {
    if goes_down {
        1
    } else {
        0
    }
}

/// While input is captured, every event of the user that means something is reported, once:
/// motions, keys that have a code in Linux, modifier keys, the three buttons and the wheel.
/// Only a motion puts the pointer back to its edge.
pub proof fn law_captured_input_is_reported(
    c: MacCapture,
    event: MacEvent,
    screen_width: Double,
    screen_height: Double,
    code: u32,
    mask: u64,
)
    requires
        c.active,
        !event.synthetic,
        event.kind != 0xffff_fffe,
        event.kind != 0xffff_ffff,
    ensures
        ({
            let step = step_of(c, event, screen_width, screen_height);
            let kind = event.kind;
            let motion = kind == 5 || kind == 6 || kind == 7 || kind == 27;
            &&& step.swallow && !step.hide && !step.enable
            &&& step.warp == motion
            &&& known_after(c, event) == c
            &&& motion ==> step.events == seq![
                CaptureEvent::Pointer(PointerInput::Motion { dx: event.dx, dy: event.dy }),
            ]
            &&& (kind == 10 || kind == 11) && keys::same_key(event.key, code) ==> step.events
                == seq![
                CaptureEvent::Keyboard(KeyboardInput { key: code, state: down(kind == 10) }),
            ]
            &&& (kind == 10 || kind == 11) && (forall|any: u32| !#[trigger]
                keys::same_key(event.key, any)) ==> step.events.len() == 0
            &&& kind == 12 && keys::flag_of(event.key) == Some(mask) && keys::same_key(
                event.key,
                code,
            ) ==> step.events == seq![
                CaptureEvent::Keyboard(
                    KeyboardInput { key: code, state: down(event.flags & mask != 0) },
                ),
            ]
            &&& kind == 12 && keys::flag_of(event.key) is None ==> step.events.len() == 0
            &&& kind == 1 || kind == 2 ==> step.events == seq![
                CaptureEvent::Pointer(
                    PointerInput::Button { button: 0x110, state: down(kind == 1) },
                ),
            ]
            &&& kind == 3 || kind == 4 ==> step.events == seq![
                CaptureEvent::Pointer(
                    PointerInput::Button { button: 0x111, state: down(kind == 3) },
                ),
            ]
            &&& (kind == 25 || kind == 26) && event.button == 2 ==> step.events == seq![
                CaptureEvent::Pointer(
                    PointerInput::Button { button: 0x112, state: down(kind == 25) },
                ),
            ]
            &&& (kind == 25 || kind == 26) && event.button != 2 ==> step.events.len() == 0
            &&& kind == 22 && event.up_steps != 0 ==> step.events == seq![
                CaptureEvent::Pointer(PointerInput::Axis { axis: 0, value: event.up }),
            ]
            &&& kind == 22 && event.up_steps == 0 ==> step.events == seq![
                CaptureEvent::Pointer(PointerInput::Axis { axis: 1, value: event.sideways }),
            ]
        }),
{
    if keys::same_key(event.key, code) {
        lemma_code(event.key, code);
    }
}

/// While nothing is captured, an event of the user says that the device is used, and a key
/// that has a code in Linux says which key; the event goes on to the programs on this
/// device. Any other event says nothing.
pub proof fn law_use_of_the_device_is_noticed(
    c: MacCapture,
    event: MacEvent,
    screen_width: Double,
    screen_height: Double,
    code: u32,
)
    requires
        !c.active,
        !event.synthetic,
        event.kind != 0xffff_fffe,
        event.kind != 0xffff_ffff,
        !known_after(c, event).active,
    ensures
        ({
            let step = step_of(c, event, screen_width, screen_height);
            let kind = event.kind;
            let types = kind == 10 || kind == 11;
            let used = types || (1 <= kind <= 7) || kind == 12 || kind == 22 || (25 <= kind <= 27);
            &&& !step.swallow && !step.hide && !step.warp && !step.enable
            &&& !used ==> step.events.len() == 0
            &&& used && !types ==> step.events == seq![CaptureEvent::LocalInput]
            &&& types && keys::same_key(event.key, code) ==> step.events == seq![
                CaptureEvent::LocalInput,
                CaptureEvent::LocalKeyboard(KeyboardInput { key: code, state: down(kind == 10) }),
            ]
            &&& types && (forall|any: u32| !#[trigger] keys::same_key(event.key, any))
                ==> step.events == seq![CaptureEvent::LocalInput]
        }),
{
    let step = step_of(c, event, screen_width, screen_height);
    let types = event.kind == 10 || event.kind == 11;
    if keys::same_key(event.key, code) {
        lemma_code(event.key, code);
        if types {
            assert(step.events =~= seq![
                CaptureEvent::LocalInput,
                CaptureEvent::LocalKeyboard(
                    KeyboardInput { key: code, state: down(event.kind == 10) },
                ),
            ]);
        }
    }
    if uses(event.kind) && !types {
        assert(step.events =~= seq![CaptureEvent::LocalInput]);
    }
    if types && (forall|any: u32| !#[trigger] keys::same_key(event.key, any)) {
        assert(step.events =~= seq![CaptureEvent::LocalInput]);
    }
}

/// A tap that was disabled, by the system or by the user, is enabled again, and nothing
/// else is done.
pub proof fn law_disabled_tap_is_enabled_again(
    c: MacCapture,
    event: MacEvent,
    screen_width: Double,
    screen_height: Double,
)
    ensures
        ({
            let step = step_of(c, event, screen_width, screen_height);
            let disabled = event.kind == 0xffff_fffe || event.kind == 0xffff_ffff;
            &&& step.enable <==> disabled
            &&& disabled ==> step.events.len() == 0 && !step.swallow && !step.hide && !step.warp
                && known_after(c, event) == c
        }),
{
}

/// A motion is said to go at least one whole step the way that it goes, and further if it
/// goes further; one that goes nowhere, or is no number, is said to go nowhere.
pub proof fn law_motions_go_whole_steps(distance: Double)
    ensures
        ({
            let told = whole_steps(distance);
            &&& distance.is_nan() || distance.rank() == 0 ==> told.rank() == 0 && !told.is_nan()
            &&& !distance.is_nan() && distance.rank() >= 0x3ff0_0000_0000_0000 ==> told == distance
            &&& !distance.is_nan() && distance.rank() <= -0x3ff0_0000_0000_0000 ==> told
                == distance
            &&& !distance.is_nan() && 0 < distance.rank() < 0x3ff0_0000_0000_0000 ==> told.rank()
                == 0x3ff0_0000_0000_0000
            &&& !distance.is_nan() && -0x3ff0_0000_0000_0000 < distance.rank() < 0 ==> told.rank()
                == -0x3ff0_0000_0000_0000
        }),
{
}

/// A pointer goes back by the edge that it came in by exactly if it is at the end of where
/// it may go on that side and a motion takes it further out.
pub proof fn law_pointer_goes_back_by_its_edge(
    edge: Edge,
    dx: Double,
    dy: Double,
    point: (Double, Double),
    low: (Double, Double),
    high: (Double, Double),
)
    requires
        !dx.is_nan() && !dy.is_nan(),
        !point.0.is_nan() && !point.1.is_nan(),
        !low.0.is_nan() && !low.1.is_nan(),
        !high.0.is_nan() && !high.1.is_nan(),
    ensures
        goes_back(edge, PointerInput::Motion { dx, dy }, point, low, high) <==> match edge {
            Edge::Left => dx.rank() < 0 && point.0.rank() <= low.0.rank(),
            Edge::Right => dx.rank() > 0 && point.0.rank() >= high.0.rank(),
            Edge::Top => dy.rank() < 0 && point.1.rank() <= low.1.rank(),
            Edge::Bottom => dy.rank() > 0 && point.1.rank() >= high.1.rank(),
        },
        forall|button: u32, state: u32| !#[trigger]
            goes_back(edge, PointerInput::Button { button, state }, point, low, high),
{
}

/// A button that goes down is held until it goes up, the others stay as they are, and what
/// is made of it is that button's event: left, right and middle are the first, the second
/// and the third.
pub proof fn law_buttons_go_down_and_up(buttons: MacButtons, button: u32, state: u32)
    ensures
        ({
            let (after, made) = buttons.changed(button, state);
            &&& made is Some <==> button == 0x110 || button == 0x111 || button == 0x112
            &&& after.left == if button == 0x110 {
                state != 0
            } else {
                buttons.left
            }
            &&& after.right == if button == 0x111 {
                state != 0
            } else {
                buttons.right
            }
            &&& after.middle == if button == 0x112 {
                state != 0
            } else {
                buttons.middle
            }
            &&& button == 0x110 ==> made == Some(
                (
                    if state != 0 {
                        1u32
                    } else {
                        2u32
                    },
                    0u32,
                ),
            )
            &&& button == 0x111 ==> made == Some(
                (
                    if state != 0 {
                        3u32
                    } else {
                        4u32
                    },
                    1u32,
                ),
            )
            &&& button == 0x112 ==> made == Some(
                (
                    if state != 0 {
                        25u32
                    } else {
                        26u32
                    },
                    2u32,
                ),
            )
        }),
{
}

/// The buttons that are held are those that went down and not up again, and letting go of
/// each leaves none. A motion is a drag exactly while one is held.
pub proof fn law_held_buttons_can_be_let_go(buttons: MacButtons, button: u32)
    ensures
        buttons.all_held().contains(button) <==> (button == 0x110 && buttons.left) || (button
            == 0x111 && buttons.right) || (button == 0x112 && buttons.middle),
        buttons.all_held().contains(button) ==> !buttons.changed(button, 0).0.all_held().contains(
            button,
        ),
        buttons.moving() == 5 <==> buttons.all_held().len() == 0,
        buttons.moving() == 6 <==> buttons.left,
        buttons.moving() == 7 <==> buttons.right && !buttons.left,
        buttons.moving() == 27 <==> buttons.middle && !buttons.left && !buttons.right,
{
    let held = buttons.all_held();
    if buttons.left {
        assert(held[0] == BTN_LEFT);
    }
    if buttons.right {
        assert(held[if buttons.left {
            1
        } else {
            0
        }] == BTN_RIGHT);
    }
    if buttons.middle {
        assert(held[held.len() - 1] == BTN_MIDDLE);
    }
}

/// A capture that ends ends once, and leaves the edges that are allowed as they are.
pub proof fn law_capture_ends_once(c: MacCapture)
    ensures
        c.let_go().1 <==> c.active,
        !c.let_go().0.active,
        !c.let_go().0.let_go().1,
        c.let_go().0.allowed == c.allowed,
        c.let_go().0.edge == c.edge,
        c.let_go().0.position == c.position,
{
}

} // verus!
