//! Key codes: what macOS calls a key, and what Linux calls it.

use vstd::prelude::*;

use crate::input::protocol::KeyboardInput;

verus! {

/// The flag of the caps lock key in macOS events.
pub const FLAG_CAPS_LOCK: u64 = 0x1_0000;

/// The flag of the shift keys in macOS events.
pub const FLAG_SHIFT: u64 = 0x2_0000;

/// The flag of the control keys in macOS events.
pub const FLAG_CONTROL: u64 = 0x4_0000;

/// The flag of the option keys in macOS events.
pub const FLAG_OPTION: u64 = 0x8_0000;

/// The flag of the command keys in macOS events.
pub const FLAG_COMMAND: u64 = 0x10_0000;

/// The shift modifier of XKB.
pub const XKB_MOD_SHIFT: u32 = 1;

/// The control modifier of XKB.
pub const XKB_MOD_CONTROL: u32 = 4;

/// The alt modifier of XKB.
pub const XKB_MOD_ALT: u32 = 8;

/// The logo modifier of XKB.
pub const XKB_MOD_LOGO: u32 = 64;

/// Whether two codes, of macOS and of Linux, are those of one key.
pub open spec fn same_key(mac: u16, evdev: u32) -> bool {
    match mac {
        // A
        0x00 => evdev == 30,
        // S
        0x01 => evdev == 31,
        // D
        0x02 => evdev == 32,
        // F
        0x03 => evdev == 33,
        // H
        0x04 => evdev == 35,
        // G
        0x05 => evdev == 34,
        // Z
        0x06 => evdev == 44,
        // X
        0x07 => evdev == 45,
        // C
        0x08 => evdev == 46,
        // V
        0x09 => evdev == 47,
        // B
        0x0b => evdev == 48,
        // Q
        0x0c => evdev == 16,
        // W
        0x0d => evdev == 17,
        // E
        0x0e => evdev == 18,
        // R
        0x0f => evdev == 19,
        // Y
        0x10 => evdev == 21,
        // T
        0x11 => evdev == 20,
        // 1
        0x12 => evdev == 2,
        // 2
        0x13 => evdev == 3,
        // 3
        0x14 => evdev == 4,
        // 4
        0x15 => evdev == 5,
        // 6
        0x16 => evdev == 7,
        // 5
        0x17 => evdev == 6,
        // =
        0x18 => evdev == 13,
        // 9
        0x19 => evdev == 10,
        // 7
        0x1a => evdev == 8,
        // -
        0x1b => evdev == 12,
        // 8
        0x1c => evdev == 9,
        // 0
        0x1d => evdev == 11,
        // ]
        0x1e => evdev == 27,
        // O
        0x1f => evdev == 24,
        // U
        0x20 => evdev == 22,
        // [
        0x21 => evdev == 26,
        // I
        0x22 => evdev == 23,
        // P
        0x23 => evdev == 25,
        // Enter
        0x24 => evdev == 28,
        // L
        0x25 => evdev == 38,
        // J
        0x26 => evdev == 36,
        // '
        0x27 => evdev == 40,
        // K
        0x28 => evdev == 37,
        // ;
        0x29 => evdev == 39,
        // \
        0x2a => evdev == 43,
        // ,
        0x2b => evdev == 51,
        // /
        0x2c => evdev == 53,
        // N
        0x2d => evdev == 49,
        // M
        0x2e => evdev == 50,
        // .
        0x2f => evdev == 52,
        // Tab
        0x30 => evdev == 15,
        // Space
        0x31 => evdev == 57,
        // `
        0x32 => evdev == 41,
        // Backspace
        0x33 => evdev == 14,
        // Escape
        0x35 => evdev == 1,
        // Right command
        0x36 => evdev == 126,
        // Left command
        0x37 => evdev == 125,
        // Left shift
        0x38 => evdev == 42,
        // Caps lock
        0x39 => evdev == 58,
        // Left option
        0x3a => evdev == 56,
        // Left control
        0x3b => evdev == 29,
        // Right shift
        0x3c => evdev == 54,
        // Right option
        0x3d => evdev == 100,
        // Right control
        0x3e => evdev == 97,
        // Left
        0x7b => evdev == 105,
        // Right
        0x7c => evdev == 106,
        // Down
        0x7d => evdev == 108,
        // Up
        0x7e => evdev == 103,
        _ => false,
    }
}

/// The Linux code of a key of macOS, if it has one.
pub fn mac_to_evdev(key: u16) -> (code: Option<u32>)
    ensures
        match code {
            Some(code) => same_key(key, code),
            None => forall|code: u32| !#[trigger] same_key(key, code),
        },
{
    let code: u32 = match key {
        0x00 => 30,
        0x01 => 31,
        0x02 => 32,
        0x03 => 33,
        0x04 => 35,
        0x05 => 34,
        0x06 => 44,
        0x07 => 45,
        0x08 => 46,
        0x09 => 47,
        0x0b => 48,
        0x0c => 16,
        0x0d => 17,
        0x0e => 18,
        0x0f => 19,
        0x10 => 21,
        0x11 => 20,
        0x12 => 2,
        0x13 => 3,
        0x14 => 4,
        0x15 => 5,
        0x16 => 7,
        0x17 => 6,
        0x18 => 13,
        0x19 => 10,
        0x1a => 8,
        0x1b => 12,
        0x1c => 9,
        0x1d => 11,
        0x1e => 27,
        0x1f => 24,
        0x20 => 22,
        0x21 => 26,
        0x22 => 23,
        0x23 => 25,
        0x24 => 28,
        0x25 => 38,
        0x26 => 36,
        0x27 => 40,
        0x28 => 37,
        0x29 => 39,
        0x2a => 43,
        0x2b => 51,
        0x2c => 53,
        0x2d => 49,
        0x2e => 50,
        0x2f => 52,
        0x30 => 15,
        0x31 => 57,
        0x32 => 41,
        0x33 => 14,
        0x35 => 1,
        0x36 => 126,
        0x37 => 125,
        0x38 => 42,
        0x39 => 58,
        0x3a => 56,
        0x3b => 29,
        0x3c => 54,
        0x3d => 100,
        0x3e => 97,
        0x7b => 105,
        0x7c => 106,
        0x7d => 108,
        0x7e => 103,
        _ => return None,
    };
    Some(code)
}

/// The macOS code of a key of Linux, if it has one.
pub fn evdev_to_mac(key: u32) -> (code: Option<u16>)
    ensures
        match code {
            Some(code) => same_key(code, key),
            None => forall|code: u16| !#[trigger] same_key(code, key),
        },
{
    let code: u16 = match key {
        1 => 0x35,
        2 => 0x12,
        3 => 0x13,
        4 => 0x14,
        5 => 0x15,
        6 => 0x17,
        7 => 0x16,
        8 => 0x1a,
        9 => 0x1c,
        10 => 0x19,
        11 => 0x1d,
        12 => 0x1b,
        13 => 0x18,
        14 => 0x33,
        15 => 0x30,
        16 => 0x0c,
        17 => 0x0d,
        18 => 0x0e,
        19 => 0x0f,
        20 => 0x11,
        21 => 0x10,
        22 => 0x20,
        23 => 0x22,
        24 => 0x1f,
        25 => 0x23,
        26 => 0x21,
        27 => 0x1e,
        28 => 0x24,
        29 => 0x3b,
        30 => 0x00,
        31 => 0x01,
        32 => 0x02,
        33 => 0x03,
        34 => 0x05,
        35 => 0x04,
        36 => 0x26,
        37 => 0x28,
        38 => 0x25,
        39 => 0x29,
        40 => 0x27,
        41 => 0x32,
        42 => 0x38,
        43 => 0x2a,
        44 => 0x06,
        45 => 0x07,
        46 => 0x08,
        47 => 0x09,
        48 => 0x0b,
        49 => 0x2d,
        50 => 0x2e,
        51 => 0x2b,
        52 => 0x2f,
        53 => 0x2c,
        54 => 0x3c,
        56 => 0x3a,
        57 => 0x31,
        58 => 0x39,
        97 => 0x3e,
        100 => 0x3d,
        103 => 0x7e,
        105 => 0x7b,
        106 => 0x7c,
        108 => 0x7d,
        125 => 0x37,
        126 => 0x36,
        _ => return None,
    };
    Some(code)
}

/// The flag that a modifier key sets in macOS events.
pub open spec fn flag_of(mac: u16) -> Option<u64> {
    match mac {
        0x36 => Some(FLAG_COMMAND),
        0x37 => Some(FLAG_COMMAND),
        0x38 => Some(FLAG_SHIFT),
        0x39 => Some(FLAG_CAPS_LOCK),
        0x3a => Some(FLAG_OPTION),
        0x3b => Some(FLAG_CONTROL),
        0x3c => Some(FLAG_SHIFT),
        0x3d => Some(FLAG_OPTION),
        0x3e => Some(FLAG_CONTROL),
        _ => None,
    }
}

/// The Linux code of a modifier key of macOS, and the flag that it sets.
pub fn modifier_to_evdev(key: u16) -> (found: Option<(u32, u64)>)
    ensures
        match found {
            Some((code, flag)) => same_key(key, code) && flag_of(key) == Some(flag),
            None => flag_of(key) is None,
        },
{
    let found: (u32, u64) = match key {
        0x36 => (126, FLAG_COMMAND),
        0x37 => (125, FLAG_COMMAND),
        0x38 => (42, FLAG_SHIFT),
        0x39 => (58, FLAG_CAPS_LOCK),
        0x3a => (56, FLAG_OPTION),
        0x3b => (29, FLAG_CONTROL),
        0x3c => (54, FLAG_SHIFT),
        0x3d => (100, FLAG_OPTION),
        0x3e => (97, FLAG_CONTROL),
        _ => return None,
    };
    Some(found)
}

/// Whether one of two keys is held.
pub open spec fn holds(held: Seq<u32>, left: u32, right: u32) -> bool {
    held.contains(left) || held.contains(right)
}

/// The modifiers that held keys make.
pub open spec fn modifier_mask(held: Seq<u32>) -> int {
    (if holds(held, 42, 54) {
        XKB_MOD_SHIFT as int
    } else {
        0
    }) + (if holds(held, 29, 97) {
        XKB_MOD_CONTROL as int
    } else {
        0
    }) + (if holds(held, 56, 100) {
        XKB_MOD_ALT as int
    } else {
        0
    }) + (if holds(held, 125, 126) {
        XKB_MOD_LOGO as int
    } else {
        0
    })
}

/// Whether one of two keys is held.
fn holds_one(held: &Vec<u32>, left: u32, right: u32) -> (found: bool)
    ensures
        found == holds(held@, left, right),
{
    let mut i: usize = 0;
    while i < held.len()
        invariant
            i <= held@.len(),
            forall|j: int| 0 <= j < i ==> #[trigger] held@[j] != left && held@[j] != right,
        decreases held@.len() - i,
    {
        if held[i] == left || held[i] == right {
            assert(held@.contains(held@[i as int]));
            return true;
        }
        i = i + 1;
    }
    false
}

/// The modifiers that held keys make.
pub fn modifiers(held: &Vec<u32>) -> (mask: u32)
    ensures
        mask == modifier_mask(held@),
{
    let mut mask: u32 = 0;
    if holds_one(held, 42, 54) {
        mask = mask + XKB_MOD_SHIFT;
    }
    if holds_one(held, 29, 97) {
        mask = mask + XKB_MOD_CONTROL;
    }
    if holds_one(held, 56, 100) {
        mask = mask + XKB_MOD_ALT;
    }
    if holds_one(held, 125, 126) {
        mask = mask + XKB_MOD_LOGO;
    }
    mask
}

/// The held keys without one.
pub open spec fn released(held: Seq<u32>, key: u32) -> Seq<u32>
    decreases held.len(),
{
    if held.len() == 0 {
        held
    } else if held.last() == key {
        released(held.drop_last(), key)
    } else {
        released(held.drop_last(), key).push(held.last())
    }
}

/// The held keys after a keyboard event. A key is held once.
pub open spec fn held_after(held: Seq<u32>, input: KeyboardInput) -> Seq<u32> {
    if input.state == 0 {
        released(held, input.key)
    } else if held.contains(input.key) {
        held
    } else {
        held.push(input.key)
    }
}

/// Whether a keyboard event says something new of the held keys.
pub open spec fn is_news(held: Seq<u32>, input: KeyboardInput) -> bool {
    input.state == 0 || !held.contains(input.key)
}

/// The keys that are held down on behalf of a peer.
#[derive(Debug, PartialEq, Eq)]
pub struct HeldKeys {
    pub keys: Vec<u32>,
}

impl HeldKeys {
    /// No key is held.
    pub fn new() -> (held: Self)
        ensures
            held.keys@ == Seq::<u32>::empty(),
    {
        HeldKeys { keys: Vec::new() }
    }

    /// Takes in a keyboard event and says whether it is news: any release, and a
    /// press of a key that was not held.
    pub fn apply(&mut self, input: KeyboardInput) -> (news: bool)
        ensures
            final(self).keys@ == held_after(old(self).keys@, input),
            news == is_news(old(self).keys@, input),
    {
        if input.state == 0 {
            let mut kept: Vec<u32> = Vec::new();
            let mut i: usize = 0;
            assert(self.keys@.take(0) =~= Seq::empty());
            assert(kept@ =~= released(self.keys@.take(0), input.key));
            while i < self.keys.len()
                invariant
                    i <= self.keys@.len(),
                    kept@ == released(self.keys@.take(i as int), input.key),
                decreases self.keys@.len() - i,
            {
                assert(self.keys@.take(i + 1).drop_last() =~= self.keys@.take(i as int));
                if self.keys[i] != input.key {
                    kept.push(self.keys[i]);
                }
                i = i + 1;
            }
            assert(self.keys@.take(i as int) =~= self.keys@);
            self.keys = kept;
            return true;
        }
        if holds_one(&self.keys, input.key, input.key) {
            return false;
        }
        self.keys.push(input.key);
        true
    }

    /// Lets all keys go and says which they were.
    pub fn release_all(&mut self) -> (keys: Vec<u32>)
        ensures
            keys@ == old(self).keys@,
            final(self).keys@ == Seq::<u32>::empty(),
    {
        let mut keys: Vec<u32> = Vec::new();
        std::mem::swap(&mut keys, &mut self.keys);
        keys
    }
}

/// A code of macOS is that of at most one key of Linux, and the other way round:
/// a key that is translated and translated back is the same key.
pub proof fn law_key_codes_translate_back(mac: u16, evdev: u32)
    requires
        same_key(mac, evdev),
    ensures
        forall|code: u32| #[trigger] same_key(mac, code) ==> code == evdev,
        forall|code: u16| #[trigger] same_key(code, evdev) ==> code == mac,
{
}

/// A key that was let go is not held.
pub proof fn law_released_key_is_not_held(held: Seq<u32>, key: u32)
    ensures
        !released(held, key).contains(key),
        forall|other: u32|
            other != key ==> (#[trigger] released(held, key).contains(other) <==> held.contains(
                other,
            )),
    decreases held.len(),
{
    if held.len() > 0 {
        let fewer = held.drop_last();
        law_released_key_is_not_held(fewer, key);
        let rest = released(fewer, key);
        let all = released(held, key);
        assert forall|other: u32| all.contains(other) == (other != key && held.contains(
            other,
        )) by {
            assert(held =~= fewer.push(held.last()));
            if held.contains(other) {
                let i = held.index_of(other);
                if i < fewer.len() {
                    assert(fewer[i] == other);
                }
            }
            if fewer.contains(other) {
                let i = fewer.index_of(other);
                assert(held[i] == other);
            }
            if held.last() != key {
                if all.contains(other) {
                    let i = all.index_of(other);
                    if i < rest.len() {
                        assert(rest[i] == other);
                    }
                }
                if rest.contains(other) {
                    let i = rest.index_of(other);
                    assert(all[i] == other);
                }
                assert(all[all.len() - 1] == held.last());
            }
            assert(held[held.len() - 1] == held.last());
        }
    }
}

/// No key is held twice.
pub proof fn law_keys_are_held_once(held: Seq<u32>, input: KeyboardInput)
    requires
        held.no_duplicates(),
    ensures
        held_after(held, input).no_duplicates(),
{
    if input.state == 0 {
        lemma_released_distinct(held, input.key);
    } else if !held.contains(input.key) {
        let after = held.push(input.key);
        assert forall|i: int, j: int|
            0 <= i < after.len() && 0 <= j < after.len() && i != j implies after[i] != after[j] by {
            if i < held.len() {
                assert(held.contains(held[i]));
            }
            if j < held.len() {
                assert(held.contains(held[j]));
            }
        }
    }
}

proof fn lemma_released_distinct(held: Seq<u32>, key: u32)
    requires
        held.no_duplicates(),
    ensures
        released(held, key).no_duplicates(),
    decreases held.len(),
{
    if held.len() > 0 {
        let fewer = held.drop_last();
        lemma_released_distinct(fewer, key);
        law_released_key_is_not_held(fewer, key);
        let rest = released(fewer, key);
        let last = held.last();
        if last != key {
            assert(!rest.contains(last)) by {
                if rest.contains(last) {
                    let i = fewer.index_of(last);
                    assert(held[i] == held[held.len() - 1]);
                }
            }
            let all = rest.push(last);
            assert forall|i: int, j: int|
                0 <= i < all.len() && 0 <= j < all.len() && i != j implies all[i] != all[j] by {
                if i < rest.len() {
                    assert(rest.contains(rest[i]));
                }
                if j < rest.len() {
                    assert(rest.contains(rest[j]));
                }
            }
        }
    }
}

/// The keys of a keyboard from left to right, row by row: Linux numbers the rows through,
/// macOS gives each key a code of its own. The numbers from 2 to 13, the top row of
/// letters from 16 to 27, the middle row from 30 to 41, the bottom row from 44 to 53.
pub proof fn law_rows_of_the_keyboard(i: int)
    ensures
        ({
            let numbers: Seq<u16> = seq![
                0x12, 0x13, 0x14, 0x15, 0x17, 0x16, 0x1a, 0x1c, 0x19, 0x1d, 0x1b, 0x18,
            ];
            let top: Seq<u16> = seq![
                0x0c, 0x0d, 0x0e, 0x0f, 0x11, 0x10, 0x20, 0x22, 0x1f, 0x23, 0x21, 0x1e,
            ];
            let middle: Seq<u16> = seq![
                0x00, 0x01, 0x02, 0x03, 0x05, 0x04, 0x26, 0x28, 0x25, 0x29, 0x27, 0x32,
            ];
            let bottom: Seq<u16> = seq![
                0x06, 0x07, 0x08, 0x09, 0x0b, 0x2d, 0x2e, 0x2b, 0x2f, 0x2c,
            ];
            &&& 0 <= i < 12 ==> same_key(numbers[i], (2 + i) as u32)
            &&& 0 <= i < 12 ==> same_key(top[i], (16 + i) as u32)
            &&& 0 <= i < 12 ==> same_key(middle[i], (30 + i) as u32)
            &&& 0 <= i < 10 ==> same_key(bottom[i], (44 + i) as u32)
        }),
{
}

/// The keys around the rows: escape, backspace, tabulator, enter, backslash and space, the
/// modifier keys on the left and on the right, and the arrows. There are no others.
pub proof fn law_keys_around_the_rows(mac: u16, evdev: u32)
    ensures
        same_key(0x35, 1) && same_key(0x33, 14) && same_key(0x30, 15) && same_key(0x24, 28)
            && same_key(0x2a, 43) && same_key(0x31, 57),
        same_key(0x3b, 29) && same_key(0x3e, 97),
        same_key(0x38, 42) && same_key(0x3c, 54),
        same_key(0x3a, 56) && same_key(0x3d, 100),
        same_key(0x37, 125) && same_key(0x36, 126),
        same_key(0x39, 58),
        same_key(0x7e, 103) && same_key(0x7b, 105) && same_key(0x7c, 106) && same_key(0x7d, 108),
        same_key(mac, evdev) ==> 1 <= evdev <= 54 || 56 <= evdev <= 58 || evdev == 97 || evdev
            == 100 || evdev == 103 || evdev == 105 || evdev == 106 || evdev == 108 || evdev == 125
            || evdev == 126,
{
}

/// The keys with a flag are the modifier keys, and the left and the right one of a kind
/// have the same: shift, control, option and command, and the caps lock key.
pub proof fn law_flags_of_the_modifier_keys(mac: u16)
    ensures
        flag_of(0x38) == Some(0x2_0000u64) && flag_of(0x3c) == Some(0x2_0000u64),
        flag_of(0x3b) == Some(0x4_0000u64) && flag_of(0x3e) == Some(0x4_0000u64),
        flag_of(0x3a) == Some(0x8_0000u64) && flag_of(0x3d) == Some(0x8_0000u64),
        flag_of(0x37) == Some(0x10_0000u64) && flag_of(0x36) == Some(0x10_0000u64),
        flag_of(0x39) == Some(0x1_0000u64),
        flag_of(mac) is Some <==> 0x36 <= mac <= 0x3e,
{
}

/// Each modifier is set exactly if its left or its right key is held: shift is the first
/// bit, control the third, alt the fourth and the logo key the seventh. There is no other.
pub proof fn law_modifiers_are_those_held(held: Seq<u32>)
    ensures
        modifier_mask(held) % 2 == 1 <==> held.contains(42) || held.contains(54),
        modifier_mask(held) / 4 % 2 == 1 <==> held.contains(29) || held.contains(97),
        modifier_mask(held) / 8 % 2 == 1 <==> held.contains(56) || held.contains(100),
        modifier_mask(held) / 64 % 2 == 1 <==> held.contains(125) || held.contains(126),
        modifier_mask(held) / 2 % 2 == 0,
        modifier_mask(held) / 16 % 4 == 0,
        0 <= modifier_mask(held) < 128,
{
}

/// A key that goes down is news once, and is held until it goes up; a key that goes up is
/// always news. Other keys stay as they are.
pub proof fn law_keys_go_down_and_up(held: Seq<u32>, key: u32, other: u32)
    requires
        other != key,
    ensures
        ({
            let down = KeyboardInput { key, state: 1 };
            let up = KeyboardInput { key, state: 0 };
            let pressed = held_after(held, down);
            let lifted = held_after(pressed, up);
            &&& pressed.contains(key)
            &&& !is_news(pressed, down)
            &&& is_news(held, down) <==> !held.contains(key)
            &&& is_news(held, up)
            &&& !lifted.contains(key)
            &&& pressed.contains(other) <==> held.contains(other)
            &&& lifted.contains(other) <==> held.contains(other)
        }),
{
    let down = KeyboardInput { key, state: 1 };
    let pressed = held_after(held, down);
    law_released_key_is_not_held(pressed, key);
    if !held.contains(key) {
        assert(pressed[pressed.len() - 1] == key);
        if held.contains(other) {
            let i = held.index_of(other);
            assert(pressed[i] == other);
        }
        if pressed.contains(other) {
            let i = pressed.index_of(other);
            assert(held[i] == other);
        }
    }
}

} // verus!
