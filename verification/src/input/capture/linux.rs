//! Input events as the Linux kernel writes them.

use vstd::prelude::*;

use crate::bytes;
use crate::input::capture::CaptureEvent;
use crate::input::protocol::KeyboardInput;

verus! {

/// A key or a button.
pub const EV_KEY: u16 = 1;

/// A relative motion.
pub const EV_REL: u16 = 2;

/// An absolute motion.
pub const EV_ABS: u16 = 3;

/// How the kernel writes an event: how many bytes the time in front of it takes,
/// and whether numbers start with their most significant byte.
#[derive(Clone, Copy, Debug, PartialEq, Eq, Structural)]
pub struct Layout {
    pub time_bytes: usize,
    pub big_endian: bool,
}

/// An event of an input device.
#[derive(Clone, Copy, Debug, PartialEq, Eq, Structural)]
pub struct LinuxInputEvent {
    pub kind: u16,
    pub code: u16,
    pub value: i32,
}

/// The number that bytes are.
pub open spec fn number(data: Seq<u8>, big_endian: bool) -> int {
    if big_endian {
        bytes::be_value(data) as int
    } else {
        bytes::be_value(data.reverse()) as int
    }
}

/// The number that bytes are, with a sign.
pub open spec fn signed(data: Seq<u8>, big_endian: bool) -> int {
    if number(data, big_endian) < 0x8000_0000 {
        number(data, big_endian)
    } else {
        number(data, big_endian) - 0x1_0000_0000
    }
}

/// How many bytes an event takes.
pub open spec fn event_bytes(layout: Layout) -> int {
    layout.time_bytes + 8
}

/// An event among others.
pub open spec fn event_at(buffer: Seq<u8>, layout: Layout, index: int) -> LinuxInputEvent {
    let at = index * event_bytes(layout) + layout.time_bytes;
    LinuxInputEvent {
        kind: number(buffer.subrange(at, at + 2), layout.big_endian) as u16,
        code: number(buffer.subrange(at + 2, at + 4), layout.big_endian) as u16,
        value: signed(buffer.subrange(at + 4, at + 8), layout.big_endian) as i32,
    }
}

/// What an event of an input device means: the device is used by anything that
/// is no release, and a key is used when it goes down or up.
pub open spec fn meaning(event: LinuxInputEvent) -> Seq<CaptureEvent> {
    (if (event.kind == EV_KEY || event.kind == EV_REL || event.kind == EV_ABS) && event.value != 0 {
        seq![CaptureEvent::LocalInput]
    } else {
        Seq::empty()
    }) + (if event.kind == EV_KEY && (event.value == 0 || event.value == 1) {
        seq![
            CaptureEvent::LocalKeyboard(
                KeyboardInput { key: event.code as u32, state: event.value as u32 },
            ),
        ]
    } else {
        Seq::empty()
    })
}

/// What the first events in a buffer mean.
pub open spec fn meanings(buffer: Seq<u8>, layout: Layout, n: int) -> Seq<CaptureEvent>
    decreases n,
{
    if n <= 0 {
        Seq::empty()
    } else {
        meanings(buffer, layout, n - 1) + meaning(event_at(buffer, layout, n - 1))
    }
}

/// A number of at most four bytes.
fn read_number(buffer: &[u8], from: usize, to: usize, big_endian: bool) -> (value: u64)
    requires
        from <= to <= buffer@.len(),
        to - from <= 4,
    ensures
        value == number(buffer@.subrange(from as int, to as int), big_endian),
        to - from == 2 ==> value < 0x1_0000,
        to - from == 4 ==> value < 0x1_0000_0000,
{
    let ghost data = buffer@.subrange(from as int, to as int);
    proof {
        bytes::lemma_spans();
        bytes::lemma_be_value_round_trip(data);
        bytes::lemma_be_value_round_trip(data.reverse());
    }
    if big_endian {
        return bytes::read_be(buffer, from, to);
    }
    let mut reversed: Vec<u8> = Vec::new();
    let mut i: usize = to;
    while i > from
        invariant
            from <= i <= to <= buffer@.len(),
            data == buffer@.subrange(from as int, to as int),
            reversed@.len() == to - i,
            forall|k: int| 0 <= k < to - i ==> #[trigger] reversed@[k] == data[to - from - 1 - k],
        decreases i,
    {
        i = i - 1;
        reversed.push(buffer[i]);
    }
    assert(reversed@ =~= data.reverse());
    assert(reversed@.subrange(0, reversed@.len() as int) =~= reversed@);
    bytes::read_be(reversed.as_slice(), 0, reversed.len())
}

/// An event at a place in a buffer.
fn read_event(buffer: &[u8], layout: Layout, at: usize) -> (event: LinuxInputEvent)
    requires
        at + 8 <= buffer@.len() <= usize::MAX,
    ensures
        event.kind == number(buffer@.subrange(at as int, at + 2), layout.big_endian),
        event.code == number(buffer@.subrange(at + 2, at + 4), layout.big_endian),
        event.value == signed(buffer@.subrange(at + 4, at + 8), layout.big_endian),
{
    let kind: u64 = read_number(buffer, at, at + 2, layout.big_endian);
    let code: u64 = read_number(buffer, at + 2, at + 4, layout.big_endian);
    let value: u64 = read_number(buffer, at + 4, at + 8, layout.big_endian);
    let value: i64 = if value < 0x8000_0000 {
        value as i64
    } else {
        value as i64 - 0x1_0000_0000
    };
    LinuxInputEvent { kind: kind as u16, code: code as u16, value: value as i32 }
}

/// What the events in a buffer mean. An event that is cut off is left out.
pub fn physical_inputs(buffer: &[u8], layout: Layout) -> (events: Vec<CaptureEvent>)
    requires
        event_bytes(layout) <= usize::MAX,
    ensures
        events@ == meanings(
            buffer@,
            layout,
            buffer@.len() as int / event_bytes(layout),
        ),
{
    let size: usize = layout.time_bytes + 8;
    let mut events: Vec<CaptureEvent> = Vec::new();
    let mut start: usize = 0;
    let ghost mut n: int = 0;
    assert(events@ =~= meanings(buffer@, layout, 0));
    while buffer.len() - start >= size
        invariant
            0 <= n,
            size == event_bytes(layout),
            event_bytes(layout) <= usize::MAX,
            start == n * size,
            start <= buffer@.len(),
            events@ == meanings(buffer@, layout, n),
        decreases buffer@.len() - start,
    {
        let event = read_event(buffer, layout, start + layout.time_bytes);
        let ghost before = events@;
        let used = (event.kind == EV_KEY || event.kind == EV_REL || event.kind == EV_ABS)
            && event.value != 0;
        if used {
            events.push(CaptureEvent::LocalInput);
        }
        if event.kind == EV_KEY && (event.value == 0 || event.value == 1) {
            events.push(
                CaptureEvent::LocalKeyboard(
                    KeyboardInput { key: event.code as u32, state: event.value as u32 },
                ),
            );
        }
        proof {
            assert(event == event_at(buffer@, layout, n));
            assert(events@ =~= before + meaning(event));
            assert((n + 1) * size == n * size + size) by (nonlinear_arith);
            n = n + 1;
        }
        start = start + size;
    }
    proof {
        let len = buffer@.len() as int;
        assert(n == len / (size as int)) by (nonlinear_arith)
            requires
                size > 0,
                n * size <= len,
                len - n * size < size,
                0 <= n,
        ;
    }
    events
}

/// An event of a device says that it is used exactly if it is a key, a motion or a place
/// that is not let go; a key or a button that goes down or up says which, in this order.
pub proof fn law_meaning_of_an_event(event: LinuxInputEvent)
    ensures
        ({
            let used = (event.kind == 1 || event.kind == 2 || event.kind == 3) && event.value != 0;
            let typed = event.kind == 1 && (event.value == 0 || event.value == 1);
            let said = CaptureEvent::LocalKeyboard(
                KeyboardInput { key: event.code as u32, state: event.value as u32 },
            );
            &&& used && typed ==> meaning(event) == seq![CaptureEvent::LocalInput, said]
            &&& used && !typed ==> meaning(event) == seq![CaptureEvent::LocalInput]
            &&& !used && typed ==> meaning(event) == seq![said]
            &&& !used && !typed ==> meaning(event).len() == 0
        }),
{
    let said = CaptureEvent::LocalKeyboard(
        KeyboardInput { key: event.code as u32, state: event.value as u32 },
    );
    let all = meaning(event);
    let used = (event.kind == 1 || event.kind == 2 || event.kind == 3) && event.value != 0;
    let typed = event.kind == 1 && (event.value == 0 || event.value == 1);
    if used && typed {
        assert(all =~= seq![CaptureEvent::LocalInput, said]);
    } else if used {
        assert(all =~= seq![CaptureEvent::LocalInput]);
    } else if typed {
        assert(all =~= seq![said]);
    }
}

/// The bytes of an event, with its time in front.
pub open spec fn written(event: LinuxInputEvent, time: Seq<u8>, big_endian: bool) -> Seq<u8> {
    let value = if event.value >= 0 {
        event.value as int
    } else {
        event.value + 0x1_0000_0000
    };
    let order = |data: Seq<u8>|
        if big_endian {
            data
        } else {
            data.reverse()
        };
    time + order(bytes::be(event.kind as nat, 2)) + order(bytes::be(event.code as nat, 2)) + order(
        bytes::be(value as nat, 4),
    )
}

proof fn lemma_number(value: nat, len: nat, big_endian: bool)
    requires
        value < bytes::span(len),
    ensures
        ({
            let data = if big_endian {
                bytes::be(value, len)
            } else {
                bytes::be(value, len).reverse()
            };
            data.len() == len && number(data, big_endian) == value
        }),
{
    bytes::lemma_be_len(value, len);
    bytes::lemma_be_round_trip(value, len);
    let data = bytes::be(value, len);
    assert(data.reverse().reverse() =~= data);
}

/// An event is read as the one that the kernel wrote, in either order of bytes, whatever its
/// time is and whatever stands behind it.
pub proof fn law_written_event_is_read(
    event: LinuxInputEvent,
    time: Seq<u8>,
    rest: Seq<u8>,
    layout: Layout,
)
    requires
        time.len() == layout.time_bytes,
    ensures
        event_at(written(event, time, layout.big_endian) + rest, layout, 0) == event,
        written(event, time, layout.big_endian).len() == event_bytes(layout),
{
    bytes::lemma_spans();
    let value = if event.value >= 0 {
        event.value as int
    } else {
        event.value + 0x1_0000_0000
    };
    reveal_with_fuel(bytes::span, 5);
    assert(bytes::span(2) == 65_536);
    assert(bytes::span(4) == 0x1_0000_0000);
    lemma_number(event.kind as nat, 2, layout.big_endian);
    lemma_number(event.code as nat, 2, layout.big_endian);
    lemma_number(value as nat, 4, layout.big_endian);
    let all = written(event, time, layout.big_endian) + rest;
    let n = time.len() as int;
    let order = |data: Seq<u8>|
        if layout.big_endian {
            data
        } else {
            data.reverse()
        };
    bytes::lemma_be_len(event.kind as nat, 2);
    bytes::lemma_be_len(event.code as nat, 2);
    bytes::lemma_be_len(value as nat, 4);
    assert(0 * event_bytes(layout) == 0);
    assert(all.subrange(n, n + 2) =~= order(bytes::be(event.kind as nat, 2)));
    assert(all.subrange(n + 2, n + 4) =~= order(bytes::be(event.code as nat, 2)));
    assert(all.subrange(n + 4, n + 8) =~= order(bytes::be(value as nat, 4)));
}

/// The events in a buffer mean what each of them means, in their order.
pub proof fn law_events_are_read_in_order(buffer: Seq<u8>, layout: Layout, n: int)
    requires
        n >= 0,
    ensures
        meanings(buffer, layout, n + 1) == meanings(buffer, layout, n) + meaning(
            event_at(buffer, layout, n),
        ),
        meanings(buffer, layout, 0).len() == 0,
{
}

} // verus!
