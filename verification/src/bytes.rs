//! Byte strings: big-endian numbers and concatenation.

use vstd::prelude::*;

verus! {

/// A number in big-endian order, in as many bytes as asked for. What does not
/// fit is cut off at the front.
pub open spec fn be(value: nat, len: nat) -> Seq<u8>
    decreases len,
{
    if len == 0 {
        Seq::empty()
    } else {
        be(value / 256, (len - 1) as nat).push((value % 256) as u8)
    }
}

/// The number that a byte string is in big-endian order.
pub open spec fn be_value(bytes: Seq<u8>) -> nat
    decreases bytes.len(),
{
    if bytes.len() == 0 {
        0
    } else {
        be_value(bytes.drop_last()) * 256 + bytes.last() as nat
    }
}

/// How many numbers fit in a number of bytes.
pub open spec fn span(len: nat) -> nat
    decreases len,
{
    if len == 0 {
        1
    } else {
        span((len - 1) as nat) * 256
    }
}

pub proof fn lemma_be_len(value: nat, len: nat)
    ensures
        be(value, len).len() == len,
    decreases len,
{
    if len > 0 {
        lemma_be_len(value / 256, (len - 1) as nat);
    }
}

/// A number that fits is read back as it was written.
pub proof fn lemma_be_round_trip(value: nat, len: nat)
    requires
        value < span(len),
    ensures
        be_value(be(value, len)) == value,
    decreases len,
{
    if len > 0 {
        let shorter = (len - 1) as nat;
        assert(value / 256 < span(shorter)) by (nonlinear_arith)
            requires
                value < span(shorter) * 256,
        ;
        lemma_be_round_trip(value / 256, shorter);
        assert(be(value, len).drop_last() =~= be(value / 256, shorter));
    }
}

/// What is written of a number that was read is what it was read from.
pub proof fn lemma_be_value_round_trip(bytes: Seq<u8>)
    ensures
        be_value(bytes) < span(bytes.len()),
        be(be_value(bytes), bytes.len()) == bytes,
    decreases bytes.len(),
{
    if bytes.len() > 0 {
        lemma_be_value_round_trip(bytes.drop_last());
        let front = be_value(bytes.drop_last());
        assert((front * 256 + bytes.last() as nat) / 256 == front);
        assert((front * 256 + bytes.last() as nat) % 256 == bytes.last() as nat);
        assert(bytes.drop_last().push(bytes.last()) =~= bytes);
    } else {
        assert(bytes =~= Seq::empty());
    }
}

pub proof fn lemma_spans()
    ensures
        span(1) == 0x100,
        span(2) == 0x1_0000,
        span(4) == 0x1_0000_0000,
        span(8) == 0x1_0000_0000_0000_0000,
{
    reveal_with_fuel(span, 9);
}

/// Adds a byte string to another.
pub fn append(out: &mut Vec<u8>, bytes: &[u8])
    ensures
        final(out)@ == old(out)@ + bytes@,
{
    let ghost before = out@;
    let mut i: usize = 0;
    assert(before + bytes@.take(0) =~= before);
    while i < bytes.len()
        invariant
            i <= bytes.len(),
            out@ == before + bytes@.take(i as int),
        decreases bytes.len() - i,
    {
        out.push(bytes[i]);
        proof {
            assert(before + bytes@.take(i + 1) =~= (before + bytes@.take(i as int)).push(
                bytes@[i as int],
            ));
        }
        i = i + 1;
    }
    assert(bytes@.take(bytes@.len() as int) =~= bytes@);
}

/// Adds a number to a byte string, in eight bytes.
pub fn append_u64(out: &mut Vec<u8>, value: u64)
    ensures
        final(out)@ == old(out)@ + be(value as nat, 8),
        be(value as nat, 8).len() == 8,
{
    let bytes = u64_bytes(value);
    proof {
        lemma_be_len(value as nat, 8);
    }
    append(out, bytes.as_slice());
}

/// Adds a number to a byte string, in four bytes.
pub fn append_u32(out: &mut Vec<u8>, value: u32)
    ensures
        final(out)@ == old(out)@ + be(value as nat, 4),
        be(value as nat, 4).len() == 4,
{
    let ghost before = out@;
    proof {
        reveal_with_fuel(be, 5);
        lemma_be_len(value as nat, 4);
    }
    out.push((value / 0x100_0000 % 256) as u8);
    out.push((value / 0x1_0000 % 256) as u8);
    out.push((value / 0x100 % 256) as u8);
    out.push((value % 256) as u8);
    proof {
        let v = value as nat;
        assert(v / 256 / 256 == v / 0x1_0000);
        assert(v / 256 / 256 / 256 == v / 0x100_0000);
        assert(out@ =~= before + be(v, 4));
    }
}

/// A number in eight bytes, big-endian.
pub fn u64_bytes(value: u64) -> (bytes: Vec<u8>)
    ensures
        bytes@ == be(value as nat, 8),
{
    proof {
        reveal_with_fuel(be, 9);
        let v = value as nat;
        assert(v / 256 / 256 == v / 0x1_0000);
        assert(v / 256 / 256 / 256 == v / 0x100_0000);
        assert(v / 256 / 256 / 256 / 256 == v / 0x1_0000_0000);
        assert(v / 256 / 256 / 256 / 256 / 256 == v / 0x100_0000_0000);
        assert(v / 256 / 256 / 256 / 256 / 256 / 256 == v / 0x1_0000_0000_0000);
        assert(v / 256 / 256 / 256 / 256 / 256 / 256 / 256 == v / 0x100_0000_0000_0000);
    }
    let mut bytes: Vec<u8> = Vec::new();
    bytes.push((value / 0x100_0000_0000_0000 % 256) as u8);
    bytes.push((value / 0x1_0000_0000_0000 % 256) as u8);
    bytes.push((value / 0x100_0000_0000 % 256) as u8);
    bytes.push((value / 0x1_0000_0000 % 256) as u8);
    bytes.push((value / 0x100_0000 % 256) as u8);
    bytes.push((value / 0x1_0000 % 256) as u8);
    bytes.push((value / 0x100 % 256) as u8);
    bytes.push((value % 256) as u8);
    assert(bytes@ =~= be(value as nat, 8));
    bytes
}

/// An identifier in sixteen bytes, big-endian.
pub fn u128_bytes(value: u128) -> (bytes: Vec<u8>)
    ensures
        bytes@ == be(value as nat, 16),
        bytes@.len() == 16,
{
    let mut bytes: Vec<u8> = Vec::new();
    let mut rest: u128 = value;
    let mut i: usize = 0;
    proof {
        lemma_be_len(value as nat, 16);
        assert(be(value as nat, 16) + bytes@ =~= be(value as nat, 16));
    }
    while i < 16
        invariant
            i <= 16,
            be(rest as nat, (16 - i) as nat) + bytes@ == be(value as nat, 16),
        decreases 16 - i,
    {
        let ghost tail = bytes@;
        let low: u8 = (rest % 256) as u8;
        bytes.insert(0, low);
        proof {
            let n = (16 - i) as nat;
            let v = rest as nat;
            assert(be(v, n) == be(v / 256, (n - 1) as nat).push((v % 256) as u8));
            assert(be(v, n) + tail =~= be(v / 256, (n - 1) as nat) + bytes@);
        }
        rest = rest / 256;
        i = i + 1;
    }
    proof {
        assert(be(rest as nat, 0) + bytes@ =~= bytes@);
        lemma_be_len(value as nat, 16);
    }
    bytes
}

/// The number that the bytes from one place to another are in big-endian
/// order.
pub fn read_be(bytes: &[u8], from: usize, to: usize) -> (value: u64)
    requires
        from <= to <= bytes@.len(),
        to - from <= 8,
    ensures
        value == be_value(bytes@.subrange(from as int, to as int)),
{
    let mut value: u64 = 0;
    let mut i: usize = from;
    proof {
        lemma_spans();
    }
    while i < to
        invariant
            from <= i <= to <= bytes@.len(),
            to - from <= 8,
            value == be_value(bytes@.subrange(from as int, i as int)),
        decreases to - i,
    {
        proof {
            let part = bytes@.subrange(from as int, i + 1);
            assert(part.drop_last() =~= bytes@.subrange(from as int, i as int));
            lemma_be_value_round_trip(part);
            lemma_span_monotonic(part.len(), 8);
            lemma_spans();
        }
        value = value * 256 + bytes[i] as u64;
        i = i + 1;
    }
    value
}

pub proof fn lemma_span_monotonic(a: nat, b: nat)
    requires
        a <= b,
    ensures
        1 <= span(a) <= span(b),
    decreases b,
{
    if a < b {
        lemma_span_monotonic(a, (b - 1) as nat);
    } else if a > 0 {
        lemma_span_monotonic((a - 1) as nat, (a - 1) as nat);
    }
}

} // verus!
