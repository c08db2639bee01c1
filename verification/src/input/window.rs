//! The replay window: accepts each sequence number at most once.

use vstd::prelude::*;

verus! {

/// Which sequence numbers were accepted: the highest, and a bit for each of the
/// 64 numbers up to it.
#[derive(Clone, Copy, Debug, PartialEq, Eq, Structural)]
pub struct Window {
    pub highest: u64,
    pub bits: u64,
}

impl Window {
    /// Whether the bit of a sequence number is set.
    pub open spec fn marked(self, sequence: u64) -> bool {
        sequence <= self.highest && self.highest - sequence < 64 && (self.bits >> ((self.highest
            - sequence) as u64)) & 1 == 1
    }

    /// Whether a sequence number will be accepted: it is not zero, not too old,
    /// and was not accepted before.
    pub open spec fn accepts(self, sequence: u64) -> bool {
        sequence != 0 && (sequence > self.highest || (self.highest - sequence < 64
            && !self.marked(sequence)))
    }

    /// The window once a sequence number was offered to it.
    pub open spec fn offered(self, sequence: u64) -> Window {
        if !self.accepts(sequence) {
            self
        } else if sequence > self.highest {
            Window {
                highest: sequence,
                bits: if sequence - self.highest >= 64 {
                    1
                } else {
                    (self.bits << ((sequence - self.highest) as u64)) | 1
                },
            }
        } else {
            Window {
                highest: self.highest,
                bits: self.bits | (1u64 << ((self.highest - sequence) as u64)),
            }
        }
    }

    /// The window once a run of sequence numbers was offered to it.
    pub open spec fn after(self, sequences: Seq<u64>) -> Window
        decreases sequences.len(),
    {
        if sequences.len() == 0 {
            self
        } else {
            self.after(sequences.drop_last()).offered(sequences.last())
        }
    }
}

/// Accepts a sequence number, once.
pub fn accept_sequence(highest: &mut u64, window: &mut u64, sequence: u64) -> (accepted: bool)
    ensures
        ({
            let before = Window { highest: *old(highest), bits: *old(window) };
            &&& accepted == before.accepts(sequence)
            &&& (Window { highest: *final(highest), bits: *final(window) }) == before.offered(
                sequence,
            )
        }),
{
    if sequence == 0 {
        return false;
    }
    if sequence > *highest {
        let shift: u64 = sequence - *highest;
        *window = if shift >= 64 {
            1
        } else {
            (*window << shift) | 1
        };
        *highest = sequence;
        return true;
    }
    let age: u64 = *highest - sequence;
    if age >= 64 {
        return false;
    }
    let bits: u64 = *window;
    proof {
        assert(((bits & (1u64 << age)) != 0) == ((bits >> age) & 1 == 1)) by (bit_vector)
            requires
                age < 64,
        ;
    }
    if bits & (1u64 << age) != 0 {
        return false;
    }
    *window = bits | (1u64 << age);
    true
}

/// Offering a number marks it if it is accepted, and leaves every other number
/// of the new window as it was.
pub proof fn lemma_offer_marks_one(window: Window, sequence: u64, other: u64)
    requires
        window.accepts(sequence),
    ensures
        window.offered(sequence).highest >= window.highest,
        window.offered(sequence).highest >= sequence,
        window.offered(sequence).marked(sequence),
        other != sequence && other <= window.highest && window.offered(sequence).highest - other
            < 64 ==> window.offered(sequence).marked(other) == window.marked(other),
        other > window.highest && other != sequence ==> !window.offered(sequence).marked(other),
{
    let next = window.offered(sequence);
    let bits = window.bits;
    if sequence > window.highest {
        let wide = sequence - window.highest;
        let fresh = next.bits;
        assert(1u64 & 1 == 1) by (bit_vector);
        if wide >= 64 {
            assert(fresh == 1u64);
            assert((1u64 >> 0u64) & 1 == 1) by (bit_vector);
            if other <= next.highest && next.highest - other < 64 && other != sequence {
                let age = (next.highest - other) as u64;
                assert((1u64 >> age) & 1 == 0) by (bit_vector)
                    requires
                        0 < age < 64,
                ;
            }
        } else {
            let shift = wide as u64;
            assert(fresh == (bits << shift) | 1);
            assert((((bits << shift) | 1) >> 0u64) & 1 == 1) by (bit_vector);
            if other <= next.highest && next.highest - other < 64 && other != sequence {
                let age = (next.highest - other) as u64;
                if other <= window.highest {
                    let before = (age - shift) as u64;
                    assert(before == window.highest - other);
                    assert((((bits << shift) | 1) >> age) & 1 == (bits >> before) & 1)
                        by (bit_vector)
                        requires
                            0 < shift < 64,
                            age < 64,
                            before < 64,
                            age == before + shift,
                    ;
                } else {
                    assert((((bits << shift) | 1) >> age) & 1 == 0) by (bit_vector)
                        requires
                            0 < age < shift,
                            shift < 64,
                    ;
                }
            }
        }
    } else {
        let place = (window.highest - sequence) as u64;
        assert(((bits | (1u64 << place)) >> place) & 1 == 1) by (bit_vector)
            requires
                place < 64,
        ;
        if other <= window.highest && window.highest - other < 64 && other != sequence {
            let age = (window.highest - other) as u64;
            assert(((bits | (1u64 << place)) >> age) & 1 == (bits >> age) & 1) by (bit_vector)
                requires
                    place < 64,
                    age < 64,
                    place != age,
            ;
        }
    }
}

/// A number that is not accepted now is never accepted later, whatever else is
/// offered.
proof fn lemma_refused_forever(window: Window, sequence: u64, sequences: Seq<u64>)
    requires
        !window.accepts(sequence),
    ensures
        !window.after(sequences).accepts(sequence),
    decreases sequences.len(),
{
    if sequences.len() > 0 {
        lemma_refused_forever(window, sequence, sequences.drop_last());
        let before = window.after(sequences.drop_last());
        if before.accepts(sequences.last()) {
            lemma_offer_marks_one(before, sequences.last(), sequence);
        }
    }
}

/// A sequence number that was accepted is never accepted again, whatever is
/// offered in between.
pub proof fn law_sequence_is_accepted_once(window: Window, sequence: u64, between: Seq<u64>)
    requires
        window.accepts(sequence),
    ensures
        !window.offered(sequence).after(between).accepts(sequence),
{
    lemma_offer_marks_one(window, sequence, sequence);
    lemma_refused_forever(window.offered(sequence), sequence, between);
}

/// Packets may come in any order: one that is at most 63 behind the highest
/// accepted so far is accepted if it was not before.
pub proof fn law_reordered_sequence_is_accepted(window: Window, sequence: u64, ahead: u64)
    requires
        window.accepts(sequence),
        window.accepts(ahead),
        sequence < ahead,
        ahead - sequence < 64,
    ensures
        window.offered(ahead).accepts(sequence),
{
    lemma_offer_marks_one(window, ahead, sequence);
}

/// A sequence number is accepted that is above all before it, or at most 63 below the
/// highest and new; zero is not, nor one that is further behind.
pub proof fn law_window_reaches_back_63(window: Window, sequence: u64)
    ensures
        !window.accepts(0),
        sequence > window.highest ==> window.accepts(sequence),
        sequence > window.highest ==> window.offered(sequence).highest == sequence,
        sequence <= window.highest ==> window.offered(sequence).highest == window.highest,
        sequence <= window.highest && window.highest - sequence > 63 ==> !window.accepts(sequence),
        sequence > 0 ==> (Window { highest: 0, bits: 0 }).accepts(sequence),
        !window.accepts(sequence) ==> window.offered(sequence) == window,
{
}

} // verus!
