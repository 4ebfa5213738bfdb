use vstd::prelude::*;

use crate::events::CoalescedEvent;

verus! {

/// The operating state the CFF3000 receiver reports through its two
/// status LEDs.
#[derive(Clone, Copy, PartialEq, Eq, Structural, Debug)]
pub enum CFF3000State {
    /// The door is locked (green LED on).
    Locked,
    /// The door is unlocked (red LED on).
    Unlocked,
    /// The door state has been changed manually (both LEDs blink
    /// synchronously).
    Manual,
    /// The remote cannot reach the receiver (the LEDs blink
    /// alternately).
    OutOfRange,
}

/// Why a coalesced capture could not be decoded into a device state.
#[derive(Clone, Copy, PartialEq, Eq, Structural, Debug)]
pub enum DecodeError {
    /// Fewer than three coalesced entries were captured.
    InsufficientEvents,
    /// The first entry's state is not both-LEDs-on.
    InvalidStart,
    /// The last entry's state is not both-LEDs-off.
    InvalidEnd,
    /// The discriminating entry (the middle one of a three-entry
    /// capture, or entry 1 of a longer one) has an unrecognized value.
    InvalidState,
    /// A later blink tick breaks the established synchronous or
    /// alternating pattern.
    InvalidSubstate,
}

/// A blink tick of the synchronous (manual) pattern is valid when its
/// predecessor's two LED bits are the exact two-bit complement of its
/// own: both LEDs flip together.
pub open spec fn manual_step_ok(s: Seq<CoalescedEvent>, i: int) -> bool {
    s[i - 1].state & 0b11 == !s[i].state & 0b11
}

/// A blink tick of the alternating (out-of-range) pattern is valid
/// when exactly one LED is lit, and its predecessor's state does not
/// equal its own two-bit complement (which would mean the sequence
/// degenerated into the synchronous pattern).
pub open spec fn out_of_range_step_ok(s: Seq<CoalescedEvent>, i: int) -> bool {
    &&& s[i].state != 0b00
    &&& s[i].state != 0b11
    &&& !(s[i - 1].state & 0b11 == !s[i - 1].state & 0b11)
}

/// Every inner blink tick follows the synchronous pattern.
pub open spec fn manual_walk_ok(s: Seq<CoalescedEvent>) -> bool {
    forall|i: int| 2 <= i <= s.len() - 2 ==> #[trigger] manual_step_ok(s, i)
}

/// Every inner blink tick follows the alternating pattern.
pub open spec fn out_of_range_walk_ok(s: Seq<CoalescedEvent>) -> bool {
    forall|i: int| 2 <= i <= s.len() - 2 ==> #[trigger] out_of_range_step_ok(s, i)
}

/// What classification returns for any coalesced sequence: the
/// structural checks in order, then either the single-transition
/// reading (exactly three entries) or the blink-pattern reading (more
/// than three), which fails on the first inconsistent tick.
pub open spec fn spec_classify(s: Seq<CoalescedEvent>) -> Result<CFF3000State, DecodeError> {
    if s.len() < 3 {
        Err(DecodeError::InsufficientEvents)
    } else if s[0].state != 0b11 {
        Err(DecodeError::InvalidStart)
    } else if s[s.len() - 1].state != 0b00 {
        Err(DecodeError::InvalidEnd)
    } else if s.len() == 3 {
        if s[1].state == 0b10 {
            Ok(CFF3000State::Locked)
        } else if s[1].state == 0b01 {
            Ok(CFF3000State::Unlocked)
        } else {
            Err(DecodeError::InvalidState)
        }
    } else if s[1].state == 0b00 {
        if manual_walk_ok(s) {
            Ok(CFF3000State::Manual)
        } else {
            Err(DecodeError::InvalidSubstate)
        }
    } else if s[1].state == 0b01 || s[1].state == 0b10 {
        if out_of_range_walk_ok(s) {
            Ok(CFF3000State::OutOfRange)
        } else {
            Err(DecodeError::InvalidSubstate)
        }
    } else {
        Err(DecodeError::InvalidState)
    }
}

/// Validate a coalesced snapshot sequence's shape and map it to a
/// device state, or reject it with the first violation found.
pub fn classify(events: &Vec<CoalescedEvent>) -> (r: Result<CFF3000State, DecodeError>)
    ensures
        r == spec_classify(events@),
{
    let n: usize = events.len();
    if n < 3 {
        return Err(DecodeError::InsufficientEvents);
    }
    if events[0].state != 0b11 {
        return Err(DecodeError::InvalidStart);
    }
    if events[n - 1].state != 0b00 {
        return Err(DecodeError::InvalidEnd);
    }
    if n == 3 {
        if events[1].state == 0b10 {
            Ok(CFF3000State::Locked)
        } else if events[1].state == 0b01 {
            Ok(CFF3000State::Unlocked)
        } else {
            Err(DecodeError::InvalidState)
        }
    } else {
        let manual: bool;
        if events[1].state == 0b00 {
            manual = true;
        } else if events[1].state == 0b01 || events[1].state == 0b10 {
            manual = false;
        } else {
            return Err(DecodeError::InvalidState);
        }
        let mut i: usize = 2;
        while i < n - 1
            invariant
                2 <= i <= n - 1,
                3 < n == events@.len(),
                events@[0].state == 0b11,
                events@[n - 1].state == 0b00,
                manual ==> events@[1].state == 0b00,
                !manual ==> (events@[1].state == 0b01 || events@[1].state == 0b10),
                manual ==> forall|j: int| 2 <= j < i ==> #[trigger] manual_step_ok(events@, j),
                !manual ==> forall|j: int|
                    2 <= j < i ==> #[trigger] out_of_range_step_ok(events@, j),
            decreases n - 1 - i,
        {
            if manual {
                if !(events[i - 1].state & 0b11 == !events[i].state & 0b11) {
                    proof {
                        assert(!manual_step_ok(events@, i as int));
                    }
                    return Err(DecodeError::InvalidSubstate);
                }
            } else {
                if events[i].state == 0b00 || events[i].state == 0b11 {
                    proof {
                        assert(!out_of_range_step_ok(events@, i as int));
                    }
                    return Err(DecodeError::InvalidSubstate);
                }
                if events[i - 1].state & 0b11 == !events[i - 1].state & 0b11 {
                    proof {
                        assert(!out_of_range_step_ok(events@, i as int));
                    }
                    return Err(DecodeError::InvalidSubstate);
                }
            }
            i = i + 1;
        }
        if manual {
            Ok(CFF3000State::Manual)
        } else {
            Ok(CFF3000State::OutOfRange)
        }
    }
}

/// Classification is total on structurally valid input: a sequence
/// with at least three entries, a both-on start and a both-off end is
/// always read as a device state or rejected as `InvalidState` or
/// `InvalidSubstate` — never as a structural error, and never left
/// unclassified.
pub proof fn lemma_classify_total(s: Seq<CoalescedEvent>)
    requires
        s.len() >= 3,
        s[0].state == 0b11,
        s[s.len() - 1].state == 0b00,
    ensures
        spec_classify(s) matches Ok(_) || spec_classify(s) == Err::<CFF3000State, DecodeError>(
            DecodeError::InvalidState,
        ) || spec_classify(s) == Err::<CFF3000State, DecodeError>(DecodeError::InvalidSubstate),
{
}

} // verus!
