use vstd::prelude::*;

verus! {

/// Which of the two status LEDs produced an edge.
#[derive(Clone, Copy, PartialEq, Eq, Structural, Debug)]
pub enum Channel {
    Red,
    Green,
}

impl Channel {
    /// The bit this channel occupies in a two-bit LED state word
    /// (bit 0 = red, bit 1 = green).
    pub open spec fn spec_bit(self) -> u8 {
        match self {
            Channel::Red => 0b01,
            Channel::Green => 0b10,
        }
    }

    pub fn bit(self) -> (r: u8)
        ensures
            r == self.spec_bit(),
    {
        match self {
            Channel::Red => 0b01,
            Channel::Green => 0b10,
        }
    }
}

/// A single edge on one LED line, as delivered by the capture layer.
///
/// Raw events arrive in non-decreasing timestamp order; edges of the two
/// channels may interleave arbitrarily.
#[derive(Clone, Copy, PartialEq, Eq, Structural, Debug)]
pub struct RawEvent {
    pub channel: Channel,
    /// Monotonic time of the edge, in milliseconds.
    pub timestamp: u64,
    /// True if the line is now high (LED on), false if it is now low.
    pub level: bool,
}

/// A two-channel snapshot of the LED state at one instant.
///
/// While coalescing is in progress `mask` records which channel bits of
/// `state` carry information; once coalescing completes every entry has
/// `mask == 0b11` and `timestamp` relative to the first entry.
#[derive(Clone, Copy, PartialEq, Eq, Structural, Debug)]
pub struct CoalescedEvent {
    /// Milliseconds; absolute while merging, relative to the first entry
    /// in the final output.
    pub timestamp: u64,
    /// Which bits of `state` are backed by an observed edge.
    pub mask: u8,
    /// Two-bit LED state: bit 0 = red on, bit 1 = green on.
    pub state: u8,
}

/// The seed entry for one raw edge: only that edge's channel bit is known.
pub open spec fn spec_entry_of_raw(e: RawEvent) -> CoalescedEvent {
    CoalescedEvent {
        timestamp: e.timestamp,
        mask: e.channel.spec_bit(),
        state: if e.level { e.channel.spec_bit() } else { 0 },
    }
}

pub fn entry_of_raw(e: RawEvent) -> (r: CoalescedEvent)
    ensures
        r == spec_entry_of_raw(e),
{
    CoalescedEvent {
        timestamp: e.timestamp,
        mask: e.channel.bit(),
        state: if e.level { e.channel.bit() } else { 0 },
    }
}

/// Raw event timestamps never decrease.
pub open spec fn raw_sorted(s: Seq<RawEvent>) -> bool {
    forall|i: int, j: int|
        0 <= i <= j < s.len() ==> #[trigger] s[i].timestamp <= #[trigger] s[j].timestamp
}

/// Coalesced entry timestamps never decrease.
pub open spec fn entries_sorted(s: Seq<CoalescedEvent>) -> bool {
    forall|i: int, j: int|
        0 <= i <= j < s.len() ==> #[trigger] s[i].timestamp <= #[trigger] s[j].timestamp
}

} // verus!
