//! Decoder for the LED status pattern of a CFF3000 door-lock receiver.
//!
//! The receiver reports its state only through two status LEDs.  This
//! crate turns a captured, timestamped stream of per-channel edge events
//! into one of four device states: near-simultaneous edges are merged
//! into two-channel snapshots ([`coalesce`]), and the snapshot sequence
//! is validated and classified ([`classify`]).  Capturing the edges and
//! driving the control lines is I/O and lives outside this crate.

use vstd::prelude::*;

pub mod classify;
pub mod coalesce;
pub mod events;

pub use classify::CFF3000State;
pub use classify::DecodeError;
pub use classify::classify;
pub use coalesce::coalesce;
pub use events::Channel;
pub use events::CoalescedEvent;
pub use events::RawEvent;

verus! {

/// The default merge window: raw edges closer than this to their
/// predecessor are taken as one simultaneous transition.
pub const DEFAULT_WINDOW_MS: u64 = 50;

/// What decoding one captured session returns: the classification of
/// the coalesced edge stream.
pub open spec fn spec_decode(raw: Seq<RawEvent>, window_ms: u64) -> Result<
    CFF3000State,
    DecodeError,
> {
    classify::spec_classify(coalesce::spec_coalesce(raw, window_ms))
}

/// Decode one captured session: coalesce the raw edge stream with the
/// given merge window, then classify the resulting snapshot sequence.
pub fn decode(events: &Vec<RawEvent>, window_ms: u64) -> (r: Result<CFF3000State, DecodeError>)
    requires
        events@.len() >= 1,
        events::raw_sorted(events@),
    ensures
        r == spec_decode(events@, window_ms),
{
    let entries = coalesce::coalesce(events, window_ms);
    classify::classify(&entries)
}

/// A CFF3000 remote wired to a GPIO character device: the chip device
/// path and the line offsets for LED red, LED green, button unlock and
/// button lock, in this order.  Opening the lines and capturing edges
/// is I/O and happens outside this crate; this type is the validated
/// description both sides share.
pub struct CFF3000 {
    pub chipdev: String,
    pub gpios: [u32; 4],
}

impl CFF3000 {
    /// Describe a CFF3000 device.  `chipdev` should be something like
    /// "/dev/gpiochip0" and `gpios` should contain the line offsets
    /// for LED red, LED green, button unlock and button lock (in this
    /// order).
    pub fn new(chipdev: &str, gpios: [u32; 4]) -> (r: CFF3000)
        ensures
            r.chipdev@ == chipdev@,
            r.gpios == gpios,
    {
        CFF3000 { chipdev: chipdev.to_owned(), gpios }
    }
}

} // verus!
