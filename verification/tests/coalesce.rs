use cff3000::Channel;
use cff3000::CoalescedEvent;
use cff3000::RawEvent;
use cff3000::coalesce;
use cff3000::coalesce::merge_window;
use cff3000::coalesce::resolve_states;

fn red(timestamp: u64, level: bool) -> RawEvent {
    RawEvent { channel: Channel::Red, timestamp, level }
}

fn green(timestamp: u64, level: bool) -> RawEvent {
    RawEvent { channel: Channel::Green, timestamp, level }
}

fn entry(timestamp: u64, mask: u8, state: u8) -> CoalescedEvent {
    CoalescedEvent { timestamp, mask, state }
}

#[test]
fn close_pair_merges_into_one_entry() {
    // RED rising@0 and GREEN rising@10: delta 10 < 50, one entry {t=0, state=0b11}.
    let raw = vec![red(0, true), green(10, true)];
    let out = coalesce(&raw, 50);
    assert_eq!(out, vec![entry(0, 0b11, 0b11)]);
}

#[test]
fn pair_at_window_boundary_stays_separate() {
    // Delta exactly 50 is not inside the strictly-less-than window.
    let raw = vec![red(0, true), green(50, true)];
    let out = coalesce(&raw, 50);
    assert_eq!(out.len(), 2);
    assert_eq!(out[0], entry(0, 0b11, 0b01));
    assert_eq!(out[1], entry(50, 0b11, 0b11));
}

#[test]
fn pair_just_inside_window_merges() {
    let raw = vec![red(0, true), green(49, true)];
    let out = coalesce(&raw, 50);
    assert_eq!(out, vec![entry(0, 0b11, 0b11)]);
}

#[test]
fn merge_window_chains_over_consecutive_raw_gaps() {
    // Each edge is within 50ms of its raw predecessor, so all three
    // join one entry even though the last is 80ms after the first.
    let raw = vec![red(0, true), green(40, true), red(80, false)];
    let out = coalesce(&raw, 50);
    assert_eq!(out, vec![entry(0, 0b11, 0b10)]);
}

#[test]
fn single_channel_entry_carries_other_channel_forward() {
    // After both LEDs came on together, a lone red-off edge keeps the
    // last known green-on bit; a lone green-off edge then clears all.
    let raw = vec![red(0, true), green(10, true), red(1000, false), green(2000, false)];
    let out = coalesce(&raw, 50);
    assert_eq!(out, vec![entry(0, 0b11, 0b11), entry(1000, 0b11, 0b10), entry(2000, 0b11, 0b00)]);
}

#[test]
fn first_output_timestamp_is_zero_after_offset() {
    // Timestamps are made relative to the first entry.
    let raw = vec![red(5000, true), green(5010, true), red(6000, false), green(6010, false)];
    let out = coalesce(&raw, 50);
    assert_eq!(out.len(), 2);
    assert_eq!(out[0].timestamp, 0);
    assert_eq!(out[1].timestamp, 1000);
}

#[test]
fn single_event_input_gives_single_resolved_entry() {
    let raw = vec![green(7, true)];
    let out = coalesce(&raw, 50);
    assert_eq!(out, vec![entry(0, 0b11, 0b10)]);
}

#[test]
fn coalescer_is_idempotent_on_resolved_gapped_input() {
    // A fully resolved sequence with all gaps >= the window passes
    // through both passes unchanged.
    let resolved = vec![
        entry(0, 0b11, 0b11),
        entry(500, 0b11, 0b00),
        entry(1000, 0b11, 0b11),
        entry(1500, 0b11, 0b00),
    ];
    let merged = merge_window(&resolved, 50);
    let again = resolve_states(&merged);
    assert_eq!(again, resolved);
}

#[test]
fn falling_edges_only_reconstruct_to_all_off() {
    // A channel never seen high stays at its initial off value.
    let raw = vec![red(0, false), green(100, false)];
    let out = coalesce(&raw, 50);
    assert_eq!(out, vec![entry(0, 0b11, 0b00), entry(100, 0b11, 0b00)]);
}
