use cff3000::CFF3000;
use cff3000::CFF3000State;
use cff3000::Channel;
use cff3000::CoalescedEvent;
use cff3000::DecodeError;
use cff3000::DEFAULT_WINDOW_MS;
use cff3000::RawEvent;
use cff3000::classify;
use cff3000::decode;

fn entry(timestamp: u64, state: u8) -> CoalescedEvent {
    CoalescedEvent { timestamp, mask: 0b11, state }
}

#[test]
fn steady_green_means_locked() {
    let entries = vec![entry(0, 0b11), entry(2000, 0b10), entry(2050, 0b00)];
    assert_eq!(classify(&entries), Ok(CFF3000State::Locked));
}

#[test]
fn steady_red_means_unlocked() {
    let entries = vec![entry(0, 0b11), entry(1800, 0b01), entry(1850, 0b00)];
    assert_eq!(classify(&entries), Ok(CFF3000State::Unlocked));
}

#[test]
fn synchronous_blink_means_manual() {
    let entries = vec![entry(0, 0b11), entry(500, 0b00), entry(1000, 0b11), entry(1500, 0b00)];
    assert_eq!(classify(&entries), Ok(CFF3000State::Manual));
}

#[test]
fn alternating_blink_means_out_of_range() {
    let entries = vec![
        entry(0, 0b11),
        entry(500, 0b01),
        entry(1000, 0b10),
        entry(1500, 0b01),
        entry(2000, 0b00),
    ];
    assert_eq!(classify(&entries), Ok(CFF3000State::OutOfRange));
}

#[test]
fn two_entries_are_insufficient() {
    let entries = vec![entry(0, 0b11), entry(500, 0b00)];
    assert_eq!(classify(&entries), Err(DecodeError::InsufficientEvents));
}

#[test]
fn first_entry_not_both_on_is_invalid_start() {
    let entries = vec![entry(0, 0b10), entry(500, 0b01), entry(1000, 0b00)];
    assert_eq!(classify(&entries), Err(DecodeError::InvalidStart));
}

#[test]
fn last_entry_not_both_off_is_invalid_end() {
    let entries = vec![entry(0, 0b11), entry(500, 0b10), entry(1000, 0b01)];
    assert_eq!(classify(&entries), Err(DecodeError::InvalidEnd));
}

#[test]
fn unrecognized_middle_entry_is_invalid_state() {
    let entries = vec![entry(0, 0b11), entry(500, 0b11), entry(1000, 0b00)];
    assert_eq!(classify(&entries), Err(DecodeError::InvalidState));
}

#[test]
fn unrecognized_discriminator_of_blink_pattern_is_invalid_state() {
    let entries = vec![entry(0, 0b11), entry(500, 0b11), entry(1000, 0b01), entry(1500, 0b00)];
    assert_eq!(classify(&entries), Err(DecodeError::InvalidState));
}

#[test]
fn broken_synchronous_blink_is_invalid_substate() {
    // Mode is Manual (entry 1 is both-off), but entry 3 is not the
    // two-bit complement of entry 2.
    let entries = vec![
        entry(0, 0b11),
        entry(500, 0b00),
        entry(1000, 0b11),
        entry(1500, 0b10),
        entry(2000, 0b00),
    ];
    assert_eq!(classify(&entries), Err(DecodeError::InvalidSubstate));
}

#[test]
fn both_off_tick_in_alternating_blink_is_invalid_substate() {
    let entries = vec![
        entry(0, 0b11),
        entry(500, 0b01),
        entry(1000, 0b00),
        entry(1500, 0b01),
        entry(2000, 0b00),
    ];
    assert_eq!(classify(&entries), Err(DecodeError::InvalidSubstate));
}

#[test]
fn both_on_tick_in_alternating_blink_is_invalid_substate() {
    let entries = vec![
        entry(0, 0b11),
        entry(500, 0b10),
        entry(1000, 0b11),
        entry(1500, 0b01),
        entry(2000, 0b00),
    ];
    assert_eq!(classify(&entries), Err(DecodeError::InvalidSubstate));
}

#[test]
fn decode_reads_locked_session_end_to_end() {
    // Both LEDs come on almost together, red drops alone (green is
    // carried forward), then green drops: a steady-green session.
    let raw = vec![
        RawEvent { channel: Channel::Red, timestamp: 100, level: true },
        RawEvent { channel: Channel::Green, timestamp: 110, level: true },
        RawEvent { channel: Channel::Red, timestamp: 2100, level: false },
        RawEvent { channel: Channel::Green, timestamp: 4100, level: false },
    ];
    assert_eq!(decode(&raw, DEFAULT_WINDOW_MS), Ok(CFF3000State::Locked));
}

#[test]
fn decode_reads_out_of_range_session_end_to_end() {
    let raw = vec![
        RawEvent { channel: Channel::Red, timestamp: 0, level: true },
        RawEvent { channel: Channel::Green, timestamp: 10, level: true },
        RawEvent { channel: Channel::Red, timestamp: 500, level: false },
        RawEvent { channel: Channel::Red, timestamp: 1000, level: true },
        RawEvent { channel: Channel::Green, timestamp: 1010, level: false },
        RawEvent { channel: Channel::Red, timestamp: 1500, level: false },
        RawEvent { channel: Channel::Green, timestamp: 1510, level: true },
        RawEvent { channel: Channel::Red, timestamp: 2000, level: true },
        RawEvent { channel: Channel::Green, timestamp: 2010, level: false },
        RawEvent { channel: Channel::Red, timestamp: 2500, level: false },
        RawEvent { channel: Channel::Green, timestamp: 2510, level: false },
    ];
    assert_eq!(decode(&raw, DEFAULT_WINDOW_MS), Ok(CFF3000State::OutOfRange));
}

#[test]
fn new_keeps_the_device_description() {
    let dev = CFF3000::new("/dev/gpiochip2", [2, 3, 4, 5]);
    assert_eq!(dev.chipdev, "/dev/gpiochip2");
    assert_eq!(dev.gpios, [2, 3, 4, 5]);
}
