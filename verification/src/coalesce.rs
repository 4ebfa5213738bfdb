use vstd::prelude::*;

use crate::events::CoalescedEvent;
use crate::events::RawEvent;
use crate::events::entries_sorted;
use crate::events::entry_of_raw;
use crate::events::raw_sorted;
use crate::events::spec_entry_of_raw;

verus! {

/// Merge one more raw-edge entry into the entry that opened the current
/// window: the new channel bit joins the mask, and that channel's state
/// bit is set or cleared according to the new entry.
pub open spec fn merge_into(acc: CoalescedEvent, e: CoalescedEvent) -> CoalescedEvent {
    CoalescedEvent {
        timestamp: acc.timestamp,
        mask: acc.mask | e.mask,
        state: (acc.state | (e.state & e.mask)) & (e.state | !e.mask),
    }
}

/// First pass: group entries whose gap to their raw predecessor is
/// strictly smaller than `window_ms` into one entry.  The decision
/// always compares the timestamps of consecutive *input* entries, not
/// the timestamp of the merged entry that opened the group.
pub open spec fn spec_merge(s: Seq<CoalescedEvent>, window_ms: u64) -> Seq<CoalescedEvent>
    decreases s.len(),
{
    if s.len() <= 1 {
        s
    } else {
        let prev = spec_merge(s.drop_last(), window_ms);
        if s.last().timestamp - s[s.len() - 2].timestamp < window_ms {
            prev.update(prev.len() - 1, merge_into(prev.last(), s.last()))
        } else {
            prev.push(s.last())
        }
    }
}

/// Shape facts about the merge pass on sorted input: it keeps at least
/// one entry, never grows the sequence, keeps the first timestamp,
/// produces a sorted sequence whose last timestamp is bounded by the
/// input's last timestamp, and leaves consecutive entries at least the
/// merge window apart (a new entry only opens on a raw gap of at least
/// the window).
pub proof fn lemma_spec_merge_shape(s: Seq<CoalescedEvent>, window_ms: u64)
    requires
        s.len() >= 1,
        entries_sorted(s),
    ensures
        1 <= spec_merge(s, window_ms).len() <= s.len(),
        spec_merge(s, window_ms)[0].timestamp == s[0].timestamp,
        spec_merge(s, window_ms).last().timestamp <= s.last().timestamp,
        entries_sorted(spec_merge(s, window_ms)),
        forall|i: int|
            1 <= i < spec_merge(s, window_ms).len() ==> spec_merge(s, window_ms)[i - 1].timestamp
                + window_ms <= #[trigger] spec_merge(s, window_ms)[i].timestamp,
    decreases s.len(),
{
    if s.len() == 1 {
    } else {
        let d = s.drop_last();
        assert(entries_sorted(d)) by {
            assert forall|i: int, j: int| 0 <= i <= j < d.len() implies #[trigger] d[i].timestamp
                <= #[trigger] d[j].timestamp by {
                assert(s[i].timestamp <= s[j].timestamp);
            }
        }
        lemma_spec_merge_shape(d, window_ms);
        let prev = spec_merge(d, window_ms);
        assert(d.last() == s[s.len() - 2]);
        assert(s[s.len() - 2].timestamp <= s.last().timestamp);
        if s.last().timestamp - s[s.len() - 2].timestamp < window_ms {
            let m = prev.update(prev.len() - 1, merge_into(prev.last(), s.last()));
            assert(m[0].timestamp == prev[0].timestamp);
            assert(entries_sorted(m)) by {
                assert forall|i: int, j: int| 0 <= i <= j < m.len() implies #[trigger] m[i].timestamp
                    <= #[trigger] m[j].timestamp by {
                    assert(m[i].timestamp == prev[i].timestamp);
                    assert(m[j].timestamp == prev[j].timestamp);
                    assert(prev[i].timestamp <= prev[j].timestamp);
                }
            }
            assert forall|i: int| 1 <= i < m.len() implies m[i - 1].timestamp + window_ms
                <= #[trigger] m[i].timestamp by {
                assert(m[i - 1].timestamp == prev[i - 1].timestamp);
                assert(m[i].timestamp == prev[i].timestamp);
            }
        } else {
            let m = prev.push(s.last());
            assert(entries_sorted(m)) by {
                assert forall|i: int, j: int| 0 <= i <= j < m.len() implies #[trigger] m[i].timestamp
                    <= #[trigger] m[j].timestamp by {
                    if j < prev.len() {
                        assert(prev[i].timestamp <= prev[j].timestamp);
                    } else if i < prev.len() {
                        assert(prev[i].timestamp <= prev.last().timestamp);
                        assert(prev.last().timestamp <= d.last().timestamp);
                    }
                }
            }
            assert forall|i: int| 1 <= i < m.len() implies m[i - 1].timestamp + window_ms
                <= #[trigger] m[i].timestamp by {
                if i < prev.len() {
                    assert(m[i - 1].timestamp == prev[i - 1].timestamp);
                    assert(m[i].timestamp == prev[i].timestamp);
                } else {
                    assert(m[i - 1].timestamp == prev.last().timestamp);
                    assert(prev.last().timestamp <= d.last().timestamp);
                    assert(m[i].timestamp == s.last().timestamp);
                }
            }
        }
    }
}

fn merge_one(acc: CoalescedEvent, e: CoalescedEvent) -> (r: CoalescedEvent)
    ensures
        r == merge_into(acc, e),
{
    CoalescedEvent {
        timestamp: acc.timestamp,
        mask: acc.mask | e.mask,
        state: (acc.state | (e.state & e.mask)) & (e.state | !e.mask),
    }
}

/// First pass of the coalescer: merge entries separated from their raw
/// predecessor by less than `window_ms` into one entry.
pub fn merge_window(entries: &Vec<CoalescedEvent>, window_ms: u64) -> (r: Vec<CoalescedEvent>)
    requires
        entries@.len() >= 1,
        entries_sorted(entries@),
    ensures
        r@ == spec_merge(entries@, window_ms),
{
    let mut out: Vec<CoalescedEvent> = Vec::new();
    out.push(entries[0]);
    assert(out@ =~= spec_merge(entries@.take(1), window_ms)) by {
        assert(entries@.take(1).len() == 1);
        assert(entries@.take(1)[0] == entries@[0]);
    }
    let mut i: usize = 1;
    while i < entries.len()
        invariant
            1 <= i <= entries@.len(),
            entries_sorted(entries@),
            out@ == spec_merge(entries@.take(i as int), window_ms),
            out@.len() >= 1,
        decreases entries@.len() - i,
    {
        let ghost pre = entries@.take(i as int);
        let ghost cur = entries@.take(i + 1int);
        proof {
            assert(cur.drop_last() =~= pre);
            assert(cur.last() == entries@[i as int]);
            assert(cur[cur.len() - 2] == entries@[i - 1int]);
            assert(entries@[i - 1int].timestamp <= entries@[i as int].timestamp);
        }
        if entries[i].timestamp - entries[i - 1].timestamp < window_ms {
            let last = out.pop().unwrap();
            let merged = merge_one(last, entries[i]);
            out.push(merged);
            proof {
                let prev = spec_merge(pre, window_ms);
                assert(out@ =~= prev.update(prev.len() - 1, merge_into(prev.last(), cur.last())));
            }
        } else {
            out.push(entries[i]);
        }
        i = i + 1;
    }
    proof {
        assert(entries@.take(entries@.len() as int) =~= entries@);
    }
    out
}

/// The running two-bit LED state after applying one more entry: the
/// bits the entry observed overwrite the carried state, the rest keep
/// their last known value.
pub open spec fn next_known(known: u8, e: CoalescedEvent) -> u8 {
    (known & !e.mask) | (e.state & e.mask)
}

/// The running two-bit LED state after the first `i` entries of `s`,
/// starting from all-off.
pub open spec fn known_at(s: Seq<CoalescedEvent>, i: int) -> u8
    decreases i,
{
    if i <= 0 {
        0
    } else {
        next_known(known_at(s, i - 1), s[i - 1])
    }
}

/// What the second pass makes of entry `i`: the timestamp becomes
/// relative to the first entry, the mask is forced to cover both
/// channels, and an entry that observed only one channel takes the
/// carried-forward state, which fills in the unobserved channel's last
/// known value.
pub open spec fn resolve_entry(s: Seq<CoalescedEvent>, i: int) -> CoalescedEvent {
    CoalescedEvent {
        timestamp: (s[i].timestamp - s[0].timestamp) as u64,
        mask: 0b11,
        state: if s[i].mask != 0b11 {
            known_at(s, i + 1)
        } else {
            s[i].state
        },
    }
}

/// Second pass: absolute-state reconstruction plus timestamp
/// normalization, entry by entry.
pub open spec fn spec_resolve(s: Seq<CoalescedEvent>) -> Seq<CoalescedEvent> {
    Seq::new(s.len(), |i: int| resolve_entry(s, i))
}

/// Second pass of the coalescer: reconstruct each entry's absolute
/// two-bit state by carrying the last known value of every channel
/// forward, force every mask to both channels, and make timestamps
/// relative to the first entry.
pub fn resolve_states(entries: &Vec<CoalescedEvent>) -> (r: Vec<CoalescedEvent>)
    requires
        entries@.len() >= 1,
        entries_sorted(entries@),
    ensures
        r@ == spec_resolve(entries@),
{
    let offset: u64 = entries[0].timestamp;
    let mut out: Vec<CoalescedEvent> = Vec::new();
    let mut known: u8 = 0;
    let mut i: usize = 0;
    while i < entries.len()
        invariant
            0 <= i <= entries@.len(),
            entries@.len() >= 1,
            entries_sorted(entries@),
            offset == entries@[0].timestamp,
            known == known_at(entries@, i as int),
            out@.len() == i,
            forall|j: int| 0 <= j < i ==> out@[j] == resolve_entry(entries@, j),
        decreases entries@.len() - i,
    {
        let e = entries[i];
        known = (known & !e.mask) | (e.state & e.mask);
        let state: u8 = if e.mask != 0b11 {
            known
        } else {
            e.state
        };
        proof {
            assert(entries@[0].timestamp <= entries@[i as int].timestamp);
        }
        out.push(CoalescedEvent { timestamp: e.timestamp - offset, mask: 0b11, state });
        i = i + 1;
    }
    proof {
        assert(out@ =~= spec_resolve(entries@));
    }
    out
}

/// The whole coalescer over raw edge events: seed one entry per edge,
/// merge the near-simultaneous ones, then reconstruct absolute states
/// and relative timestamps.
pub open spec fn spec_coalesce(raw: Seq<RawEvent>, window_ms: u64) -> Seq<CoalescedEvent> {
    spec_resolve(spec_merge(raw.map_values(|e: RawEvent| spec_entry_of_raw(e)), window_ms))
}

/// Merge near-simultaneous raw edge events into two-channel snapshots
/// and reconstruct the absolute LED state at each snapshot.
///
/// The result always starts at relative timestamp 0, every entry's
/// mask covers both channels, and timestamps never decrease.
pub fn coalesce(events: &Vec<RawEvent>, window_ms: u64) -> (r: Vec<CoalescedEvent>)
    requires
        events@.len() >= 1,
        raw_sorted(events@),
    ensures
        r@ == spec_coalesce(events@, window_ms),
        1 <= r@.len() <= events@.len(),
        r@[0].timestamp == 0,
        forall|i: int| 0 <= i < r@.len() ==> #[trigger] r@[i].mask == 0b11,
        entries_sorted(r@),
{
    let ghost seeded = events@.map_values(|e: RawEvent| spec_entry_of_raw(e));
    let mut entries: Vec<CoalescedEvent> = Vec::new();
    let mut i: usize = 0;
    while i < events.len()
        invariant
            0 <= i <= events@.len(),
            raw_sorted(events@),
            seeded == events@.map_values(|e: RawEvent| spec_entry_of_raw(e)),
            entries@.len() == i,
            forall|j: int| 0 <= j < i ==> entries@[j] == seeded[j],
        decreases events@.len() - i,
    {
        entries.push(entry_of_raw(events[i]));
        i = i + 1;
    }
    proof {
        assert(entries@ =~= seeded);
        assert(entries_sorted(seeded)) by {
            assert forall|p: int, q: int| 0 <= p <= q < seeded.len() implies #[trigger] seeded[p].timestamp
                <= #[trigger] seeded[q].timestamp by {
                assert(events@[p].timestamp <= events@[q].timestamp);
            }
        }
        lemma_spec_merge_shape(seeded, window_ms);
    }
    let merged = merge_window(&entries, window_ms);
    let r = resolve_states(&merged);
    proof {
        let m = spec_merge(seeded, window_ms);
        assert(r@[0] == resolve_entry(m, 0));
        assert(forall|i: int| 0 <= i < r@.len() ==> r@[i] == resolve_entry(m, i));
        assert(entries_sorted(r@)) by {
            assert forall|p: int, q: int| 0 <= p <= q < r@.len() implies #[trigger] r@[p].timestamp
                <= #[trigger] r@[q].timestamp by {
                assert(m[0].timestamp <= m[p].timestamp <= m[q].timestamp);
            }
        }
    }
    r
}

/// Two raw edges on different channels whose timestamps are closer
/// than the merge window coalesce into a single snapshot: its mask
/// covers both channels, its relative timestamp is 0, and its state
/// holds each channel's level.
pub proof fn lemma_merge_within_window(a: RawEvent, b: RawEvent, window_ms: u64)
    requires
        a.channel != b.channel,
        a.timestamp <= b.timestamp,
        b.timestamp - a.timestamp < window_ms,
    ensures
        spec_coalesce(seq![a, b], window_ms).len() == 1,
        spec_coalesce(seq![a, b], window_ms)[0].mask == 0b11,
        spec_coalesce(seq![a, b], window_ms)[0].timestamp == 0,
        spec_coalesce(seq![a, b], window_ms)[0].state == (if a.level {
            a.channel.spec_bit()
        } else {
            0
        }) | (if b.level {
            b.channel.spec_bit()
        } else {
            0
        }),
{
    reveal_with_fuel(spec_merge, 3);
    let ea = spec_entry_of_raw(a);
    let eb = spec_entry_of_raw(b);
    let s = seq![ea, eb];
    assert(seq![a, b].map_values(|e: RawEvent| spec_entry_of_raw(e)) =~= s);
    assert(s.drop_last() =~= seq![ea]);
    assert(s.drop_last().len() == 1);
    let merged = merge_into(ea, eb);
    assert(spec_merge(s, window_ms) =~= seq![merged]);
    let ma = a.channel.spec_bit();
    let mb = b.channel.spec_bit();
    let sa = ea.state;
    let sb = eb.state;
    assert((ma == 0b01 && mb == 0b10) || (ma == 0b10 && mb == 0b01));
    assert(merged.mask == ma | mb && merged.state == (sa | (sb & mb)) & (sb | !mb));
    assert(ma | mb == 0b11 && (sa | (sb & mb)) & (sb | !mb) == sa | sb) by (bit_vector)
        requires
            (ma == 0b01 && mb == 0b10) || (ma == 0b10 && mb == 0b01),
            sa == 0 || sa == ma,
            sb == 0 || sb == mb,
    ;
    assert(spec_coalesce(seq![a, b], window_ms) =~= seq![
        CoalescedEvent { timestamp: 0, mask: 0b11, state: merged.state },
    ]);
}

/// Two raw edges whose timestamps are at least the merge window apart
/// are never merged: they coalesce into two snapshots.
pub proof fn lemma_no_merge_outside_window(a: RawEvent, b: RawEvent, window_ms: u64)
    requires
        a.timestamp <= b.timestamp,
        b.timestamp - a.timestamp >= window_ms,
    ensures
        spec_coalesce(seq![a, b], window_ms).len() == 2,
{
    reveal_with_fuel(spec_merge, 3);
    let ea = spec_entry_of_raw(a);
    let eb = spec_entry_of_raw(b);
    let s = seq![ea, eb];
    assert(seq![a, b].map_values(|e: RawEvent| spec_entry_of_raw(e)) =~= s);
    assert(s.drop_last() =~= seq![ea]);
    assert(s.drop_last().len() == 1);
    assert(spec_merge(s, window_ms) =~= seq![ea].push(eb));
}

/// The coalescer is idempotent on its own kind of output: a sequence
/// that is already fully resolved (every mask covers both channels),
/// starts at relative timestamp 0, and whose consecutive entries are
/// at least the merge window apart passes through both passes
/// unchanged.
pub proof fn lemma_coalesce_idempotent(s: Seq<CoalescedEvent>, window_ms: u64)
    requires
        s.len() >= 1,
        s[0].timestamp == 0,
        forall|i: int| 0 <= i < s.len() ==> #[trigger] s[i].mask == 0b11,
        forall|i: int| 1 <= i < s.len() ==> s[i - 1].timestamp + window_ms <= #[trigger] s[i].timestamp,
    ensures
        spec_resolve(spec_merge(s, window_ms)) == s,
{
    lemma_merge_gapped_identity(s, window_ms);
    assert(spec_resolve(s) =~= s) by {
        assert forall|i: int| 0 <= i < s.len() implies resolve_entry(s, i) == s[i] by {
            assert(s[i].mask == 0b11);
            assert((s[i].timestamp - s[0].timestamp) as u64 == s[i].timestamp);
        }
    }
}

/// What the coalescer produces it also leaves alone: running the two
/// passes again over the output of `spec_coalesce` gives that output
/// back, for every sorted, non-empty raw input.
pub proof fn lemma_coalesce_output_stable(raw: Seq<RawEvent>, window_ms: u64)
    requires
        raw.len() >= 1,
        raw_sorted(raw),
    ensures
        spec_resolve(spec_merge(spec_coalesce(raw, window_ms), window_ms)) == spec_coalesce(
            raw,
            window_ms,
        ),
{
    let seeded = raw.map_values(|e: RawEvent| spec_entry_of_raw(e));
    assert(entries_sorted(seeded)) by {
        assert forall|p: int, q: int| 0 <= p <= q < seeded.len() implies #[trigger] seeded[p].timestamp
            <= #[trigger] seeded[q].timestamp by {
            assert(raw[p].timestamp <= raw[q].timestamp);
        }
    }
    lemma_spec_merge_shape(seeded, window_ms);
    let m = spec_merge(seeded, window_ms);
    let c = spec_resolve(m);
    assert(c[0].timestamp == 0) by {
        assert(c[0] == resolve_entry(m, 0));
    }
    assert forall|i: int| 0 <= i < c.len() implies #[trigger] c[i].mask == 0b11 by {
        assert(c[i] == resolve_entry(m, i));
    }
    assert forall|i: int| 1 <= i < c.len() implies c[i - 1].timestamp + window_ms
        <= #[trigger] c[i].timestamp by {
        assert(c[i - 1] == resolve_entry(m, i - 1));
        assert(c[i] == resolve_entry(m, i));
        assert(m[0].timestamp <= m[i - 1].timestamp);
        assert(m[i - 1].timestamp + window_ms <= m[i].timestamp);
    }
    lemma_coalesce_idempotent(c, window_ms);
}

/// The merge pass leaves a sequence alone when every consecutive pair
/// of entries is at least the merge window apart.
proof fn lemma_merge_gapped_identity(s: Seq<CoalescedEvent>, window_ms: u64)
    requires
        s.len() >= 1,
        forall|i: int| 1 <= i < s.len() ==> s[i - 1].timestamp + window_ms <= #[trigger] s[i].timestamp,
    ensures
        spec_merge(s, window_ms) == s,
    decreases s.len(),
{
    if s.len() == 1 {
    } else {
        let d = s.drop_last();
        assert forall|i: int| 1 <= i < d.len() implies d[i - 1].timestamp + window_ms
            <= #[trigger] d[i].timestamp by {
            assert(s[i - 1].timestamp + window_ms <= s[i].timestamp);
        }
        lemma_merge_gapped_identity(d, window_ms);
        assert(s[s.len() - 2].timestamp + window_ms <= s.last().timestamp);
        assert(spec_merge(s, window_ms) =~= d.push(s.last()));
        assert(d.push(s.last()) =~= s);
    }
}

} // verus!

