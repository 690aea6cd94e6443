//! Runs of edges on concrete values.

use channel_gate_encoder::quadrature::{EdgeRecord, RateEstimator};
use channel_gate_encoder::{Channel, RisingEdgeDecoder};

const QUARTER: i64 = 16_666_667;

/// A small deterministic source of edges: channel, time, hint and period.
fn edges(n: usize) -> Vec<(Channel, i64, i8, i64)> {
    let mut x: u64 = 0x9e37_79b9_7f4a_7c15;
    let mut t = 0;
    (0..n)
        .map(|_| {
            x ^= x << 13;
            x ^= x >> 7;
            x ^= x << 17;
            t += (x % 50_000_000) as i64 + 1;
            let channel = if x & 0x100 == 0 { Channel::A } else { Channel::B };
            let hint = if x & 0xf000 == 0 { 1 } else if x & 0xf_0000 == 0 { -1 } else { 0 };
            let hw = if x & 0x10_0000 == 0 { 0 } else { (x >> 40) as i64 % 90_000_000 };
            (channel, t, hint, hw)
        })
        .collect()
}

#[test]
fn every_edge_is_one_count_of_travel() {
    let mut dec = RisingEdgeDecoder::new(false);
    let mut travelled = 0;
    let all = edges(500);
    for (i, (channel, t, hint, hw)) in all.iter().enumerate() {
        travelled += dec.edge_with_period(*channel, *t, *hint, *hw).unsigned_abs();
        assert_eq!(travelled + dec.unsigned, i as u64 + 1);
    }
}

#[test]
fn unhinted_edges_are_accounted_for_once() {
    let mut dec = RisingEdgeDecoder::new(false);
    for (i, (channel, t, _, hw)) in edges(500).into_iter().enumerate() {
        dec.edge_with_period(channel, t, 0, hw);
        assert_eq!(dec.hw_period_used + dec.hw_period_missing + dec.missed, i as u64);
    }
}

#[test]
fn inverting_mirrors_the_count_and_nothing_else() {
    let mut plain = RisingEdgeDecoder::new(false);
    let mut inverted = RisingEdgeDecoder::new(true);
    for (channel, t, hint, hw) in edges(500) {
        let d = plain.edge_with_period(channel, t, hint, hw);
        assert_eq!(inverted.edge_with_period(channel, t, hint, hw), -d);
    }
    assert_eq!(plain.count, -inverted.count);
    assert_eq!(plain.sense, inverted.sense);
    assert_eq!(plain.direction, -inverted.direction);
    assert_eq!(plain.ambiguous, inverted.ambiguous);
    assert_eq!(plain.missed, inverted.missed);
}

#[test]
fn the_rate_and_the_start_of_the_clock_do_not_matter() {
    let mut slow = RisingEdgeDecoder::new(false);
    let mut fast = RisingEdgeDecoder::new(false);
    for (channel, t, hint, hw) in edges(500) {
        slow.edge_with_period(channel, t, hint, hw);
        fast.edge_with_period(channel, 7 * t - 1_000_000_000, hint, 7 * hw);
        assert_eq!(slow.count, fast.count);
    }
    assert_eq!(slow.period_disagreements, fast.period_disagreements);
    assert_eq!(slow.ambiguous, fast.ambiguous);
}

#[test]
fn batches_may_be_cut_anywhere() {
    let records: Vec<EdgeRecord> = edges(60)
        .into_iter()
        .enumerate()
        .map(|(i, (channel, t, hint, _))| EdgeRecord {
            event_id: i as i64,
            channel,
            level: hint != -1,
            time_ms: t / 1_000_000,
        })
        .collect();
    let hint = |t: i64| if t % 3 == 0 { 1 } else { 0 };
    let mut whole = RisingEdgeDecoder::new(false);
    let total = whole.feed_batch(&records, hint);
    let mut cut = RisingEdgeDecoder::new(false);
    let parts = cut.feed_batch(&records[..25], hint) + cut.feed_batch(&records[25..], hint);
    assert_eq!(total, parts);
    assert_eq!(whole.count, cut.count);
    assert_eq!(whole.filtered, cut.filtered);
    assert_eq!(whole.missed, cut.missed);
}

#[test]
fn polled_edges_decode_as_streamed_ones() {
    let mut polled = RisingEdgeDecoder::new(false);
    let mut streamed = RisingEdgeDecoder::new(false);
    for i in 0..12i64 {
        let channel = if i % 2 == 0 { Channel::B } else { Channel::A };
        let time_ms = (i / 2) * 67 + (i % 2) * 17;
        polled.feed_batch(&[EdgeRecord { event_id: i, channel, level: true, time_ms }], |_| 0);
        streamed.edge(channel, time_ms * 1_000_000, 0);
    }
    assert_eq!(polled.count, 12);
    assert_eq!(streamed.count, 12);
}

#[test]
fn the_band_is_three_to_five_eighths() {
    // Gaps in eighths of a cycle, after a first cycle that sets the period.
    for (eighths, sense) in [(1, 1), (2, 1), (3, 1), (4, 0), (5, -1), (6, -1), (7, -1)] {
        let mut dec = RisingEdgeDecoder::new(false);
        dec.edge(Channel::B, 0, 0);
        dec.edge_with_period(Channel::A, eighths * 1000, 0, 8000);
        assert_eq!(dec.sense, sense, "{eighths} eighths");
    }
    let mut dec = RisingEdgeDecoder::new(false);
    dec.edge(Channel::B, 0, 0);
    dec.edge_with_period(Channel::A, 3001, 0, 8000);
    assert_eq!(dec.sense, 0);
}

#[test]
fn a_hint_never_comes_from_another_number() {
    let mut dec = RisingEdgeDecoder::new(false);
    dec.edge(Channel::B, 0, 2);
    dec.edge(Channel::A, QUARTER, -7);
    assert_eq!((dec.count, dec.unsigned), (0, 2));
}

#[test]
fn with_hints_alone_timing_is_never_read() {
    let mut dec = RisingEdgeDecoder::new(false);
    dec.hint_only = true;
    for i in 0..6 {
        dec.edge(Channel::B, i * 4 * QUARTER, 0);
        dec.edge(Channel::A, i * 4 * QUARTER + QUARTER, 0);
    }
    assert_eq!((dec.count, dec.unsigned, dec.sense), (0, 12, 0));
    dec.edge(Channel::B, 24 * QUARTER, 1);
    assert_eq!((dec.count, dec.ambiguous), (13, 0));
    dec.edge(Channel::A, 25 * QUARTER, 0);
    assert_eq!((dec.count, dec.ambiguous), (14, 1));
}

#[test]
fn a_turn_right_after_the_leading_channel_costs_two_counts() {
    let q = QUARTER;
    for hw in [0, 1] {
        let mut dec = RisingEdgeDecoder::new(false);
        let mut t = 0;
        for i in 0..10 {
            let cycle = if i == 0 { 0 } else { hw * 4 * q };
            dec.edge_with_period(Channel::B, t, 0, cycle);
            dec.edge_with_period(Channel::A, t + q, 0, cycle);
            t += 4 * q;
        }
        dec.edge_with_period(Channel::B, t, 0, hw * 4 * q);
        assert_eq!(dec.count, 21);
        t += 2 * q;
        dec.edge_with_period(Channel::A, t, 0, hw * 5 * q);
        dec.edge_with_period(Channel::B, t + q, 0, hw * 3 * q);
        t += 4 * q;
        for _ in 0..9 {
            dec.edge_with_period(Channel::A, t, 0, hw * 4 * q);
            dec.edge_with_period(Channel::B, t + q, 0, hw * 4 * q);
            t += 4 * q;
        }
        assert_eq!(dec.count - (21 - 20), 2);
        assert_eq!((dec.missed, dec.ambiguous, dec.direction), (0, 1, -1));
    }
}

#[test]
fn a_zero_drops_the_held_edges() {
    let mut dec = RisingEdgeDecoder::new(false);
    dec.edge(Channel::B, 0, 0);
    dec.edge(Channel::A, 250_000_000, 0);
    dec.zero();
    assert_eq!((dec.count, dec.unsigned), (0, 0));
    assert_eq!(dec.edge(Channel::B, 1_000_000_000, 0), 1);
    assert_eq!(dec.count, 1);
}

#[test]
fn exchanging_the_sensors_negates_the_count() {
    let mut plain = RisingEdgeDecoder::new(false);
    let mut exchanged = RisingEdgeDecoder::new(false);
    for (channel, t, hint, hw) in edges(500) {
        let other = if channel == Channel::A { Channel::B } else { Channel::A };
        plain.edge_with_period(channel, t, hint, hw);
        exchanged.edge_with_period(other, t, -hint, hw);
        assert_eq!(plain.count, -exchanged.count);
        assert_eq!(plain.sense, -exchanged.sense);
        assert_eq!(plain.direction, -exchanged.direction);
    }
    assert_eq!(plain.ambiguous, exchanged.ambiguous);
    assert_eq!(plain.missed, exchanged.missed);
}

#[test]
fn hints_are_asked_of_rising_records_alone() {
    let record = |id, level, time_ms| EdgeRecord { event_id: id, channel: Channel::A, level, time_ms };
    let asked = std::cell::RefCell::new(Vec::new());
    let mut dec = RisingEdgeDecoder::new(false);
    dec.feed_batch(&[record(1, true, 10), record(2, false, 20), record(3, true, 30)], |t| {
        asked.borrow_mut().push(t);
        1
    });
    assert_eq!(asked.into_inner(), vec![10, 30]);
    assert_eq!((dec.count, dec.filtered), (2, 1));
}

#[test]
fn a_lost_edge_costs_its_own_count() {
    let mut dec = RisingEdgeDecoder::new(false);
    let mut t = 0;
    for _ in 0..6 {
        dec.edge(Channel::B, t, 0);
        dec.edge(Channel::A, t + QUARTER, 0);
        t += 4 * QUARTER;
    }
    dec.edge(Channel::A, t + QUARTER, 0);
    t += 4 * QUARTER;
    for _ in 0..6 {
        dec.edge(Channel::B, t, 0);
        dec.edge(Channel::A, t + QUARTER, 0);
        t += 4 * QUARTER;
    }
    assert_eq!(dec.count, 25);
    assert_eq!((dec.missed, dec.ambiguous, dec.direction), (1, 2, 1));
}

#[test]
fn room_is_what_the_counters_have_left() {
    let mut dec = RisingEdgeDecoder::new(false);
    assert!(dec.has_room(1_000_000));
    dec.count = i64::MAX - 1;
    assert!(dec.has_room(1));
    assert!(!dec.has_room(2));
    dec.count = 0;
    dec.missed = u64::MAX;
    assert!(!dec.has_room(1));
}

#[test]
fn the_window_never_empties() {
    let mut rate = RateEstimator::default();
    assert_eq!(rate.window_ns, 2_000_000_000);
    rate.add(0, 0);
    rate.add(10_000_000_000, 5);
    assert_eq!(rate.len(), 1, "the old sample is out of the window");
    rate.add(10_000_000_000, 9);
    assert_eq!(rate.len(), 2);
    assert_eq!(rate.rpm(32).num, 0, "no time passed between the two");
    assert_eq!(rate.rpm(0).num, 0);
    rate.add(11_000_000_000, 37);
    let rpm = rate.rpm(32);
    assert_eq!(rpm.num, 60 * rpm.den, "32 counts in a second");
}

#[test]
fn channel_letters() {
    assert_eq!((Channel::A.as_str(), Channel::B.as_str()), ("A", "B"));
}
