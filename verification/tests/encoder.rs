//! The encoder: ingest, derivation and publication.

use channel_gate_encoder::debug_server::route;
use channel_gate_encoder::encoder::{hint_at, push_hint, HINT_HISTORY_MS, NM_PER_COUNT_LIMIT};
use channel_gate_encoder::quadrature::RawDiEvent;
use channel_gate_encoder::ratio::Ratio;
use channel_gate_encoder::state::EncoderState;
use channel_gate_encoder::{
    Channel, ChannelGateEncoderConfig, ChannelGateEncoderTags, EncoderCore, Params,
};

const S: i64 = 1_000_000_000;
const NOW: i64 = 1_700_000_000 * S;
const NOW_MS: i64 = NOW / 1_000_000;
const QUARTER: i64 = 16_666_667;

fn value(r: Ratio) -> f64 {
    r.num as f64 / r.den as f64
}

fn encoder() -> EncoderCore {
    EncoderCore::new(Params::for_test(2, 3), NOW, 5 * S)
}

/// `cycles` tooth cycles with B in front, from monotonic time `t`.
fn drive(core: &mut EncoderCore, cycles: usize, mut t: i64) -> i64 {
    for _ in 0..cycles {
        core.on_pulse(Channel::B, t, NOW_MS, 0, false);
        t += QUARTER;
        core.on_pulse(Channel::A, t, NOW_MS, 0, false);
        t += 3 * QUARTER;
    }
    t
}

fn event(id: i64, name: &str, time_ms: i64) -> RawDiEvent {
    RawDiEvent { event_id: id, event: name.to_string(), time_ms }
}

#[test]
fn a_new_encoder_has_seen_nothing() {
    let core = encoder();
    assert_eq!(core.handles.state.decoder.count, 0);
    assert_eq!(core.handles.hints, vec![(0, 0)]);
    assert_eq!(core.input_mode, "stream");
    assert_eq!(core.counts_per_rev(), 32);
    assert_eq!(value(core.height_mm()), 0.0);
    assert!(core.rate.is_empty());
}

#[test]
fn a_publication_shows_position_direction_and_rate() {
    let mut core = encoder();
    core.baseline(NOW, 5 * S);
    drive(&mut core, 10, 6 * S);
    let snap = core.publish(NOW + S, 7 * S);
    assert_eq!(snap.count, 20);
    assert_eq!(value(snap.height_mm), 40.0, "two millimetres per count");
    assert_eq!(value(snap.percent_open), 4.0, "of a metre");
    assert_eq!(value(snap.speed_mm_min), 2400.0, "40 mm in a second");
    assert_eq!(snap.direction, "opening");
    assert_eq!(value(snap.revolutions), 0.625);
    assert_eq!(value(snap.rpm), 37.5);
    assert_eq!(snap.rotation_direction, "cw");
    assert_eq!(snap.pulse_callbacks, 20);
    assert_eq!(snap.counts_per_rev, 32);
    assert_eq!(snap.pulse_direction, 1);
    assert_eq!(value(snap.uptime_s), 2.0);
    assert_eq!(value(snap.ts), 1_700_000_001.0);
    assert_eq!(value(snap.publish_interval_s), 0.5);
    assert_eq!(snap.edge_mode, "rising_2x");
    assert_eq!(core.handles.snapshot.count, 20);
}

#[test]
fn nothing_latches_when_standing_still() {
    let mut core = encoder();
    core.baseline(NOW, 5 * S);
    drive(&mut core, 10, 6 * S);
    core.publish(NOW + S, 7 * S);
    let snap = core.publish(NOW + 2 * S, 8 * S);
    assert_eq!(snap.direction, "stopped");
    assert_eq!(value(snap.speed_mm_min), 0.0);
    assert_eq!(snap.count, 20);
    // The rate comes from a window of two seconds, and runs out with it.
    let snap = core.publish(NOW + 4 * S, 10 * S);
    assert_eq!(value(snap.rpm), 0.0);
    assert_eq!(snap.rotation_direction, "stopped");
}

#[test]
fn a_derivation_does_not_latch() {
    let mut core = encoder();
    core.baseline(NOW, 5 * S);
    drive(&mut core, 10, 6 * S);
    let first = core.derive(NOW + S, 7 * S);
    assert_eq!(first.direction, "opening");
    let second = core.derive(NOW + 2 * S, 8 * S);
    assert_eq!(second.direction, "stopped");
    assert_eq!(value(second.speed_mm_min), 0.0);
    assert_eq!((second.count, second.height_mm), (first.count, first.height_mm));
    assert_eq!(core.handles.snapshot.count, 0, "nothing was published");
}

#[test]
fn a_home_is_no_movement() {
    let mut core = encoder();
    core.baseline(NOW, 5 * S);
    drive(&mut core, 10, 6 * S);
    core.publish(NOW + S, 7 * S);
    core.home_now();
    let snap = core.publish(NOW + 2 * S, 8 * S);
    assert_eq!(snap.count, 0);
    assert!(snap.homed);
    assert_eq!(value(snap.height_mm), 0.0);
    assert_eq!(snap.direction, "stopped");
    assert_eq!(value(snap.speed_mm_min), 0.0);
    assert_eq!(value(snap.rpm), 0.0);
}

#[test]
fn zeroing_over_the_endpoint_shows_the_home_height() {
    let mut params = Params::for_test(2, 3);
    params.home_height_nm = 250_000_000;
    let mut core = EncoderCore::new(params, NOW, 0);
    core.baseline(NOW, 0);
    drive(&mut core, 5, 0);
    assert_eq!(value(core.height_mm()), 270.0);
    route(b"POST /zero HTTP/1.1\r\n\r\n", &mut core.handles, NOW_MS);
    let snap = core.publish(NOW + S, S);
    assert_eq!(value(snap.height_mm), 250.0);
    assert_eq!(value(snap.percent_open), 25.0);
    assert_eq!(snap.direction, "stopped");
}

#[test]
fn the_endpoint_serves_the_last_publication() {
    let mut core = encoder();
    core.baseline(NOW, 5 * S);
    drive(&mut core, 3, 6 * S);
    let before = route(b"GET /state HTTP/1.1\r\n\r\n", &mut core.handles, NOW_MS);
    assert!(String::from_utf8(before).unwrap().contains(r#""count":0"#), "not published yet");
    let snap = core.publish(NOW + S, 7 * S);
    let after = route(b"GET /state HTTP/1.1\r\n\r\n", &mut core.handles, NOW_MS);
    assert!(String::from_utf8(after).unwrap().ends_with(&snap.to_json()));
}

#[test]
fn the_timer_gates_publications() {
    let mut core = encoder();
    assert!(core.tick(NOW, 0).is_some(), "the first is always due");
    assert!(core.tick(NOW + S / 2 - 1, 0).is_none());
    assert!(!core.due_to_publish(NOW + S / 2 - 1));
    assert!(core.due_to_publish(NOW + S / 2));
    assert!(core.tick(NOW + S / 2, 0).is_some());
    assert!(core.tick(NOW + S / 2, 0).is_none());
}

#[test]
fn a_baseline_starts_the_publish_timer() {
    let mut core = EncoderCore::new(Params::for_test(0, 1), 999 * S, 0);
    core.baseline(1_000 * S, 0);
    assert!(!core.due_to_publish(1_000 * S + S / 4));
    assert!(core.tick(1_000 * S + S / 4, 0).is_none());
    assert!(core.due_to_publish(1_000 * S + S / 2));
    assert!(core.tick(1_000 * S + S / 2, 0).is_some());
}

#[test]
fn a_home_during_a_cold_start_drops_the_held_edges() {
    let mut core = encoder();
    core.on_pulse(Channel::B, 0, NOW_MS, 0, false);
    core.on_pulse(Channel::A, QUARTER, NOW_MS, 0, false);
    assert_eq!(core.handles.state.decoder.unsigned, 2);
    core.on_home_edge(true);
    assert_eq!(core.handles.state.decoder.unsigned, 0);
    core.on_pulse(Channel::B, 4 * QUARTER, NOW_MS, 0, false);
    assert_eq!(core.handles.state.decoder.count, 1, "one edge since the home");
}

#[test]
fn the_direction_comes_from_the_count_without_any_geometry() {
    let mut params = Params::for_test(2, 3);
    params.nm_per_count = 0;
    params.gate_travel_nm = 0;
    params.pulses_per_rev = 0;
    let mut core = EncoderCore::new(params, NOW, 0);
    core.baseline(NOW, 0);
    drive(&mut core, 3, 0);
    let snap = core.publish(NOW + S, S);
    assert_eq!(snap.direction, "opening");
    assert_eq!(value(snap.height_mm), 0.0);
    assert_eq!(value(snap.percent_open), 0.0);
    assert_eq!(value(snap.speed_mm_min), 0.0);
    assert_eq!(value(snap.revolutions), 0.0);
    assert_eq!(value(snap.rpm), 0.0);
}

#[test]
fn the_percentage_is_clamped() {
    let mut core = encoder();
    core.handles.state.decoder.count = 600;
    assert_eq!(value(core.publish(NOW, 0).percent_open), 100.0);
    core.handles.state.decoder.count = -5;
    let snap = core.publish(NOW + S, 0);
    assert_eq!(value(snap.percent_open), 0.0);
    assert_eq!(value(snap.height_mm), -10.0);
    assert_eq!(snap.direction, "closing");
}

#[test]
fn a_clock_that_stands_still_gives_no_speed() {
    let mut core = encoder();
    core.baseline(NOW, 0);
    core.handles.state.decoder.count = 10;
    let snap = core.publish(NOW, 0);
    assert_eq!(value(snap.speed_mm_min), 0.0);
    assert_eq!(snap.direction, "opening");
}

#[test]
fn extreme_counts_do_not_overflow() {
    let mut params = Params::for_test(2, 3);
    params.nm_per_count = NM_PER_COUNT_LIMIT;
    params.pulses_per_rev = i64::MAX / 2;
    assert!(params.fits());
    let mut core = EncoderCore::new(params, i64::MIN, i64::MIN);
    core.handles.state.decoder.count = i64::MAX;
    core.publish(i64::MIN, i64::MAX);
    core.handles.state.decoder.count = i64::MIN;
    let snap = core.publish(i64::MAX, i64::MAX);
    assert_eq!(snap.direction, "closing");
    assert!(!snap.to_json().is_empty());
    params.nm_per_count = NM_PER_COUNT_LIMIT + 1;
    assert!(!params.fits());
}

#[test]
fn a_home_switch_homes_only_on_becoming_active() {
    let mut core = encoder();
    core.handles.state.decoder.count = 9;
    core.on_home_edge(true);
    assert_eq!(core.handles.state.decoder.count, 0);
    assert_eq!(core.handles.state.home_epoch, 1);
    assert!(core.handles.state.homed && core.handles.state.home_active);
    core.handles.state.decoder.count = 4;
    core.on_home_edge(true);
    assert_eq!(core.handles.state.decoder.count, 4, "staying on the switch does not home");
    assert_eq!(core.handles.state.home_epoch, 1);
    core.on_home_edge(false);
    assert!(!core.handles.state.home_active);
    assert!(core.handles.state.homed);
    core.on_home_edge(true);
    assert_eq!(core.handles.state.home_epoch, 2);
}

#[test]
fn a_switch_that_is_active_low_homes_on_falling() {
    let mut params = Params::for_test(2, 3);
    params.home_active_high = false;
    let mut core = EncoderCore::new(params, NOW, 0);
    core.on_home_edge(true);
    assert!(!core.handles.state.homed);
    core.on_home_edge(false);
    assert!(core.handles.state.homed);
}

#[test]
fn a_gate_parked_on_the_switch_is_homed_at_start() {
    let mut parked = encoder();
    parked.seed_home_from_level(true);
    assert!(parked.handles.state.homed && parked.handles.state.home_active);
    assert_eq!(parked.handles.state.home_epoch, 1);
    let mut away = encoder();
    away.seed_home_from_level(false);
    assert!(!away.handles.state.homed && !away.handles.state.home_active);
    assert_eq!(away.handles.state.home_epoch, 0);
}

#[test]
fn a_persisted_count_is_restored() {
    let mut state = EncoderState::new(false);
    state.decoder.count = 3;
    state.restore(Some(0), None);
    assert_eq!((state.decoder.count, state.homed), (3, false));
    state.restore(Some(-17), Some(true));
    assert_eq!((state.decoder.count, state.homed), (-17, true));
    state.restore(None, Some(false));
    assert_eq!((state.decoder.count, state.homed), (-17, false));
}

#[test]
fn the_trace_records_arrivals_once_enabled() {
    let mut core = encoder();
    core.on_pulse(Channel::B, 1, NOW_MS, 0, true);
    assert!(core.handles.state.trace.is_none());
    core.handles.state.enable_trace(16);
    core.on_pulse(Channel::A, 2, NOW_MS, 0, false);
    core.on_pulse(Channel::B, 3, NOW_MS, 0, true);
    assert_eq!(core.handles.state.trace, Some(vec![(Channel::A, 2), (Channel::B, 3)]));
    assert_eq!(core.handles.state.callbacks, 3);
    assert_eq!(core.handles.state.pulses_reporting_high, 2);
}

#[test]
fn resetting_the_missed_counter_touches_nothing_else() {
    let mut core = encoder();
    core.on_pulse(Channel::B, 0, NOW_MS, 0, false);
    core.on_pulse(Channel::B, 1, NOW_MS, 0, false);
    assert_eq!(core.handles.state.decoder.missed, 1);
    core.reset_missed();
    assert_eq!(core.handles.state.decoder.missed, 0);
    assert_eq!(core.handles.state.decoder.unsigned, 2);
    assert_eq!(core.handles.state.callbacks, 2);
}

#[test]
fn reconnects_and_poll_errors_are_counted() {
    let mut state = EncoderState::new(false);
    state.note_reconnect();
    state.note_poll_error();
    state.note_poll_error();
    assert_eq!((state.stream_reconnects, state.poll_errors), (1, 2));
}

#[test]
fn polled_edges_are_decoded_once_and_signed_at_capture_time() {
    let mut params = Params::for_test(2, 3);
    params.use_event_polling = true;
    let mut core = EncoderCore::new(params, NOW, 0);
    assert_eq!(core.input_mode, "poll");
    core.handles.hints = vec![(0, 0), (1_000, 1), (5_000, -1)];

    // What the log held before the start is passed over.
    let old = [event(3, "DI_R", 10), event(4, "CM4_ON", 11)];
    assert_eq!(core.baseline_cursor(&old, &[]), 1);
    assert_eq!(core.handles.state.event_cursor, 4);
    assert_eq!(core.handles.state.decoder.count, 0);

    let a = [event(3, "DI_R", 10), event(5, "DI_R", 2_000), event(7, "DI_R", 6_000)];
    let b = [event(6, "DI_R", 2_017), event(8, "DI_F", 6_010)];
    let edges = core.on_poll(&a, &b);
    assert_eq!(edges.iter().map(|e| e.event_id).collect::<Vec<_>>(), vec![5, 6, 7, 8]);
    assert_eq!(core.handles.state.decoder.count, 1, "two forward, one back");
    assert_eq!(core.handles.state.decoder.filtered, 1);
    assert_eq!(core.handles.state.events_decoded, 4);
    assert_eq!(core.handles.state.event_cursor, 8);

    // The log serves it all again: nothing of it counts twice.
    assert!(core.on_poll(&a, &b).is_empty());
    assert_eq!(core.handles.state.decoder.count, 1);
    assert_eq!(core.handles.state.events_decoded, 4);
}

#[test]
fn two_polls_decode_what_one_would() {
    let first = [event(1, "rising", 0), event(3, "rising", 67)];
    let second = [event(2, "rising", 17), event(4, "rising", 84)];
    let mut once = encoder();
    let all_a = [first[0].clone(), first[1].clone()];
    let all_b = [second[0].clone(), second[1].clone()];
    let whole = once.on_poll(&all_a, &all_b);

    let mut twice = encoder();
    let mut parts = twice.on_poll(&all_a[..1], &all_b[..1]);
    parts.extend(twice.on_poll(&all_a, &all_b));
    assert_eq!(parts, whole);
    assert_eq!(once.handles.state.decoder.count, twice.handles.state.decoder.count);
    assert_eq!(once.handles.state.decoder.count, -4, "A leads");
}

#[test]
fn the_order_of_serving_does_not_matter() {
    let a = [event(1, "DI_R", 0), event(3, "DI_R", 67), event(1, "DI_R", 0)];
    let b = [event(2, "DI_R", 17), event(4, "DI_F", 84)];
    let mut forward = encoder();
    let edges = forward.on_poll(&a, &b);
    let a = [event(3, "DI_R", 67), event(1, "DI_R", 0)];
    let b = [event(4, "DI_F", 84), event(2, "DI_R", 17), event(2, "DI_R", 17)];
    let mut shuffled = encoder();
    assert_eq!(shuffled.on_poll(&a, &b), edges);
    assert_eq!(shuffled.handles.state.event_cursor, forward.handles.state.event_cursor);
    assert_eq!(edges.len(), 4);
}

#[test]
fn streamed_pulses_ignore_hints_unless_hints_alone_count() {
    let mut core = encoder();
    core.handles.hints = vec![(0, 1)];
    core.on_pulse(Channel::B, 0, NOW_MS, 0, false);
    assert_eq!(core.handles.state.decoder.count, 0, "held: the stream measures by itself");

    let mut params = Params::for_test(2, 3);
    params.hint_only_direction = true;
    let mut core = EncoderCore::new(params, NOW, 0);
    // No hint yet: held, although the timing could be read.
    drive(&mut core, 3, 0);
    assert_eq!(core.handles.state.decoder.count, 0);
    assert_eq!(core.handles.state.decoder.unsigned, 6);
    push_hint(&mut core.handles.hints, NOW_MS, -1);
    core.on_pulse(Channel::B, S, NOW_MS, 0, false);
    assert_eq!(core.handles.state.decoder.count, -7, "the hint signs the held run too");
    // The hint ends: the last commanded sign carries on, as ambiguous.
    push_hint(&mut core.handles.hints, NOW_MS + 1, 0);
    core.on_pulse(Channel::A, S + QUARTER, NOW_MS + 1, 0, false);
    assert_eq!(core.handles.state.decoder.count, -8);
    assert_eq!(core.handles.state.decoder.ambiguous, 1);
}

#[test]
fn old_hints_are_forgotten_but_no_answer_in_the_window_changes() {
    let mut timeline = vec![(0, 0), (1_000, 1), (2_000, -1)];
    let before = timeline.clone();
    let now = 1_500 + HINT_HISTORY_MS;
    push_hint(&mut timeline, now, 1);
    // Only what was superseded before the cutoff of 1500 has gone.
    assert_eq!(timeline, vec![(1_000, 1), (2_000, -1), (now, 1)]);
    for t in [1_500, 1_999, 2_000, now - 1] {
        assert_eq!(hint_at(&timeline, t), hint_at(&before, t));
    }
    assert_eq!(hint_at(&timeline, now), 1);
    push_hint(&mut timeline, now + 10 * HINT_HISTORY_MS, 0);
    assert_eq!(timeline, vec![(now, 1), (now + 10 * HINT_HISTORY_MS, 0)]);
    assert_eq!(hint_at(&[], 5), 0);
}

#[test]
fn parameters_come_from_the_config() {
    let cfg = ChannelGateEncoderConfig {
        channel_a_pin: 4,
        channel_b_pin: 5,
        nm_per_count: 10_000_000,
        pulses_per_rev: 24,
        invert_direction: true,
        debounce_ms: 3,
        use_event_polling: true,
        hint_only_direction: true,
        event_poll_period_ns: 250_000_000,
        assert_outputs_off_on_start: false,
        home_switch_pin: Some(7),
        home_switch_active_low: true,
        home_height_nm: 1,
        gate_travel_nm: 2,
        display_refresh_period_ns: 500_000_000,
        tag_publish_interval_ns: 100_000_000,
    };
    assert!(cfg.homing_enabled());
    let params = Params::from_config(&cfg);
    assert_eq!((params.a_pin, params.b_pin, params.home_pin), (4, 5, Some(7)));
    assert!(!params.home_active_high);
    assert_eq!(params.nm_per_count, 10_000_000);
    assert_eq!(params.pulses_per_rev, 24);
    assert_eq!((params.home_height_nm, params.gate_travel_nm), (1, 2));
    assert_eq!(params.publish_interval_ns, 100_000_000);
    assert_eq!(params.debounce_ms, 3);
    assert!(params.use_event_polling && params.invert_direction && params.hint_only_direction);
    let core = EncoderCore::new(params, NOW, 0);
    assert!(core.handles.state.decoder.invert && core.handles.state.decoder.hint_only);
    let unset = ChannelGateEncoderConfig { home_switch_pin: None, ..cfg };
    assert!(!unset.homing_enabled());
    assert_eq!(Params::from_config(&unset).home_pin, None);
}

#[test]
fn the_tags_of_a_snapshot() {
    let mut core = encoder();
    core.baseline(NOW, 0);
    drive(&mut core, 2, 0);
    core.handles.state.decoder.missed = 3;
    core.handles.state.decoder.ambiguous = 2;
    let snap = core.publish(NOW + S, S);
    let tags = ChannelGateEncoderTags::of(&snap);
    assert_eq!(value(tags.Height), 8.0);
    assert_eq!(value(tags.PercentOpen), 0.8);
    assert_eq!(tags.RawCount, 4);
    assert_eq!((tags.Homed, tags.HomeSwitch), (false, false));
    assert_eq!((tags.Direction, tags.RotationDirection), ("opening", "cw"));
    assert_eq!(value(tags.Speed), 480.0);
    assert_eq!((tags.MissedEdges, tags.AmbiguousEdges), (3, 2));
    assert_eq!(value(tags.Heartbeat), 1_700_000_001.0);
    assert_eq!(value(tags.Revolutions), 0.125);
    assert_eq!(value(tags.RPM), 7.5);
}

#[test]
fn the_revolutions_tag_has_four_decimals() {
    let mut core = encoder();
    for count in [1, -1, 3, 7, 33, -1_001] {
        core.handles.state.decoder.count = count;
        let snap = core.publish(NOW, 0);
        let tags = ChannelGateEncoderTags::of(&snap);
        assert_eq!(
            value(tags.Revolutions),
            (count as f64 / 32.0 * 10_000.0).round() / 10_000.0,
            "count {count}"
        );
        assert_eq!(tags.RawCount, count);
        assert_eq!(value(tags.Height), count as f64 * 2.0);
    }
    core.handles.state.decoder.count = 1;
    let tags = ChannelGateEncoderTags::of(&core.publish(NOW, 0));
    assert_eq!(tags.Revolutions, Ratio::new(313, 10_000));
}
