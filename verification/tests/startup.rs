//! The start, the output guard, the listeners and the pace.

use channel_gate_encoder::listener::{listener_step, ListenerAction, ListenerEvent};
use channel_gate_encoder::ratio::Ratio;
use channel_gate_encoder::startup::{
    guard_step, height_ranges, loop_target_period, setup_plan, GuardAction, GuardOutcome,
    GuardReport, PinEdge, SetupAction,
};
use channel_gate_encoder::{ChannelGateEncoderConfig, Params};

fn config() -> ChannelGateEncoderConfig {
    ChannelGateEncoderConfig {
        channel_a_pin: 0,
        channel_b_pin: 1,
        nm_per_count: 2_000_000,
        pulses_per_rev: 16,
        invert_direction: false,
        debounce_ms: 2,
        use_event_polling: true,
        hint_only_direction: false,
        event_poll_period_ns: 250_000_000,
        assert_outputs_off_on_start: false,
        home_switch_pin: None,
        home_switch_active_low: false,
        home_height_nm: 0,
        gate_travel_nm: 1_000_000_000,
        display_refresh_period_ns: 500_000_000,
        tag_publish_interval_ns: 500_000_000,
    }
}

fn value(r: Ratio) -> f64 {
    r.num as f64 / r.den as f64
}

#[test]
fn a_plain_start() {
    let cfg = config();
    assert_eq!(
        setup_plan(&cfg, &Params::from_config(&cfg)),
        vec![
            SetupAction::ConfigureChannel { pin: 0, edge: PinEdge::Rising, debounce_ms: 2 },
            SetupAction::ConfigureChannel { pin: 1, edge: PinEdge::Rising, debounce_ms: 2 },
            SetupAction::Restore,
            SetupAction::StartPolling,
            SetupAction::ManualHoming,
            SetupAction::Baseline,
            SetupAction::ColourRanges,
            SetupAction::ServeDebug { port: 8765 },
        ]
    );
}

#[test]
fn a_start_with_everything() {
    let cfg = ChannelGateEncoderConfig {
        assert_outputs_off_on_start: true,
        use_event_polling: false,
        home_switch_pin: Some(6),
        ..config()
    };
    assert_eq!(
        setup_plan(&cfg, &Params::from_config(&cfg)),
        vec![
            SetupAction::GuardOutputs,
            SetupAction::ConfigureChannel { pin: 0, edge: PinEdge::Rising, debounce_ms: 2 },
            SetupAction::ConfigureChannel { pin: 1, edge: PinEdge::Rising, debounce_ms: 2 },
            SetupAction::Restore,
            SetupAction::StartListeners,
            SetupAction::ConfigureHome { pin: 6, debounce_ms: 20 },
            SetupAction::WatchHome { pin: 6 },
            SetupAction::SeedHome { pin: 6 },
            SetupAction::Baseline,
            SetupAction::ColourRanges,
            SetupAction::ServeDebug { port: 8765 },
        ]
    );
}

#[test]
fn the_loop_follows_the_faster_consumer() {
    assert_eq!(loop_target_period(&config()), 500_000_000);
    let cfg = ChannelGateEncoderConfig { tag_publish_interval_ns: 50_000_000, ..config() };
    assert_eq!(loop_target_period(&cfg), 50_000_000);
    let cfg = ChannelGateEncoderConfig { display_refresh_period_ns: 0, ..config() };
    assert_eq!(loop_target_period(&cfg), 10_000_000);
    let cfg = ChannelGateEncoderConfig { display_refresh_period_ns: -5, ..config() };
    assert_eq!(loop_target_period(&cfg), 10_000_000);
}

#[test]
fn the_ranges_follow_the_travel() {
    let ranges = height_ranges(2_000_000_000);
    let bounds: Vec<_> =
        ranges.iter().map(|r| (r.label, value(r.from_mm), value(r.to_mm))).collect();
    assert_eq!(
        bounds,
        vec![("Closed", 0.0, 100.0), ("Part Open", 100.0, 1900.0), ("Open", 1900.0, 2000.0)]
    );
    assert_eq!(value(height_ranges(0)[2].to_mm), 1000.0, "a metre where none is configured");
}

#[test]
fn only_a_clean_readback_confirms() {
    assert_eq!(
        guard_step(4, &GuardOutcome::Readback(vec![false, false, false])),
        GuardAction::Confirmed { attempt: 5 }
    );
    assert_eq!(
        guard_step(4, &GuardOutcome::Readback(vec![false, true, false])),
        GuardAction::Retry { report: GuardReport::NotClean }
    );
    assert_eq!(
        guard_step(4, &GuardOutcome::Readback(vec![false, false])),
        GuardAction::Retry { report: GuardReport::NotClean }
    );
    assert_eq!(
        guard_step(149, &GuardOutcome::Readback(vec![false, false, false])),
        GuardAction::Confirmed { attempt: 150 }
    );
}

#[test]
fn failures_are_logged_now_and_then_and_end_at_the_last_attempt() {
    assert_eq!(
        guard_step(0, &GuardOutcome::WriteFailed),
        GuardAction::Retry { report: GuardReport::Failure }
    );
    assert_eq!(
        guard_step(1, &GuardOutcome::ReadFailed),
        GuardAction::Retry { report: GuardReport::Nothing }
    );
    assert_eq!(
        guard_step(15, &GuardOutcome::ReadFailed),
        GuardAction::Retry { report: GuardReport::Failure }
    );
    assert_eq!(
        guard_step(149, &GuardOutcome::WriteFailed),
        GuardAction::GiveUp { report: GuardReport::Nothing }
    );
}

#[test]
fn a_zero_period_is_a_pulse_and_a_missing_one_is_not() {
    let frame = |period_ns, level| listener_step(ListenerEvent::Frame { period_ns, level });
    assert_eq!(frame(None, None), ListenerAction::Skip);
    assert_eq!(frame(None, Some(true)), ListenerAction::Skip);
    assert_eq!(
        frame(Some(0), None),
        ListenerAction::Pulse { hw_period: 0, reports_high: false }
    );
    assert_eq!(
        frame(Some(-3), Some(false)),
        ListenerAction::Pulse { hw_period: 0, reports_high: false }
    );
    assert_eq!(
        frame(Some(66_666_667), Some(true)),
        ListenerAction::Pulse { hw_period: 66_666_667, reports_high: true }
    );
}

#[test]
fn whatever_ends_a_stream_reconnects() {
    for event in [ListenerEvent::ReceiveError, ListenerEvent::End, ListenerEvent::SubscribeError] {
        assert_eq!(listener_step(event), ListenerAction::Reconnect);
    }
}
