//! Deployment config, as plain values: lengths in nanometres and times in
//! nanoseconds.

use vstd::prelude::*;

verus! {

/// Config for the channel gate encoder.
///
/// The encoder is incremental, so the height can be trusted only once it was
/// homed against the limit switch or zeroed by hand.
#[derive(Debug, Clone, Copy)]
pub struct ChannelGateEncoderConfig {
    /// Digital input wired to proximity sensor A.
    pub channel_a_pin: i64,
    /// Digital input wired to proximity sensor B, mounted a quarter pitch from
    /// A.
    pub channel_b_pin: i64,
    /// Gate travel per decoded count: half the target's pitch.
    pub nm_per_count: i64,
    /// Teeth on the target wheel.
    pub pulses_per_rev: i64,
    /// Flip the counting direction.
    pub invert_direction: bool,
    /// Hardware debounce of both channel pins, in milliseconds.
    pub debounce_ms: i64,
    /// Read edges by polling the event log rather than from pulse streams.
    pub use_event_polling: bool,
    /// Take the count's sign from direction hints alone, never from timing:
    /// edges under a hint are signed by it, edges without one are held, or
    /// carried on the last commanded sign.
    pub hint_only_direction: bool,
    /// How often the event log is polled.
    pub event_poll_period_ns: i64,
    /// Write the outputs off at start.
    pub assert_outputs_off_on_start: bool,
    /// Digital input of the limit switch, if there is one.
    pub home_switch_pin: Option<i64>,
    /// Whether the limit switch reads low at home.
    pub home_switch_active_low: bool,
    /// Gate height at the home switch.
    pub home_height_nm: i64,
    /// Full gate travel.
    pub gate_travel_nm: i64,
    /// How often the readouts refresh.
    pub display_refresh_period_ns: i64,
    /// How often position and direction are published.
    pub tag_publish_interval_ns: i64,
}

impl ChannelGateEncoderConfig {
    /// Whether a limit switch is wired.
    pub fn homing_enabled(&self) -> (enabled: bool)
        ensures
            enabled == (self.home_switch_pin is Some),
    {
        self.home_switch_pin.is_some()
    }
}

} // verus!
