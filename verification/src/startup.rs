//! What is done at start, and in which order; the guard that drives the outputs
//! off; and the pace of the main loop.

use vstd::prelude::*;

use crate::config::ChannelGateEncoderConfig;
use crate::debug_server::PORT;
use crate::encoder::Params;
use crate::ratio::Ratio;

verus! {

/// The edge on which a pin interrupts.
#[derive(Debug, Clone, Copy, PartialEq, Eq, Structural)]
pub enum PinEdge {
    Rising,
    Falling,
}

/// One step of the start, once the platform is connected.
#[derive(Debug, Clone, Copy, PartialEq, Eq, Structural)]
pub enum SetupAction {
    /// Drive the outputs off in the background.
    GuardOutputs,
    /// Set the interrupt edge and the debounce of a channel's pin. A failure is
    /// only logged.
    ConfigureChannel { pin: i32, edge: PinEdge, debounce_ms: i32 },
    /// Take over the persisted count and homed flag.
    Restore,
    /// Read edges from the event log.
    StartPolling,
    /// Read edges from one pulse stream per channel.
    StartListeners,
    /// Set the debounce of the home switch's pin. A failure is only logged.
    ConfigureHome { pin: i32, debounce_ms: i32 },
    /// Watch both edges of the home switch.
    WatchHome { pin: i32 },
    /// Read the home switch's level once.
    SeedHome { pin: i32 },
    /// Say that homing is manual only.
    ManualHoming,
    /// Baseline the movement tracking and the snapshot.
    Baseline,
    /// Set the colours of the height readout's ranges.
    ColourRanges,
    /// Serve the debug endpoint.
    ServeDebug { port: u16 },
}

/// Debounce of the home switch, in milliseconds.
pub const HOME_DEBOUNCE_MS: i32 = 20;

/// The steps that arm homing.
pub open spec fn homing_actions(home_pin: Option<i32>) -> Seq<SetupAction> {
    match home_pin {
        Some(pin) => seq![
            SetupAction::ConfigureHome { pin, debounce_ms: HOME_DEBOUNCE_MS },
            SetupAction::WatchHome { pin },
            SetupAction::SeedHome { pin },
        ],
        None => seq![SetupAction::ManualHoming],
    }
}

/// The step that configures a channel's pin. Rising edges alone interrupt,
/// because falling ones could displace them.
pub open spec fn channel_action(pin: i32, debounce_ms: i32) -> SetupAction {
    SetupAction::ConfigureChannel { pin, edge: PinEdge::Rising, debounce_ms }
}

/// The steps of the start, in order. The baseline comes after everything that
/// sets the count, and the debug endpoint last, so that it never serves
/// placeholders.
pub open spec fn setup_actions(guard_outputs: bool, params: Params) -> Seq<SetupAction> {
    (if guard_outputs {
        seq![SetupAction::GuardOutputs]
    } else {
        Seq::<SetupAction>::empty()
    }) + seq![
        channel_action(params.a_pin, params.debounce_ms),
        channel_action(params.b_pin, params.debounce_ms),
        SetupAction::Restore,
        if params.use_event_polling {
            SetupAction::StartPolling
        } else {
            SetupAction::StartListeners
        },
    ] + homing_actions(params.home_pin) + seq![
        SetupAction::Baseline,
        SetupAction::ColourRanges,
        SetupAction::ServeDebug { port: PORT },
    ]
}

/// The steps of the start for a config.
pub fn setup_plan(cfg: &ChannelGateEncoderConfig, params: &Params) -> (plan: Vec<SetupAction>)
    ensures
        plan@ == setup_actions(cfg.assert_outputs_off_on_start, *params),
{
    let mut plan: Vec<SetupAction> = Vec::new();
    if cfg.assert_outputs_off_on_start {
        plan.push(SetupAction::GuardOutputs);
    }
    let debounce_ms: i32 = params.debounce_ms;
    plan.push(
        SetupAction::ConfigureChannel { pin: params.a_pin, edge: PinEdge::Rising, debounce_ms },
    );
    plan.push(
        SetupAction::ConfigureChannel { pin: params.b_pin, edge: PinEdge::Rising, debounce_ms },
    );
    plan.push(SetupAction::Restore);
    if params.use_event_polling {
        plan.push(SetupAction::StartPolling);
    } else {
        plan.push(SetupAction::StartListeners);
    }
    match params.home_pin {
        Some(pin) => {
            plan.push(SetupAction::ConfigureHome { pin, debounce_ms: HOME_DEBOUNCE_MS });
            plan.push(SetupAction::WatchHome { pin });
            plan.push(SetupAction::SeedHome { pin });
        },
        None => {
            plan.push(SetupAction::ManualHoming);
        },
    }
    plan.push(SetupAction::Baseline);
    plan.push(SetupAction::ColourRanges);
    plan.push(SetupAction::ServeDebug { port: PORT });
    assert(plan@ =~= setup_actions(cfg.assert_outputs_off_on_start, *params));
    plan
}

// ---------------------------------------------------------------------------
// Pace and readout
// ---------------------------------------------------------------------------

/// Shortest period that either consumer of the main loop is served at.
pub const PERIOD_FLOOR_NS: i64 = 10_000_000;

pub open spec fn at_least(x: int, floor: int) -> int {
    if x < floor {
        floor
    } else {
        x
    }
}

/// The main loop's period: that of the faster of its two consumers, the display
/// and the publish timer, neither taken as faster than the floor.
pub fn loop_target_period(cfg: &ChannelGateEncoderConfig) -> (period_ns: i64)
    ensures
        ({
            let display = at_least(cfg.display_refresh_period_ns as int, PERIOD_FLOOR_NS as int);
            let publish = at_least(cfg.tag_publish_interval_ns as int, PERIOD_FLOOR_NS as int);
            period_ns == if display < publish {
                display
            } else {
                publish
            }
        }),
        period_ns >= 10_000_000,
        period_ns == 10_000_000 || period_ns == cfg.display_refresh_period_ns || period_ns
            == cfg.tag_publish_interval_ns,
        period_ns > 10_000_000 ==> period_ns <= cfg.display_refresh_period_ns && period_ns
            <= cfg.tag_publish_interval_ns,
        period_ns == 10_000_000 ==> cfg.display_refresh_period_ns <= 10_000_000
            || cfg.tag_publish_interval_ns <= 10_000_000,
{
    let display: i64 = if cfg.display_refresh_period_ns < PERIOD_FLOOR_NS {
        PERIOD_FLOOR_NS
    } else {
        cfg.display_refresh_period_ns
    };
    let publish: i64 = if cfg.tag_publish_interval_ns < PERIOD_FLOOR_NS {
        PERIOD_FLOOR_NS
    } else {
        cfg.tag_publish_interval_ns
    };
    if display < publish {
        display
    } else {
        publish
    }
}

/// A range of heights in millimetres, as the readout labels it.
#[derive(Debug, Clone, Copy)]
pub struct HeightRange {
    pub label: &'static str,
    pub from_mm: Ratio,
    pub to_mm: Ratio,
}

/// Travel that the readout assumes where none is configured: a metre.
pub const DEFAULT_TRAVEL_NM: i64 = 1_000_000_000;

/// `percent` of the travel, in millimetres.
pub open spec fn travel_share(gate_travel_nm: int, percent: int) -> Ratio {
    let travel = if gate_travel_nm > 0 {
        gate_travel_nm
    } else {
        DEFAULT_TRAVEL_NM as int
    };
    Ratio { num: (travel * percent) as i128, den: 100_000_000 }
}

fn share(gate_travel_nm: i64, percent: i128) -> (mm: Ratio)
    requires
        0 <= percent <= 100,
    ensures
        mm == travel_share(gate_travel_nm as int, percent as int),
{
    let travel: i64 = if gate_travel_nm > 0 {
        gate_travel_nm
    } else {
        DEFAULT_TRAVEL_NM
    };
    assert(0 <= travel * percent <= 100 * travel) by (nonlinear_arith)
        requires
            0 <= percent <= 100,
            travel > 0,
    ;
    Ratio { num: travel as i128 * percent, den: 100_000_000 }
}

/// The readout's ranges: the lowest and the highest twentieth of the travel are
/// closed and open.
pub fn height_ranges(gate_travel_nm: i64) -> (ranges: Vec<HeightRange>)
    ensures
        ranges@.len() == 3,
        ranges@[0].label@ == "Closed"@,
        ranges@[1].label@ == "Part Open"@,
        ranges@[2].label@ == "Open"@,
        ranges@[0].from_mm == travel_share(gate_travel_nm as int, 0),
        ranges@[0].to_mm == travel_share(gate_travel_nm as int, 5),
        ranges@[1].from_mm == travel_share(gate_travel_nm as int, 5),
        ranges@[1].to_mm == travel_share(gate_travel_nm as int, 95),
        ranges@[2].from_mm == travel_share(gate_travel_nm as int, 95),
        ranges@[2].to_mm == travel_share(gate_travel_nm as int, 100),
        ranges@[0].from_mm.num == 0,
        ranges@[1].from_mm == ranges@[0].to_mm,
        ranges@[2].from_mm == ranges@[1].to_mm,
        ranges@[0].to_mm.den == ranges@[2].to_mm.den,
        ranges@[1].to_mm.den == ranges@[2].to_mm.den,
        20 * ranges@[0].to_mm.num == ranges@[2].to_mm.num,
        20 * ranges@[1].to_mm.num == 19 * ranges@[2].to_mm.num,
        gate_travel_nm > 0 ==> ranges@[2].to_mm.num * 1_000_000 == gate_travel_nm
            * ranges@[2].to_mm.den,
        gate_travel_nm <= 0 ==> ranges@[2].to_mm.num == 1_000 * ranges@[2].to_mm.den,
{
    let mut ranges: Vec<HeightRange> = Vec::new();
    let bottom: Ratio = share(gate_travel_nm, 0);
    let low: Ratio = share(gate_travel_nm, 5);
    let high: Ratio = share(gate_travel_nm, 95);
    let top: Ratio = share(gate_travel_nm, 100);
    ranges.push(HeightRange { label: "Closed", from_mm: bottom, to_mm: low });
    ranges.push(HeightRange { label: "Part Open", from_mm: low, to_mm: high });
    ranges.push(HeightRange { label: "Open", from_mm: high, to_mm: top });
    ranges
}

// ---------------------------------------------------------------------------
// The output guard
// ---------------------------------------------------------------------------

/// How many outputs the guard drives off.
pub const GUARDED_OUTPUTS: usize = 3;

/// How often the guard tries.
pub const GUARD_ATTEMPTS: u32 = 150;

/// Every so many attempts a failure is logged.
pub const GUARD_LOG_EVERY: u32 = 15;

/// What came of writing the outputs off and reading them back.
#[derive(Debug, Clone)]
pub enum GuardOutcome {
    WriteFailed,
    ReadFailed,
    Readback(Vec<bool>),
}

/// What the guard does next.
#[derive(Debug, Clone, Copy, PartialEq, Eq, Structural)]
pub enum GuardAction {
    /// The outputs are off; `attempt` counts from one. The guard is done.
    Confirmed { attempt: u32 },
    /// Wait and try again.
    Retry { report: GuardReport },
    /// Wait, and give up.
    GiveUp { report: GuardReport },
}

/// What is logged of a failed attempt.
#[derive(Debug, Clone, Copy, PartialEq, Eq, Structural)]
pub enum GuardReport {
    Nothing,
    Failure,
    NotClean,
}

/// Whether a readback confirms that every output is off.
pub open spec fn all_off(readback: Seq<bool>) -> bool {
    readback.len() == GUARDED_OUTPUTS && forall|i: int|
        0 <= i < readback.len() ==> !#[trigger] readback[i]
}

/// The guard's rule: only a readback of all outputs off confirms, not an
/// accepted write; otherwise it tries again, up to its last attempt.
pub open spec fn guard_rule(attempt: u32, outcome: GuardOutcome) -> GuardAction {
    let report = match outcome {
        GuardOutcome::Readback(_) => GuardReport::NotClean,
        _ => if attempt % GUARD_LOG_EVERY == 0 {
            GuardReport::Failure
        } else {
            GuardReport::Nothing
        },
    };
    if outcome matches GuardOutcome::Readback(r) && all_off(r@) {
        GuardAction::Confirmed { attempt: (attempt + 1) as u32 }
    } else if attempt + 1 < GUARD_ATTEMPTS {
        GuardAction::Retry { report }
    } else {
        GuardAction::GiveUp { report }
    }
}

fn confirms_off(readback: &Vec<bool>) -> (off: bool)
    ensures
        off == all_off(readback@),
{
    if readback.len() != GUARDED_OUTPUTS {
        return false;
    }
    let mut i: usize = 0;
    while i < readback.len()
        invariant
            i <= readback.len(),
            forall|j: int| 0 <= j < i ==> !#[trigger] readback@[j],
        decreases readback.len() - i,
    {
        if readback[i] {
            return false;
        }
        i = i + 1;
    }
    true
}

/// Decide what follows the attempt with the given number, counted from zero.
pub fn guard_step(attempt: u32, outcome: &GuardOutcome) -> (action: GuardAction)
    requires
        attempt < GUARD_ATTEMPTS,
    ensures
        action == guard_rule(attempt, *outcome),
{
    let report: GuardReport = match outcome {
        GuardOutcome::Readback(readback) => {
            if confirms_off(readback) {
                return GuardAction::Confirmed { attempt: attempt + 1 };
            }
            GuardReport::NotClean
        },
        _ => if attempt % GUARD_LOG_EVERY == 0 {
            GuardReport::Failure
        } else {
            GuardReport::Nothing
        },
    };
    if attempt + 1 < GUARD_ATTEMPTS {
        GuardAction::Retry { report }
    } else {
        GuardAction::GiveUp { report }
    }
}

} // verus!
