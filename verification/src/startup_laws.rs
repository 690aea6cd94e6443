//! What holds of the start, the output guard, the pulse listener and the
//! healthcheck, whatever the configuration.

use vstd::prelude::*;

use crate::encoder::Params;
use crate::health::{is_healthy, port_of};
use crate::listener::{listener_rule, ListenerAction, ListenerEvent};
use crate::startup::{
    at_least, guard_rule, setup_actions, travel_share, GuardAction, GuardOutcome, GuardReport,
    PinEdge, SetupAction,
};
#[allow(unused_imports)]
use crate::startup::{
    all_off, channel_action, homing_actions, GUARDED_OUTPUTS, GUARD_ATTEMPTS, GUARD_LOG_EVERY,
    PERIOD_FLOOR_NS,
};
#[allow(unused_imports)]
use crate::text::{all_digits, decimal, law_decimal_reads_back, unsigned_number};

verus! {

/// Whether a step is taken, and every later place holds something else: it is
/// taken once.
pub open spec fn once(plan: Seq<SetupAction>, step: SetupAction) -> bool {
    exists|i: int|
        0 <= i < plan.len() && #[trigger] plan[i] == step && forall|j: int|
            0 <= j < plan.len() && #[trigger] plan[j] == step ==> j == i
}

/// Whether every taking of one step comes before every taking of another.
pub open spec fn precedes(plan: Seq<SetupAction>, x: SetupAction, y: SetupAction) -> bool {
    forall|i: int, j: int|
        0 <= i < plan.len() && 0 <= j < plan.len() && #[trigger] plan[i] == x
            && #[trigger] plan[j] == y ==> i < j
}

proof fn lemma_plan(guard_outputs: bool, params: Params) -> (g: int)
    ensures
        g == if guard_outputs {
            1int
        } else {
            0int
        },
        ({
            let plan = setup_actions(guard_outputs, params);
            &&& guard_outputs ==> plan[0] == SetupAction::GuardOutputs
            &&& plan[g] == SetupAction::ConfigureChannel {
                pin: params.a_pin,
                edge: PinEdge::Rising,
                debounce_ms: params.debounce_ms,
            }
            &&& plan[g + 1] == SetupAction::ConfigureChannel {
                pin: params.b_pin,
                edge: PinEdge::Rising,
                debounce_ms: params.debounce_ms,
            }
            &&& plan[g + 2] == SetupAction::Restore
            &&& plan[g + 3] == if params.use_event_polling {
                SetupAction::StartPolling
            } else {
                SetupAction::StartListeners
            }
            &&& params.home_pin matches Some(pin) ==> {
                &&& plan.len() == g + 10
                &&& plan[g + 4] == SetupAction::ConfigureHome { pin, debounce_ms: 20 }
                &&& plan[g + 5] == SetupAction::WatchHome { pin }
                &&& plan[g + 6] == SetupAction::SeedHome { pin }
                &&& plan[g + 7] == SetupAction::Baseline
                &&& plan[g + 8] == SetupAction::ColourRanges
                &&& plan[g + 9] == SetupAction::ServeDebug { port: 8765 }
            }
            &&& params.home_pin is None ==> {
                &&& plan.len() == g + 8
                &&& plan[g + 4] == SetupAction::ManualHoming
                &&& plan[g + 5] == SetupAction::Baseline
                &&& plan[g + 6] == SetupAction::ColourRanges
                &&& plan[g + 7] == SetupAction::ServeDebug { port: 8765 }
            }
        }),
{
    if guard_outputs {
        1
    } else {
        0
    }
}

/// Homing is armed exactly where a home switch is configured, whichever way
/// edges are read: its pin is debounced, then watched, then read once, all of it
/// before the baseline, and nothing says that homing is manual. Without a switch
/// that is said, and no pin is touched for it.
pub proof fn law_homing_follows_the_switch(guard_outputs: bool, params: Params, pin: i32, ms: i32)
    ensures
        ({
            let plan = setup_actions(guard_outputs, params);
            let configure = SetupAction::ConfigureHome { pin, debounce_ms: 20 };
            let watch = SetupAction::WatchHome { pin };
            let seed = SetupAction::SeedHome { pin };
            &&& params.home_pin == Some(pin) ==> {
                &&& once(plan, configure)
                &&& once(plan, watch)
                &&& once(plan, seed)
                &&& precedes(plan, configure, watch)
                &&& precedes(plan, watch, seed)
                &&& precedes(plan, seed, SetupAction::Baseline)
            }
            &&& params.home_pin != Some(pin) ==> {
                &&& !plan.contains(watch)
                &&& !plan.contains(seed)
            }
            &&& params.home_pin != Some(pin) || ms != 20 ==> !plan.contains(
                SetupAction::ConfigureHome { pin, debounce_ms: ms },
            )
            &&& params.home_pin is Some ==> !plan.contains(SetupAction::ManualHoming)
            &&& params.home_pin is None ==> once(plan, SetupAction::ManualHoming)
        }),
{
    let g = lemma_plan(guard_outputs, params);
    let plan = setup_actions(guard_outputs, params);
    if params.home_pin is None {
        assert(plan[g + 4] == SetupAction::ManualHoming);
    } else {
        assert(plan[g + 4] is ConfigureHome);
        assert(plan[g + 5] is WatchHome);
        assert(plan[g + 6] is SeedHome);
    }
}

/// Edges are read from the event log or from the streams, as configured: from
/// one of them, and only once the pins are set and the persisted count is back.
pub proof fn law_one_ingest_is_started(guard_outputs: bool, params: Params)
    ensures
        ({
            let plan = setup_actions(guard_outputs, params);
            let poll = SetupAction::StartPolling;
            let listen = SetupAction::StartListeners;
            &&& params.use_event_polling ==> once(plan, poll) && !plan.contains(listen)
            &&& !params.use_event_polling ==> once(plan, listen) && !plan.contains(poll)
            &&& once(plan, SetupAction::Restore)
            &&& precedes(plan, SetupAction::Restore, poll)
            &&& precedes(plan, SetupAction::Restore, listen)
            &&& precedes(plan, poll, SetupAction::Baseline)
            &&& precedes(plan, listen, SetupAction::Baseline)
        }),
{
    let g = lemma_plan(guard_outputs, params);
    let plan = setup_actions(guard_outputs, params);
    assert(plan[g + 2] is Restore);
    assert(plan[g + 3] is StartPolling || plan[g + 3] is StartListeners);
}

/// Both channels' pins interrupt on rising edges under the configured debounce,
/// before anything counts; no other pin is configured as a channel's.
pub proof fn law_channels_interrupt_on_rising_edges(
    guard_outputs: bool,
    params: Params,
    pin: i32,
    edge: PinEdge,
    ms: i32,
)
    ensures
        ({
            let plan = setup_actions(guard_outputs, params);
            let step = SetupAction::ConfigureChannel { pin, edge, debounce_ms: ms };
            &&& plan.contains(step) <==> (pin == params.a_pin || pin == params.b_pin) && edge
                == PinEdge::Rising && ms == params.debounce_ms
            &&& precedes(plan, step, SetupAction::Restore)
        }),
{
    let g = lemma_plan(guard_outputs, params);
    let plan = setup_actions(guard_outputs, params);
    assert(plan[g] is ConfigureChannel && plan[g + 1] is ConfigureChannel);
    assert(plan[g + 2] is Restore);
}

/// The outputs are guarded first of all, or not at all, as configured; the
/// endpoint is served last of all, once the baseline is taken and the readout
/// is coloured, each once.
pub proof fn law_guard_comes_first_and_endpoint_last(guard_outputs: bool, params: Params)
    ensures
        ({
            let plan = setup_actions(guard_outputs, params);
            let serve = SetupAction::ServeDebug { port: 8765 };
            &&& plan.len() > 0
            &&& guard_outputs ==> plan[0] == SetupAction::GuardOutputs && once(
                plan,
                SetupAction::GuardOutputs,
            )
            &&& !guard_outputs ==> !plan.contains(SetupAction::GuardOutputs)
            &&& plan.last() == serve
            &&& once(plan, serve)
            &&& once(plan, SetupAction::Baseline)
            &&& once(plan, SetupAction::ColourRanges)
            &&& precedes(plan, SetupAction::Baseline, SetupAction::ColourRanges)
            &&& precedes(plan, SetupAction::Restore, SetupAction::Baseline)
        }),
{
    let g = lemma_plan(guard_outputs, params);
    let plan = setup_actions(guard_outputs, params);
    let n = plan.len() as int;
    assert(plan[n - 1] is ServeDebug);
    assert(plan[n - 2] is ColourRanges);
    assert(plan[n - 3] is Baseline);
    assert(plan[g + 2] is Restore);
}

// ---------------------------------------------------------------------------
// Pace and readout
// ---------------------------------------------------------------------------

/// A period is served as configured down to ten milliseconds, and no faster.
pub proof fn law_periods_have_a_floor(period_ns: int)
    ensures
        period_ns >= 10_000_000 ==> at_least(period_ns, PERIOD_FLOOR_NS as int) == period_ns,
        period_ns < 10_000_000 ==> at_least(period_ns, PERIOD_FLOOR_NS as int) == 10_000_000,
{
}

/// A share of the travel is that many hundredths of it, in millimetres; of a
/// metre, where no travel is configured.
pub proof fn law_shares_are_hundredths_of_the_travel(gate_travel_nm: i64, percent: int)
    requires
        0 <= percent <= 100,
    ensures
        ({
            let share = travel_share(gate_travel_nm as int, percent);
            &&& share.den > 0
            &&& gate_travel_nm > 0 ==> share.num * 100_000_000 == gate_travel_nm * percent
                * share.den
            &&& gate_travel_nm <= 0 ==> share.num == 10 * percent * share.den
        }),
{
    let travel = if gate_travel_nm > 0 {
        gate_travel_nm as int
    } else {
        1_000_000_000
    };
    assert(0 <= travel * percent <= 100 * travel) by (nonlinear_arith)
        requires
            0 <= percent <= 100,
            travel > 0,
    ;
}

// ---------------------------------------------------------------------------
// The output guard
// ---------------------------------------------------------------------------

/// The guard is content with one thing alone: reading all three outputs back as
/// off. It then says at which attempt, counted from one.
pub proof fn law_guard_confirms_only_a_clean_readback(attempt: u32, outcome: GuardOutcome)
    requires
        attempt < 150,
    ensures
        ({
            let clean = outcome matches GuardOutcome::Readback(r) && r@ == seq![
                false,
                false,
                false,
            ];
            &&& clean ==> guard_rule(attempt, outcome) == (GuardAction::Confirmed {
                attempt: (attempt + 1) as u32,
            })
            &&& !clean ==> !(guard_rule(attempt, outcome) is Confirmed)
        }),
{
    if let GuardOutcome::Readback(r) = outcome {
        let off = seq![false, false, false];
        if all_off(r@) {
            assert(r@ =~= off);
        }
        if r@ == off {
            assert(all_off(r@));
        }
    }
}

/// Short of that it tries again, up to a hundred and fifty attempts in all, and
/// only then gives up. Outputs that did not read back clean are always
/// reported; a failure to write or to read, once every fifteen attempts.
pub proof fn law_guard_keeps_trying(attempt: u32, outcome: GuardOutcome)
    requires
        attempt < 150,
        outcome matches GuardOutcome::Readback(r) ==> r@ != seq![false, false, false],
    ensures
        ({
            let report = match outcome {
                GuardOutcome::Readback(_) => GuardReport::NotClean,
                GuardOutcome::WriteFailed | GuardOutcome::ReadFailed => if attempt % 15 == 0 {
                    GuardReport::Failure
                } else {
                    GuardReport::Nothing
                },
            };
            &&& attempt < 149 ==> guard_rule(attempt, outcome) == (GuardAction::Retry { report })
            &&& attempt == 149 ==> guard_rule(attempt, outcome) == (GuardAction::GiveUp { report })
        }),
{
    law_guard_confirms_only_a_clean_readback(attempt, outcome);
}

// ---------------------------------------------------------------------------
// The pulse listener
// ---------------------------------------------------------------------------

/// Every frame with a period is one pulse and every one without is none; a
/// period is handed on where it is positive, and a level where it is high.
pub proof fn law_frames_with_a_period_are_pulses(period_ns: i64, level: Option<bool>)
    ensures
        listener_rule(ListenerEvent::Frame { period_ns: None, level }) is Skip,
        ({
            let action = listener_rule(ListenerEvent::Frame { period_ns: Some(period_ns), level });
            &&& action is Pulse
            &&& period_ns > 0 ==> action->hw_period == period_ns
            &&& period_ns <= 0 ==> action->hw_period == 0
            &&& action->reports_high <==> level == Some(true)
        }),
{
}

/// However a stream is lost, it is opened again; and nothing but its loss makes
/// it be.
pub proof fn law_only_lost_streams_reconnect(event: ListenerEvent)
    ensures
        listener_rule(event) is Reconnect <==> event is ReceiveError || event is End || event
            is SubscribeError,
{
}

// ---------------------------------------------------------------------------
// The healthcheck
// ---------------------------------------------------------------------------

/// A port written out in decimal is the one that is probed.
pub proof fn law_configured_port_is_probed(port: u16)
    ensures
        port_of(Some(decimal(port as int))) == port,
{
    law_decimal_reads_back(port as int);
}

/// Without a setting, or with one that is no number or too large for a port, the
/// default port is probed.
pub proof fn law_other_settings_give_the_default(setting: Seq<char>, n: int)
    ensures
        port_of(None) == 49200,
        unsigned_number(setting) is None ==> port_of(Some(setting)) == 49200,
        unsigned_number(setting) == Some(n) && n > 65535 ==> port_of(Some(setting)) == 49200,
        unsigned_number(setting) == Some(n) && 0 <= n <= 65535 ==> port_of(Some(setting)) == n,
{
}

/// A response is healthy by its first twelve characters alone: whatever follows
/// them changes nothing, and a shorter response is not.
pub proof fn law_health_is_in_the_status_line(text: Seq<char>, rest: Seq<char>)
    ensures
        is_healthy("HTTP/1.1 200"@ + rest),
        is_healthy(text) ==> is_healthy(text + rest),
        is_healthy(text) ==> text.len() >= 12 && text.take(12) == "HTTP/1.1 200"@,
        text.len() >= 12 ==> is_healthy(text + rest) == is_healthy(text),
{
    reveal_strlit("HTTP/1.1 200");
    let line = "HTTP/1.1 200"@;
    assert(line.len() == 12);
    assert((line + rest).subrange(0, 12) =~= line);
    if text.len() >= 12 {
        assert((text + rest).subrange(0, 12) =~= text.subrange(0, 12));
    }
    assert(text.take(12) =~= text.subrange(0, 12));
}

} // verus!
