//! [`EncoderCore`]: the ingest of pulses, home-switch edges and polled events,
//! and the derivation of what the publish timer publishes.
//!
//! Times are integers in nanoseconds, but for event and hint times, which are
//! milliseconds since the Unix epoch. Lengths are nanometres.

use vstd::prelude::*;

use crate::config::ChannelGateEncoderConfig;
use crate::debug_server::DebugHandles;
use crate::events::{merge_new_edge_events, EdgeRecord, RawDiEvent};
#[allow(unused_imports)]
use crate::event_laws::law_merge_is_no_longer;
#[allow(unused_imports)]
use crate::events::{is_merge_of, is_newest, served};
use crate::quadrature::Channel;
#[allow(unused_imports)]
use crate::quadrature::{abs, hints_from, Decoding, Rise};
use crate::rate::{
    counts_per_rev, revolutions, rotation_direction, rpm_stopped_threshold, travel_direction,
    RateEstimator,
};
#[allow(unused_imports)]
use crate::rate::{
    in_window, law_window_keeps_the_recent_tail, revolutions_of, rotation_word, rpm_of, travel_word,
};
use crate::ratio::Ratio;
#[allow(unused_imports)]
use crate::ratio::{lemma_in_range_is_writable, lemma_seconds_are_writable, DEN_LIMIT};
use crate::state::{EncoderState, Snapshot};
#[allow(unused_imports)]
use crate::state::trace_grew;

verus! {

/// Plain values out of the deployment config.
#[derive(Debug, Clone, Copy)]
pub struct Params {
    pub a_pin: i32,
    pub b_pin: i32,
    pub home_pin: Option<i32>,
    /// Whether the switch reads high at home.
    pub home_active_high: bool,
    pub nm_per_count: i64,
    pub pulses_per_rev: i64,
    pub home_height_nm: i64,
    pub gate_travel_nm: i64,
    pub publish_interval_ns: i64,
    pub debounce_ms: i32,
    pub use_event_polling: bool,
    pub event_poll_period_ns: i64,
    pub invert_direction: bool,
    /// Whether hints alone give the direction.
    pub hint_only_direction: bool,
}

/// Greatest travel per count, in nanometres: the greatest with which no count
/// exceeds [`HEIGHT_LIMIT`].
pub const NM_PER_COUNT_LIMIT: i64 = 153_722_867_280_911;

impl Params {
    /// Within the limits up to which every derived quantity is exact.
    pub open spec fn in_range(&self) -> bool {
        &&& -NM_PER_COUNT_LIMIT <= self.nm_per_count <= NM_PER_COUNT_LIMIT
        &&& i64::MIN <= 2 * self.pulses_per_rev <= i64::MAX
    }

    /// Whether the parameters are within the limits.
    pub fn fits(&self) -> (fits: bool)
        ensures
            fits == self.in_range(),
    {
        -NM_PER_COUNT_LIMIT <= self.nm_per_count && self.nm_per_count <= NM_PER_COUNT_LIMIT
            && i64::MIN / 2 <= self.pulses_per_rev && self.pulses_per_rev <= i64::MAX / 2
    }

    /// Pin numbers and the debounce keep their low 32 bits.
    pub fn from_config(cfg: &ChannelGateEncoderConfig) -> (params: Params)
        ensures
            params == (Params {
                a_pin: cfg.channel_a_pin as i32,
                b_pin: cfg.channel_b_pin as i32,
                home_pin: match cfg.home_switch_pin {
                    Some(p) => Some(p as i32),
                    None => None,
                },
                home_active_high: !cfg.home_switch_active_low,
                nm_per_count: cfg.nm_per_count,
                pulses_per_rev: cfg.pulses_per_rev,
                home_height_nm: cfg.home_height_nm,
                gate_travel_nm: cfg.gate_travel_nm,
                publish_interval_ns: cfg.tag_publish_interval_ns,
                debounce_ms: cfg.debounce_ms as i32,
                use_event_polling: cfg.use_event_polling,
                event_poll_period_ns: cfg.event_poll_period_ns,
                invert_direction: cfg.invert_direction,
                hint_only_direction: cfg.hint_only_direction,
            }),
    {
        Params {
            a_pin: #[verifier::truncate] (cfg.channel_a_pin as i32),
            b_pin: #[verifier::truncate] (cfg.channel_b_pin as i32),
            home_pin: match cfg.home_switch_pin {
                Some(p) => Some(#[verifier::truncate] (p as i32)),
                None => None,
            },
            home_active_high: !cfg.home_switch_active_low,
            nm_per_count: cfg.nm_per_count,
            pulses_per_rev: cfg.pulses_per_rev,
            home_height_nm: cfg.home_height_nm,
            gate_travel_nm: cfg.gate_travel_nm,
            publish_interval_ns: cfg.tag_publish_interval_ns,
            debounce_ms: #[verifier::truncate] (cfg.debounce_ms as i32),
            use_event_polling: cfg.use_event_polling,
            event_poll_period_ns: cfg.event_poll_period_ns,
            invert_direction: cfg.invert_direction,
            hint_only_direction: cfg.hint_only_direction,
        }
    }

    /// A minimal set: two pins, streaming ingest, no homing.
    pub fn for_test(a_pin: i32, b_pin: i32) -> (params: Params)
        ensures
            params.in_range(),
            params == (Params {
                a_pin,
                b_pin,
                home_pin: None,
                home_active_high: true,
                nm_per_count: 2_000_000,
                pulses_per_rev: 16,
                home_height_nm: 0,
                gate_travel_nm: 1_000_000_000,
                publish_interval_ns: 500_000_000,
                debounce_ms: 2,
                use_event_polling: false,
                event_poll_period_ns: 250_000_000,
                invert_direction: false,
                hint_only_direction: false,
            }),
    {
        Params {
            a_pin,
            b_pin,
            home_pin: None,
            home_active_high: true,
            nm_per_count: 2_000_000,
            pulses_per_rev: 16,
            home_height_nm: 0,
            gate_travel_nm: 1_000_000_000,
            publish_interval_ns: 500_000_000,
            debounce_ms: 2,
            use_event_polling: false,
            event_poll_period_ns: 250_000_000,
            invert_direction: false,
            hint_only_direction: false,
        }
    }
}

// ---------------------------------------------------------------------------
// Direction hints
// ---------------------------------------------------------------------------

/// How many leading entries of a timeline are not later than `t_ms`.
pub open spec fn begun(timeline: Seq<(i64, i8)>, t_ms: int) -> int
    decreases timeline.len(),
{
    if timeline.len() == 0 || timeline[0].0 > t_ms {
        0
    } else {
        1 + begun(timeline.drop_first(), t_ms)
    }
}

/// The hint of the last of those entries; none where there is none.
pub open spec fn hint_of(timeline: Seq<(i64, i8)>, t_ms: int) -> i8 {
    let n = begun(timeline, t_ms);
    if n == 0 {
        0
    } else {
        timeline[n - 1].1
    }
}

proof fn lemma_begun(timeline: Seq<(i64, i8)>, t_ms: int, n: int)
    requires
        0 <= n <= timeline.len(),
        forall|i: int| 0 <= i < n ==> (#[trigger] timeline[i]).0 <= t_ms,
        n == timeline.len() || timeline[n].0 > t_ms,
    ensures
        begun(timeline, t_ms) == n,
    decreases timeline.len(),
{
    if n > 0 {
        let rest = timeline.drop_first();
        assert forall|i: int| 0 <= i < n - 1 implies (#[trigger] rest[i]).0 <= t_ms by {
            assert(rest[i] == timeline[i + 1]);
        }
        assert(timeline[0].0 <= t_ms);
        lemma_begun(rest, t_ms, n - 1);
    }
}

/// The direction hint that was active at capture time `t_ms`.
pub fn hint_at(timeline: &[(i64, i8)], t_ms: i64) -> (hint: i8)
    ensures
        hint == hint_of(timeline@, t_ms as int),
{
    let mut active: i8 = 0;
    let mut i: usize = 0;
    while i < timeline.len() && timeline[i].0 <= t_ms
        invariant
            i <= timeline@.len(),
            forall|j: int| 0 <= j < i ==> (#[trigger] timeline@[j]).0 <= t_ms,
            active == if i == 0 {
                0i8
            } else {
                timeline@[i - 1].1
            },
        decreases timeline.len() - i,
    {
        active = timeline[i].1;
        i = i + 1;
    }
    proof {
        lemma_begun(timeline@, t_ms as int, i as int);
    }
    active
}

/// How long a hint change is kept at least, in milliseconds.
pub const HINT_HISTORY_MS: i64 = 600_000;

/// A timeline without the leading entries that were superseded before `cutoff`.
pub open spec fn trimmed_hints(timeline: Seq<(i64, i8)>, cutoff: int) -> Seq<(i64, i8)>
    decreases timeline.len(),
{
    if timeline.len() > 1 && timeline[1].0 < cutoff {
        trimmed_hints(timeline.drop_first(), cutoff)
    } else {
        timeline
    }
}

/// Record a direction-hint change at `now_ms`. Entries that were superseded
/// over ten minutes ago are dropped, but the latest state always stays.
pub fn push_hint(timeline: &mut Vec<(i64, i8)>, now_ms: i64, hint: i8)
    ensures
        final(timeline)@ == trimmed_hints(
            old(timeline)@.push((now_ms, hint)),
            now_ms - HINT_HISTORY_MS,
        ),
{
    timeline.push((now_ms, hint));
    let cutoff: i128 = now_ms as i128 - HINT_HISTORY_MS as i128;
    while timeline.len() > 1 && (timeline[1].0 as i128) < cutoff
        invariant
            trimmed_hints(timeline@, cutoff as int) == trimmed_hints(
                old(timeline)@.push((now_ms, hint)),
                cutoff as int,
            ),
        decreases timeline@.len(),
    {
        let ghost before = timeline@;
        timeline.remove(0);
        assert(timeline@ =~= before.drop_first());
    }
}

// ---------------------------------------------------------------------------
// The encoder
// ---------------------------------------------------------------------------

/// The encoder's state, its parameters, and what the publish timer carries from
/// one publication to the next.
#[derive(Debug)]
pub struct EncoderCore {
    pub params: Params,
    /// What the debug endpoint shares: the state that pulses move, the last
    /// published snapshot, and the timeline of direction hints.
    pub handles: DebugHandles,
    pub rate: RateEstimator,
    /// When the last publication was, in nanoseconds since the Unix epoch.
    pub last_publish: i64,
    pub last_count: i64,
    /// Height at the last publication, in nanometres.
    pub last_height: i128,
    pub last_time: i64,
    pub last_home_epoch: u64,
    pub input_mode: &'static str,
    /// Monotonic time of the start, in nanoseconds.
    pub start: i64,
}

/// Width of the window that the rotational speed is taken over.
pub const RATE_WINDOW_NS: i64 = 2_000_000_000;

/// Greatest distance of a height from zero, in nanometres: the greatest with
/// which the speed between any two heights, their difference times 60 000, stays
/// within the integer type.
pub const HEIGHT_LIMIT: i128 = 1_417_843_195_503_910_264_430_727_530_965_700;

/// Gate height at a count, in nanometres.
pub open spec fn height_of(params: Params, count: int) -> int {
    params.home_height_nm + count * params.nm_per_count
}

/// Share of travel at a height, from 0 to 100; 0 where no travel is
/// configured.
pub open spec fn percent_of(params: Params, height: int) -> Ratio {
    if params.gate_travel_nm <= 0 || height <= 0 {
        Ratio { num: 0, den: 1 }
    } else if height >= params.gate_travel_nm {
        Ratio { num: 100, den: 1 }
    } else {
        Ratio { num: (height * 100) as i128, den: params.gate_travel_nm as i128 }
    }
}

/// The speed without sign, in millimetres per minute, of moving from one height
/// to another within `dt` nanoseconds; 0 where no time passed.
pub open spec fn speed_of(from: int, to: int, dt: int) -> Ratio {
    if dt > 0 {
        Ratio { num: (abs(to - from) * 60_000) as i128, den: dt as i128 }
    } else {
        Ratio { num: 0, den: 1 }
    }
}

/// The word for the ingest mode.
pub open spec fn mode_word(use_event_polling: bool) -> Seq<char> {
    if use_event_polling {
        "poll"@
    } else {
        "stream"@
    }
}

/// No count within its type lies higher or lower than [`HEIGHT_LIMIT`].
pub proof fn lemma_height_bound(params: Params, count: int)
    requires
        params.in_range(),
        i64::MIN <= count <= i64::MAX,
    ensures
        -HEIGHT_LIMIT <= height_of(params, count) <= HEIGHT_LIMIT,
        i128::MIN <= count * params.nm_per_count <= i128::MAX,
{
    let k = params.nm_per_count as int;
    assert(-0x8000_0000_0000_0000 * NM_PER_COUNT_LIMIT <= count * k <= 0x8000_0000_0000_0000
        * NM_PER_COUNT_LIMIT) by (nonlinear_arith)
        requires
            i64::MIN <= count <= i64::MAX,
            -NM_PER_COUNT_LIMIT <= k <= NM_PER_COUNT_LIMIT,
    ;
}

impl EncoderCore {
    pub open spec fn wf(&self) -> bool {
        &&& self.params.in_range()
        &&& self.handles.wf()
        &&& -HEIGHT_LIMIT <= self.last_height <= HEIGHT_LIMIT
        &&& self.rate.window_ns == RATE_WINDOW_NS
    }

    /// The height at the current count.
    pub open spec fn height(&self) -> int {
        height_of(self.params, self.handles.state.decoder@.count)
    }

    /// Whether a home happened since the last derivation.
    pub open spec fn homed_since(&self) -> bool {
        self.handles.state.home_epoch != self.last_home_epoch
    }

    /// The count that movement is measured from: the last published one, or
    /// the current one after a home.
    pub open spec fn from_count(&self) -> int {
        if self.homed_since() {
            self.handles.state.decoder@.count
        } else {
            self.last_count as int
        }
    }

    /// The height that movement is measured from.
    pub open spec fn from_height(&self) -> int {
        if self.homed_since() {
            self.height()
        } else {
            self.last_height as int
        }
    }

    /// The rate window after a sample at `now`. A home drops its history.
    pub open spec fn window_at(&self, now: int) -> Seq<(i64, i64)> {
        let history = if self.homed_since() {
            Seq::empty()
        } else {
            self.rate@
        };
        in_window(
            history.push((now as i64, self.handles.state.decoder@.count as i64)),
            now,
            self.rate.window_ns as int,
        )
    }

    pub fn new(params: Params, now: i64, mono: i64) -> (core: EncoderCore)
        requires
            params.in_range(),
        ensures
            core.wf(),
            core.params == params,
            core.handles.state.wf(),
            core.handles.state.decoder@ == (Decoding {
                hint_only: params.hint_only_direction,
                ..Decoding::fresh(params.invert_direction)
            }),
            core.handles.state == (EncoderState {
                decoder: core.handles.state.decoder,
                callbacks: 0,
                pulses_reporting_high: 0,
                home_active: false,
                homed: false,
                home_epoch: 0,
                trace: None,
                stream_reconnects: 0,
                events_decoded: 0,
                event_cursor: 0,
                poll_errors: 0,
            }),
            core.handles.snapshot.is_blank(),
            core.handles.hints@ == seq![(0i64, 0i8)],
            core.rate@ == Seq::<(i64, i64)>::empty(),
            core.rate.window_ns == RATE_WINDOW_NS,
            core.last_publish == 0,
            core.last_count == 0,
            core.last_height == height_of(params, 0),
            core.last_time == now,
            core.last_home_epoch == 0,
            core.input_mode@ == mode_word(params.use_event_polling),
            core.start == mono,
    {
        let mut state: EncoderState = EncoderState::new(params.invert_direction);
        state.decoder.hint_only = params.hint_only_direction;
        let mut hints: Vec<(i64, i8)> = Vec::new();
        hints.push((0, 0));
        EncoderCore {
            params,
            handles: DebugHandles { snapshot: Snapshot::default(), state, hints },
            rate: RateEstimator::default(),
            last_publish: 0,
            last_count: 0,
            last_height: params.home_height_nm as i128,
            last_time: now,
            last_home_epoch: 0,
            input_mode: if params.use_event_polling {
                "poll"
            } else {
                "stream"
            },
            start: mono,
        }
    }

    /// Decoded counts per wheel revolution.
    pub fn counts_per_rev(&self) -> (counts: i64)
        requires
            self.wf(),
        ensures
            counts == 2 * self.params.pulses_per_rev,
    {
        counts_per_rev(self.params.pulses_per_rev)
    }

    fn home_height_for(&self, count: i64) -> (height: i128)
        requires
            self.params.in_range(),
        ensures
            height == height_of(self.params, count as int),
            -HEIGHT_LIMIT <= height <= HEIGHT_LIMIT,
    {
        proof {
            lemma_height_bound(self.params, count as int);
        }
        self.params.home_height_nm as i128 + count as i128 * self.params.nm_per_count as i128
    }

    /// Absolute gate height in millimetres for the current count.
    pub fn height_mm(&self) -> (height: Ratio)
        requires
            self.wf(),
        ensures
            height == (Ratio { num: self.height() as i128, den: 1_000_000 }),
            height.num == self.height(),
    {
        Ratio { num: self.home_height_for(self.handles.state.decoder.count), den: 1_000_000 }
    }

    fn percent_open(&self, height: i128) -> (percent: Ratio)
        requires
            -HEIGHT_LIMIT <= height <= HEIGHT_LIMIT,
        ensures
            percent == percent_of(self.params, height as int),
            percent.in_range(),
            0 <= percent.num <= 100 * percent.den,
    {
        if self.params.gate_travel_nm <= 0 || height <= 0 {
            return Ratio::zero();
        }
        let travel: i128 = self.params.gate_travel_nm as i128;
        if height >= travel {
            return Ratio { num: 100, den: 1 };
        }
        Ratio { num: height * 100, den: travel }
    }

    /// Whether the publish interval has passed since the last publication.
    pub fn due_to_publish(&self, now: i64) -> (due: bool)
        ensures
            due == (now - self.last_publish >= self.params.publish_interval_ns),
    {
        now as i128 - self.last_publish as i128 >= self.params.publish_interval_ns as i128
    }

    /// Whether `snap` is what is to be published of this encoder at `now`, with
    /// the monotonic clock at `mono`.
    pub open spec fn shown_by(&self, snap: Snapshot, now: int, mono: int) -> bool {
        let state = self.handles.state;
        let decoder = state.decoder@;
        let cpr = 2 * self.params.pulses_per_rev;
        let rpm = rpm_of(self.window_at(now), cpr);
        &&& snap.ts == (Ratio { num: now as i128, den: 1_000_000_000 })
        &&& snap.count == decoder.count
        &&& snap.revolutions == revolutions_of(decoder.count, cpr)
        &&& snap.rpm == rpm
        &&& snap.rotation_direction@ == rotation_word(rpm, Ratio { num: 1, den: 2 })
        &&& snap.height_mm == (Ratio { num: self.height() as i128, den: 1_000_000 })
        &&& snap.percent_open == percent_of(self.params, self.height())
        &&& snap.direction@ == travel_word(decoder.count - self.from_count())
        &&& snap.speed_mm_min == speed_of(self.from_height(), self.height(), now - self.last_time)
        &&& snap.homed == state.homed
        &&& snap.home_switch == state.home_active
        &&& snap.missed_edges == decoder.missed
        &&& snap.ambiguous_edges == decoder.ambiguous
        &&& snap.unsigned_edges == decoder.unsigned
        &&& snap.filtered_edges == decoder.filtered
        &&& snap.hw_period_edges == decoder.hw_period_used
        &&& snap.hw_period_missing == decoder.hw_period_missing
        &&& snap.period_disagreements == decoder.period_disagreements
        &&& snap.stream_reconnects == state.stream_reconnects
        &&& snap.counts_per_rev == cpr
        &&& snap.uptime_s == (Ratio { num: (mono - self.start) as i128, den: 1_000_000_000 })
        &&& snap.input_mode == self.input_mode
        &&& snap.edge_mode@ == "rising_2x"@
        &&& snap.pulse_callbacks == state.callbacks
        &&& snap.pulses_reporting_high == state.pulses_reporting_high
        &&& snap.events_decoded == state.events_decoded
        &&& snap.event_cursor == state.event_cursor
        &&& snap.poll_errors == state.poll_errors
        &&& snap.pulse_direction == decoder.direction
        &&& snap.publish_interval_s == (Ratio {
            num: self.params.publish_interval_ns as i128,
            den: 1_000_000_000,
        })
    }

    /// Whether `after` is this encoder once a derivation at `now` has moved the
    /// rate window and the movement baseline on, and nothing else.
    pub open spec fn derived_to(&self, after: EncoderCore, now: int) -> bool {
        &&& after.rate@ == self.window_at(now)
        &&& after.rate.window_ns == self.rate.window_ns
        &&& after.last_height == self.height()
        &&& after == (EncoderCore {
            rate: after.rate,
            last_height: after.last_height,
            last_count: self.handles.state.decoder.count,
            last_time: now as i64,
            last_home_epoch: self.handles.state.home_epoch,
            ..*self
        })
    }

    /// Whether `after` is this encoder after a derivation at `now` whose
    /// snapshot was kept for the debug endpoint.
    pub open spec fn shows_to(&self, after: EncoderCore, now: int) -> bool {
        self.derived_to(
            EncoderCore {
                handles: DebugHandles { snapshot: self.handles.snapshot, ..after.handles },
                ..after
            },
            now,
        )
    }

    /// Derive what is to be published from the current count. Of the encoder
    /// only the rate window and the movement baseline move on.
    pub fn derive(&mut self, now: i64, mono: i64) -> (snap: Snapshot)
        requires
            old(self).wf(),
        ensures
            final(self).wf(),
            snap.wf(),
            old(self).shown_by(snap, now as int, mono as int),
            old(self).derived_to(*final(self), now as int),
    {
        let count: i64 = self.handles.state.decoder.count;
        // A home since the last publication is a discontinuity of the count:
        // without its history it cannot read as a spike.
        if self.handles.state.home_epoch != self.last_home_epoch {
            self.rate.reset();
            self.last_home_epoch = self.handles.state.home_epoch;
            self.last_count = count;
            self.last_height = self.home_height_for(count);
        }
        let height: i128 = self.home_height_for(count);
        let percent: Ratio = self.percent_open(height);

        let dt: i128 = now as i128 - self.last_time as i128;
        let moved: i128 = if height < self.last_height {
            self.last_height - height
        } else {
            height - self.last_height
        };
        let speed: Ratio = if dt > 0 {
            Ratio { num: moved * 60_000, den: dt }
        } else {
            Ratio::zero()
        };
        self.last_height = height;
        self.last_time = now;

        // From the count and not from the speed: the travel per count may be
        // unset while there is movement all the same.
        let direction: &'static str = if count > self.last_count {
            travel_direction(1)
        } else if count < self.last_count {
            travel_direction(-1)
        } else {
            travel_direction(0)
        };
        self.last_count = count;

        let cpr: i64 = self.counts_per_rev();
        let ghost history = self.rate@;
        self.rate.add(now, count);
        let rpm: Ratio = self.rate.rpm(cpr);
        proof {
            if rpm.den != 1 {
                let samples = history.push((now, count));
                let dropped = law_window_keeps_the_recent_tail(
                    samples,
                    now as int,
                    RATE_WINDOW_NS as int,
                );
                let dt = self.rate@.last().0 - self.rate@[0].0;
                assert(self.rate@[0] == samples[dropped]);
                assert(0 < dt <= RATE_WINDOW_NS);
                assert(0 < cpr * dt <= DEN_LIMIT) by (nonlinear_arith)
                    requires
                        0 < cpr <= i64::MAX,
                        0 < dt <= RATE_WINDOW_NS,
                ;
            }
        }

        let threshold: Ratio = rpm_stopped_threshold();
        assert(rpm.num * threshold.den == 2 * rpm.num && threshold.num * rpm.den == rpm.den)
            by (nonlinear_arith)
            requires
                threshold.num == 1,
                threshold.den == 2,
        ;

        let snap = Snapshot {
            ts: Ratio { num: now as i128, den: 1_000_000_000 },
            count,
            revolutions: revolutions(count, cpr),
            rpm,
            rotation_direction: rotation_direction(rpm, threshold),
            height_mm: Ratio { num: height, den: 1_000_000 },
            percent_open: percent,
            direction,
            speed_mm_min: speed,
            homed: self.handles.state.homed,
            home_switch: self.handles.state.home_active,
            missed_edges: self.handles.state.decoder.missed,
            ambiguous_edges: self.handles.state.decoder.ambiguous,
            unsigned_edges: self.handles.state.decoder.unsigned,
            filtered_edges: self.handles.state.decoder.filtered,
            hw_period_edges: self.handles.state.decoder.hw_period_used,
            hw_period_missing: self.handles.state.decoder.hw_period_missing,
            period_disagreements: self.handles.state.decoder.period_disagreements,
            stream_reconnects: self.handles.state.stream_reconnects,
            counts_per_rev: cpr,
            uptime_s: Ratio { num: mono as i128 - self.start as i128, den: 1_000_000_000 },
            input_mode: self.input_mode,
            edge_mode: "rising_2x",
            pulse_callbacks: self.handles.state.callbacks,
            pulses_reporting_high: self.handles.state.pulses_reporting_high,
            events_decoded: self.handles.state.events_decoded,
            event_cursor: self.handles.state.event_cursor,
            poll_errors: self.handles.state.poll_errors,
            pulse_direction: self.handles.state.decoder.direction,
            publish_interval_s: Ratio {
                num: self.params.publish_interval_ns as i128,
                den: 1_000_000_000,
            },
        };
        proof {
            lemma_in_range_is_writable(snap.ts, 3);
            lemma_in_range_is_writable(snap.revolutions, 4);
            lemma_in_range_is_writable(snap.rpm, 1);
            lemma_in_range_is_writable(snap.height_mm, 2);
            lemma_in_range_is_writable(snap.percent_open, 2);
            lemma_in_range_is_writable(snap.speed_mm_min, 1);
            lemma_in_range_is_writable(snap.uptime_s, 1);
            lemma_seconds_are_writable(snap.publish_interval_s);
        }
        snap
    }

    /// Baseline the publish timer, the movement tracking and the snapshot
    /// without publishing, so that the first publication comes one interval
    /// later and does not read a phantom speed.
    pub fn baseline(&mut self, now: i64, mono: i64)
        requires
            old(self).wf(),
        ensures
            final(self).wf(),
            old(self).at_baseline(now).shown_by(
                final(self).handles.snapshot,
                now as int,
                mono as int,
            ),
            old(self).at_baseline(now).shows_to(*final(self), now as int),
    {
        self.last_publish = now;
        self.last_height = self.home_height_for(self.handles.state.decoder.count);
        self.last_time = now;
        self.last_count = self.handles.state.decoder.count;
        assert(*self == old(self).at_baseline(now));
        let snap: Snapshot = self.derive(now, mono);
        self.handles.snapshot = snap;
    }

    /// This encoder with its timer started and movement measured from here and
    /// now.
    pub open spec fn at_baseline(&self, now: i64) -> EncoderCore {
        EncoderCore {
            last_publish: now,
            last_height: self.height() as i128,
            last_time: now,
            last_count: self.handles.state.decoder.count,
            ..*self
        }
    }

    /// Derive the full published state from the current count, keep it for the
    /// debug endpoint, and return it.
    pub fn publish(&mut self, now: i64, mono: i64) -> (snap: Snapshot)
        requires
            old(self).wf(),
        ensures
            final(self).wf(),
            snap.wf(),
            old(self).shown_by(snap, now as int, mono as int),
            final(self).handles.snapshot == snap,
            (EncoderCore { last_publish: now, ..*old(self) }).shows_to(*final(self), now as int),
    {
        self.last_publish = now;
        let snap: Snapshot = self.derive(now, mono);
        self.handles.snapshot = snap;
        snap
    }

    /// One pass of the publish timer: publish if the interval has passed, and
    /// else leave everything as it is.
    pub fn tick(&mut self, now: i64, mono: i64) -> (snap: Option<Snapshot>)
        requires
            old(self).wf(),
        ensures
            final(self).wf(),
            snap is Some == (now - old(self).last_publish >= old(self).params.publish_interval_ns),
            match snap {
                Some(s) => {
                    &&& s.wf()
                    &&& old(self).shown_by(s, now as int, mono as int)
                    &&& final(self).handles.snapshot == s
                    &&& (EncoderCore { last_publish: now, ..*old(self) }).shows_to(
                        *final(self),
                        now as int,
                    )
                },
                None => *final(self) == *old(self),
            },
    {
        if !self.due_to_publish(now) {
            return None;
        }
        Some(self.publish(now, mono))
    }

    // ------------------------------------------------------------------
    // Ingest
    // ------------------------------------------------------------------

    /// The direction that a pulse at `now_ms` is given from outside: the active
    /// hint where hints alone give the direction, and else none.
    pub open spec fn stream_hint(&self, now_ms: int) -> i8 {
        if self.params.hint_only_direction {
            hint_of(self.handles.hints@, now_ms)
        } else {
            0
        }
    }

    /// Whether `after` is this encoder with another state.
    pub open spec fn moved_to(&self, after: EncoderCore) -> bool {
        after == (EncoderCore {
            handles: DebugHandles { state: after.handles.state, ..self.handles },
            ..*self
        })
    }

    /// One pulse of a channel's stream, observed at the monotonic time `t` and
    /// the wall-clock time `now_ms`, with the period that the hardware measured
    /// and the level it reported.
    pub fn on_pulse(
        &mut self,
        channel: Channel,
        t: i64,
        now_ms: i64,
        hw_period: i64,
        reports_high: bool,
    )
        requires
            old(self).wf(),
            old(self).handles.state.pulse_fits(),
        ensures
            final(self).wf(),
            old(self).moved_to(*final(self)),
            ({
                let before = old(self).handles.state;
                let after = final(self).handles.state;
                &&& after.decoder@ == before.decoder@.step(
                    Rise {
                        channel,
                        t: t as int,
                        hint: old(self).stream_hint(now_ms as int) as int,
                        hw_period: hw_period as int,
                    },
                )
                &&& trace_grew(before.trace, after.trace, channel, t)
                &&& after == (EncoderState {
                    decoder: after.decoder,
                    callbacks: (before.callbacks + 1) as u64,
                    pulses_reporting_high: if reports_high {
                        (before.pulses_reporting_high + 1) as u64
                    } else {
                        before.pulses_reporting_high
                    },
                    trace: after.trace,
                    ..before
                })
            }),
    {
        let hint: i8 = if self.params.hint_only_direction {
            hint_at(self.handles.hints.as_slice(), now_ms)
        } else {
            0
        };
        self.handles.state.pulse(channel, t, hint, hw_period, reports_high);
    }

    /// An edge of the home switch: it now reads `level`. Only becoming active
    /// homes the encoder.
    pub fn on_home_edge(&mut self, level: bool)
        requires
            old(self).wf(),
            old(self).handles.state.home_fits(),
        ensures
            final(self).wf(),
            old(self).moved_to(*final(self)),
            ({
                let before = old(self).handles.state;
                let after = final(self).handles.state;
                let active = level == old(self).params.home_active_high;
                &&& after.home_active == active
                &&& active && !before.home_active ==> before.homes_to(
                    EncoderState { home_active: false, ..after },
                )
                &&& !active || before.home_active ==> after == (EncoderState {
                    home_active: active,
                    ..before
                })
            }),
            ({
                let before = old(self).handles.state;
                let after = final(self).handles.state;
                let arrived = level == old(self).params.home_active_high && !before.home_active;
                &&& arrived ==> after.decoder.count == 0 && after.homed && after.home_epoch
                    == before.home_epoch + 1
                &&& !arrived ==> after.decoder.count == before.decoder.count && after.homed
                    == before.homed && after.home_epoch == before.home_epoch
            }),
    {
        self.handles.state.home_edge(level, self.params.home_active_high);
    }

    /// The home switch's level at start. A gate parked on the switch never
    /// produces an edge, so an active level homes at once.
    pub fn seed_home_from_level(&mut self, level: bool)
        requires
            old(self).wf(),
            old(self).handles.state.home_fits(),
        ensures
            final(self).wf(),
            old(self).moved_to(*final(self)),
            ({
                let before = old(self).handles.state;
                let after = final(self).handles.state;
                let active = level == old(self).params.home_active_high;
                &&& active ==> (EncoderState { home_active: true, ..before }).homes_to(after)
                &&& !active ==> after == (EncoderState { home_active: false, ..before })
            }),
            ({
                let before = old(self).handles.state;
                let after = final(self).handles.state;
                let there = level == old(self).params.home_active_high;
                &&& after.home_active == there
                &&& there ==> after.decoder.count == 0 && after.homed && after.home_epoch
                    == before.home_epoch + 1
                &&& !there ==> after.decoder.count == before.decoder.count && after.homed
                    == before.homed && after.home_epoch == before.home_epoch
            }),
    {
        self.handles.state.seed_home(level, self.params.home_active_high);
    }

    /// Manual zero.
    pub fn home_now(&mut self)
        requires
            old(self).wf(),
            old(self).handles.state.home_fits(),
        ensures
            final(self).wf(),
            old(self).moved_to(*final(self)),
            old(self).handles.state.homes_to(final(self).handles.state),
    {
        self.handles.state.home();
    }

    /// Clear the missed-edge counter, and nothing else.
    pub fn reset_missed(&mut self)
        requires
            old(self).wf(),
        ensures
            final(self).wf(),
            old(self).moved_to(*final(self)),
            final(self).handles.state.decoder@ == (Decoding {
                missed: 0,
                ..old(self).handles.state.decoder@
            }),
            final(self).handles.state == (EncoderState {
                decoder: final(self).handles.state.decoder,
                ..old(self).handles.state
            }),
    {
        self.handles.state.reset_missed();
    }

    /// Poll result: what the platform's event log serves for both channels.
    /// New edges are decoded in the order of their ids, each signed by the hint
    /// that was active when it was captured, and the cursor moves on. Returns
    /// the edges.
    pub fn on_poll(&mut self, a_events: &[RawDiEvent], b_events: &[RawDiEvent]) -> (edges: Vec<
        EdgeRecord,
    >)
        requires
            old(self).wf(),
            old(self).handles.state.decoder@.has_room((a_events@.len() + b_events@.len()) as int),
            old(self).handles.state.events_decoded + a_events@.len() + b_events@.len() <= u64::MAX,
        ensures
            final(self).wf(),
            old(self).moved_to(*final(self)),
            ({
                let log = served(both_pins(a_events, b_events));
                let before = old(self).handles.state;
                let after = final(self).handles.state;
                &&& is_merge_of(edges@, log, before.event_cursor)
                &&& is_newest(after.event_cursor, log, before.event_cursor)
                &&& after.decoder@ == before.decoder@.feed(
                    edges@,
                    capture_hints(edges@, old(self).handles.hints@),
                )
                &&& after == (EncoderState {
                    decoder: after.decoder,
                    event_cursor: after.event_cursor,
                    events_decoded: (before.events_decoded + edges@.len()) as u64,
                    ..before
                })
            }),
    {
        let cursor: i64 = self.handles.state.event_cursor;
        let (edges, newest) = merge_pins(a_events, b_events, cursor);
        let timeline: &[(i64, i8)] = self.handles.hints.as_slice();
        let at = |t: i64| -> (hint: i8)
            ensures
                hint == hint_of(timeline@, t as int),
            { hint_at(timeline, t) };
        self.handles.state.decoder.feed_batch(edges.as_slice(), at);
        proof {
            let before = old(self).handles.state.decoder@;
            let used = choose|hints: Seq<i8>|
                {
                    &&& hints_from(at, edges@, hints)
                    &&& self.handles.state.decoder@ == before.feed(edges@, hints)
                };
            lemma_same_hints(before, edges@, used, capture_hints(edges@, timeline@));
        }
        self.handles.state.event_cursor = newest;
        self.handles.state.events_decoded = self.handles.state.events_decoded + edges.len() as u64;
        edges
    }

    /// The first poll after a start: what the log already holds predates this
    /// run, so it is passed over. Returns how many edges were.
    pub fn baseline_cursor(&mut self, a_events: &[RawDiEvent], b_events: &[RawDiEvent]) -> (stale:
        usize)
        requires
            old(self).wf(),
        ensures
            final(self).wf(),
            old(self).moved_to(*final(self)),
            ({
                let log = served(both_pins(a_events, b_events));
                &&& is_newest(final(self).handles.state.event_cursor, log, 0)
                &&& exists|edges: Seq<EdgeRecord>|
                    is_merge_of(edges, log, 0) && stale == edges.len()
                &&& final(self).handles.state == (EncoderState {
                    event_cursor: final(self).handles.state.event_cursor,
                    ..old(self).handles.state
                })
            }),
    {
        let (edges, newest) = merge_pins(a_events, b_events, 0);
        self.handles.state.event_cursor = newest;
        assert(is_merge_of(edges@, served(both_pins(a_events, b_events)), 0));
        edges.len()
    }
}

/// The two pins' event logs, channel A's first.
pub open spec fn both_pins<'a>(a_events: &'a [RawDiEvent], b_events: &'a [RawDiEvent]) -> Seq<
    (Channel, &'a [RawDiEvent]),
> {
    seq![(Channel::A, a_events), (Channel::B, b_events)]
}

/// The hints that were active when edges were captured.
pub open spec fn capture_hints(edges: Seq<EdgeRecord>, timeline: Seq<(i64, i8)>) -> Seq<i8> {
    edges.map_values(|e: EdgeRecord| hint_of(timeline, e.time_ms as int))
}

fn merge_pins(a_events: &[RawDiEvent], b_events: &[RawDiEvent], last_id: i64) -> (merged: (
    Vec<EdgeRecord>,
    i64,
))
    ensures
        is_merge_of(merged.0@, served(both_pins(a_events, b_events)), last_id),
        is_newest(merged.1, served(both_pins(a_events, b_events)), last_id),
        merged.0@.len() <= a_events@.len() + b_events@.len(),
{
    let mut batches: Vec<(Channel, &[RawDiEvent])> = Vec::new();
    batches.push((Channel::A, a_events));
    batches.push((Channel::B, b_events));
    let merged: (Vec<EdgeRecord>, i64) = merge_new_edge_events(batches.as_slice(), last_id);
    proof {
        let pins = both_pins(a_events, b_events);
        assert(batches@ =~= pins);
        law_merge_is_no_longer(merged.0@, served(pins), last_id);
        reveal_with_fuel(served, 3);
        assert(pins.drop_last().drop_last() =~= Seq::empty());
        assert(served(pins).len() == a_events@.len() + b_events@.len());
    }
    merged
}

/// Hints of falling edges are never looked at.
proof fn lemma_same_hints(d: Decoding, edges: Seq<EdgeRecord>, x: Seq<i8>, y: Seq<i8>)
    requires
        x.len() == edges.len(),
        y.len() == edges.len(),
        forall|i: int| 0 <= i < edges.len() && edges[i].level ==> #[trigger] x[i] == y[i],
    ensures
        d.feed(edges, x) == d.feed(edges, y),
    decreases edges.len(),
{
    if edges.len() > 0 {
        let front = edges.drop_last();
        assert forall|i: int| 0 <= i < front.len() && front[i].level implies #[trigger] x.drop_last()[i]
            == y.drop_last()[i] by {
            assert(edges[i] == front[i]);
            assert(x[i] == y[i]);
        }
        lemma_same_hints(d, front, x.drop_last(), y.drop_last());
        assert(x[edges.len() - 1] == x.last());
    }
}

} // verus!
