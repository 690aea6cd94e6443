//! Pure rising-edge decode logic.
//!
//! Two proximity sensors watch a toothed target, mounted a quarter pitch apart
//! so their outputs sit about 90 degrees out of phase (channels A and B). Only
//! rising edges are captured: A rises once per tooth, B rises once per tooth.
//!
//! * Decoding is 2x: two counts per tooth cycle, one per channel's rise.
//! * There is no level information. Rising edges alternate A, B, A, B in both
//!   directions, so their order carries no direction; direction comes from
//!   timing, by comparing the gap since the other channel rose with the period
//!   since the same channel rose.
//! * A rising edge sits at a different physical position depending on the
//!   direction of travel: see
//!   [`RisingEdgeDecoder::reversal_backlash_counts`].
//!
//! All times are integers in nanoseconds.

use vstd::prelude::*;

pub use crate::events::{event_level, merge_new_edge_events, EdgeRecord, RawDiEvent};
pub use crate::rate::{
    counts_per_rev, revolutions, rotation_direction, rpm_stopped_threshold, travel_direction,
    RateEstimator,
};

verus! {

/// Which proximity sensor an edge came from.
#[derive(Debug, Clone, Copy, PartialEq, Eq, Hash, Structural)]
pub enum Channel {
    A,
    B,
}

impl Channel {
    /// The slot a channel has in per-channel storage.
    pub open spec fn slot(self) -> int {
        match self {
            Channel::A => 0,
            Channel::B => 1,
        }
    }

    /// The sensor on the other side of the quarter pitch.
    pub open spec fn other(self) -> Channel {
        match self {
            Channel::A => Channel::B,
            Channel::B => Channel::A,
        }
    }

    fn idx(self) -> (i: usize)
        ensures
            i == self.slot(),
    {
        match self {
            Channel::A => 0,
            Channel::B => 1,
        }
    }

    /// The sensor's letter.
    pub fn as_str(self) -> (s: &'static str)
        ensures
            s@ == (match self {
                Channel::A => "A"@,
                Channel::B => "B"@,
            }),
    {
        match self {
            Channel::A => "A",
            Channel::B => "B",
        }
    }
}

// ---------------------------------------------------------------------------
// The model: what one rising edge does
// ---------------------------------------------------------------------------

/// One rising edge as the decoder is given it: the sensor, the time it was
/// observed, an external direction (+1 or -1; anything else is none), and the
/// period the hardware measured (not positive when it measured none).
pub struct Rise {
    pub channel: Channel,
    pub t: int,
    pub hint: int,
    pub hw_period: int,
}

/// What an edge can be compared with.
pub enum EdgeKind {
    /// A direction was supplied from outside.
    Hinted,
    /// No edge came before.
    First,
    /// The same channel rose twice in a row.
    Repeat,
    /// The other channel rose last.
    Cross,
}

/// A gap can be read if twice its distance from half a period is at least a
/// period over this.
pub const AMBIGUITY_BAND_DIVISOR: i128 = 4;

/// The hardware and host periods disagree beyond this fraction of the former.
pub const PERIOD_DISAGREEMENT_DIVISOR: i128 = 10;

pub open spec fn abs(x: int) -> int {
    if x < 0 {
        -x
    } else {
        x
    }
}

/// Whether a gap tells the direction: it lies at least an eighth of a period
/// away from half the period.
pub open spec fn readable(gap: int, period: int) -> bool {
    &&& gap > 0
    &&& period > 0
    &&& AMBIGUITY_BAND_DIVISOR * abs(2 * gap - period) >= period
}

/// The sense of a readable edge. A short gap means that the other channel led
/// this one. B leading A is the positive sense.
pub open spec fn sense_of(channel: Channel, gap: int, period: int) -> int {
    if (2 * gap < period) == (channel == Channel::A) {
        1
    } else {
        -1
    }
}

/// The decoder's state as mathematical values.
#[verifier::ext_equal]
pub struct Decoding {
    pub count: int,
    pub invert: bool,
    pub hint_only: bool,
    pub sense: int,
    pub direction: int,
    pub missed: int,
    pub ambiguous: int,
    pub unsigned: int,
    pub filtered: int,
    pub hw_period_used: int,
    pub hw_period_missing: int,
    pub period_disagreements: int,
    pub last_ch: Option<Channel>,
    pub last_t: int,
    pub rises: Seq<Option<int>>,
}

impl Decoding {
    /// A decoder that has seen nothing.
    pub open spec fn fresh(invert: bool) -> Decoding {
        Decoding {
            count: 0,
            invert,
            hint_only: false,
            sense: 0,
            direction: 0,
            missed: 0,
            ambiguous: 0,
            unsigned: 0,
            filtered: 0,
            hw_period_used: 0,
            hw_period_missing: 0,
            period_disagreements: 0,
            last_ch: None,
            last_t: 0,
            rises: seq![None, None],
        }
    }

    pub open spec fn kind(self, e: Rise) -> EdgeKind {
        if e.hint == 1 || e.hint == -1 {
            EdgeKind::Hinted
        } else if self.last_ch is None {
            EdgeKind::First
        } else if self.last_ch == Some(e.channel) {
            EdgeKind::Repeat
        } else {
            EdgeKind::Cross
        }
    }

    /// The interval since the other channel rose.
    pub open spec fn gap(self, e: Rise) -> int {
        e.t - self.last_t
    }

    /// The interval since the same channel rose, by the host's clock.
    pub open spec fn host_period(self, e: Rise) -> Option<int> {
        match self.rises[e.channel.slot()] {
            Some(prev) => Some(e.t - prev),
            None => None,
        }
    }

    /// One tooth cycle: the hardware's measurement where there is one, else the
    /// host's, else nothing.
    pub open spec fn period(self, e: Rise) -> int {
        if e.hw_period > 0 {
            e.hw_period
        } else {
            match self.host_period(e) {
                Some(p) => p,
                None => 0,
            }
        }
    }

    /// Whether the host's period strays from the hardware's.
    pub open spec fn disagrees(self, e: Rise) -> bool {
        match self.host_period(e) {
            Some(p) => p > 0 && PERIOD_DISAGREEMENT_DIVISOR * abs(p - e.hw_period) > e.hw_period,
            None => false,
        }
    }

    /// The sense this edge establishes by itself: +1, -1, or 0 for none.
    pub open spec fn measured(self, e: Rise) -> int {
        match self.kind(e) {
            EdgeKind::Hinted => e.hint,
            EdgeKind::Cross => if !self.hint_only && readable(self.gap(e), self.period(e)) {
                sense_of(e.channel, self.gap(e), self.period(e))
            } else {
                0
            },
            _ => 0,
        }
    }

    /// The sense that holds after the edge: the measured one, else the held one.
    pub open spec fn next_sense(self, e: Rise) -> int {
        if self.measured(e) != 0 {
            self.measured(e)
        } else {
            self.sense
        }
    }

    /// The sign that a sense gives to the count.
    pub open spec fn sign(self, sense: int) -> int {
        if self.invert {
            -sense
        } else {
            sense
        }
    }

    /// The count's change: the edge and all those held before it, in the sense
    /// that holds; nothing while there is none.
    pub open spec fn delta(self, e: Rise) -> int {
        let sign = self.sign(self.next_sense(e));
        if sign > 0 {
            1 + self.unsigned
        } else if sign < 0 {
            -(1 + self.unsigned)
        } else {
            0
        }
    }

    /// The last rise of each channel after the edge. A repeat makes every
    /// earlier time meaningless.
    pub open spec fn next_rises(self, e: Rise) -> Seq<Option<int>> {
        let kept = if self.kind(e) is Repeat {
            seq![None, None]
        } else {
            self.rises
        };
        kept.update(e.channel.slot(), Some(e.t))
    }

    /// The state after one rising edge.
    pub open spec fn step(self, e: Rise) -> Decoding {
        let held = self.next_sense(e) == 0;
        let cross = self.kind(e) is Cross;
        Decoding {
            count: self.count + self.delta(e),
            sense: self.next_sense(e),
            direction: self.sign(self.next_sense(e)),
            missed: self.missed + if self.kind(e) is Repeat { 1int } else { 0 },
            ambiguous: self.ambiguous + if self.measured(e) == 0 && !held { 1int } else { 0 },
            unsigned: if held { self.unsigned + 1 } else { 0 },
            hw_period_used: self.hw_period_used + if cross && e.hw_period > 0 { 1int } else { 0 },
            hw_period_missing: self.hw_period_missing + if cross && e.hw_period <= 0 { 1int } else {
                0
            },
            period_disagreements: self.period_disagreements + if cross && e.hw_period > 0
                && self.disagrees(e) {
                1int
            } else {
                0
            },
            last_ch: Some(e.channel),
            last_t: e.t,
            rises: self.next_rises(e),
            ..self
        }
    }

    /// The state after one polled record, a falling one being only tallied.
    pub open spec fn take_record(self, e: EdgeRecord, hint: i8) -> Decoding {
        if e.level {
            self.step(
                Rise {
                    channel: e.channel,
                    t: e.time_ms * 1_000_000,
                    hint: hint as int,
                    hw_period: 0,
                },
            )
        } else {
            Decoding { filtered: self.filtered + 1, ..self }
        }
    }

    /// The state after a batch of polled records, each with its hint.
    pub open spec fn feed(self, edges: Seq<EdgeRecord>, hints: Seq<i8>) -> Decoding
        decreases edges.len(),
    {
        if edges.len() == 0 {
            self
        } else {
            self.feed(edges.drop_last(), hints.drop_last()).take_record(edges.last(), hints.last())
        }
    }

    /// Whether `n` more edges leave every counter within its type.
    pub open spec fn has_room(self, n: int) -> bool {
        &&& self.missed + n <= u64::MAX
        &&& self.ambiguous + n <= u64::MAX
        &&& self.filtered + n <= u64::MAX
        &&& self.hw_period_used + n <= u64::MAX
        &&& self.hw_period_missing + n <= u64::MAX
        &&& self.period_disagreements + n <= u64::MAX
        &&& abs(self.count) + self.unsigned + n <= i64::MAX
    }
}

/// Whether `hints` holds, in the order of the records, one answer of `hint_at`
/// for each rising record, asked at its capture time, and none for a falling
/// one.
pub open spec fn hints_from<F: Fn(i64) -> i8>(
    hint_at: F,
    edges: Seq<EdgeRecord>,
    hints: Seq<i8>,
) -> bool {
    &&& hints.len() == edges.len()
    &&& forall|i: int|
        0 <= i < edges.len() && edges[i].level ==> call_ensures(
            hint_at,
            (edges[i].time_ms,),
            #[trigger] hints[i],
        )
    &&& forall|i: int|
        0 <= i < edges.len() && !edges[i].level ==> #[trigger] hints[i] == 0
}

/// No time the decoder is given lies further from zero than this.
pub(crate) const TIME_LIMIT: i128 = 0x1_0000_0000_0000_0000_0000_0000;

/// Incremental 2x decoder driven by rising edges only.
#[derive(Debug, Clone)]
pub struct RisingEdgeDecoder {
    /// Signed position, in counts of half a tooth cycle, since the last zero.
    pub count: i64,
    /// Flip the sign of every step.
    pub invert: bool,
    /// Never take the sense from timing: only a hint establishes one.
    pub hint_only: bool,
    /// Raw sensor sense: +1 when B's rise leads A's, -1 when A leads, 0 unknown.
    pub sense: i8,
    /// `sense` with `invert` applied: the sign actually added to `count`.
    pub direction: i8,
    /// Same-channel repeats: a lost edge, or a reversal inside a quadrant.
    pub missed: u64,
    /// Counts signed by a held direction rather than a measured one.
    pub ambiguous: u64,
    /// Edges held out of `count` because no direction has been measured yet.
    pub unsigned: u64,
    /// Falling edges offered to [`feed_batch`](Self::feed_batch).
    pub filtered: u64,
    /// Edges whose period the hardware measured.
    pub hw_period_used: u64,
    /// Edges for which the hardware offered no period.
    pub hw_period_missing: u64,
    /// Edges whose hardware and host periods disagreed.
    pub period_disagreements: u64,
    /// When each channel last rose.
    pub timing: RiseTiming,
}

/// When each channel last rose, and which of them rose last.
#[derive(Debug, Clone, Copy)]
pub struct RiseTiming {
    last_ch: Option<Channel>,
    last_t: i128,
    last_rise: [Option<i128>; 2],
}

pub open spec fn time_opt(t: Option<i128>) -> Option<int> {
    match t {
        Some(t) => Some(t as int),
        None => None,
    }
}

spec fn time_ok(t: int) -> bool {
    -TIME_LIMIT <= t <= TIME_LIMIT
}

impl RiseTiming {
    /// The channel that rose last.
    pub closed spec fn channel(&self) -> Option<Channel> {
        self.last_ch
    }

    /// The time of the last rise.
    pub closed spec fn time(&self) -> int {
        self.last_t as int
    }

    /// The last rise of channel A, then that of channel B.
    pub closed spec fn rises(&self) -> Seq<Option<int>> {
        seq![time_opt(self.last_rise[0]), time_opt(self.last_rise[1])]
    }

    /// Stored times are within the limit.
    pub closed spec fn in_bounds(&self) -> bool {
        &&& time_ok(self.last_t as int)
        &&& self.last_rise[0] matches Some(t) ==> time_ok(t as int)
        &&& self.last_rise[1] matches Some(t) ==> time_ok(t as int)
    }
}

impl View for RisingEdgeDecoder {
    type V = Decoding;

    open spec fn view(&self) -> Decoding {
        Decoding {
            count: self.count as int,
            invert: self.invert,
            hint_only: self.hint_only,
            sense: self.sense as int,
            direction: self.direction as int,
            missed: self.missed as int,
            ambiguous: self.ambiguous as int,
            unsigned: self.unsigned as int,
            filtered: self.filtered as int,
            hw_period_used: self.hw_period_used as int,
            hw_period_missing: self.hw_period_missing as int,
            period_disagreements: self.period_disagreements as int,
            last_ch: self.timing.channel(),
            last_t: self.timing.time(),
            rises: self.timing.rises(),
        }
    }
}

impl RisingEdgeDecoder {
    /// The sense is one of its three values, and stored times are in bounds.
    pub open spec fn wf(&self) -> bool {
        &&& -1 <= self.sense <= 1
        &&& self.timing.in_bounds()
    }

    /// A decoder that has seen nothing.
    pub fn new(invert: bool) -> (d: RisingEdgeDecoder)
        ensures
            d.wf(),
            d@ == Decoding::fresh(invert),
    {
        let d = RisingEdgeDecoder {
            count: 0,
            invert,
            hint_only: false,
            sense: 0,
            direction: 0,
            missed: 0,
            ambiguous: 0,
            unsigned: 0,
            filtered: 0,
            hw_period_used: 0,
            hw_period_missing: 0,
            period_disagreements: 0,
            timing: RiseTiming { last_ch: None, last_t: 0, last_rise: [None, None] },
        };
        assert(d@.rises =~= seq![None, None]);
        d
    }

    /// Whether `n` more edges leave every counter within its type.
    pub fn has_room(&self, n: u64) -> (room: bool)
        ensures
            room == self@.has_room(n as int),
    {
        let n: i128 = n as i128;
        let top: i128 = u64::MAX as i128;
        let count: i128 = if self.count < 0 { -(self.count as i128) } else { self.count as i128 };
        self.missed as i128 + n <= top && self.ambiguous as i128 + n <= top && self.filtered as i128
            + n <= top && self.hw_period_used as i128 + n <= top && self.hw_period_missing as i128
            + n <= top && self.period_disagreements as i128 + n <= top && count
            + self.unsigned as i128 + n <= i64::MAX as i128
    }

    /// Register one rising edge at time `t` and return the applied count delta.
    ///
    /// Equivalent to [`edge_with_period`](Self::edge_with_period) with no
    /// hardware period: the period is the host's.
    pub fn edge(&mut self, channel: Channel, t: i64, hint: i8) -> (delta: i64)
        requires
            old(self).wf(),
            old(self)@.has_room(1),
        ensures
            final(self).wf(),
            final(self)@ == old(self)@.step(
                (Rise { channel, t: t as int, hint: hint as int, hw_period: 0 }),
            ),
            delta == old(self)@.delta(
                (Rise { channel, t: t as int, hint: hint as int, hw_period: 0 }),
            ),
    {
        self.edge_with_period(channel, t, hint, 0)
    }

    /// Register one rising edge at time `t`, with the period that the hardware
    /// measured for it (not positive for none), and return the applied count
    /// delta.
    ///
    /// `hint` is an external direction (+1 or -1; anything else is none) that
    /// overrides the timing for this edge; the timing state is updated all the
    /// same. Every edge moves the count by exactly one, but while no direction
    /// is known it is held, and the edge that establishes one applies the whole
    /// held run at once.
    pub fn edge_with_period(&mut self, channel: Channel, t: i64, hint: i8, hw_period: i64) -> (delta:
        i64)
        requires
            old(self).wf(),
            old(self)@.has_room(1),
        ensures
            final(self).wf(),
            final(self)@ == old(self)@.step(
                (Rise { channel, t: t as int, hint: hint as int, hw_period: hw_period as int }),
            ),
            delta == old(self)@.delta(
                (Rise { channel, t: t as int, hint: hint as int, hw_period: hw_period as int }),
            ),
    {
        self.rise(channel, t as i128, hint, hw_period)
    }

    fn rise(&mut self, channel: Channel, t: i128, hint: i8, hw_period: i64) -> (delta: i64)
        requires
            old(self).wf(),
            old(self)@.has_room(1),
            time_ok(t as int),
        ensures
            final(self).wf(),
            final(self)@ == old(self)@.step(
                (Rise { channel, t: t as int, hint: hint as int, hw_period: hw_period as int }),
            ),
            delta == old(self)@.delta(
                (Rise { channel, t: t as int, hint: hint as int, hw_period: hw_period as int }),
            ),
    {
        let ghost e = Rise { channel, t: t as int, hint: hint as int, hw_period: hw_period as int };
        let prev_same: Option<i128> = self.timing.last_rise[channel.idx()];
        self.timing.last_rise[channel.idx()] = Some(t);

        let mut measured: i8 = 0;
        if hint == 1 || hint == -1 {
            measured = hint;
        } else if self.timing.last_ch.is_none() {
            // Nothing to measure against.
        } else if self.timing.last_ch == Some(channel) {
            // The other channel's rise was lost, or the target reversed inside a
            // quadrant. Measuring across the discontinuity would invert the
            // direction, so every earlier time is forgotten.
            self.missed = self.missed + 1;
            self.timing.last_rise = [None, None];
            self.timing.last_rise[channel.idx()] = Some(t);
        } else {
            let gap: i128 = t - self.timing.last_t;
            let period: i128 = if hw_period > 0 {
                self.hw_period_used = self.hw_period_used + 1;
                if let Some(prev) = prev_same {
                    let host_period: i128 = t - prev;
                    let stray: i128 = host_period - hw_period as i128;
                    let stray: i128 = if stray < 0 { -stray } else { stray };
                    if host_period > 0 && PERIOD_DISAGREEMENT_DIVISOR * stray > hw_period as i128 {
                        self.period_disagreements = self.period_disagreements + 1;
                    }
                }
                hw_period as i128
            } else {
                self.hw_period_missing = self.hw_period_missing + 1;
                match prev_same {
                    Some(prev) => t - prev,
                    None => 0,
                }
            };
            if !self.hint_only && gap > 0 && period > 0 {
                let skew: i128 = 2 * gap - period;
                let size: i128 = if skew < 0 { -skew } else { skew };
                if AMBIGUITY_BAND_DIVISOR * size >= period {
                    let other_led = skew < 0;
                    let b_leads = other_led == (channel == Channel::A);
                    measured = if b_leads { 1 } else { -1 };
                }
            }
        }

        self.timing.last_ch = Some(channel);
        self.timing.last_t = t;

        if measured != 0 {
            self.sense = measured;
        }
        if self.sense == 0 {
            // Guessing here would put a systematic error into every run that
            // starts by closing, so the edge is held.
            self.unsigned = self.unsigned + 1;
            self.direction = 0;
            assert(self@.rises =~= old(self)@.next_rises(e));
            return 0;
        }
        if measured == 0 {
            self.ambiguous = self.ambiguous + 1;
        }
        self.direction = if self.invert { -self.sense } else { self.sense };
        let run: i64 = 1 + self.unsigned as i64;
        let delta: i64 = if self.direction == 1 { run } else { -run };
        self.unsigned = 0;
        self.count = self.count + delta;
        assert(self@.rises =~= old(self)@.next_rises(e));
        delta
    }

    /// Consume one ordered batch of polled edges and return the applied count
    /// delta. Falling records are not decoded, only tallied.
    ///
    /// `hint_at` gives the direction that was commanded at a record's capture
    /// time. It is asked of rising records alone.
    pub fn feed_batch<F: Fn(i64) -> i8>(&mut self, edges: &[EdgeRecord], hint_at: F) -> (delta: i64)
        requires
            old(self).wf(),
            old(self)@.has_room(edges@.len() as int),
            forall|i: int|
                0 <= i < edges@.len() && (#[trigger] edges@[i]).level ==> call_requires(
                    hint_at,
                    (edges@[i].time_ms,),
                ),
        ensures
            final(self).wf(),
            exists|hints: Seq<i8>|
                {
                    &&& hints_from(hint_at, edges@, hints)
                    &&& final(self)@ == old(self)@.feed(edges@, hints)
                },
            delta == final(self)@.count - old(self)@.count,
    {
        let mut delta: i64 = 0;
        let mut i: usize = 0;
        let ghost mut hints: Seq<i8> = Seq::empty();
        assert(edges@.take(0) =~= Seq::empty());
        while i < edges.len()
            invariant
                i <= edges.len(),
                self.wf(),
                old(self)@.has_room(edges@.len() as int),
                self@.has_room(edges@.len() - i),
                forall|k: int|
                    0 <= k < edges@.len() && (#[trigger] edges@[k]).level ==> call_requires(
                        hint_at,
                        (edges@[k].time_ms,),
                    ),
                hints_from(hint_at, edges@.take(i as int), hints),
                self@ == old(self)@.feed(edges@.take(i as int), hints),
                delta == self@.count - old(self)@.count,
                abs(delta as int) + self@.unsigned <= old(self)@.unsigned + i,
            decreases edges.len() - i,
        {
            let e: EdgeRecord = edges[i];
            let ghost before = self@;
            let ghost old_hints = hints;
            if e.level {
                let hint: i8 = hint_at(e.time_ms);
                proof {
                    hints = hints.push(hint);
                }
                let step: i64 = self.rise(e.channel, e.time_ms as i128 * 1_000_000, hint, 0);
                delta = delta + step;
            } else {
                proof {
                    hints = hints.push(0);
                }
                self.filtered = self.filtered + 1;
            }
            i = i + 1;
            proof {
                assert(edges@.take(i as int).drop_last() =~= edges@.take(i - 1));
                assert(hints.drop_last() =~= old_hints);
                assert(self@ == before.take_record(e, hints.last()));
                assert forall|j: int| 0 <= j < i && edges@.take(i as int)[j].level implies call_ensures(
                    hint_at,
                    (edges@.take(i as int)[j].time_ms,),
                    #[trigger] hints[j],
                ) by {
                    if j < i - 1 {
                        assert(edges@.take(i - 1)[j] == edges@.take(i as int)[j]);
                        assert(old_hints[j] == hints[j]);
                    }
                }
            }
        }
        assert(edges@.take(i as int) =~= edges@);
        delta
    }

    /// Reset the count to 0. Edges still held came before the zero, so they are
    /// dropped with it; the diagnostics and the learned direction stay.
    pub fn zero(&mut self)
        requires
            old(self).wf(),
        ensures
            final(self).wf(),
            final(self)@ == (Decoding { count: 0, unsigned: 0, ..old(self)@ }),
    {
        self.count = 0;
        self.unsigned = 0;
    }

    /// Worst-case position error that the sensing itself can inject at one
    /// reversal: a channel's rising edge sits at a different physical position
    /// in each direction, so an out-and-back move finishes up to one whole
    /// tooth cycle off.
    pub fn reversal_backlash_counts() -> (counts: i64)
        ensures
            counts == 2,
    {
        2
    }
}

} // verus!
