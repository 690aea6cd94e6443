//! Revolutions, rotational speed and the words for a direction.
//!
//! Times are integers in nanoseconds.

use std::collections::VecDeque;

use vstd::prelude::*;

use crate::ratio::Ratio;

verus! {

/// The speed up to which the rotation reads as stopped: half a revolution per
/// minute.
pub fn rpm_stopped_threshold() -> (threshold: Ratio)
    ensures
        threshold == (Ratio { num: 1, den: 2 }),
{
    Ratio { num: 1, den: 2 }
}

/// Decoded counts in one full revolution of the target wheel: two per tooth.
pub fn counts_per_rev(pulses_per_rev: i64) -> (counts: i64)
    requires
        i64::MIN <= 2 * pulses_per_rev <= i64::MAX,
    ensures
        counts == 2 * pulses_per_rev,
{
    2 * pulses_per_rev
}

/// `count / counts_per_rev`, or nothing when the latter is misconfigured.
pub open spec fn revolutions_of(count: int, counts_per_rev: int) -> Ratio {
    if counts_per_rev <= 0 {
        Ratio { num: 0, den: 1 }
    } else {
        Ratio { num: count as i128, den: counts_per_rev as i128 }
    }
}

/// Signed revolutions that `count` stands for; zero when `counts_per_rev` is
/// not positive.
pub fn revolutions(count: i64, counts_per_rev: i64) -> (revs: Ratio)
    ensures
        revs.wf(),
        revs == revolutions_of(count as int, counts_per_rev as int),
        counts_per_rev > 0 ==> revs.num == count && revs.den == counts_per_rev,
        counts_per_rev <= 0 ==> revs.is_int(0),
{
    if counts_per_rev <= 0 {
        return Ratio::zero();
    }
    Ratio { num: count as i128, den: counts_per_rev as i128 }
}

/// The word for a change of the count.
pub open spec fn travel_word(count_delta: int) -> Seq<char> {
    if count_delta > 0 {
        "opening"@
    } else if count_delta < 0 {
        "closing"@
    } else {
        "stopped"@
    }
}

/// Classify gate travel from the change in decoded count alone, and not from
/// the height: the travel per count may be unset.
pub fn travel_direction(count_delta: i64) -> (word: &'static str)
    ensures
        word@ == travel_word(count_delta as int),
{
    if count_delta > 0 {
        "opening"
    } else if count_delta < 0 {
        "closing"
    } else {
        "stopped"
    }
}

/// The word for a rotational speed.
pub open spec fn rotation_word(rpm: Ratio, threshold: Ratio) -> Seq<char> {
    if rpm.num * threshold.den > threshold.num * rpm.den {
        "cw"@
    } else if rpm.num * threshold.den < -(threshold.num * rpm.den) {
        "ccw"@
    } else {
        "stopped"@
    }
}

/// Classify a signed rpm. Within `threshold` of zero it reads as stopped, so
/// that jitter cannot flicker the direction.
pub fn rotation_direction(rpm: Ratio, threshold: Ratio) -> (word: &'static str)
    requires
        rpm.wf(),
        threshold.wf(),
        rpm.comparable(threshold),
    ensures
        word@ == rotation_word(rpm, threshold),
{
    let speed: i128 = rpm.num * threshold.den;
    let limit: i128 = threshold.num * rpm.den;
    if speed > limit {
        "cw"
    } else if speed < -limit {
        "ccw"
    } else {
        "stopped"
    }
}

/// The samples that a sliding window keeps: leading ones are dropped while they
/// are older than the window, but never the last.
pub open spec fn in_window(samples: Seq<(i64, i64)>, t: int, window: int) -> Seq<(i64, i64)>
    decreases samples.len(),
{
    if samples.len() > 1 && t - samples[0].0 > window {
        in_window(samples.drop_first(), t, window)
    } else {
        samples
    }
}

/// The rate from the oldest sample to the newest, in revolutions per minute.
pub open spec fn rpm_of(samples: Seq<(i64, i64)>, counts_per_rev: int) -> Ratio {
    if samples.len() < 2 || counts_per_rev <= 0 || samples.last().0 <= samples[0].0 {
        Ratio { num: 0, den: 1 }
    } else {
        Ratio {
            num: ((samples.last().1 - samples[0].1) * 60_000_000_000) as i128,
            den: (counts_per_rev * (samples.last().0 - samples[0].0)) as i128,
        }
    }
}

/// Sliding-window estimator of rotational speed from position samples.
#[derive(Debug, Clone)]
pub struct RateEstimator {
    /// Width of the trailing window, in nanoseconds.
    pub window_ns: i64,
    /// The samples in the window, as times with counts, oldest first.
    pub samples: VecDeque<(i64, i64)>,
}

impl View for RateEstimator {
    type V = Seq<(i64, i64)>;

    open spec fn view(&self) -> Seq<(i64, i64)> {
        self.samples@
    }
}

impl RateEstimator {
    pub fn new(window_ns: i64) -> (r: RateEstimator)
        ensures
            r.window_ns == window_ns,
            r@ == Seq::<(i64, i64)>::empty(),
    {
        RateEstimator { window_ns, samples: VecDeque::new() }
    }

    pub fn len(&self) -> (n: usize)
        ensures
            n == self@.len(),
    {
        self.samples.len()
    }

    pub fn is_empty(&self) -> (empty: bool)
        ensures
            empty == (self@.len() == 0),
    {
        self.samples.len() == 0
    }

    /// Append a sample and drop any that fell outside the trailing window.
    pub fn add(&mut self, t: i64, count: i64)
        ensures
            final(self).window_ns == old(self).window_ns,
            final(self)@ == in_window(
                old(self)@.push((t, count)),
                t as int,
                old(self).window_ns as int,
            ),
    {
        self.samples.push_back((t, count));
        while self.samples.len() > 1 && t as i128 - self.samples[0].0 as i128
            > self.window_ns as i128
            invariant
                self.window_ns == old(self).window_ns,
                in_window(self@, t as int, self.window_ns as int) == in_window(
                    old(self)@.push((t, count)),
                    t as int,
                    self.window_ns as int,
                ),
            decreases self@.len(),
        {
            let ghost before = self@;
            self.samples.pop_front();
            assert(self@ =~= before.drop_first());
        }
    }

    /// Estimate signed revolutions per minute over the current window: zero
    /// with fewer than two samples, a `counts_per_rev` that is not positive, or
    /// no time between the oldest sample and the newest.
    pub fn rpm(&self, counts_per_rev: i64) -> (rpm: Ratio)
        ensures
            rpm.wf(),
            rpm == rpm_of(self@, counts_per_rev as int),
            self@.len() < 2 || counts_per_rev <= 0 || self@.last().0 <= self@[0].0 ==> rpm.is_int(0),
            self@.len() >= 2 && counts_per_rev > 0 && self@.last().0 > self@[0].0 ==> {
                &&& rpm.num == (self@.last().1 - self@[0].1) * 60_000_000_000
                &&& rpm.den == counts_per_rev * (self@.last().0 - self@[0].0)
            },
    {
        if self.samples.len() < 2 || counts_per_rev <= 0 {
            return Ratio::zero();
        }
        let first: (i64, i64) = self.samples[0];
        let last: (i64, i64) = self.samples[self.samples.len() - 1];
        let dt: i128 = last.0 as i128 - first.0 as i128;
        if dt <= 0 {
            return Ratio::zero();
        }
        assert(0 < counts_per_rev * dt <= i128::MAX) by (nonlinear_arith)
            requires
                0 < counts_per_rev <= i64::MAX,
                0 < dt <= u64::MAX,
        ;
        Ratio {
            num: (last.1 as i128 - first.1 as i128) * 60_000_000_000,
            den: counts_per_rev as i128 * dt,
        }
    }

    /// Forget all samples, so that a count discontinuity cannot read as a
    /// speed.
    pub fn reset(&mut self)
        ensures
            final(self).window_ns == old(self).window_ns,
            final(self)@ == Seq::<(i64, i64)>::empty(),
    {
        self.samples.clear();
    }
}

impl Default for RateEstimator {
    /// A window of two seconds.
    fn default() -> (r: RateEstimator)
        ensures
            r.window_ns == 2_000_000_000,
            r@ == Seq::<(i64, i64)>::empty(),
    {
        RateEstimator::new(2_000_000_000)
    }
}

/// The window keeps a tail of the samples, never empty: those dropped are older
/// than the window, and the oldest kept is not, unless it is the only one.
pub proof fn law_window_keeps_the_recent_tail(samples: Seq<(i64, i64)>, t: int, window: int) -> (
dropped: int)
    requires
        samples.len() > 0,
    ensures
        0 <= dropped < samples.len(),
        in_window(samples, t, window) == samples.skip(dropped),
        forall|i: int| 0 <= i < dropped ==> t - (#[trigger] samples[i]).0 > window,
        dropped == samples.len() - 1 || t - samples[dropped].0 <= window,
    decreases samples.len(),
{
    if samples.len() > 1 && t - samples[0].0 > window {
        let rest = samples.drop_first();
        let n = law_window_keeps_the_recent_tail(rest, t, window);
        assert(samples.skip(n + 1) =~= rest.skip(n));
        assert forall|i: int| 0 <= i < n + 1 implies t - (#[trigger] samples[i]).0 > window by {
            if i > 0 {
                assert(rest[i - 1] == samples[i]);
            }
        }
        assert(rest[n] == samples[n + 1]);
        n + 1
    } else {
        assert(samples.skip(0) =~= samples);
        0
    }
}

/// A wheel that turns `counts` in `dt` nanoseconds turns at
/// `counts / counts_per_rev` revolutions in `dt / 60 s` minutes, in the sense
/// of the count.
pub proof fn law_rate_has_the_sign_of_the_count(samples: Seq<(i64, i64)>, counts_per_rev: int)
    requires
        samples.len() >= 2,
        0 < counts_per_rev <= i64::MAX,
        samples.last().0 > samples[0].0,
    ensures
        ({
            let rpm = rpm_of(samples, counts_per_rev);
            let counts = samples.last().1 - samples[0].1;
            let dt = samples.last().0 - samples[0].0;
            &&& rpm.den > 0
            &&& rpm.num * (counts_per_rev * dt) == counts * 60_000_000_000 * rpm.den
            &&& rpm.num > 0 <==> counts > 0
            &&& rpm.num < 0 <==> counts < 0
        }),
{
    let dt = samples.last().0 - samples[0].0;
    assert(0 < counts_per_rev * dt <= i128::MAX) by (nonlinear_arith)
        requires
            0 < counts_per_rev <= i64::MAX,
            0 < dt <= u64::MAX,
    ;
}

/// A rate is taken only over time that passed and teeth that are configured.
pub proof fn law_rate_needs_time_and_teeth(samples: Seq<(i64, i64)>, counts_per_rev: int)
    requires
        samples.len() < 2 || counts_per_rev <= 0 || samples.last().0 <= samples[0].0,
    ensures
        rpm_of(samples, counts_per_rev).num == 0,
        rpm_of(samples, counts_per_rev).den > 0,
{
}

/// The word for travel is that of the sign of the count's change, whatever its
/// size.
pub proof fn law_travel_word_is_the_sign(count_delta: int)
    ensures
        travel_word(count_delta) == "opening"@ <==> count_delta > 0,
        travel_word(count_delta) == "closing"@ <==> count_delta < 0,
        travel_word(count_delta) == "stopped"@ <==> count_delta == 0,
{
    reveal_strlit("opening");
    reveal_strlit("closing");
    reveal_strlit("stopped");
    assert("opening"@[0] == 'o' && "closing"@[0] == 'c' && "stopped"@[0] == 's');
}

/// The word for rotation is that of the speed beyond the threshold, on either
/// side; at the threshold it still reads as stopped.
pub proof fn law_rotation_word_is_beyond_the_threshold(rpm: Ratio, threshold: Ratio)
    requires
        rpm.den > 0,
        threshold.den > 0,
        threshold.num >= 0,
    ensures
        rotation_word(rpm, threshold) == "cw"@ <==> rpm.num * threshold.den > threshold.num
            * rpm.den,
        rotation_word(rpm, threshold) == "ccw"@ <==> -rpm.num * threshold.den > threshold.num
            * rpm.den,
        rotation_word(rpm, threshold) == "stopped"@ <==> -(threshold.num * rpm.den) <= rpm.num
            * threshold.den <= threshold.num * rpm.den,
{
    reveal_strlit("cw");
    reveal_strlit("ccw");
    reveal_strlit("stopped");
    assert("cw"@.len() == 2 && "ccw"@.len() == 3 && "stopped"@.len() == 7);
    let n = rpm.num as int;
    let d = rpm.den as int;
    let tn = threshold.num as int;
    let td = threshold.den as int;
    assert(tn * d >= 0 && (-n) * td == -(n * td)) by (nonlinear_arith)
        requires
            tn >= 0,
            d > 0,
    ;
}

/// Revolutions times the counts of one are the count.
pub proof fn law_revolutions_times_counts_is_the_count(count: i64, counts_per_rev: i64)
    ensures
        ({
            let revs = revolutions_of(count as int, counts_per_rev as int);
            &&& revs.den > 0
            &&& counts_per_rev > 0 ==> revs.num * counts_per_rev == count * revs.den
            &&& counts_per_rev <= 0 ==> revs.num == 0
        }),
{
}

} // verus!
