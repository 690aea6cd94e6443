//! What one rising edge does to the decoder, case by case.

use vstd::prelude::*;

use crate::decoder_laws::unhinted;
use crate::quadrature::{Channel, Decoding, Rise};

verus! {

/// Where a channel's last rise is kept: A's first.
pub open spec fn place(channel: Channel) -> int {
    if channel == Channel::A {
        0
    } else {
        1
    }
}

/// Whether the count moved by the edge and all that were held, in a sense that
/// an inverting decoder turns round, and nothing is held any more.
pub open spec fn signed_by(before: Decoding, after: Decoding, sense: int) -> bool {
    let up = (sense == 1) != before.invert;
    &&& after.sense == sense
    &&& up ==> after.count == before.count + before.unsigned + 1 && after.direction == 1
    &&& !up ==> after.count == before.count - before.unsigned - 1 && after.direction == -1
    &&& after.unsigned == 0
}

/// Whether an edge that measured nothing was held, or else counted in the held
/// sense and tallied as ambiguous.
pub open spec fn carried(before: Decoding, after: Decoding) -> bool {
    &&& before.sense == 0 ==> {
        &&& after.sense == 0
        &&& after.direction == 0
        &&& after.count == before.count
        &&& after.unsigned == before.unsigned + 1
        &&& after.ambiguous == before.ambiguous
    }
    &&& before.sense != 0 ==> {
        &&& signed_by(before, after, before.sense)
        &&& after.ambiguous == before.ambiguous + 1
    }
}

/// An edge of the other channel than the last, at a gap of up to three eighths
/// of the period or from five eighths on, measures the sense, whatever sense was
/// held: a short gap means that the other channel leads, and B in front is
/// positive. The period is the hardware's where it has one, and else the time
/// since the same channel rose.
pub proof fn law_readable_gap_sets_the_sense(d: Decoding, e: Rise, gap: int, period: int)
    requires
        !d.hint_only,
        unhinted(e),
        d.last_ch is Some,
        d.last_ch != Some(e.channel),
        gap == e.t - d.last_t,
        e.hw_period > 0 ==> period == e.hw_period,
        e.hw_period <= 0 ==> d.rises[place(e.channel)] == Some(e.t - period),
        gap > 0,
        period > 0,
        8 * gap <= 3 * period || 8 * gap >= 5 * period,
    ensures
        (2 * gap < period) == (e.channel == Channel::A) ==> signed_by(d, d.step(e), 1),
        (2 * gap < period) != (e.channel == Channel::A) ==> signed_by(d, d.step(e), -1),
        d.step(e).ambiguous == d.ambiguous,
        d.step(e).missed == d.missed,
{
}

/// An edge of the other channel measures nothing where the gap lies strictly
/// between three and five eighths of the period, where either is not positive,
/// where there is no period at all, or where hints alone count.
pub proof fn law_unreadable_gap_measures_nothing(d: Decoding, e: Rise, gap: int, period: int)
    requires
        -1 <= d.sense <= 1,
        unhinted(e),
        d.last_ch is Some,
        d.last_ch != Some(e.channel),
        gap == e.t - d.last_t,
        e.hw_period > 0 ==> period == e.hw_period,
        e.hw_period <= 0 ==> (match d.rises[place(e.channel)] {
            Some(prev) => period == e.t - prev,
            None => period == 0,
        }),
        d.hint_only || gap <= 0 || period <= 0 || (3 * period < 8 * gap && 8 * gap < 5 * period),
    ensures
        carried(d, d.step(e)),
        d.step(e).missed == d.missed,
{
}

/// The first edge of all, and a second rise of one channel, measure nothing; the
/// latter is a missed edge.
pub proof fn law_first_and_repeat_measure_nothing(d: Decoding, e: Rise)
    requires
        -1 <= d.sense <= 1,
        unhinted(e),
        d.last_ch is None || d.last_ch == Some(e.channel),
    ensures
        carried(d, d.step(e)),
        d.last_ch is None ==> d.step(e).missed == d.missed,
        d.last_ch is Some ==> d.step(e).missed == d.missed + 1,
{
}

/// A commanded direction is the sense of its edge, whatever the timing says.
pub proof fn law_command_sets_the_sense(d: Decoding, e: Rise)
    requires
        e.hint == 1 || e.hint == -1,
    ensures
        signed_by(d, d.step(e), e.hint),
        d.step(e).ambiguous == d.ambiguous,
        d.step(e).missed == d.missed,
{
}

/// Every edge leaves its channel and time behind. The other channel's last rise
/// stays, but for a repeat without a command, which forgets it.
pub proof fn law_edge_leaves_its_time(d: Decoding, e: Rise)
    requires
        d.rises.len() == 2,
    ensures
        ({
            let after = d.step(e);
            let other = 1 - place(e.channel);
            &&& after.last_ch == Some(e.channel)
            &&& after.last_t == e.t
            &&& after.rises.len() == 2
            &&& after.rises[place(e.channel)] == Some(e.t)
            &&& unhinted(e) && d.last_ch == Some(e.channel) ==> after.rises[other] is None
            &&& !(unhinted(e) && d.last_ch == Some(e.channel)) ==> after.rises[other]
                == d.rises[other]
        }),
{
}

/// The period tallies: an uncommanded edge of the other channel than the last
/// has a hardware period or misses one, and every other edge is in neither
/// tally. The periods disagree where the host's, if it has one, is over a tenth
/// of the hardware's away from it. Nothing else is touched.
pub proof fn law_edge_tallies(d: Decoding, e: Rise)
    ensures
        ({
            let after = d.step(e);
            let cross = unhinted(e) && d.last_ch is Some && d.last_ch != Some(e.channel);
            let strays = match d.rises[place(e.channel)] {
                Some(prev) => e.t > prev && (10 * (e.t - prev) > 11 * e.hw_period || 10 * (e.t
                    - prev) < 9 * e.hw_period),
                None => false,
            };
            &&& after.hw_period_used == d.hw_period_used + if cross && e.hw_period > 0 {
                1int
            } else {
                0
            }
            &&& after.hw_period_missing == d.hw_period_missing + if cross && e.hw_period <= 0 {
                1int
            } else {
                0
            }
            &&& after.period_disagreements == d.period_disagreements + if cross && e.hw_period > 0
                && strays {
                1int
            } else {
                0
            }
            &&& after.filtered == d.filtered
            &&& after.invert == d.invert
            &&& after.hint_only == d.hint_only
        }),
{
}

/// A decoder that has seen nothing: no count, no direction, no tallies, no times.
pub proof fn law_fresh_has_seen_nothing(invert: bool)
    ensures
        ({
            let d = Decoding::fresh(invert);
            &&& d.count == 0 && d.sense == 0 && d.direction == 0 && d.unsigned == 0
            &&& d.missed == 0 && d.ambiguous == 0 && d.filtered == 0
            &&& d.hw_period_used == 0 && d.hw_period_missing == 0 && d.period_disagreements == 0
            &&& d.last_ch is None && d.rises.len() == 2 && d.rises[0] is None && d.rises[1] is None
            &&& d.invert == invert && !d.hint_only
        }),
{
}

/// The delta that an edge is answered with is what the count moved by.
pub proof fn law_delta_is_the_change(d: Decoding, e: Rise)
    ensures
        d.delta(e) == d.step(e).count - d.count,
{
}

} // verus!
