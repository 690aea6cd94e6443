//! What holds of the decoder over whole runs of edges.

use vstd::prelude::*;

use crate::events::EdgeRecord;
use crate::quadrature::{Channel, Decoding, Rise};
#[allow(unused_imports)]
use crate::quadrature::{abs, readable};

verus! {

/// The state after a run of rising edges.
pub open spec fn run(d: Decoding, edges: Seq<Rise>) -> Decoding
    decreases edges.len(),
{
    if edges.len() == 0 {
        d
    } else {
        run(d, edges.drop_last()).step(edges.last())
    }
}

/// The counts moved over a run, in either direction.
pub open spec fn travelled(d: Decoding, edges: Seq<Rise>) -> int
    decreases edges.len(),
{
    if edges.len() == 0 {
        0
    } else {
        travelled(d, edges.drop_last()) + abs(run(d, edges.drop_last()).delta(edges.last()))
    }
}

/// Whether an edge comes without a direction from outside.
pub open spec fn unhinted(e: Rise) -> bool {
    e.hint != 1 && e.hint != -1
}

/// Every rising edge is one count of travel: over any run, the counts moved and
/// the edges still held together are the edges that were held before and those
/// of the run.
pub proof fn law_every_edge_is_one_count(d: Decoding, edges: Seq<Rise>)
    requires
        d.unsigned >= 0,
        -1 <= d.sense <= 1,
    ensures
        travelled(d, edges) + run(d, edges).unsigned == d.unsigned + edges.len(),
        run(d, edges).unsigned >= 0,
        -1 <= run(d, edges).sense <= 1,
    decreases edges.len(),
{
    if edges.len() > 0 {
        law_every_edge_is_one_count(d, edges.drop_last());
    }
}

/// After any edge the reported direction is the sense, with the sign flipped
/// when the decoder inverts.
pub proof fn law_direction_follows_sense(d: Decoding, e: Rise)
    ensures
        d.step(e).direction == d.step(e).sign(d.step(e).sense),
        d.step(e).invert == d.invert,
{
}

/// Every unhinted edge of a fresh decoder is accounted for exactly once: as the
/// first of all, as a repeat, as one with a hardware period, or as one without.
pub proof fn law_edge_accounting(invert: bool, edges: Seq<Rise>)
    requires
        edges.len() > 0,
        forall|i: int| 0 <= i < edges.len() ==> unhinted(#[trigger] edges[i]),
    ensures
        ({
            let end = run(Decoding::fresh(invert), edges);
            end.hw_period_used + end.hw_period_missing + end.missed + 1 == edges.len()
        }),
{
    lemma_accounting(Decoding::fresh(invert), edges);
}

proof fn lemma_accounting(d: Decoding, edges: Seq<Rise>)
    requires
        forall|i: int| 0 <= i < edges.len() ==> unhinted(#[trigger] edges[i]),
    ensures
        ({
            let end = run(d, edges);
            &&& edges.len() > 0 ==> end.last_ch is Some
            &&& end.hw_period_used + end.hw_period_missing + end.missed + if edges.len() > 0
                && d.last_ch is None {
                1int
            } else {
                0
            } == d.hw_period_used + d.hw_period_missing + d.missed + edges.len()
        }),
    decreases edges.len(),
{
    if edges.len() > 0 {
        let front = edges.drop_last();
        assert forall|i: int| 0 <= i < front.len() implies unhinted(#[trigger] front[i]) by {
            assert(front[i] == edges[i]);
        }
        lemma_accounting(d, front);
        assert(unhinted(edges[edges.len() - 1]));
    }
}

/// Two states that differ only in the sign that the count is given.
pub open spec fn mirrored(a: Decoding, b: Decoding) -> bool {
    a == (Decoding { count: -b.count, invert: !b.invert, direction: -b.direction, ..b })
}

/// Inverting negates every step and touches nothing else: over the same edges
/// the counts stay opposite, and the sense and all diagnostics equal.
pub proof fn law_invert_mirrors(a: Decoding, b: Decoding, edges: Seq<Rise>)
    requires
        mirrored(a, b),
    ensures
        mirrored(run(a, edges), run(b, edges)),
    decreases edges.len(),
{
    if edges.len() > 0 {
        law_invert_mirrors(a, b, edges.drop_last());
    }
}

/// The band: a gap can be read exactly when it is at most three eighths of the
/// period, or at least five eighths. So mountings up to 135 degrees of phase
/// are tolerated, and half a period never gives a direction.
pub proof fn law_ambiguity_band(gap: int, period: int)
    requires
        gap > 0,
        period > 0,
    ensures
        readable(gap, period) <==> 8 * gap <= 3 * period || 8 * gap >= 5 * period,
        2 * gap == period ==> !readable(gap, period),
{
}

/// An edge with a hint takes its sense from the hint, and counts as measured.
pub proof fn law_hint_overrides_timing(d: Decoding, e: Rise)
    requires
        e.hint == 1 || e.hint == -1,
    ensures
        d.step(e).sense == e.hint,
        d.step(e).ambiguous == d.ambiguous,
        d.step(e).unsigned == 0,
        d.step(e).missed == d.missed,
        d.sign(e.hint) == 1 ==> d.step(e).count == d.count + 1 + d.unsigned,
        d.sign(e.hint) == -1 ==> d.step(e).count == d.count - 1 - d.unsigned,
        d.step(e).last_t == e.t,
        d.step(e).rises == d.rises.update(e.channel.slot(), Some(e.t)),
{
}

/// With hints as the only authority, no timing changes the sense: an edge
/// without a hint is held, or carried on the last commanded sign and tallied as
/// ambiguous.
pub proof fn law_hint_only_never_measures(d: Decoding, e: Rise)
    requires
        d.hint_only,
        unhinted(e),
    ensures
        d.step(e).sense == d.sense,
        d.sense == 0 ==> d.step(e).count == d.count && d.step(e).unsigned == d.unsigned + 1,
        d.sense != 0 ==> d.step(e).ambiguous == d.ambiguous + 1,
{
}

/// The first two edges of a run are held, not guessed.
pub proof fn law_cold_start_holds(invert: bool, first: Rise, second: Rise)
    requires
        unhinted(first),
        unhinted(second),
        second.hw_period <= 0,
    ensures
        ({
            let one = Decoding::fresh(invert).step(first);
            let two = one.step(second);
            &&& one.count == 0 && one.unsigned == 1
            &&& two.count == 0 && two.unsigned == 2
            &&& two.ambiguous == 0
        }),
{
}

/// Feeding two batches one after the other is feeding them as one.
pub proof fn law_batches_concatenate(
    d: Decoding,
    first: Seq<EdgeRecord>,
    first_hints: Seq<i8>,
    second: Seq<EdgeRecord>,
    second_hints: Seq<i8>,
)
    requires
        first.len() == first_hints.len(),
        second.len() == second_hints.len(),
    ensures
        d.feed(first + second, first_hints + second_hints) == d.feed(first, first_hints).feed(
            second,
            second_hints,
        ),
    decreases second.len(),
{
    let edges = first + second;
    let hints = first_hints + second_hints;
    if second.len() == 0 {
        assert(edges =~= first);
        assert(hints =~= first_hints);
    } else {
        law_batches_concatenate(
            d,
            first,
            first_hints,
            second.drop_last(),
            second_hints.drop_last(),
        );
        assert(edges.drop_last() =~= first + second.drop_last());
        assert(hints.drop_last() =~= first_hints + second_hints.drop_last());
    }
}

/// The rise that a polled record is decoded as.
pub open spec fn rise_of(e: EdgeRecord, hint: i8) -> Rise {
    Rise { channel: e.channel, t: e.time_ms * 1_000_000, hint: hint as int, hw_period: 0 }
}

/// The rises among a batch of polled records.
pub open spec fn rises_of(edges: Seq<EdgeRecord>, hints: Seq<i8>) -> Seq<Rise>
    decreases edges.len(),
{
    if edges.len() == 0 {
        Seq::empty()
    } else {
        let front = rises_of(edges.drop_last(), hints.drop_last());
        if edges.last().level {
            front.push(rise_of(edges.last(), hints.last()))
        } else {
            front
        }
    }
}

/// How many records of a batch are falling.
pub open spec fn falling(edges: Seq<EdgeRecord>) -> int
    decreases edges.len(),
{
    if edges.len() == 0 {
        0
    } else {
        falling(edges.drop_last()) + if edges.last().level {
            0int
        } else {
            1
        }
    }
}

/// Polled edges decode as the same edges would from a stream without hardware
/// periods, in their order; falling records are tallied and do nothing else.
pub proof fn law_polled_is_streamed(d: Decoding, edges: Seq<EdgeRecord>, hints: Seq<i8>)
    requires
        edges.len() == hints.len(),
    ensures
        d.feed(edges, hints) == (Decoding {
            filtered: d.filtered + falling(edges),
            ..run(d, rises_of(edges, hints))
        }),
        run(d, rises_of(edges, hints)).filtered == d.filtered,
    decreases edges.len(),
{
    if edges.len() > 0 {
        law_polled_is_streamed(d, edges.drop_last(), hints.drop_last());
        let front = rises_of(edges.drop_last(), hints.drop_last());
        if edges.last().level {
            let e = rise_of(edges.last(), hints.last());
            assert(front.push(e).drop_last() =~= front);
        }
    }
}

/// A state after a zero.
pub open spec fn zeroed(d: Decoding) -> Decoding {
    Decoding { count: 0, unsigned: 0, ..d }
}

proof fn lemma_count_within_travel(d: Decoding, edges: Seq<Rise>)
    ensures
        abs(run(d, edges).count - d.count) <= travelled(d, edges),
    decreases edges.len(),
{
    if edges.len() > 0 {
        lemma_count_within_travel(d, edges.drop_last());
    }
}

/// The count is the position since the last zero: only edges after it move the
/// count, each by one at most, and what was held before it is never added.
pub proof fn law_count_is_since_the_zero(d: Decoding, edges: Seq<Rise>)
    requires
        -1 <= d.sense <= 1,
    ensures
        travelled(zeroed(d), edges) + run(zeroed(d), edges).unsigned == edges.len(),
        abs(run(zeroed(d), edges).count) <= edges.len(),
{
    law_every_edge_is_one_count(zeroed(d), edges);
    lemma_count_within_travel(zeroed(d), edges);
}

/// Where no edge is held, a zero shifts every later count by the same amount
/// and changes nothing else.
pub proof fn law_zero_shifts_the_count(d: Decoding, edges: Seq<Rise>)
    requires
        d.unsigned == 0,
    ensures
        run(d, edges) == (Decoding {
            count: d.count + run(zeroed(d), edges).count,
            ..run(zeroed(d), edges)
        }),
    decreases edges.len(),
{
    if edges.len() > 0 {
        law_zero_shifts_the_count(d, edges.drop_last());
    }
}

/// An edge with the two sensors exchanged, and the commanded direction with
/// them.
pub open spec fn exchanged_edge(e: Rise) -> Rise {
    Rise { channel: e.channel.other(), hint: -e.hint, ..e }
}

/// A state with the two sensors exchanged.
pub open spec fn exchanged(d: Decoding) -> Decoding {
    Decoding {
        count: -d.count,
        sense: -d.sense,
        direction: -d.direction,
        last_ch: match d.last_ch {
            Some(c) => Some(c.other()),
            None => None,
        },
        rises: seq![d.rises[1], d.rises[0]],
        ..d
    }
}

proof fn lemma_exchanged_step(d: Decoding, e: Rise)
    requires
        d.rises.len() == 2,
    ensures
        exchanged(d).step(exchanged_edge(e)) == exchanged(d.step(e)),
        d.step(e).rises.len() == 2,
{
    let x = exchanged(d);
    let f = exchanged_edge(e);
    assert(x.rises[f.channel.slot()] == d.rises[e.channel.slot()]);
    assert(x.kind(f) == d.kind(e));
    assert(x.gap(f) == d.gap(e));
    assert(x.period(f) == d.period(e));
    assert(x.measured(f) == -d.measured(e));
    assert(x.step(f).rises =~= exchanged(d.step(e)).rises);
}

/// Exchanging the two sensors, and with them the commanded directions, negates
/// the count, the sense and the direction, and changes no diagnostic. So the
/// order of the edges alone carries no direction.
pub proof fn law_exchanging_sensors_negates(d: Decoding, edges: Seq<Rise>)
    requires
        d.rises.len() == 2,
    ensures
        run(exchanged(d), edges.map_values(|e: Rise| exchanged_edge(e))) == exchanged(
            run(d, edges),
        ),
        run(d, edges).rises.len() == 2,
    decreases edges.len(),
{
    let other = edges.map_values(|e: Rise| exchanged_edge(e));
    if edges.len() > 0 {
        law_exchanging_sensors_negates(d, edges.drop_last());
        assert(other.drop_last() =~= edges.drop_last().map_values(|e: Rise| exchanged_edge(e)));
        lemma_exchanged_step(run(d, edges.drop_last()), edges.last());
    }
}

/// An edge on a clock that runs `k` times as fast and starts elsewhere.
pub open spec fn rescaled(e: Rise, k: int, shift: int) -> Rise {
    Rise { t: k * e.t + shift, hw_period: k * e.hw_period, ..e }
}

/// Whether `b` is `a` on such a clock.
pub open spec fn same_but_for_clock(a: Decoding, b: Decoding, k: int, shift: int) -> bool {
    &&& b == (Decoding { last_t: b.last_t, rises: b.rises, ..a })
    &&& a.last_ch is Some ==> b.last_t == k * a.last_t + shift
    &&& a.rises.len() == 2
    &&& b.rises.len() == 2
    &&& forall|i: int|
        0 <= i < 2 ==> #[trigger] b.rises[i] == (match a.rises[i] {
            Some(t) => Some(k * t + shift),
            None => None,
        })
}

proof fn lemma_scaled_differences(k: int, x: int, y: int, shift: int)
    ensures
        (k * x + shift) - (k * y + shift) == k * (x - y),
{
    assert((k * x + shift) - (k * y + shift) == k * (x - y)) by (nonlinear_arith);
}

proof fn lemma_scaled_tests(k: int, gap: int, period: int, host: int)
    requires
        k > 0,
    ensures
        readable(k * gap, k * period) == readable(gap, period),
        (2 * (k * gap) < k * period) == (2 * gap < period),
        (k * period > 0) == (period > 0),
        (k * host > 0) == (host > 0),
        (10 * abs(k * host - k * period) > k * period) == (10 * abs(host - period) > period),
{
    let skew = 2 * gap - period;
    let stray = host - period;
    assert(2 * (k * gap) - k * period == k * skew) by (nonlinear_arith)
        requires
            skew == 2 * gap - period,
    ;
    assert(k * host - k * period == k * stray) by (nonlinear_arith)
        requires
            stray == host - period,
    ;
    lemma_scaled_sign(k, gap);
    lemma_scaled_sign(k, period);
    lemma_scaled_sign(k, host);
    lemma_scaled_sign(k, skew);
    lemma_scaled_sign(k, stray);
    let a = 4 * abs(skew) - period;
    assert(4 * abs(k * skew) - k * period == k * a) by (nonlinear_arith)
        requires
            abs(k * skew) == k * abs(skew),
            a == 4 * abs(skew) - period,
    ;
    lemma_scaled_sign(k, a);
    let b = 10 * abs(stray) - period;
    assert(10 * abs(k * stray) - k * period == k * b) by (nonlinear_arith)
        requires
            abs(k * stray) == k * abs(stray),
            b == 10 * abs(stray) - period,
    ;
    lemma_scaled_sign(k, b);
}

proof fn lemma_scaled_sign(k: int, x: int)
    requires
        k > 0,
    ensures
        (k * x > 0) == (x > 0),
        (k * x < 0) == (x < 0),
        (k * x >= 0) == (x >= 0),
        abs(k * x) == k * abs(x),
{
    assert(x > 0 ==> k * x > 0) by (nonlinear_arith)
        requires
            k > 0,
    ;
    assert(x < 0 ==> k * x < 0) by (nonlinear_arith)
        requires
            k > 0,
    ;
    assert(k * 0 == 0);
    assert(k * (-x) == -(k * x)) by (nonlinear_arith);
}

proof fn lemma_rescaled_step(a: Decoding, b: Decoding, e: Rise, k: int, shift: int)
    requires
        k > 0,
        same_but_for_clock(a, b, k, shift),
    ensures
        same_but_for_clock(a.step(e), b.step(rescaled(e, k, shift)), k, shift),
{
    let f = rescaled(e, k, shift);
    let slot = e.channel.slot();
    assert(b.rises[slot] == (match a.rises[slot] {
        Some(t) => Some(k * t + shift),
        None => None,
    }));
    lemma_scaled_sign(k, e.hw_period);
    if a.kind(e) is Cross {
        lemma_scaled_differences(k, e.t, a.last_t, shift);
        assert(b.gap(f) == k * a.gap(e));
        let host = match a.host_period(e) {
            Some(p) => p,
            None => 0,
        };
        if let Some(prev) = a.rises[slot] {
            lemma_scaled_differences(k, e.t, prev, shift);
            assert(b.host_period(f) == Some(k * host));
        }
        assert(k * 0 == 0);
        assert(b.period(f) == k * a.period(e));
        lemma_scaled_tests(k, a.gap(e), a.period(e), host);
        lemma_scaled_tests(k, a.gap(e), e.hw_period, host);
        assert(b.measured(f) == a.measured(e));
    }
    let x = a.step(e);
    let y = b.step(f);
    assert forall|i: int| 0 <= i < 2 implies #[trigger] y.rises[i] == (match x.rises[i] {
        Some(t) => Some(k * t + shift),
        None => None,
    }) by {
        assert(b.rises[i] == (match a.rises[i] {
            Some(t) => Some(k * t + shift),
            None => None,
        }));
    }
}

/// The decode is independent of the rate: on a clock that runs at any other
/// speed, from any other start, the same edges give the same counts, senses and
/// diagnostics.
pub proof fn law_rate_independent(invert: bool, edges: Seq<Rise>, k: int, shift: int)
    requires
        k > 0,
    ensures
        same_but_for_clock(
            run(Decoding::fresh(invert), edges),
            run(
                Decoding::fresh(invert),
                edges.map_values(|e: Rise| rescaled(e, k, shift)),
            ),
            k,
            shift,
        ),
    decreases edges.len(),
{
    let other = edges.map_values(|e: Rise| rescaled(e, k, shift));
    if edges.len() > 0 {
        law_rate_independent(invert, edges.drop_last(), k, shift);
        assert(other.drop_last() =~= edges.drop_last().map_values(|e: Rise| rescaled(e, k, shift)));
        lemma_rescaled_step(
            run(Decoding::fresh(invert), edges.drop_last()),
            run(Decoding::fresh(invert), other.drop_last()),
            edges.last(),
            k,
            shift,
        );
    }
}

// ---------------------------------------------------------------------------
// Driving a toothed target
// ---------------------------------------------------------------------------

/// A decoder and the time of the next edge.
pub struct Motion {
    pub state: Decoding,
    pub t: int,
}

impl Motion {
    /// One rise now, and `wait` until the next.
    pub open spec fn rise(self, channel: Channel, hw_period: int, wait: int) -> Motion {
        Motion {
            state: self.state.step(Rise { channel, t: self.t, hint: 0, hw_period }),
            t: self.t + wait,
        }
    }

    /// `n` tooth cycles: `lead` rises, after `gap` the other channel, after
    /// `rest` the next cycle begins.
    pub open spec fn drive(
        self,
        lead: Channel,
        gap: int,
        rest: int,
        hw_period: int,
        n: nat,
    ) -> Motion
        decreases n,
    {
        if n == 0 {
            self
        } else {
            self.drive(lead, gap, rest, hw_period, (n - 1) as nat).rise(lead, hw_period, gap).rise(
                lead.other(),
                hw_period,
                rest,
            )
        }
    }
}

/// The sense of travel in which `lead` rises first.
pub open spec fn lead_sense(lead: Channel) -> int {
    match lead {
        Channel::A => -1,
        Channel::B => 1,
    }
}

/// A fresh decoder at some time.
pub open spec fn at_rest(invert: bool, t: int) -> Motion {
    Motion { state: Decoding::fresh(invert), t }
}

/// Steady motion with `lead` in front: the last two edges are known, and the
/// sense is the one of the motion.
pub open spec fn steady(m: Motion, lead: Channel, gap: int, rest: int) -> bool {
    &&& m.state.sense == lead_sense(lead)
    &&& m.state.unsigned == 0
    &&& !m.state.hint_only
    &&& m.state.last_ch == Some(lead.other())
    &&& m.state.last_t == m.t - rest
    &&& m.state.rises.len() == 2
    &&& m.state.rises[lead.slot()] == Some(m.t - gap - rest)
    &&& m.state.rises[lead.other().slot()] == Some(m.t - rest)
}

/// Whether the two gaps of a cycle can be told apart: the first is at most
/// three eighths of the whole.
pub open spec fn tellable(gap: int, rest: int) -> bool {
    gap > 0 && rest > 0 && 8 * gap <= 3 * (gap + rest)
}

/// One more cycle of steady motion moves the count by two.
proof fn lemma_steady_cycle(m: Motion, lead: Channel, gap: int, rest: int, hw_period: int)
    requires
        steady(m, lead, gap, rest),
        tellable(gap, rest),
        hw_period <= 0 || hw_period == gap + rest,
    ensures
        ({
            let next = m.rise(lead, hw_period, gap).rise(lead.other(), hw_period, rest);
            &&& steady(next, lead, gap, rest)
            &&& next.state.count == m.state.count + 2 * m.state.sign(lead_sense(lead))
            &&& next.state.missed == m.state.missed
            &&& next.state.ambiguous == m.state.ambiguous
            &&& next.state.period_disagreements == m.state.period_disagreements
            &&& next.state.invert == m.state.invert
        }),
{
}

proof fn lemma_steady_drive(m: Motion, lead: Channel, gap: int, rest: int, hw_period: int, n: nat)
    requires
        steady(m, lead, gap, rest),
        tellable(gap, rest),
        hw_period <= 0 || hw_period == gap + rest,
    ensures
        ({
            let end = m.drive(lead, gap, rest, hw_period, n);
            &&& steady(end, lead, gap, rest)
            &&& end.state.count == m.state.count + 2 * n * m.state.sign(lead_sense(lead))
            &&& end.state.missed == m.state.missed
            &&& end.state.ambiguous == m.state.ambiguous
            &&& end.state.period_disagreements == m.state.period_disagreements
            &&& end.state.invert == m.state.invert
        }),
    decreases n,
{
    if n > 0 {
        lemma_steady_drive(m, lead, gap, rest, hw_period, (n - 1) as nat);
        lemma_steady_cycle(
            m.drive(lead, gap, rest, hw_period, (n - 1) as nat),
            lead,
            gap,
            rest,
            hw_period,
        );
        let s = m.state.sign(lead_sense(lead));
        assert(2 * (n - 1) * s + 2 * s == 2 * n * s) by (nonlinear_arith);
    }
}

/// A one-way run counts every edge in its direction: after `n` cycles, two or
/// more, the count is exactly two per cycle, with nothing held, missed or
/// ambiguous. The phase may be anything up to 135 degrees, and the hardware may
/// or may not report the period from the second cycle on.
pub proof fn law_one_way_run(
    invert: bool,
    t: int,
    lead: Channel,
    gap: int,
    rest: int,
    hw_period: int,
    n: nat,
)
    requires
        n >= 2,
        tellable(gap, rest),
        hw_period <= 0 || hw_period == gap + rest,
    ensures
        ({
            let end = run_up(at_rest(invert, t), lead, gap, rest, hw_period, n);
            &&& steady(end, lead, gap, rest)
            &&& end.state.count == 2 * n * Decoding::fresh(invert).sign(lead_sense(lead))
            &&& end.state.direction == Decoding::fresh(invert).sign(lead_sense(lead))
            &&& end.state.missed == 0
            &&& end.state.ambiguous == 0
            &&& end.state.period_disagreements == 0
        }),
{
    let m = at_rest(invert, t);
    let s = m.state.sign(lead_sense(lead));
    let one = m.drive(lead, gap, rest, 0, 1);
    let two = one.drive(lead, gap, rest, hw_period, 1);
    lemma_one_cycle(m, lead, gap, rest, 0);
    lemma_one_cycle(one, lead, gap, rest, hw_period);
    lemma_first_cycle(invert, t, lead, gap, rest);
    lemma_second_cycle(one, lead, gap, rest, hw_period);
    lemma_drive_splits(one, lead, gap, rest, hw_period, 1, (n - 2) as nat);
    lemma_steady_drive(two, lead, gap, rest, hw_period, (n - 2) as nat);
    assert(4 * s + 2 * (n - 2) * s == 2 * n * s) by (nonlinear_arith);
    lemma_direction_settles(two, lead, gap, rest, hw_period, (n - 2) as nat);
}

/// A motion whose first cycle is held.
spec fn held_cycle(m: Motion, lead: Channel, gap: int, rest: int) -> bool {
    &&& m.state.sense == 0
    &&& m.state.count == 0
    &&& m.state.unsigned == 2
    &&& m.state.missed == 0
    &&& m.state.ambiguous == 0
    &&& m.state.period_disagreements == 0
    &&& !m.state.hint_only
    &&& m.state.last_ch == Some(lead.other())
    &&& m.state.last_t == m.t - rest
    &&& m.state.rises.len() == 2
    &&& m.state.rises[lead.slot()] == Some(m.t - gap - rest)
    &&& m.state.rises[lead.other().slot()] == Some(m.t - rest)
}

proof fn lemma_first_cycle(invert: bool, t: int, lead: Channel, gap: int, rest: int)
    ensures
        ({
            let m = at_rest(invert, t).rise(lead, 0, gap).rise(lead.other(), 0, rest);
            held_cycle(m, lead, gap, rest) && m.state.invert == invert
        }),
{
}

proof fn lemma_second_cycle(m: Motion, lead: Channel, gap: int, rest: int, hw_period: int)
    requires
        held_cycle(m, lead, gap, rest),
        tellable(gap, rest),
        hw_period <= 0 || hw_period == gap + rest,
    ensures
        ({
            let end = m.rise(lead, hw_period, gap).rise(lead.other(), hw_period, rest);
            &&& steady(end, lead, gap, rest)
            &&& end.state.invert == m.state.invert
            &&& end.state.direction == end.state.sign(end.state.sense)
            &&& end.state.missed == 0
            &&& end.state.ambiguous == 0
            &&& end.state.period_disagreements == 0
            &&& end.state.count == 4 * m.state.sign(lead_sense(lead))
        }),
{
    let next = m.rise(lead, hw_period, gap);
    assert(just_rose(next, lead, gap, lead_sense(lead), Some(next.t - gap - rest)));
    assert(next.state.count == 3 * m.state.sign(lead_sense(lead)));
}

/// A run from rest of `n` cycles, whose first has no period from the hardware.
pub open spec fn run_up(
    m: Motion,
    lead: Channel,
    gap: int,
    rest: int,
    hw_period: int,
    n: nat,
) -> Motion {
    m.drive(lead, gap, rest, 0, 1).drive(lead, gap, rest, hw_period, (n - 1) as nat)
}

proof fn lemma_drive_splits(
    m: Motion,
    lead: Channel,
    gap: int,
    rest: int,
    hw_period: int,
    a: nat,
    b: nat,
)
    ensures
        m.drive(lead, gap, rest, hw_period, a + b) == m.drive(
            lead,
            gap,
            rest,
            hw_period,
            a,
        ).drive(lead, gap, rest, hw_period, b),
    decreases b,
{
    if b > 0 {
        lemma_drive_splits(m, lead, gap, rest, hw_period, a, (b - 1) as nat);
        assert((a + b - 1) as nat == a + (b - 1) as nat);
    }
}

proof fn lemma_direction_settles(
    m: Motion,
    lead: Channel,
    gap: int,
    rest: int,
    hw_period: int,
    n: nat,
)
    requires
        m.state.direction == m.state.sign(m.state.sense),
    ensures
        ({
            let end = m.drive(lead, gap, rest, hw_period, n);
            &&& end.state.invert == m.state.invert
            &&& end.state.direction == end.state.sign(end.state.sense)
        }),
    decreases n,
{
    if n > 0 {
        lemma_direction_settles(m, lead, gap, rest, hw_period, (n - 1) as nat);
    }
}

// ---------------------------------------------------------------------------
// Reversals and lost edges, at 90 degrees of phase
// ---------------------------------------------------------------------------

/// What the hardware measures at an edge, where it measures at all.
pub open spec fn reported(hw: bool, period: int) -> int {
    if hw {
        period
    } else {
        0
    }
}

/// The turn of a motion with `lead` in front, right after the other channel
/// rose: that channel rises again, three quarters of a cycle later, and `lead`
/// a quarter after it. Then the motion goes on in the other sense.
pub open spec fn turned(out: Motion, lead: Channel, quarter: int, hw: bool) -> Motion {
    out.rise(lead.other(), reported(hw, 3 * quarter), quarter).rise(
        lead,
        reported(hw, 5 * quarter),
        3 * quarter,
    ).drive(lead.other(), quarter, 3 * quarter, reported(hw, 4 * quarter), 1)
}

/// `n` cycles out with `lead` in front, then the turn, and `m` cycles back.
pub open spec fn out_and_back(
    start: Motion,
    lead: Channel,
    quarter: int,
    hw: bool,
    n: nat,
    m: nat,
) -> Motion {
    let out = run_up(start, lead, quarter, 3 * quarter, reported(hw, 4 * quarter), n);
    turned(out, lead, quarter, hw).drive(
        lead.other(),
        quarter,
        3 * quarter,
        reported(hw, 4 * quarter),
        (m - 1) as nat,
    )
}

/// A motion right after `channel` rose, `wait` before its next edge, with
/// `other` the time of the other channel's last rise.
spec fn just_rose(m: Motion, channel: Channel, wait: int, sense: int, other: Option<int>) -> bool {
    &&& m.state.sense == sense
    &&& m.state.direction == m.state.sign(sense)
    &&& m.state.unsigned == 0
    &&& !m.state.hint_only
    &&& m.state.last_ch == Some(channel)
    &&& m.state.last_t == m.t - wait
    &&& m.state.rises.len() == 2
    &&& m.state.rises[channel.slot()] == Some(m.t - wait)
    &&& m.state.rises[channel.other().slot()] == other
}

proof fn lemma_turn_repeats(out: Motion, lead: Channel, quarter: int, hw: bool)
    requires
        quarter > 0,
        steady(out, lead, quarter, 3 * quarter),
    ensures
        ({
            let a = out.rise(lead.other(), reported(hw, 3 * quarter), quarter);
            &&& just_rose(a, lead.other(), quarter, lead_sense(lead), None)
            &&& a.state.invert == out.state.invert
            &&& a.state.missed == out.state.missed + 1
            &&& a.state.ambiguous == out.state.ambiguous + 1
            &&& a.state.count == out.state.count + out.state.sign(lead_sense(lead))
        }),
{
}

proof fn lemma_turn_comes_back(a: Motion, lead: Channel, quarter: int, hw: bool)
    requires
        quarter > 0,
        just_rose(a, lead.other(), quarter, lead_sense(lead), None),
    ensures
        ({
            let b = a.rise(lead, reported(hw, 5 * quarter), 3 * quarter);
            let sense = if hw {
                -lead_sense(lead)
            } else {
                lead_sense(lead)
            };
            &&& just_rose(b, lead, 3 * quarter, sense, Some(b.t - 4 * quarter))
            &&& b.state.invert == a.state.invert
            &&& b.state.missed == a.state.missed
            &&& b.state.ambiguous == a.state.ambiguous + if hw {
                0int
            } else {
                1
            }
            &&& b.state.count == a.state.count + a.state.sign(sense)
        }),
{
}

proof fn lemma_turn_settles(b: Motion, lead: Channel, quarter: int, hw: bool, sense: int)
    requires
        quarter > 0,
        sense == 1 || sense == -1,
        just_rose(b, lead, 3 * quarter, sense, Some(b.t - 4 * quarter)),
    ensures
        ({
            let cycle = reported(hw, 4 * quarter);
            let d = b.rise(lead.other(), cycle, quarter).rise(lead, cycle, 3 * quarter);
            &&& steady(d, lead.other(), quarter, 3 * quarter)
            &&& d.state.invert == b.state.invert
            &&& d.state.direction == d.state.sign(d.state.sense)
            &&& d.state.missed == b.state.missed
            &&& d.state.ambiguous == b.state.ambiguous
            &&& d.state.count == b.state.count - 2 * b.state.sign(lead_sense(lead))
        }),
{
    let cycle = reported(hw, 4 * quarter);
    let c = b.rise(lead.other(), cycle, quarter);
    assert(just_rose(c, lead.other(), quarter, -lead_sense(lead), Some(c.t - 4 * quarter)));
    assert(c.state.count == b.state.count - b.state.sign(lead_sense(lead)));
}

proof fn lemma_turned(out: Motion, lead: Channel, quarter: int, hw: bool)
    requires
        quarter > 0,
        steady(out, lead, quarter, 3 * quarter),
    ensures
        ({
            let end = turned(out, lead, quarter, hw);
            let s = out.state.sign(lead_sense(lead));
            &&& steady(end, lead.other(), quarter, 3 * quarter)
            &&& end.state.invert == out.state.invert
            &&& end.state.direction == end.state.sign(end.state.sense)
            &&& end.state.missed == out.state.missed + 1
            &&& end.state.ambiguous == out.state.ambiguous + if hw {
                1int
            } else {
                2
            }
            &&& end.state.count == out.state.count + if hw {
                -2 * s
            } else {
                0
            }
        }),
{
    let cycle = reported(hw, 4 * quarter);
    let a = out.rise(lead.other(), reported(hw, 3 * quarter), quarter);
    let b = a.rise(lead, reported(hw, 5 * quarter), 3 * quarter);
    lemma_turn_repeats(out, lead, quarter, hw);
    lemma_turn_comes_back(a, lead, quarter, hw);
    lemma_turn_settles(b, lead, quarter, hw, b.state.sense);
    lemma_one_cycle(b, lead.other(), quarter, 3 * quarter, cycle);
    assert(lead.other().other() == lead);
}

proof fn lemma_one_cycle(m: Motion, lead: Channel, gap: int, rest: int, hw_period: int)
    ensures
        m.drive(lead, gap, rest, hw_period, 1) == m.rise(lead, hw_period, gap).rise(
            lead.other(),
            hw_period,
            rest,
        ),
{
    reveal_with_fuel(Motion::drive, 2);
}

/// A reversal right after the trailing channel rose costs a fixed number of
/// counts at every speed: four when only the host's clock is there, and two when the hardware measures the period, which
/// is what [`reversal_backlash_counts`] says no decoder can avoid. Travelling
/// on does not make it good: one more edge leaves the same error.
///
/// The truth is `2 * n` counts out and, with the two edges of the turn,
/// `2 * m + 2` counts back.
///
/// [`reversal_backlash_counts`]: crate::quadrature::RisingEdgeDecoder::reversal_backlash_counts
pub proof fn law_reversal_cost(
    invert: bool,
    t: int,
    lead: Channel,
    quarter: int,
    hw: bool,
    n: nat,
    m: nat,
)
    requires
        n >= 2,
        m >= 1,
        quarter > 0,
    ensures
        ({
            let end = out_and_back(at_rest(invert, t), lead, quarter, hw, n, m);
            let next = end.rise(lead.other(), reported(hw, 4 * quarter), quarter);
            let out = Decoding::fresh(invert).sign(lead_sense(lead));
            let truth = (2 * n - (2 * m + 2)) * out;
            let cost = if hw {
                2 * out
            } else {
                4 * out
            };
            &&& end.state.count - truth == cost
            &&& next.state.count - (truth - out) == cost
            &&& end.state.direction == -out
            &&& end.state.missed == 1
            &&& end.state.ambiguous == if hw {
                1int
            } else {
                2
            }
            &&& end.state.unsigned == 0
        }),
{
    let q = quarter;
    let cycle = reported(hw, 4 * q);
    let s = Decoding::fresh(invert).sign(lead_sense(lead));
    law_one_way_run(invert, t, lead, q, 3 * q, cycle, n);
    let out = run_up(at_rest(invert, t), lead, q, 3 * q, cycle, n);
    assert(out.state.invert == invert) by {
        lemma_direction_settles(at_rest(invert, t), lead, q, 3 * q, 0, 1);
        lemma_direction_settles(
            at_rest(invert, t).drive(lead, q, 3 * q, 0, 1),
            lead,
            q,
            3 * q,
            cycle,
            (n - 1) as nat,
        );
    }
    lemma_turned(out, lead, q, hw);
    let back = turned(out, lead, q, hw);
    lemma_steady_drive(back, lead.other(), q, 3 * q, cycle, (m - 1) as nat);
    lemma_direction_settles(back, lead.other(), q, 3 * q, cycle, (m - 1) as nat);
    assert(2 * (m - 1) * (-s) == -2 * (m - 1) * s) by (nonlinear_arith);
    assert(2 * n * s - 2 * (m - 1) * s == (2 * n - (2 * m + 2)) * s + 4 * s) by (nonlinear_arith);
}

/// The turn of a motion with `lead` in front, right after `lead` rose: half a
/// cycle later the other channel rises, and `lead` a quarter after it. Then the
/// motion goes on in the other sense.
pub open spec fn turned_early(out: Motion, lead: Channel, quarter: int, hw: bool) -> Motion {
    out.rise(lead, reported(hw, 4 * quarter), 2 * quarter).rise(
        lead.other(),
        reported(hw, 5 * quarter),
        quarter,
    ).rise(lead, reported(hw, 3 * quarter), 3 * quarter)
}

proof fn lemma_turned_early(out: Motion, lead: Channel, quarter: int, hw: bool)
    requires
        quarter > 0,
        steady(out, lead, quarter, 3 * quarter),
    ensures
        ({
            let end = turned_early(out, lead, quarter, hw);
            &&& steady(end, lead.other(), quarter, 3 * quarter)
            &&& end.state.invert == out.state.invert
            &&& end.state.direction == end.state.sign(end.state.sense)
            &&& end.state.missed == out.state.missed
            &&& end.state.ambiguous == out.state.ambiguous + 1
            &&& end.state.count == out.state.count + out.state.sign(lead_sense(lead))
        }),
{
    let s = out.state.sign(lead_sense(lead));
    let a = out.rise(lead, reported(hw, 4 * quarter), 2 * quarter);
    assert(just_rose(a, lead, 2 * quarter, lead_sense(lead), Some(a.t - 5 * quarter)));
    assert(a.state.count == out.state.count + s && a.state.ambiguous == out.state.ambiguous);
    let b = a.rise(lead.other(), reported(hw, 5 * quarter), quarter);
    assert(just_rose(b, lead.other(), quarter, lead_sense(lead), Some(b.t - 3 * quarter)));
    assert(b.state.count == a.state.count + s && b.state.ambiguous == a.state.ambiguous + 1);
}

/// A reversal right after the leading channel rose costs two counts at every
/// speed, whether or not the hardware measures the period: the edge after the
/// turn cannot be read and keeps the old direction, and the next one is
/// measured. Travelling on does not make it good.
///
/// The truth is `2 * n + 1` counts out and `2 * m` counts back.
pub proof fn law_early_reversal_cost(
    invert: bool,
    t: int,
    lead: Channel,
    quarter: int,
    hw: bool,
    n: nat,
    m: nat,
)
    requires
        n >= 2,
        m >= 1,
        quarter > 0,
    ensures
        ({
            let cycle = reported(hw, 4 * quarter);
            let out = run_up(at_rest(invert, t), lead, quarter, 3 * quarter, cycle, n);
            let end = turned_early(out, lead, quarter, hw).drive(
                lead.other(),
                quarter,
                3 * quarter,
                cycle,
                (m - 1) as nat,
            );
            let next = end.rise(lead.other(), cycle, quarter);
            let s = Decoding::fresh(invert).sign(lead_sense(lead));
            let truth = (2 * n + 1 - 2 * m) * s;
            &&& end.state.count - truth == 2 * s
            &&& next.state.count - (truth - s) == 2 * s
            &&& end.state.direction == -s
            &&& end.state.missed == 0
            &&& end.state.ambiguous == 1
            &&& end.state.unsigned == 0
        }),
{
    let q = quarter;
    let cycle = reported(hw, 4 * q);
    let s = Decoding::fresh(invert).sign(lead_sense(lead));
    law_one_way_run(invert, t, lead, q, 3 * q, cycle, n);
    let out = run_up(at_rest(invert, t), lead, q, 3 * q, cycle, n);
    assert(out.state.invert == invert) by {
        lemma_direction_settles(at_rest(invert, t), lead, q, 3 * q, 0, 1);
        lemma_direction_settles(
            at_rest(invert, t).drive(lead, q, 3 * q, 0, 1),
            lead,
            q,
            3 * q,
            cycle,
            (n - 1) as nat,
        );
    }
    lemma_turned_early(out, lead, q, hw);
    let back = turned_early(out, lead, q, hw);
    lemma_steady_drive(back, lead.other(), q, 3 * q, cycle, (m - 1) as nat);
    lemma_direction_settles(back, lead.other(), q, 3 * q, cycle, (m - 1) as nat);
    assert(2 * (m - 1) * (-s) == -2 * (m - 1) * s) by (nonlinear_arith);
    assert(2 * n * s + s - 2 * (m - 1) * s == (2 * n + 1 - 2 * m) * s + 2 * s) by (nonlinear_arith);
}

/// A lost edge costs the count it was, and never inverts the direction: `n`
/// cycles one way, the first edge of the next cycle lost, then `m` more cycles.
pub proof fn law_lost_edge_keeps_direction(
    invert: bool,
    t: int,
    lead: Channel,
    quarter: int,
    n: nat,
    m: nat,
)
    requires
        n >= 2,
        m >= 1,
        quarter > 0,
    ensures
        ({
            let out = run_up(at_rest(invert, t), lead, quarter, 3 * quarter, 0, n);
            let gone = Motion { t: out.t + quarter, ..out };
            let end = gone.rise(lead.other(), 0, 3 * quarter).drive(
                lead,
                quarter,
                3 * quarter,
                0,
                m,
            ).state;
            let s = Decoding::fresh(invert).sign(lead_sense(lead));
            &&& end.count == (2 * n + 1 + 2 * m) * s
            &&& end.direction == s
            &&& end.missed == 1
            &&& end.ambiguous == 2
        }),
{
    let q = quarter;
    let s = Decoding::fresh(invert).sign(lead_sense(lead));
    law_one_way_run(invert, t, lead, q, 3 * q, 0, n);
    let out = run_up(at_rest(invert, t), lead, q, 3 * q, 0, n);
    let gone = Motion { t: out.t + q, ..out };
    let repeat = gone.rise(lead.other(), 0, 3 * q);
    let one = repeat.drive(lead, q, 3 * q, 0, 1);
    lemma_lost_edge_repeats(out, lead, q);
    lemma_one_cycle(repeat, lead, q, 3 * q, 0);
    lemma_lost_edge_settles(repeat, lead, q);
    lemma_drive_splits(repeat, lead, q, 3 * q, 0, 1, (m - 1) as nat);
    lemma_steady_drive(one, lead, q, 3 * q, 0, (m - 1) as nat);
    lemma_direction_settles(one, lead, q, 3 * q, 0, (m - 1) as nat);
    assert(2 * n * s + 3 * s + 2 * (m - 1) * s == (2 * n + 1 + 2 * m) * s) by (nonlinear_arith);
}

proof fn lemma_lost_edge_repeats(out: Motion, lead: Channel, quarter: int)
    requires
        quarter > 0,
        steady(out, lead, quarter, 3 * quarter),
    ensures
        ({
            let gone = Motion { t: out.t + quarter, ..out };
            let repeat = gone.rise(lead.other(), 0, 3 * quarter);
            &&& just_rose(repeat, lead.other(), 3 * quarter, lead_sense(lead), None)
            &&& repeat.state.invert == out.state.invert
            &&& repeat.state.missed == out.state.missed + 1
            &&& repeat.state.ambiguous == out.state.ambiguous + 1
            &&& repeat.state.count == out.state.count + out.state.sign(lead_sense(lead))
        }),
{
}

proof fn lemma_lost_edge_settles(repeat: Motion, lead: Channel, quarter: int)
    requires
        quarter > 0,
        just_rose(repeat, lead.other(), 3 * quarter, lead_sense(lead), None),
    ensures
        ({
            let end = repeat.rise(lead, 0, quarter).rise(lead.other(), 0, 3 * quarter);
            &&& steady(end, lead, quarter, 3 * quarter)
            &&& end.state.invert == repeat.state.invert
            &&& end.state.direction == end.state.sign(end.state.sense)
            &&& end.state.missed == repeat.state.missed
            &&& end.state.ambiguous == repeat.state.ambiguous + 1
            &&& end.state.count == repeat.state.count + 2 * repeat.state.sign(lead_sense(lead))
        }),
{
    let next = repeat.rise(lead, 0, quarter);
    assert(just_rose(next, lead, quarter, lead_sense(lead), Some(next.t - 4 * quarter)));
    assert(next.state.count == repeat.state.count + repeat.state.sign(lead_sense(lead)));
}

} // verus!
