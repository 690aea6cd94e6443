//! What holds of the encoder from one publication, home or hint to the next.

use vstd::prelude::*;

use crate::debug_server::{DebugHandles, Route};
#[allow(unused_imports)]
use crate::debug_server::{performed, reply_of};
use crate::encoder::{EncoderCore, Params};
#[allow(unused_imports)]
use crate::encoder::{
    begun, height_of, hint_of, percent_of, trimmed_hints, HEIGHT_LIMIT, HINT_HISTORY_MS,
};
#[allow(unused_imports)]
use crate::rate::{rotation_word, rpm_of};
#[allow(unused_imports)]
use crate::ratio::Ratio;
use crate::state::Snapshot;
#[allow(unused_imports)]
use crate::state::snapshot_members;

verus! {

// ---------------------------------------------------------------------------
// Hints
// ---------------------------------------------------------------------------

/// Whether a timeline's entries are in the order of their times.
pub open spec fn in_order(timeline: Seq<(i64, i8)>) -> bool {
    forall|i: int, j: int|
        0 <= i <= j < timeline.len() ==> (#[trigger] timeline[i]).0 <= (#[trigger] timeline[j]).0
}

proof fn lemma_begun_bounds(timeline: Seq<(i64, i8)>, t: int)
    ensures
        0 <= begun(timeline, t) <= timeline.len(),
    decreases timeline.len(),
{
    if timeline.len() > 0 && timeline[0].0 <= t {
        lemma_begun_bounds(timeline.drop_first(), t);
    }
}

proof fn lemma_begun_at(timeline: Seq<(i64, i8)>, t: int, i: int)
    requires
        in_order(timeline),
        0 <= i < timeline.len(),
        timeline[i].0 <= t,
        i + 1 == timeline.len() || timeline[i + 1].0 > t,
    ensures
        begun(timeline, t) == i + 1,
    decreases timeline.len(),
{
    let rest = timeline.drop_first();
    assert(timeline[0].0 <= timeline[i].0);
    if i == 0 {
        if rest.len() > 0 {
            assert(rest[0] == timeline[1]);
        }
        assert(begun(rest, t) == 0);
    } else {
        assert(rest[i - 1] == timeline[i]);
        if i + 1 < timeline.len() {
            assert(rest[i] == timeline[i + 1]);
        }
        lemma_rest_in_order(timeline);
        lemma_begun_at(rest, t, i - 1);
    }
}

proof fn lemma_rest_in_order(timeline: Seq<(i64, i8)>)
    requires
        in_order(timeline),
        timeline.len() > 0,
    ensures
        in_order(timeline.drop_first()),
{
    let rest = timeline.drop_first();
    assert forall|i: int, j: int| 0 <= i <= j < rest.len() implies (#[trigger] rest[i]).0 <= (
    #[trigger] rest[j]).0 by {
        assert(rest[i] == timeline[i + 1] && rest[j] == timeline[j + 1]);
    }
}

/// The hint at a capture time is that of the latest change not after it, and
/// none before the first change.
pub proof fn law_hint_is_the_latest(timeline: Seq<(i64, i8)>, t: int, i: int)
    requires
        in_order(timeline),
        -1 <= i < timeline.len(),
        i >= 0 ==> timeline[i].0 <= t,
        i + 1 == timeline.len() || timeline[i + 1].0 > t,
    ensures
        hint_of(timeline, t) == if i >= 0 {
            timeline[i].1
        } else {
            0i8
        },
{
    if i >= 0 {
        lemma_begun_at(timeline, t, i);
    }
}

/// Forgetting superseded entries changes no answer for a capture time from the
/// cutoff on, leaves the latest entry, and keeps the order.
pub proof fn law_trimming_keeps_answers(timeline: Seq<(i64, i8)>, cutoff: int, t: int)
    requires
        in_order(timeline),
        timeline.len() > 0,
        t >= cutoff,
    ensures
        hint_of(trimmed_hints(timeline, cutoff), t) == hint_of(timeline, t),
        trimmed_hints(timeline, cutoff).len() > 0,
        trimmed_hints(timeline, cutoff).last() == timeline.last(),
        in_order(trimmed_hints(timeline, cutoff)),
    decreases timeline.len(),
{
    if timeline.len() > 1 && timeline[1].0 < cutoff {
        let rest = timeline.drop_first();
        lemma_rest_in_order(timeline);
        assert(timeline[0].0 <= timeline[1].0);
        assert(rest[0] == timeline[1]);
        law_trimming_keeps_answers(rest, cutoff, t);
        lemma_begun_bounds(rest, t);
        let n = begun(rest, t);
        assert(n >= 1) by {
            lemma_begun_bounds(rest.drop_first(), t);
        }
        assert(begun(timeline, t) == 1 + n);
        assert(rest[n - 1] == timeline[n]);
    }
}

/// A hint counts from the moment it is declared: edges captured from then on are
/// signed by it, and those captured before it, however late they are decoded,
/// by the hint of their own time.
pub proof fn law_hints_apply_at_capture_time(
    before: DebugHandles,
    after: DebugHandles,
    hint: i8,
    now_ms: i64,
    t: int,
)
    requires
        performed(Route::DirectionHint, hint, now_ms as int, before, after),
        in_order(before.hints@),
        before.hints@.len() > 0 ==> before.hints@.last().0 <= now_ms,
        t >= now_ms - HINT_HISTORY_MS,
    ensures
        t >= now_ms ==> hint_of(after.hints@, t) == hint,
        t < now_ms ==> hint_of(after.hints@, t) == hint_of(before.hints@, t),
        after.hints@.len() > 0,
        after.hints@.last() == (now_ms, hint),
        in_order(after.hints@),
{
    let old_line = before.hints@;
    let pushed = old_line.push((now_ms, hint));
    assert forall|i: int, j: int| 0 <= i <= j < pushed.len() implies (#[trigger] pushed[i]).0 <= (
    #[trigger] pushed[j]).0 by {
        if j < old_line.len() {
            assert(pushed[i] == old_line[i] && pushed[j] == old_line[j]);
        } else if i < old_line.len() {
            assert(pushed[i] == old_line[i]);
            assert(old_line[i].0 <= old_line[old_line.len() - 1].0);
        }
    }
    law_trimming_keeps_answers(pushed, now_ms - HINT_HISTORY_MS, t);
    if t >= now_ms {
        lemma_begun_at(pushed, t, old_line.len() as int);
    } else {
        lemma_begun_push(old_line, (now_ms, hint), t);
        lemma_begun_bounds(old_line, t);
    }
}

proof fn lemma_begun_push(timeline: Seq<(i64, i8)>, entry: (i64, i8), t: int)
    requires
        entry.0 > t,
    ensures
        begun(timeline.push(entry), t) == begun(timeline, t),
    decreases timeline.len(),
{
    if timeline.len() > 0 {
        assert(timeline.push(entry).drop_first() =~= timeline.drop_first().push(entry));
        lemma_begun_push(timeline.drop_first(), entry, t);
    }
}

// ---------------------------------------------------------------------------
// Publications
// ---------------------------------------------------------------------------

/// Nothing latches from one derivation to the next: where the count is the same
/// as at the last, whatever else changed meanwhile, it reads stopped, with no
/// speed, at the same count and height.
pub proof fn law_derivation_does_not_latch(
    first: EncoderCore,
    derived: EncoderCore,
    first_snap: Snapshot,
    now: int,
    mono: int,
    second: EncoderCore,
    snap: Snapshot,
    later: int,
    later_mono: int,
)
    requires
        first.shown_by(first_snap, now, mono),
        first.derived_to(derived, now),
        second == (EncoderCore {
            handles: second.handles,
            last_publish: second.last_publish,
            ..derived
        }),
        second.handles.state.decoder.count == derived.handles.state.decoder.count,
        second.shown_by(snap, later, later_mono),
    ensures
        snap.direction@ == "stopped"@,
        snap.speed_mm_min.num == 0,
        snap.count == first_snap.count,
        snap.height_mm == first_snap.height_mm,
        snap.percent_open == first_snap.percent_open,
{
}

/// Neither a direction nor a speed latches: a publication reads as stopped if
/// the count did not change since the one before, whatever else did.
pub proof fn law_standing_still_reads_stopped(
    first: EncoderCore,
    published: EncoderCore,
    now: i64,
    mono: int,
    second: EncoderCore,
    snap: Snapshot,
    later: int,
    later_mono: int,
)
    requires
        first.shown_by(published.handles.snapshot, now as int, mono),
        (EncoderCore { last_publish: now, ..first }).shows_to(published, now as int),
        second == (EncoderCore { handles: second.handles, ..published }),
        second.handles.state.decoder.count == published.handles.state.decoder.count,
        second.shown_by(snap, later, later_mono),
    ensures
        snap.direction@ == "stopped"@,
        snap.speed_mm_min.num == 0,
        snap.count == published.handles.snapshot.count,
        snap.height_mm == published.handles.snapshot.height_mm,
        snap.percent_open == published.handles.snapshot.percent_open,
{
}

/// A home is no movement: the publication after it reads as stopped, whatever
/// the count was before.
pub proof fn law_home_is_no_spike(core: EncoderCore, snap: Snapshot, now: int, mono: int)
    requires
        core.homed_since(),
        core.shown_by(snap, now, mono),
    ensures
        snap.direction@ == "stopped"@,
        snap.speed_mm_min.num == 0,
        snap.rpm.num == 0,
        snap.rotation_direction@ == "stopped"@,
{
    let sample = (now as i64, core.handles.state.decoder@.count as i64);
    assert(Seq::<(i64, i64)>::empty().push(sample).len() == 1);
    assert(core.window_at(now).len() == 1);
    let rpm = Ratio { num: 0, den: 1 };
    assert(rpm_of(core.window_at(now), 2 * core.params.pulses_per_rev) == rpm);
    assert(rotation_word(rpm, Ratio { num: 1, den: 2 }) == "stopped"@) by {
        assert(rpm.num * 2 == 0 && 1 * rpm.den == 1);
    }
}

/// Zeroing over the debug endpoint shows in the next publication as a homed
/// encoder at its home height, standing still.
pub proof fn law_zero_shows_home_height(
    core: EncoderCore,
    zeroed: EncoderCore,
    hint: i8,
    now_ms: int,
    snap: Snapshot,
    now: int,
    mono: int,
)
    requires
        core.last_home_epoch == core.handles.state.home_epoch,
        core.handles.state.home_fits(),
        performed(Route::Zero, hint, now_ms, core.handles, zeroed.handles),
        zeroed == (EncoderCore { handles: zeroed.handles, ..core }),
        zeroed.shown_by(snap, now, mono),
    ensures
        snap.count == 0,
        snap.homed,
        snap.height_mm == (Ratio { num: core.params.home_height_nm as i128, den: 1_000_000 }),
        snap.direction@ == "stopped"@,
        snap.speed_mm_min.num == 0,
        snap.rpm.num == 0,
        snap.missed_edges == core.handles.state.decoder@.missed,
        snap.ambiguous_edges == core.handles.state.decoder@.ambiguous,
        snap.unsigned_edges == 0,
{
    law_home_is_no_spike(zeroed, snap, now, mono);
    assert(height_of(core.params, 0) == core.params.home_height_nm) by {
        assert(0 * core.params.nm_per_count == 0);
    }
}

/// The height is absolute: it is a function of the parameters and the count
/// alone, whatever the encoder went through and whenever it is shown.
pub proof fn law_height_is_absolute(
    a: EncoderCore,
    b: EncoderCore,
    snap_a: Snapshot,
    snap_b: Snapshot,
    now_a: int,
    now_b: int,
    mono_a: int,
    mono_b: int,
)
    requires
        a.params == b.params,
        a.handles.state.decoder@.count == b.handles.state.decoder@.count,
        a.shown_by(snap_a, now_a, mono_a),
        b.shown_by(snap_b, now_b, mono_b),
    ensures
        snap_a.height_mm == snap_b.height_mm,
        snap_a.percent_open == snap_b.percent_open,
        snap_a.revolutions == snap_b.revolutions,
{
}

/// Each count moves the height by the configured travel per count.
pub proof fn law_one_count_is_one_step(params: Params, count: int)
    ensures
        height_of(params, count + 1) == height_of(params, count) + params.nm_per_count,
{
    assert((count + 1) * params.nm_per_count == count * params.nm_per_count + params.nm_per_count)
        by (nonlinear_arith);
}

/// The direction of travel comes from the count alone: it does not depend on
/// the geometry, which may be unset.
pub proof fn law_direction_ignores_geometry(
    core: EncoderCore,
    other: EncoderCore,
    snap: Snapshot,
    other_snap: Snapshot,
    now: int,
    mono: int,
)
    requires
        other.handles.state == core.handles.state,
        other.last_count == core.last_count,
        other.last_home_epoch == core.last_home_epoch,
        core.shown_by(snap, now, mono),
        other.shown_by(other_snap, now, mono),
    ensures
        snap.direction@ == other_snap.direction@,
        snap.pulse_direction == other_snap.pulse_direction,
{
}

/// The share of travel lies between 0 and 100, and never falls as the
/// height rises.
pub proof fn law_percent_is_bounded_and_monotone(params: Params, low: int, high: int)
    requires
        low <= high,
        -HEIGHT_LIMIT <= low,
        high <= HEIGHT_LIMIT,
    ensures
        ({
            let a = percent_of(params, low);
            let b = percent_of(params, high);
            &&& a.den > 0 && 0 <= a.num <= 100 * a.den
            &&& b.den > 0 && 0 <= b.num <= 100 * b.den
            &&& a.num * b.den <= b.num * a.den
        }),
{
    let a = percent_of(params, low);
    let b = percent_of(params, high);
    assert(a.num * b.den <= b.num * a.den) by (nonlinear_arith)
        requires
            0 <= a.num <= 100 * a.den,
            0 <= b.num <= 100 * b.den,
            a.den > 0,
            b.den > 0,
            a.num == 0 || (b.num == 100 && b.den == 1) || (a.den == b.den && a.num <= b.num),
    ;
}

/// The debug endpoint serves exactly what was last published, and reading it
/// changes nothing.
pub proof fn law_state_serves_the_last_publication(
    core: EncoderCore,
    snap: Snapshot,
    hint: i8,
    now_ms: int,
    after: DebugHandles,
)
    requires
        core.handles.snapshot == snap,
        performed(Route::State, hint, now_ms, core.handles, after),
    ensures
        reply_of(Route::State, core.handles.snapshot, hint) == (200u16, snapshot_members(snap)),
        after == core.handles,
{
}

} // verus!
