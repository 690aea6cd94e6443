//! What a publication says of the encoder, quantity by quantity.

use vstd::prelude::*;

#[allow(unused_imports)]
use crate::encoder::{lemma_height_bound, EncoderCore, Params};
#[allow(unused_imports)]
use crate::rate::{in_window, law_window_keeps_the_recent_tail};
use crate::state::Snapshot;

verus! {

/// Height is the configured home height and as many steps of the configured
/// travel per count as the count says; each is in nanometres, and millimetres
/// are published.
pub proof fn law_height_follows_the_count(core: EncoderCore, snap: Snapshot, now: i64, mono: i64)
    requires
        core.wf(),
        core.shown_by(snap, now as int, mono as int),
    ensures
        snap.height_mm.den > 0,
        snap.height_mm.num * 1_000_000 == snap.height_mm.den * (core.params.home_height_nm
            + core.handles.state.decoder.count * core.params.nm_per_count),
{
    lemma_height_bound(core.params, core.handles.state.decoder.count as int);
}

/// The share of travel is the height over the configured travel, in hundredths,
/// kept between none and all of it.
pub proof fn law_percent_is_the_share_of_travel(
    core: EncoderCore,
    snap: Snapshot,
    now: i64,
    mono: i64,
)
    requires
        core.wf(),
        core.shown_by(snap, now as int, mono as int),
    ensures
        ({
            let height = core.params.home_height_nm + core.handles.state.decoder.count
                * core.params.nm_per_count;
            let travel = core.params.gate_travel_nm;
            let percent = snap.percent_open;
            &&& percent.den > 0
            &&& travel > 0 && 0 < height < travel ==> percent.num * travel == height * 100
                * percent.den
            &&& travel <= 0 || height <= 0 ==> percent.num == 0
            &&& travel > 0 && height >= travel ==> percent.num == 100 * percent.den
        }),
{
    lemma_height_bound(core.params, core.handles.state.decoder.count as int);
}

/// Revolutions are the count over the counts of one revolution, two per tooth;
/// none where no teeth are configured.
pub proof fn law_revolutions_follow_the_count(
    core: EncoderCore,
    snap: Snapshot,
    now: i64,
    mono: i64,
)
    requires
        core.wf(),
        core.shown_by(snap, now as int, mono as int),
    ensures
        snap.revolutions.den > 0,
        core.params.pulses_per_rev > 0 ==> snap.revolutions.num * (2 * core.params.pulses_per_rev)
            == core.handles.state.decoder.count * snap.revolutions.den,
        core.params.pulses_per_rev <= 0 ==> snap.revolutions.num == 0,
        snap.counts_per_rev == 2 * core.params.pulses_per_rev,
{
}

/// The published speed is the distance since the last publication over the time
/// since then, without sign: a nanometre per nanosecond is 60 000 millimetres
/// per minute. There is none after a home, or where no time passed.
pub proof fn law_speed_is_distance_over_time(
    core: EncoderCore,
    snap: Snapshot,
    now: i64,
    mono: i64,
)
    requires
        core.wf(),
        core.shown_by(snap, now as int, mono as int),
    ensures
        ({
            let height = core.params.home_height_nm + core.handles.state.decoder.count
                * core.params.nm_per_count;
            let distance = if height < core.last_height {
                core.last_height - height
            } else {
                height - core.last_height
            };
            let dt = now - core.last_time;
            let speed = snap.speed_mm_min;
            let homed = core.handles.state.home_epoch != core.last_home_epoch;
            &&& speed.den > 0
            &&& speed.num >= 0
            &&& dt > 0 && !homed ==> speed.num * dt == distance * 60_000 * speed.den
            &&& dt <= 0 || homed ==> speed.num == 0
        }),
{
    lemma_height_bound(core.params, core.handles.state.decoder.count as int);
    let height = core.height();
    assert(-core.last_height <= i128::MAX);
}

/// The same distance in half the time is twice the speed.
pub proof fn law_speed_doubles_in_half_the_time(
    core: EncoderCore,
    slow: Snapshot,
    fast: Snapshot,
    later: i64,
    sooner: i64,
    mono: i64,
)
    requires
        core.wf(),
        core.handles.state.home_epoch == core.last_home_epoch,
        sooner > core.last_time,
        later - core.last_time == 2 * (sooner - core.last_time),
        core.shown_by(slow, later as int, mono as int),
        core.shown_by(fast, sooner as int, mono as int),
    ensures
        fast.speed_mm_min.num * slow.speed_mm_min.den == 2 * (slow.speed_mm_min.num
            * fast.speed_mm_min.den),
{
    law_speed_is_distance_over_time(core, slow, later, mono);
    law_speed_is_distance_over_time(core, fast, sooner, mono);
    let n1 = slow.speed_mm_min.num as int;
    let d1 = slow.speed_mm_min.den as int;
    let n2 = fast.speed_mm_min.num as int;
    let d2 = fast.speed_mm_min.den as int;
    let dt = sooner - core.last_time;
    let height = core.params.home_height_nm + core.handles.state.decoder.count
        * core.params.nm_per_count;
    let k = 60_000 * if height < core.last_height {
        core.last_height - height
    } else {
        height - core.last_height
    };
    assert(n1 * (2 * dt) == k * d1);
    assert(n2 * dt == k * d2);
    assert((n2 * d1) * dt == (2 * (n1 * d2)) * dt) by (nonlinear_arith)
        requires
            n1 * (2 * dt) == k * d1,
            n2 * dt == k * d2,
    ;
    assert(n2 * d1 == 2 * (n1 * d2)) by (nonlinear_arith)
        requires
            (n2 * d1) * dt == (2 * (n1 * d2)) * dt,
            dt > 0,
    ;
}

/// Between two publications without a home, the second shows the speed of the
/// height that the first showed becoming the one that it shows itself.
pub proof fn law_speed_spans_two_publications(
    first: EncoderCore,
    published: EncoderCore,
    later: EncoderCore,
    before: Snapshot,
    after: Snapshot,
    then: i64,
    now: i64,
    mono: i64,
)
    requires
        first.wf(),
        later.wf(),
        first.shown_by(before, then as int, mono as int),
        first.derived_to(published, then as int),
        published.moved_to(later),
        later.shown_by(after, now as int, mono as int),
        now > then,
        first.handles.state.home_epoch == later.handles.state.home_epoch,
    ensures
        ({
            let up = after.height_mm.num * before.height_mm.den - before.height_mm.num
                * after.height_mm.den;
            let distance = if up < 0 {
                -up
            } else {
                up
            };
            // Millimetres over minutes, each side multiplied out.
            after.speed_mm_min.num * (now - then) * (before.height_mm.den * after.height_mm.den)
                == distance * 60_000_000_000 * after.speed_mm_min.den
        }),
{
    lemma_height_bound(first.params, first.handles.state.decoder.count as int);
    lemma_height_bound(later.params, later.handles.state.decoder.count as int);
    law_speed_is_distance_over_time(later, after, now, mono);
    let h0 = before.height_mm.num as int;
    let h1 = after.height_mm.num as int;
    assert(later.last_height == h0);
    assert(later.last_time == then);
    assert(before.height_mm.den == 1_000_000 && after.height_mm.den == 1_000_000);
    let s = after.speed_mm_min.num as int;
    let d = after.speed_mm_min.den as int;
    let dt = now - then;
    let nm = if h1 < h0 {
        h0 - h1
    } else {
        h1 - h0
    };
    let up = h1 * 1_000_000 - h0 * 1_000_000;
    let distance = if up < 0 {
        -up
    } else {
        up
    };
    assert(distance == nm * 1_000_000);
    assert(s * dt == nm * 60_000 * d);
    assert(s * dt * (1_000_000 * 1_000_000) == (nm * 1_000_000) * 60_000_000_000 * d)
        by (nonlinear_arith)
        requires
            s * dt == nm * 60_000 * d,
    ;
}

/// The word for the travel is that of the count's change since the last
/// publication; a home since then reads as standing still.
pub proof fn law_direction_is_the_change_of_count(
    core: EncoderCore,
    snap: Snapshot,
    now: i64,
    mono: i64,
)
    requires
        core.shown_by(snap, now as int, mono as int),
    ensures
        ({
            let count = core.handles.state.decoder.count;
            let homed = core.handles.state.home_epoch != core.last_home_epoch;
            &&& snap.count == count
            &&& !homed && count > core.last_count ==> snap.direction@ == "opening"@
            &&& !homed && count < core.last_count ==> snap.direction@ == "closing"@
            &&& homed || count == core.last_count ==> snap.direction@ == "stopped"@
        }),
{
}

/// The rotational speed is the change of the count over the last two seconds:
/// from the oldest sample that is not older than that to this one, in
/// revolutions of two counts per tooth. With no sample to go back to, there is
/// none.
pub proof fn law_rpm_spans_two_seconds(
    core: EncoderCore,
    snap: Snapshot,
    now: i64,
    mono: i64,
    k: int,
)
    requires
        core.wf(),
        core.shown_by(snap, now as int, mono as int),
        core.handles.state.home_epoch == core.last_home_epoch,
        0 <= k <= core.rate@.len(),
        forall|i: int| 0 <= i < k ==> now - (#[trigger] core.rate@[i]).0 > 2_000_000_000,
        k < core.rate@.len() ==> now - core.rate@[k].0 <= 2_000_000_000,
    ensures
        snap.rpm.den > 0,
        k == core.rate@.len() || core.params.pulses_per_rev <= 0 ==> snap.rpm.num == 0,
        k < core.rate@.len() && now <= core.rate@[k].0 ==> snap.rpm.num == 0,
        k < core.rate@.len() && core.params.pulses_per_rev > 0 && now > core.rate@[k].0
            ==> snap.rpm.num * (2 * core.params.pulses_per_rev * (now - core.rate@[k].0)) == (
        core.handles.state.decoder.count - core.rate@[k].1) * 60_000_000_000 * snap.rpm.den,
{
    let count = core.handles.state.decoder.count;
    let samples = core.rate@.push((now, count));
    let dropped = law_window_keeps_the_recent_tail(samples, now as int, 2_000_000_000);
    assert forall|i: int| 0 <= i < k implies now - (#[trigger] samples[i]).0 > 2_000_000_000 by {
        assert(samples[i] == core.rate@[i]);
    }
    if dropped < k {
        assert(now - samples[dropped].0 > 2_000_000_000);
    } else if dropped > k {
        assert(now - samples[k].0 > 2_000_000_000);
        assert(samples[k] == core.rate@[k]);
    }
    assert(dropped == k);
    let kept = samples.skip(k);
    assert(core.window_at(now as int) == kept);
    if k < core.rate@.len() {
        assert(kept[0] == core.rate@[k]);
        assert(kept.last() == (now, count));
        let cpr = 2 * core.params.pulses_per_rev;
        let dt = now - core.rate@[k].0;
        if cpr > 0 && dt > 0 {
            assert(0 < cpr * dt <= i128::MAX) by (nonlinear_arith)
                requires
                    0 < cpr <= i64::MAX,
                    0 < dt <= u64::MAX,
            ;
            assert(cpr * dt == 2 * core.params.pulses_per_rev * (now - core.rate@[k].0));
        }
    }
}

/// After a home there is no history to take a rotational speed over.
pub proof fn law_rpm_starts_over_at_home(core: EncoderCore, snap: Snapshot, now: i64, mono: i64)
    requires
        core.shown_by(snap, now as int, mono as int),
        core.handles.state.home_epoch != core.last_home_epoch,
    ensures
        snap.rpm.num == 0,
        snap.rpm.den > 0,
        snap.rotation_direction@ == "stopped"@,
{
    assert(core.window_at(now as int).len() == 1);
}

/// The rotation reads as clockwise beyond half a revolution per minute, as
/// counterclockwise beyond as much the other way, and between them as stopped.
pub proof fn law_rotation_word_follows_the_rate(
    core: EncoderCore,
    snap: Snapshot,
    now: i64,
    mono: i64,
)
    requires
        snap.wf(),
        core.shown_by(snap, now as int, mono as int),
    ensures
        2 * snap.rpm.num > snap.rpm.den ==> snap.rotation_direction@ == "cw"@,
        2 * snap.rpm.num < -snap.rpm.den ==> snap.rotation_direction@ == "ccw"@,
        -snap.rpm.den <= 2 * snap.rpm.num <= snap.rpm.den ==> snap.rotation_direction@
            == "stopped"@,
{
    let n = snap.rpm.num as int;
    let d = snap.rpm.den as int;
    assert(n * 2 == 2 * n && 1 * d == d);
}

/// Times are published in seconds: when, for how long the encoder has run, and
/// how often it publishes.
pub proof fn law_times_are_in_seconds(core: EncoderCore, snap: Snapshot, now: i64, mono: i64)
    requires
        core.shown_by(snap, now as int, mono as int),
    ensures
        snap.ts.num == now && snap.ts.den == 1_000_000_000,
        snap.uptime_s.num == mono - core.start && snap.uptime_s.den == 1_000_000_000,
        snap.publish_interval_s.num == core.params.publish_interval_ns,
        snap.publish_interval_s.den == 1_000_000_000,
{
}

/// Counters and flags are published as they stand, each under its own name.
pub proof fn law_counters_are_shown(core: EncoderCore, snap: Snapshot, now: i64, mono: i64)
    requires
        core.shown_by(snap, now as int, mono as int),
    ensures
        snap.count == core.handles.state.decoder.count,
        snap.homed == core.handles.state.homed,
        snap.home_switch == core.handles.state.home_active,
        snap.missed_edges == core.handles.state.decoder.missed,
        snap.ambiguous_edges == core.handles.state.decoder.ambiguous,
        snap.unsigned_edges == core.handles.state.decoder.unsigned,
        snap.filtered_edges == core.handles.state.decoder.filtered,
        snap.hw_period_edges == core.handles.state.decoder.hw_period_used,
        snap.hw_period_missing == core.handles.state.decoder.hw_period_missing,
        snap.period_disagreements == core.handles.state.decoder.period_disagreements,
        snap.stream_reconnects == core.handles.state.stream_reconnects,
        snap.pulse_callbacks == core.handles.state.callbacks,
        snap.pulses_reporting_high == core.handles.state.pulses_reporting_high,
        snap.events_decoded == core.handles.state.events_decoded,
        snap.event_cursor == core.handles.state.event_cursor,
        snap.poll_errors == core.handles.state.poll_errors,
        snap.pulse_direction == core.handles.state.decoder.direction,
        snap.input_mode@ == core.input_mode@,
        snap.edge_mode@ == "rising_2x"@,
{
}

/// A publication leaves the encoder measuring from what it showed: the count,
/// the height, the time and the home that it was taken after. The state that
/// pulses move, the hints, the parameters and the timer stay.
pub proof fn law_derivation_moves_the_baseline(core: EncoderCore, after: EncoderCore, now: i64)
    requires
        core.derived_to(after, now as int),
    ensures
        after.last_count == core.handles.state.decoder.count,
        after.last_height == core.params.home_height_nm + core.handles.state.decoder.count
            * core.params.nm_per_count,
        after.last_time == now,
        after.last_home_epoch == core.handles.state.home_epoch,
        after.rate@.len() > 0,
        after.rate@.last() == (now, core.handles.state.decoder.count),
        after.rate.window_ns == core.rate.window_ns,
        after.handles == core.handles,
        after.params == core.params,
        after.last_publish == core.last_publish,
        after.input_mode == core.input_mode,
        after.start == core.start,
        core.handles.state.home_epoch != core.last_home_epoch ==> after.rate@.len() == 1,
{
    let history = if core.handles.state.home_epoch != core.last_home_epoch {
        Seq::empty()
    } else {
        core.rate@
    };
    let samples = history.push((now, core.handles.state.decoder.count));
    let dropped = law_window_keeps_the_recent_tail(
        samples,
        now as int,
        core.rate.window_ns as int,
    );
    assert(samples.skip(dropped).last() == samples.last());
}

/// Without a home, the samples that a publication carries on are those of the
/// last two seconds, and its own.
pub proof fn law_samples_of_two_seconds_are_kept(
    core: EncoderCore,
    after: EncoderCore,
    now: i64,
    k: int,
)
    requires
        core.wf(),
        core.derived_to(after, now as int),
        core.handles.state.home_epoch == core.last_home_epoch,
        0 <= k <= core.rate@.len(),
        forall|i: int| 0 <= i < k ==> now - (#[trigger] core.rate@[i]).0 > 2_000_000_000,
        k < core.rate@.len() ==> now - core.rate@[k].0 <= 2_000_000_000,
    ensures
        after.rate@ == core.rate@.skip(k).push((now, core.handles.state.decoder.count)),
{
    let count = core.handles.state.decoder.count;
    let samples = core.rate@.push((now, count));
    let dropped = law_window_keeps_the_recent_tail(samples, now as int, 2_000_000_000);
    assert forall|i: int| 0 <= i < k implies now - (#[trigger] samples[i]).0 > 2_000_000_000 by {
        assert(samples[i] == core.rate@[i]);
    }
    if dropped < k {
        assert(now - samples[dropped].0 > 2_000_000_000);
    } else if dropped > k {
        assert(now - samples[k].0 > 2_000_000_000);
        assert(samples[k] == core.rate@[k]);
    }
    assert(samples.skip(k) =~= core.rate@.skip(k).push((now, count)));
}

/// What the endpoint is served of a publication is kept besides, and no more:
/// the state and the hints are not touched.
pub proof fn law_publication_keeps_the_state(core: EncoderCore, after: EncoderCore, now: i64)
    requires
        core.shows_to(after, now as int),
    ensures
        after.handles.state == core.handles.state,
        after.handles.hints == core.handles.hints,
        after.params == core.params,
        after.last_publish == core.last_publish,
        after.last_count == core.handles.state.decoder.count,
        after.last_height == core.params.home_height_nm + core.handles.state.decoder.count
            * core.params.nm_per_count,
        after.last_time == now,
        after.last_home_epoch == core.handles.state.home_epoch,
        after.rate@.len() > 0,
        after.rate@.last() == (now, core.handles.state.decoder.count),
        after.rate.window_ns == core.rate.window_ns,
        after.input_mode == core.input_mode,
        after.start == core.start,
{
    let plain = crate::debug_server::DebugHandles {
        snapshot: core.handles.snapshot,
        ..after.handles
    };
    law_derivation_moves_the_baseline(core, EncoderCore { handles: plain, ..after }, now);
    assert(plain == core.handles);
}

/// A baseline starts the timer, and measures movement from where the encoder
/// stands: nothing moves in the snapshot that it keeps.
pub proof fn law_baseline_stands_still(
    core: EncoderCore,
    after: EncoderCore,
    now: i64,
    mono: i64,
)
    requires
        core.wf(),
        core.at_baseline(now).shown_by(after.handles.snapshot, now as int, mono as int),
        core.at_baseline(now).shows_to(after, now as int),
    ensures
        after.last_publish == now,
        after.last_time == now,
        after.last_count == core.handles.state.decoder.count,
        after.last_height == core.params.home_height_nm + core.handles.state.decoder.count
            * core.params.nm_per_count,
        after.last_home_epoch == core.handles.state.home_epoch,
        after.handles.state == core.handles.state,
        after.handles.hints == core.handles.hints,
        after.params == core.params,
        after.start == core.start,
        after.input_mode == core.input_mode,
        after.handles.snapshot.speed_mm_min.num == 0,
        after.handles.snapshot.direction@ == "stopped"@,
        after.handles.snapshot.count == core.handles.state.decoder.count,
{
    lemma_height_bound(core.params, core.handles.state.decoder.count as int);
    law_publication_keeps_the_state(core.at_baseline(now), after, now);
    law_speed_is_distance_over_time(core.at_baseline(now), after.handles.snapshot, now, mono);
    law_direction_is_the_change_of_count(core.at_baseline(now), after.handles.snapshot, now, mono);
}

/// Ingest moves the shared state alone.
pub proof fn law_ingest_moves_the_state_alone(core: EncoderCore, after: EncoderCore)
    requires
        core.moved_to(after),
    ensures
        after.params == core.params,
        after.handles.snapshot == core.handles.snapshot,
        after.handles.hints == core.handles.hints,
        after.rate == core.rate,
        after.last_publish == core.last_publish,
        after.last_count == core.last_count,
        after.last_height == core.last_height,
        after.last_time == core.last_time,
        after.last_home_epoch == core.last_home_epoch,
        after.input_mode == core.input_mode,
        after.start == core.start,
{
}

} // verus!
