//! What ingest rests on: the hint that a pulse is given, the record of a polled
//! edge, the trace, and the limits.

use vstd::prelude::*;

#[allow(unused_imports)]
use crate::encoder::{begun, hint_of, mode_word};
use crate::encoder::{EncoderCore, Params};
use crate::events::EdgeRecord;
#[allow(unused_imports)]
use crate::poll_laws::lemma_begun_is;
use crate::quadrature::{hints_from, Channel, Decoding, Rise};
use crate::state::{trace_grew, EncoderState, Snapshot};

verus! {

/// Where hints alone give the direction, a pulse is given the hint of the entry
/// that is in force when it arrives, and none before the first. Elsewhere a
/// pulse is given none, whatever was declared.
pub proof fn law_pulses_take_the_hint_in_force(core: EncoderCore, now_ms: i64, j: int)
    requires
        -1 <= j < core.handles.hints@.len(),
        forall|k: int| 0 <= k <= j ==> (#[trigger] core.handles.hints@[k]).0 <= now_ms,
        j + 1 == core.handles.hints@.len() || core.handles.hints@[j + 1].0 > now_ms,
    ensures
        !core.params.hint_only_direction ==> core.stream_hint(now_ms as int) == 0,
        core.params.hint_only_direction && j >= 0 ==> core.stream_hint(now_ms as int)
            == core.handles.hints@[j].1,
        core.params.hint_only_direction && j < 0 ==> core.stream_hint(now_ms as int) == 0,
{
    lemma_begun_is(core.handles.hints@, now_ms as int, j + 1);
}

/// A polled rise is a rise at its capture time, in nanoseconds, for which the
/// hardware measured no period; a polled fall is tallied and changes nothing
/// else.
pub proof fn law_records_are_rises_or_tallied(d: Decoding, record: EdgeRecord, hint: i8, e: Rise)
    requires
        e.channel == record.channel,
        e.t == record.time_ms * 1_000_000,
        e.hint == hint,
        e.hw_period == 0,
    ensures
        record.level ==> d.take_record(record, hint) == d.step(e),
        !record.level ==> {
            let after = d.take_record(record, hint);
            &&& after.filtered == d.filtered + 1
            &&& after == (Decoding { filtered: after.filtered, ..d })
        },
{
}

/// A batch is decoded record by record, in its order.
pub proof fn law_batches_are_fed_in_order(
    d: Decoding,
    edges: Seq<EdgeRecord>,
    hints: Seq<i8>,
    record: EdgeRecord,
    hint: i8,
)
    requires
        hints.len() == edges.len(),
    ensures
        d.feed(Seq::empty(), Seq::empty()) == d,
        d.feed(edges.push(record), hints.push(hint)) == d.feed(edges, hints).take_record(
            record,
            hint,
        ),
{
    assert(edges.push(record).drop_last() =~= edges);
    assert(hints.push(hint).drop_last() =~= hints);
}

/// The hint of a polled rise is the answer to its own capture time.
pub proof fn law_hints_are_asked_at_capture_time<F: Fn(i64) -> i8>(
    hint_at: F,
    edges: Seq<EdgeRecord>,
    hints: Seq<i8>,
    i: int,
)
    requires
        hints_from(hint_at, edges, hints),
        0 <= i < edges.len(),
    ensures
        hints.len() == edges.len(),
        edges[i].level ==> call_ensures(hint_at, (edges[i].time_ms,), hints[i]),
{
    assert(hints[i] == hints[i]);
}

/// A trace that is kept gains each arrival at its end; one that is not kept
/// stays off.
pub proof fn law_trace_gains_the_arrival(
    before: Option<Vec<(Channel, i64)>>,
    after: Option<Vec<(Channel, i64)>>,
    channel: Channel,
    t: i64,
)
    requires
        trace_grew(before, after, channel, t),
    ensures
        before is None <==> after is None,
        before matches Some(b) ==> after matches Some(a) && {
            &&& a@.len() == b@.len() + 1
            &&& a@.last() == (channel, t)
            &&& a@.drop_last() == b@
        },
{
    if let Some(b) = before {
        if let Some(a) = after {
            assert(a@.drop_last() =~= b@);
        }
    }
}

/// Pulses are taken as long as no counter is at the end of its type.
pub proof fn law_room_is_for_every_counter(state: EncoderState, n: u64)
    ensures
        ({
            let d = state.decoder;
            let moved = if d.count < 0 {
                -d.count
            } else {
                d.count as int
            };
            let room = {
                &&& d.missed + n <= 0xffff_ffff_ffff_ffff
                &&& d.ambiguous + n <= 0xffff_ffff_ffff_ffff
                &&& d.filtered + n <= 0xffff_ffff_ffff_ffff
                &&& d.hw_period_used + n <= 0xffff_ffff_ffff_ffff
                &&& d.hw_period_missing + n <= 0xffff_ffff_ffff_ffff
                &&& d.period_disagreements + n <= 0xffff_ffff_ffff_ffff
                &&& moved + d.unsigned + n <= 0x7fff_ffff_ffff_ffff
            };
            &&& d@.has_room(n as int) <==> room
            &&& n == 1 ==> (state.pulse_fits() <==> room && state.callbacks
                < 0xffff_ffff_ffff_ffff && state.pulses_reporting_high < 0xffff_ffff_ffff_ffff)
            &&& state.home_fits() <==> state.home_epoch < 0xffff_ffff_ffff_ffff
        }),
{
}

/// Geometry is taken up to the travel per count at which heights are still
/// exact, in either sense, and up to half the range of teeth.
pub proof fn law_geometry_limits(params: Params)
    ensures
        params.in_range() <==> -153_722_867_280_911 <= params.nm_per_count
            <= 153_722_867_280_911 && -0x4000_0000_0000_0000 <= params.pulses_per_rev
            <= 0x3fff_ffff_ffff_ffff,
{
}

/// The ingest is named after where edges are read from.
pub proof fn law_ingest_is_named()
    ensures
        mode_word(true) == "poll"@,
        mode_word(false) == "stream"@,
{
}

/// Before anything was published the snapshot shows a standing encoder that was
/// never homed, with all counters at zero, and the default interval.
pub proof fn law_blank_snapshot_shows_nothing(snap: Snapshot)
    requires
        snap.is_blank(),
    ensures
        snap.count == 0 && snap.ts.num == 0 && snap.revolutions.num == 0 && snap.rpm.num == 0,
        snap.height_mm.num == 0 && snap.percent_open.num == 0 && snap.speed_mm_min.num == 0,
        snap.uptime_s.num == 0 && snap.counts_per_rev == 0,
        snap.ts.den > 0 && snap.revolutions.den > 0 && snap.rpm.den > 0 && snap.height_mm.den > 0,
        snap.percent_open.den > 0 && snap.speed_mm_min.den > 0 && snap.uptime_s.den > 0,
        snap.direction@ == "stopped"@ && snap.rotation_direction@ == "stopped"@,
        !snap.homed && !snap.home_switch,
        snap.missed_edges == 0 && snap.ambiguous_edges == 0 && snap.unsigned_edges == 0,
        snap.filtered_edges == 0 && snap.hw_period_edges == 0 && snap.hw_period_missing == 0,
        snap.period_disagreements == 0 && snap.stream_reconnects == 0,
        snap.pulse_callbacks == 0 && snap.pulses_reporting_high == 0 && snap.events_decoded == 0,
        snap.event_cursor == 0 && snap.poll_errors == 0 && snap.pulse_direction == 0,
        snap.input_mode@ == "stream"@ && snap.edge_mode@ == "rising_2x"@,
        2 * snap.publish_interval_s.num == snap.publish_interval_s.den,
        snap.publish_interval_s.den > 0,
{
}

} // verus!
