//! What a poll of the event log makes of the events that are served.

use vstd::prelude::*;

use crate::decoder_laws::rises_of;
#[allow(unused_imports)]
use crate::encoder::{begun, both_pins, capture_hints, hint_of};
use crate::events::{EdgeRecord, RawDiEvent};
#[allow(unused_imports)]
use crate::events::{
    edge_of, has_id, is_first_edge, is_first_of_id, is_merge_of, is_new_edge, is_newest, level_of,
    served,
};
use crate::quadrature::{Channel, Decoding};

verus! {

/// Whether a platform's name for an event stands for a rising edge.
pub open spec fn names_rise(name: Seq<char>) -> bool {
    name == "DI_R"@ || name == "rising"@
}

/// Whether a platform's name for an event stands for a falling edge.
pub open spec fn names_fall(name: Seq<char>) -> bool {
    name == "DI_F"@ || name == "falling"@
}

/// The two vocabularies name edges; every other name is none, and no name is
/// both.
pub proof fn law_names_of_edges(name: Seq<char>)
    ensures
        names_rise(name) <==> level_of(name) == Some(true),
        names_fall(name) <==> level_of(name) == Some(false),
        !names_rise(name) && !names_fall(name) <==> level_of(name) is None,
{
    reveal_strlit("DI_R");
    reveal_strlit("DI_F");
    reveal_strlit("rising");
    reveal_strlit("falling");
    assert("DI_R"@[3] == 'R' && "DI_F"@[3] == 'F');
    assert("rising"@.len() == 6 && "falling"@.len() == 7 && "DI_R"@.len() == 4 && "DI_F"@.len()
        == 4);
}

/// Every new edge is decoded as what it was: the first served event of an id
/// beyond the cursor that names an edge gives an edge of its own channel, level
/// and capture time.
pub proof fn law_new_edges_are_kept(
    edges: Seq<EdgeRecord>,
    events: Seq<(Channel, RawDiEvent)>,
    last_id: i64,
    j: int,
) -> (i: int)
    requires
        is_merge_of(edges, events, last_id),
        0 <= j < events.len(),
        events[j].1.event_id > last_id,
        names_rise(events[j].1.event@) || names_fall(events[j].1.event@),
        forall|k: int|
            0 <= k < j && (#[trigger] events[k]).1.event_id == events[j].1.event_id
                ==> !names_rise(events[k].1.event@) && !names_fall(events[k].1.event@),
    ensures
        0 <= i < edges.len(),
        edges[i].event_id == events[j].1.event_id,
        edges[i].channel == events[j].0,
        edges[i].level == names_rise(events[j].1.event@),
        edges[i].time_ms == events[j].1.time_ms,
{
    law_names_of_edges(events[j].1.event@);
    assert(is_new_edge(events[j], last_id));
    assert(has_id(edges, events[j].1.event_id));
    reveal(has_id);
    let i = choose|i: int|
        0 <= i < edges.len() && (#[trigger] edges[i]).event_id == events[j].1.event_id;
    assert(is_first_edge(edges[i], events, last_id));
    reveal(is_first_edge);
    let f = choose|f: int| #[trigger]
        is_first_of_id(events, last_id, f) && edges[i] == edge_of(events[f]);
    law_names_of_edges(events[f].1.event@);
    assert(is_new_edge(events[f], last_id));
    assert(f == j);
    i
}

/// Nothing else is decoded: every edge was served, beyond the cursor, under its
/// channel, level and capture time; and edges come in ascending order of ids,
/// each id once.
pub proof fn law_edges_were_served(
    edges: Seq<EdgeRecord>,
    events: Seq<(Channel, RawDiEvent)>,
    last_id: i64,
    i: int,
) -> (j: int)
    requires
        is_merge_of(edges, events, last_id),
        0 <= i < edges.len(),
    ensures
        0 <= j < events.len(),
        events[j].1.event_id > last_id,
        edges[i].event_id == events[j].1.event_id,
        edges[i].channel == events[j].0,
        edges[i].time_ms == events[j].1.time_ms,
        edges[i].level ==> names_rise(events[j].1.event@),
        !edges[i].level ==> names_fall(events[j].1.event@),
        i + 1 < edges.len() ==> edges[i].event_id < edges[i + 1].event_id,
{
    assert(is_first_edge(edges[i], events, last_id));
    reveal(is_first_edge);
    let j = choose|j: int| #[trigger]
        is_first_of_id(events, last_id, j) && edges[i] == edge_of(events[j]);
    law_names_of_edges(events[j].1.event@);
    j
}

/// The cursor never falls behind: it is at or beyond its old place and every id
/// served, whether or not the event was an edge, and it is one of these.
pub proof fn law_cursor_passes_everything_served(
    newest: i64,
    events: Seq<(Channel, RawDiEvent)>,
    last_id: i64,
)
    requires
        is_newest(newest, events, last_id),
    ensures
        newest >= last_id,
        forall|j: int| 0 <= j < events.len() ==> (#[trigger] events[j]).1.event_id <= newest,
        newest != last_id ==> exists|j: int|
            0 <= j < events.len() && (#[trigger] events[j]).1.event_id == newest,
{
}

/// Both pins' logs are served whole, channel A's first, each event under the
/// channel of its pin.
pub proof fn law_both_pins_are_served(a: &[RawDiEvent], b: &[RawDiEvent])
    ensures
        ({
            let log = served(both_pins(a, b));
            &&& log.len() == a@.len() + b@.len()
            &&& forall|i: int| 0 <= i < a@.len() ==> #[trigger] log[i] == (Channel::A, a@[i])
            &&& forall|i: int|
                a@.len() <= i < log.len() ==> #[trigger] log[i] == (
                    Channel::B,
                    b@[i - a@.len()],
                )
        }),
{
    let pins = both_pins(a, b);
    let one = pins.drop_last();
    assert(one.drop_last() =~= Seq::empty());
    assert(served(one.drop_last()) =~= Seq::empty());
    assert(pins.last() == (Channel::B, b));
    assert(one.last() == (Channel::A, a));
    assert(served(one) =~= a@.map_values(|e: RawDiEvent| (Channel::A, e)));
    assert(served(pins) =~= a@.map_values(|e: RawDiEvent| (Channel::A, e)) + b@.map_values(
        |e: RawDiEvent| (Channel::B, e),
    ));
}

/// Any number of batches is served whole and in order: one more batch appends
/// its events, each under the batch's channel.
pub proof fn law_batches_are_served_in_order(
    batches: Seq<(Channel, &[RawDiEvent])>,
    channel: Channel,
    batch: &[RawDiEvent],
)
    ensures
        served(Seq::<(Channel, &[RawDiEvent])>::empty()).len() == 0,
        ({
            let before = served(batches);
            let after = served(batches.push((channel, batch)));
            &&& after.len() == before.len() + batch@.len()
            &&& forall|i: int| 0 <= i < before.len() ==> #[trigger] after[i] == before[i]
            &&& forall|i: int|
                before.len() <= i < after.len() ==> #[trigger] after[i] == (
                    channel,
                    batch@[i - before.len()],
                )
        }),
{
    let all = batches.push((channel, batch));
    assert(all.drop_last() =~= batches);
    assert(all.last() == (channel, batch));
}

// ---------------------------------------------------------------------------
// Signing by the hint of the capture time
// ---------------------------------------------------------------------------

/// How many entries a time has passed, by where they end.
pub proof fn lemma_begun_is(timeline: Seq<(i64, i8)>, t: int, n: int)
    requires
        0 <= n <= timeline.len(),
        forall|k: int| 0 <= k < n ==> (#[trigger] timeline[k]).0 <= t,
        n == timeline.len() || timeline[n].0 > t,
    ensures
        begun(timeline, t) == n,
    decreases timeline.len(),
{
    if n > 0 {
        let rest = timeline.drop_first();
        assert forall|k: int| 0 <= k < n - 1 implies (#[trigger] rest[k]).0 <= t by {
            assert(rest[k] == timeline[k + 1]);
        }
        assert(timeline[0].0 <= t);
        if n < timeline.len() {
            assert(rest[n - 1] == timeline[n]);
        }
        lemma_begun_is(rest, t, n - 1);
    }
}

/// A polled edge is signed by the hint that was in force when it was captured:
/// that of entry `j`, if the timeline up to `j` is not later than the edge's own
/// time and the next entry is; and by none before the first entry.
pub proof fn law_poll_signs_at_capture_time(
    edges: Seq<EdgeRecord>,
    timeline: Seq<(i64, i8)>,
    i: int,
    j: int,
)
    requires
        0 <= i < edges.len(),
        -1 <= j < timeline.len(),
        forall|k: int| 0 <= k <= j ==> (#[trigger] timeline[k]).0 <= edges[i].time_ms,
        j + 1 == timeline.len() || timeline[j + 1].0 > edges[i].time_ms,
    ensures
        capture_hints(edges, timeline).len() == edges.len(),
        j >= 0 ==> capture_hints(edges, timeline)[i] == timeline[j].1,
        j < 0 ==> capture_hints(edges, timeline)[i] == 0,
{
    lemma_begun_is(timeline, edges[i].time_ms as int, j + 1);
}

proof fn lemma_later_entry(timeline: Seq<(i64, i8)>, entry: (i64, i8), t: int)
    requires
        entry.0 > t,
    ensures
        begun(timeline.push(entry), t) == begun(timeline, t),
        0 <= begun(timeline, t) <= timeline.len(),
    decreases timeline.len(),
{
    if timeline.len() > 0 {
        assert(timeline.push(entry).drop_first() =~= timeline.drop_first().push(entry));
        lemma_later_entry(timeline.drop_first(), entry, t);
    }
}

/// A hint declared after every edge of a batch was captured changes nothing of
/// what the batch decodes to, however late it is decoded.
pub proof fn law_later_hint_changes_nothing(
    d: Decoding,
    edges: Seq<EdgeRecord>,
    timeline: Seq<(i64, i8)>,
    entry: (i64, i8),
)
    requires
        forall|i: int| 0 <= i < edges.len() ==> (#[trigger] edges[i]).time_ms < entry.0,
    ensures
        capture_hints(edges, timeline.push(entry)) == capture_hints(edges, timeline),
        d.feed(edges, capture_hints(edges, timeline.push(entry))) == d.feed(
            edges,
            capture_hints(edges, timeline),
        ),
{
    let a = capture_hints(edges, timeline.push(entry));
    let b = capture_hints(edges, timeline);
    assert forall|i: int| 0 <= i < edges.len() implies a[i] == b[i] by {
        lemma_later_entry(timeline, entry, edges[i].time_ms as int);
    }
    assert(a =~= b);
}

/// A batch of rising edges that were all captured under one commanded direction
/// moves the count by one each in that direction, and takes along what was held.
pub proof fn law_poll_under_one_command(
    d: Decoding,
    edges: Seq<EdgeRecord>,
    timeline: Seq<(i64, i8)>,
    j: int,
)
    requires
        edges.len() > 0,
        d.unsigned >= 0,
        0 <= j < timeline.len(),
        timeline[j].1 == 1 || timeline[j].1 == -1,
        forall|i: int|
            0 <= i < edges.len() ==> (#[trigger] edges[i]).level && timeline[j].0
                <= edges[i].time_ms,
        forall|k: int| 0 <= k <= j ==> (#[trigger] timeline[k]).0 <= timeline[j].0,
        j + 1 == timeline.len() || forall|i: int|
            0 <= i < edges.len() ==> (#[trigger] edges[i]).time_ms < timeline[j + 1].0,
    ensures
        ({
            let end = d.feed(edges, capture_hints(edges, timeline));
            let up = (timeline[j].1 == 1) != d.invert;
            &&& up ==> end.count == d.count + d.unsigned + edges.len()
            &&& !up ==> end.count == d.count - d.unsigned - edges.len()
            &&& end.sense == timeline[j].1
            &&& end.unsigned == 0
            &&& end.ambiguous == d.ambiguous
            &&& end.missed == d.missed
            &&& end.invert == d.invert
        }),
    decreases edges.len(),
{
    let n = edges.len() as int;
    let hints = capture_hints(edges, timeline);
    law_poll_signs_at_capture_time(edges, timeline, n - 1, j);
    assert(edges[n - 1].level);
    assert(hints.drop_last() =~= capture_hints(edges.drop_last(), timeline));
    if n > 1 {
        assert forall|i: int| 0 <= i < n - 1 implies (#[trigger] edges.drop_last()[i]).level
            && timeline[j].0 <= edges.drop_last()[i].time_ms by {
            assert(edges[i] == edges.drop_last()[i]);
        }
        if j + 1 < timeline.len() {
            assert forall|i: int| 0 <= i < n - 1 implies (#[trigger] edges.drop_last()[i]).time_ms
                < timeline[j + 1].0 by {
                assert(edges[i] == edges.drop_last()[i]);
            }
        }
        law_poll_under_one_command(d, edges.drop_last(), timeline, j);
    } else {
        assert(d.feed(edges.drop_last(), hints.drop_last()) == d);
    }
}

/// Which rises a batch is decoded as: each rising record at its capture time in
/// nanoseconds, without a hardware period, under the hint of that time.
pub proof fn law_rises_of_a_poll(
    edges: Seq<EdgeRecord>,
    timeline: Seq<(i64, i8)>,
    last: EdgeRecord,
)
    ensures
        ({
            let before = rises_of(edges, capture_hints(edges, timeline));
            let all = edges.push(last);
            let after = rises_of(all, capture_hints(all, timeline));
            &&& last.level ==> {
                &&& after.len() == before.len() + 1
                &&& after.drop_last() == before
                &&& after.last().channel == last.channel
                &&& after.last().t == last.time_ms * 1_000_000
                &&& after.last().hint == hint_of(timeline, last.time_ms as int)
                &&& after.last().hw_period == 0
            }
            &&& !last.level ==> after == before
        }),
{
    let all = edges.push(last);
    assert(all.drop_last() =~= edges);
    assert(capture_hints(all, timeline).drop_last() =~= capture_hints(edges, timeline));
    let before = rises_of(edges, capture_hints(edges, timeline));
    let after = rises_of(all, capture_hints(all, timeline));
    if last.level {
        assert(after.drop_last() =~= before);
    }
}

} // verus!
