//! Polled events: naming, ordering and deduplicating them.

use std::collections::BTreeMap;

use vstd::prelude::*;

use crate::quadrature::Channel;
use crate::text::str_eq;

verus! {

/// One edge from a polled event batch. `level` is `true` for a rising edge.
#[derive(Debug, Clone, Copy, PartialEq, Eq, Structural)]
pub struct EdgeRecord {
    pub event_id: i64,
    pub channel: Channel,
    pub level: bool,
    pub time_ms: i64,
}

/// A raw platform event. `event` is the platform's name for it; hardware and
/// the simulator use different vocabularies.
#[derive(Debug, Clone, PartialEq, Eq)]
pub struct RawDiEvent {
    pub event_id: i64,
    pub event: String,
    pub time_ms: i64,
}

/// The level after an edge that a platform event name stands for.
pub open spec fn level_of(event: Seq<char>) -> Option<bool> {
    if event == "DI_R"@ || event == "rising"@ {
        Some(true)
    } else if event == "DI_F"@ || event == "falling"@ {
        Some(false)
    } else {
        None
    }
}

/// Classify a platform event name into a rising or falling level, or `None` for
/// anything that is not an edge.
pub fn event_level(event: &str) -> (level: Option<bool>)
    ensures
        level == level_of(event@),
{
    if str_eq(event, "DI_R") || str_eq(event, "rising") {
        Some(true)
    } else if str_eq(event, "DI_F") || str_eq(event, "falling") {
        Some(false)
    } else {
        None
    }
}

/// All events of all batches in the order they were served, each with its
/// batch's channel.
pub open spec fn served(batches: Seq<(Channel, &[RawDiEvent])>) -> Seq<(Channel, RawDiEvent)>
    decreases batches.len(),
{
    if batches.len() == 0 {
        Seq::empty()
    } else {
        served(batches.drop_last()) + batches.last().1@.map_values(
            |e: RawDiEvent| (batches.last().0, e),
        )
    }
}

/// Whether an event is an edge that the cursor has not passed.
pub open spec fn is_new_edge(e: (Channel, RawDiEvent), last_id: i64) -> bool {
    e.1.event_id > last_id && level_of(e.1.event@) is Some
}

/// The edge that an event stands for.
pub open spec fn edge_of(e: (Channel, RawDiEvent)) -> EdgeRecord {
    EdgeRecord {
        event_id: e.1.event_id,
        channel: e.0,
        level: level_of(e.1.event@)->0,
        time_ms: e.1.time_ms,
    }
}

/// Whether the event at `j` is a new edge and the first with its id.
pub open spec fn is_first_of_id(
    events: Seq<(Channel, RawDiEvent)>,
    last_id: i64,
    j: int,
) -> bool {
    &&& 0 <= j < events.len()
    &&& is_new_edge(events[j], last_id)
    &&& forall|k: int|
        0 <= k < j && is_new_edge(#[trigger] events[k], last_id) ==> events[k].1.event_id
            != events[j].1.event_id
}

/// Whether `edge` is the first new edge of its id among `events`.
#[verifier::opaque]
pub open spec fn is_first_edge(
    edge: EdgeRecord,
    events: Seq<(Channel, RawDiEvent)>,
    last_id: i64,
) -> bool {
    exists|j: int| #[trigger]
        is_first_of_id(events, last_id, j) && edge == edge_of(events[j])
}

/// Whether one of `edges` has the id.
#[verifier::opaque]
pub open spec fn has_id(edges: Seq<EdgeRecord>, id: i64) -> bool {
    exists|i: int| 0 <= i < edges.len() && (#[trigger] edges[i]).event_id == id
}

/// Whether `edges` are the new edges among `events`: ordered by id, one for
/// each id that a new edge has, and the first of those that share one.
pub open spec fn is_merge_of(
    edges: Seq<EdgeRecord>,
    events: Seq<(Channel, RawDiEvent)>,
    last_id: i64,
) -> bool {
    &&& forall|i: int, j: int|
        0 <= i < j < edges.len() ==> (#[trigger] edges[i]).event_id < (#[trigger] edges[j]).event_id
    &&& forall|i: int|
        0 <= i < edges.len() ==> is_first_edge(#[trigger] edges[i], events, last_id)
    &&& forall|j: int|
        0 <= j < events.len() && is_new_edge(#[trigger] events[j], last_id) ==> has_id(
            edges,
            events[j].1.event_id,
        )
}

/// Whether `newest` is the greatest of the cursor and all event ids.
pub open spec fn is_newest(newest: i64, events: Seq<(Channel, RawDiEvent)>, last_id: i64) -> bool {
    &&& newest >= last_id
    &&& forall|j: int| 0 <= j < events.len() ==> newest >= (#[trigger] events[j]).1.event_id
    &&& newest == last_id || exists|j: int|
        0 <= j < events.len() && newest == (#[trigger] events[j]).1.event_id
}

/// Whether `seen` holds exactly the first new edge of each id among `events`.
spec fn holds_firsts(
    seen: Map<i64, EdgeRecord>,
    events: Seq<(Channel, RawDiEvent)>,
    last_id: i64,
) -> bool {
    &&& forall|id: i64| #[trigger]
        seen.contains_key(id) ==> seen[id].event_id == id && is_first_edge(
            seen[id],
            events,
            last_id,
        )
    &&& forall|j: int|
        0 <= j < events.len() && is_new_edge(#[trigger] events[j], last_id) ==> seen.contains_key(
            events[j].1.event_id,
        )
}

/// One more served event: an edge that is new and has no predecessor of its id
/// joins the map, and nothing else changes it.
proof fn lemma_holds_firsts_push(
    seen: Map<i64, EdgeRecord>,
    events: Seq<(Channel, RawDiEvent)>,
    last_id: i64,
    e: (Channel, RawDiEvent),
    after: Map<i64, EdgeRecord>,
)
    requires
        holds_firsts(seen, events, last_id),
        after == if is_new_edge(e, last_id) && !seen.contains_key(e.1.event_id) {
            seen.insert(e.1.event_id, edge_of(e))
        } else {
            seen
        },
    ensures
        holds_firsts(after, events.push(e), last_id),
{
    let longer = events.push(e);
    let n = events.len() as int;
    assert forall|id: i64| #[trigger] after.contains_key(id) implies after[id].event_id == id
        && is_first_edge(after[id], longer, last_id) by {
        reveal(is_first_edge);
        let j = if seen.contains_key(id) {
            choose|j: int| #[trigger]
                is_first_of_id(events, last_id, j) && seen[id] == edge_of(events[j])
        } else {
            n
        };
        assert(j < n ==> longer[j] == events[j]);
        assert forall|k: int|
            0 <= k < j && is_new_edge(#[trigger] longer[k], last_id) implies longer[k].1.event_id
            != longer[j].1.event_id by {
            assert(longer[k] == events[k]);
        }
        assert(is_first_of_id(longer, last_id, j));
    }
    assert forall|j: int|
        0 <= j < longer.len() && is_new_edge(#[trigger] longer[j], last_id) implies after.contains_key(
        longer[j].1.event_id,
    ) by {
        if j < n {
            assert(longer[j] == events[j]);
        }
    }
}

/// One more served event moves the cursor to its id if that is higher.
proof fn lemma_newest_push(
    newest: i64,
    events: Seq<(Channel, RawDiEvent)>,
    last_id: i64,
    e: (Channel, RawDiEvent),
)
    requires
        is_newest(newest, events, last_id),
    ensures
        is_newest(
            if e.1.event_id > newest {
                e.1.event_id
            } else {
                newest
            },
            events.push(e),
            last_id,
        ),
{
    let longer = events.push(e);
    let n = events.len() as int;
    assert(longer[n] == e);
    assert forall|j: int| 0 <= j < longer.len() implies (if e.1.event_id > newest {
        e.1.event_id
    } else {
        newest
    }) >= (#[trigger] longer[j]).1.event_id by {
        if j < n {
            assert(longer[j] == events[j]);
        }
    }
    if newest != last_id {
        let j = choose|j: int|
            0 <= j < events.len() && newest == (#[trigger] events[j]).1.event_id;
        assert(longer[j] == events[j]);
    }
}

/// Whether `edges` are the records of `seen` in ascending order of their ids.
spec fn lists_values(edges: Seq<EdgeRecord>, seen: Map<i64, EdgeRecord>) -> bool {
    &&& forall|i: int, j: int|
        0 <= i < j < edges.len() ==> (#[trigger] edges[i]).event_id < (#[trigger] edges[j]).event_id
    &&& forall|i: int|
        0 <= i < edges.len() ==> seen.contains_key((#[trigger] edges[i]).event_id)
            && seen[edges[i].event_id] == edges[i]
    &&& forall|id: i64| #[trigger] seen.contains_key(id) ==> has_id(edges, id)
}

/// The records of a map of first new edges, in order, are the merge.
proof fn lemma_merge_of_firsts(
    edges: Seq<EdgeRecord>,
    seen: Map<i64, EdgeRecord>,
    events: Seq<(Channel, RawDiEvent)>,
    last_id: i64,
)
    requires
        lists_values(edges, seen),
        holds_firsts(seen, events, last_id),
    ensures
        is_merge_of(edges, events, last_id),
{
}

/// File a record under its id, unless that id is taken.
fn keep_first(seen: &mut BTreeMap<i64, EdgeRecord>, edge: EdgeRecord)
    ensures
        final(seen)@ == if old(seen)@.contains_key(edge.event_id) {
            old(seen)@
        } else {
            old(seen)@.insert(edge.event_id, edge)
        },
{
    broadcast use vstd::laws_cmp::group_laws_cmp;

    if !seen.contains_key(&edge.event_id) {
        seen.insert(edge.event_id, edge);
    }
}

/// The records of a map from ids, in ascending order of the ids.
fn values_by_id(seen: &BTreeMap<i64, EdgeRecord>) -> (edges: Vec<EdgeRecord>)
    requires
        forall|id: i64| #[trigger] seen@.contains_key(id) ==> seen@[id].event_id == id,
    ensures
        lists_values(edges@, seen@),
{
    broadcast use vstd::laws_cmp::group_laws_cmp;

    let mut edges: Vec<EdgeRecord> = Vec::new();
    let values = seen.values();
    let ghost ids = choose|ids: Seq<i64>|
        {
            &&& vstd::std_specs::btree::increasing_seq(ids)
            &&& ids.to_set() == seen@.dom()
            &&& ids.no_duplicates()
            &&& vstd::std_specs::iter::IteratorSpec::remaining(&values) == ids.map(
                |i: int, k: i64| &seen@[k],
            )
        };
    for v in it: values
        invariant
            edges@.len() == it.index(),
            it.seq() == ids.map(|i: int, k: i64| &seen@[k]),
            forall|i: int| 0 <= i < edges@.len() ==> #[trigger] edges@[i] == seen@[ids[i]],
    {
        edges.push(*v);
    }
    proof {
        assert(edges@.len() == ids.len());
        assert forall|i: int| 0 <= i < ids.len() implies seen@.contains_key(#[trigger] ids[i]) by {
            assert(ids.to_set().contains(ids[i]));
        }
        assert forall|i: int, j: int| 0 <= i < j < edges@.len() implies (#[trigger] edges@[i]).event_id < (
        #[trigger] edges@[j]).event_id by {
            assert(vstd::std_specs::cmp::OrdSpec::cmp_spec(&ids[i], &ids[j]) is Less);
        }
        assert forall|id: i64| #[trigger] seen@.contains_key(id) implies has_id(edges@, id) by {
            reveal(has_id);
            assert(ids.to_set().contains(id));
            let i = choose|i: int| 0 <= i < ids.len() && ids[i] == id;
            assert(edges@[i].event_id == id);
        }
    }
    edges
}

/// Merge per-channel event batches into one ordered edge list.
///
/// Event ids are one sequence across all pins, so ordering by them recovers the
/// true cross-channel order. The platform repeats events and serves old ones
/// again on every poll: of events with one id the first counts, and only ids
/// beyond `last_id` do. Falling edges are kept, so that
/// [`RisingEdgeDecoder::feed_batch`] can tally them.
///
/// Returns the edges and the new cursor, the highest id seen in any event.
pub fn merge_new_edge_events(batches: &[(Channel, &[RawDiEvent])], last_id: i64) -> (merged: (
    Vec<EdgeRecord>,
    i64,
))
    ensures
        is_merge_of(merged.0@, served(batches@), last_id),
        is_newest(merged.1, served(batches@), last_id),
{
    let mut seen: BTreeMap<i64, EdgeRecord> = BTreeMap::new();
    let mut newest: i64 = last_id;
    let ghost mut events: Seq<(Channel, RawDiEvent)> = Seq::empty();
    let mut b: usize = 0;
    assert(batches@.take(0) =~= Seq::empty());
    while b < batches.len()
        invariant
            b <= batches.len(),
            events == served(batches@.take(b as int)),
            holds_firsts(seen@, events, last_id),
            is_newest(newest, events, last_id),
        decreases batches.len() - b,
    {
        let channel: Channel = batches[b].0;
        let batch: &[RawDiEvent] = batches[b].1;
        let ghost before = events;
        let mut i: usize = 0;
        assert(before + batch@.take(0).map_values(|e: RawDiEvent| (channel, e)) =~= before);
        while i < batch.len()
            invariant
                i <= batch.len(),
                events == before + batch@.take(i as int).map_values(|e: RawDiEvent| (channel, e)),
                holds_firsts(seen@, events, last_id),
                is_newest(newest, events, last_id),
            decreases batch.len() - i,
        {
            let e: &RawDiEvent = &batch[i];
            let ghost old_events = events;
            let ghost old_seen = seen@;
            let ghost old_newest = newest;
            if e.event_id > newest {
                newest = e.event_id;
            }
            if e.event_id > last_id {
                if let Some(level) = event_level(e.event.as_str()) {
                    keep_first(
                        &mut seen,
                        EdgeRecord { event_id: e.event_id, channel, level, time_ms: e.time_ms },
                    );
                }
            }
            i = i + 1;
            proof {
                events = events.push((channel, *e));
                assert(batch@.take(i as int).map_values(|e: RawDiEvent| (channel, e)) =~= batch@.take(
                    i - 1,
                ).map_values(|e: RawDiEvent| (channel, e)).push((channel, *e)));
                assert(events =~= before + batch@.take(i as int).map_values(
                    |e: RawDiEvent| (channel, e),
                ));
                lemma_holds_firsts_push(old_seen, old_events, last_id, (channel, *e), seen@);
                lemma_newest_push(old_newest, old_events, last_id, (channel, *e));
            }
        }
        b = b + 1;
        proof {
            assert(batches@.take(b as int).drop_last() =~= batches@.take(b - 1));
            assert(batch@.take(i as int) =~= batch@);
        }
    }
    assert(batches@.take(b as int) =~= batches@);
    let edges: Vec<EdgeRecord> = values_by_id(&seen);
    proof {
        lemma_merge_of_firsts(edges@, seen@, events, last_id);
    }
    (edges, newest)
}

} // verus!
