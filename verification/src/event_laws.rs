//! What holds of polling the event log again and again.

use vstd::prelude::*;

use crate::events::{EdgeRecord, RawDiEvent};
#[allow(unused_imports)]
use crate::events::{
    edge_of, has_id, is_first_edge, is_first_of_id, is_merge_of, is_new_edge, is_newest,
};
use crate::quadrature::Channel;

verus! {

spec fn ascending(edges: Seq<EdgeRecord>) -> bool {
    forall|i: int, j: int|
        0 <= i < j < edges.len() ==> (#[trigger] edges[i]).event_id < (#[trigger] edges[j]).event_id
}

spec fn within(a: Seq<EdgeRecord>, b: Seq<EdgeRecord>) -> bool {
    forall|i: int| 0 <= i < a.len() ==> b.contains(#[trigger] a[i])
}

proof fn lemma_ascending_unique(a: Seq<EdgeRecord>, b: Seq<EdgeRecord>)
    requires
        ascending(a),
        ascending(b),
        within(a, b),
        within(b, a),
    ensures
        a == b,
    decreases a.len(),
{
    if a.len() == 0 {
        if b.len() > 0 {
            assert(a.contains(b[0]));
        }
        assert(a =~= b);
    } else {
        let p = choose|p: int| 0 <= p < b.len() && b[p] == a.last();
        assert(b.contains(a[a.len() - 1]));
        assert(a.contains(b[b.len() - 1]));
        let r = choose|r: int| 0 <= r < a.len() && a[r] == b.last();
        assert(p == b.len() - 1) by {
            if p < b.len() - 1 {
                assert(b[p].event_id < b[b.len() - 1].event_id);
                assert(r <= a.len() - 1);
            }
        }
        let x = a.drop_last();
        let y = b.drop_last();
        assert forall|i: int| 0 <= i < x.len() implies y.contains(#[trigger] x[i]) by {
            assert(b.contains(a[i]));
            let k = choose|k: int| 0 <= k < b.len() && b[k] == a[i];
            assert(a[i].event_id < a[a.len() - 1].event_id);
            assert(y[k] == x[i]);
        }
        assert forall|i: int| 0 <= i < y.len() implies x.contains(#[trigger] y[i]) by {
            assert(a.contains(b[i]));
            let k = choose|k: int| 0 <= k < a.len() && a[k] == b[i];
            assert(b[i].event_id < b[b.len() - 1].event_id);
            assert(x[k] == y[i]);
        }
        lemma_ascending_unique(x, y);
        assert(a =~= x.push(a.last()));
        assert(b =~= y.push(b.last()));
    }
}

proof fn lemma_first_edge_unique(
    x: EdgeRecord,
    y: EdgeRecord,
    events: Seq<(Channel, RawDiEvent)>,
    last_id: i64,
)
    requires
        is_first_edge(x, events, last_id),
        is_first_edge(y, events, last_id),
        x.event_id == y.event_id,
    ensures
        x == y,
{
    reveal(is_first_edge);
    let i = choose|j: int| #[trigger]
        is_first_of_id(events, last_id, j) && x == edge_of(events[j]);
    let j = choose|j: int| #[trigger]
        is_first_of_id(events, last_id, j) && y == edge_of(events[j]);
    assert(i == j) by {
        assert(is_new_edge(events[i], last_id));
        assert(is_new_edge(events[j], last_id));
    }
}

proof fn lemma_merge_within(
    a: Seq<EdgeRecord>,
    b: Seq<EdgeRecord>,
    events: Seq<(Channel, RawDiEvent)>,
    last_id: i64,
)
    requires
        is_merge_of(a, events, last_id),
        is_merge_of(b, events, last_id),
    ensures
        within(a, b),
{
    assert forall|i: int| 0 <= i < a.len() implies b.contains(#[trigger] a[i]) by {
        assert(is_first_edge(a[i], events, last_id));
        reveal(is_first_edge);
        reveal(has_id);
        let j = choose|j: int| #[trigger]
            is_first_of_id(events, last_id, j) && a[i] == edge_of(events[j]);
        assert(is_new_edge(events[j], last_id));
        assert(has_id(b, events[j].1.event_id));
        let k = choose|k: int|
            0 <= k < b.len() && (#[trigger] b[k]).event_id == events[j].1.event_id;
        lemma_first_edge_unique(a[i], b[k], events, last_id);
    }
}

/// The served events and the cursor leave no choice of the merged edges.
pub proof fn law_merge_is_determined(
    a: Seq<EdgeRecord>,
    b: Seq<EdgeRecord>,
    events: Seq<(Channel, RawDiEvent)>,
    last_id: i64,
)
    requires
        is_merge_of(a, events, last_id),
        is_merge_of(b, events, last_id),
    ensures
        a == b,
{
    lemma_merge_within(a, b, events, last_id);
    lemma_merge_within(b, a, events, last_id);
    lemma_ascending_unique(a, b);
}

/// The log re-serves its history forever. With the cursor that the last merge
/// gave, none of it is an edge again.
pub proof fn law_no_edge_twice(
    events: Seq<(Channel, RawDiEvent)>,
    last_id: i64,
    newest: i64,
    again: Seq<EdgeRecord>,
)
    requires
        is_newest(newest, events, last_id),
        is_merge_of(again, events, newest),
    ensures
        again.len() == 0,
{
    if again.len() > 0 {
        assert(is_first_edge(again[0], events, newest));
        reveal(is_first_edge);
        let j = choose|j: int| #[trigger]
            is_first_of_id(events, newest, j) && again[0] == edge_of(events[j]);
        assert(newest >= events[j].1.event_id);
    }
}

/// Two polls decode what one would have: where the log grew by events whose ids
/// lie above the first poll's cursor, the edges of the first poll followed by
/// those of the second are the edges of the whole log.
pub proof fn law_polls_add_up(
    earlier: Seq<(Channel, RawDiEvent)>,
    later: Seq<(Channel, RawDiEvent)>,
    last_id: i64,
    newest: i64,
    first: Seq<EdgeRecord>,
    second: Seq<EdgeRecord>,
)
    requires
        is_merge_of(first, earlier, last_id),
        is_newest(newest, earlier, last_id),
        forall|j: int| 0 <= j < later.len() ==> (#[trigger] later[j]).1.event_id > newest,
        is_merge_of(second, earlier + later, newest),
    ensures
        is_merge_of(first + second, earlier + later, last_id),
{
    let all = earlier + later;
    let edges = first + second;
    assert forall|i: int| 0 <= i < first.len() implies is_first_edge(
        #[trigger] first[i],
        all,
        last_id,
    ) && first[i].event_id <= newest by {
        assert(is_first_edge(first[i], earlier, last_id));
        reveal(is_first_edge);
        let j = choose|j: int| #[trigger]
            is_first_of_id(earlier, last_id, j) && first[i] == edge_of(earlier[j]);
        assert(all[j] == earlier[j]);
        assert forall|k: int| 0 <= k < j && is_new_edge(#[trigger] all[k], last_id) implies all[k].1.event_id
            != all[j].1.event_id by {
            assert(all[k] == earlier[k]);
        }
        assert(is_first_of_id(all, last_id, j));
        assert(newest >= earlier[j].1.event_id);
    }
    assert forall|i: int| 0 <= i < second.len() implies is_first_edge(
        #[trigger] second[i],
        all,
        last_id,
    ) && second[i].event_id > newest by {
        assert(is_first_edge(second[i], all, newest));
        reveal(is_first_edge);
        let j = choose|j: int| #[trigger]
            is_first_of_id(all, newest, j) && second[i] == edge_of(all[j]);
        assert forall|k: int| 0 <= k < j && is_new_edge(#[trigger] all[k], last_id) implies all[k].1.event_id
            != all[j].1.event_id by {
            if all[k].1.event_id > newest {
                assert(is_new_edge(all[k], newest));
            }
        }
        assert(is_first_of_id(all, last_id, j));
    }
    assert forall|i: int| 0 <= i < edges.len() implies is_first_edge(
        #[trigger] edges[i],
        all,
        last_id,
    ) by {
        if i < first.len() {
            assert(edges[i] == first[i]);
        } else {
            assert(edges[i] == second[i - first.len()]);
        }
    }
    assert forall|i: int, j: int| 0 <= i < j < edges.len() implies (#[trigger] edges[i]).event_id < (
    #[trigger] edges[j]).event_id by {
        if j < first.len() {
            assert(edges[i] == first[i] && edges[j] == first[j]);
        } else if i >= first.len() {
            assert(edges[i] == second[i - first.len()]);
            assert(edges[j] == second[j - first.len()]);
        } else {
            assert(edges[i] == first[i]);
            assert(edges[j] == second[j - first.len()]);
        }
    }
    assert forall|j: int| 0 <= j < all.len() && is_new_edge(#[trigger] all[j], last_id) implies has_id(
        edges,
        all[j].1.event_id,
    ) by {
        reveal(has_id);
        let id = all[j].1.event_id;
        if id > newest {
            assert(is_new_edge(all[j], newest));
            let k = choose|k: int| 0 <= k < second.len() && (#[trigger] second[k]).event_id == id;
            assert(edges[first.len() + k] == second[k]);
        } else {
            assert(all[j] == earlier[j]);
            assert(is_new_edge(earlier[j], last_id));
            let k = choose|k: int| 0 <= k < first.len() && (#[trigger] first[k]).event_id == id;
            assert(edges[k] == first[k]);
        }
    }
}

/// A merge never has more edges than events were served.
pub proof fn law_merge_is_no_longer(
    edges: Seq<EdgeRecord>,
    events: Seq<(Channel, RawDiEvent)>,
    last_id: i64,
)
    requires
        is_merge_of(edges, events, last_id),
    ensures
        edges.len() <= events.len(),
{
    let ids = edges.map_values(|e: EdgeRecord| e.event_id);
    let all = events.map_values(|e: (Channel, RawDiEvent)| e.1.event_id);
    assert(ids.no_duplicates()) by {
        assert forall|i: int, j: int| 0 <= i < ids.len() && 0 <= j < ids.len() && i != j implies ids[i]
            != ids[j] by {
            assert(ids[i] == edges[i].event_id && ids[j] == edges[j].event_id);
            if i < j {
                assert(edges[i].event_id < edges[j].event_id);
            } else {
                assert(edges[j].event_id < edges[i].event_id);
            }
        }
    }
    ids.unique_seq_to_set();
    all.lemma_cardinality_of_set();
    assert(ids.to_set().subset_of(all.to_set())) by {
        assert forall|id: i64| ids.to_set().contains(id) implies all.to_set().contains(id) by {
            let i = choose|i: int| 0 <= i < ids.len() && ids[i] == id;
            assert(is_first_edge(edges[i], events, last_id));
            reveal(is_first_edge);
            let j = choose|j: int| #[trigger]
                is_first_of_id(events, last_id, j) && edges[i] == edge_of(events[j]);
            assert(all[j] == id);
        }
    }
    vstd::set_lib::lemma_len_subset(ids.to_set(), all.to_set());
}

/// Whether two served events are repeats of one.
pub open spec fn alike(a: (Channel, RawDiEvent), b: (Channel, RawDiEvent)) -> bool {
    &&& a.0 == b.0
    &&& a.1.event_id == b.1.event_id
    &&& a.1.event@ == b.1.event@
    &&& a.1.time_ms == b.1.time_ms
}

/// Whether some event is a repeat of `e`.
pub open spec fn serves(events: Seq<(Channel, RawDiEvent)>, e: (Channel, RawDiEvent)) -> bool {
    exists|k: int| 0 <= k < events.len() && alike(#[trigger] events[k], e)
}

/// Whether every event of `a` is served in `b` too.
pub open spec fn served_in(
    a: Seq<(Channel, RawDiEvent)>,
    b: Seq<(Channel, RawDiEvent)>,
) -> bool {
    forall|i: int| 0 <= i < a.len() ==> serves(b, #[trigger] a[i])
}

/// Whether events of one id are repeats of one event.
pub open spec fn ids_are_unique(events: Seq<(Channel, RawDiEvent)>) -> bool {
    forall|i: int, j: int|
        0 <= i < events.len() && 0 <= j < events.len() && (#[trigger] events[i]).1.event_id == (
        #[trigger] events[j]).1.event_id ==> alike(events[i], events[j])
}

/// The first new edge with the id of the event at `m`.
proof fn lemma_has_first(events: Seq<(Channel, RawDiEvent)>, last_id: i64, m: int) -> (j: int)
    requires
        0 <= m < events.len(),
        is_new_edge(events[m], last_id),
    ensures
        is_first_of_id(events, last_id, j),
        events[j].1.event_id == events[m].1.event_id,
    decreases m,
{
    if is_first_of_id(events, last_id, m) {
        m
    } else {
        let k = choose|k: int|
            0 <= k < m && is_new_edge(#[trigger] events[k], last_id) && events[k].1.event_id
                == events[m].1.event_id;
        lemma_has_first(events, last_id, k)
    }
}

/// The merge does not depend on the order in which the log is served, nor on
/// how often an event is repeated, where events of one id are alike: two logs
/// that serve the same events give the same edges and the same cursor.
pub proof fn law_serving_order_is_irrelevant(
    a: Seq<(Channel, RawDiEvent)>,
    b: Seq<(Channel, RawDiEvent)>,
    last_id: i64,
    a_edges: Seq<EdgeRecord>,
    b_edges: Seq<EdgeRecord>,
    a_newest: i64,
    b_newest: i64,
)
    requires
        served_in(a, b),
        served_in(b, a),
        ids_are_unique(a),
        is_merge_of(a_edges, a, last_id),
        is_merge_of(b_edges, b, last_id),
        is_newest(a_newest, a, last_id),
        is_newest(b_newest, b, last_id),
    ensures
        a_edges == b_edges,
        a_newest == b_newest,
{
    lemma_merges_alike(a_edges, a_newest, a, b, last_id);
    law_merge_is_determined(a_edges, b_edges, b, last_id);
}

proof fn lemma_merges_alike(
    edges: Seq<EdgeRecord>,
    newest: i64,
    a: Seq<(Channel, RawDiEvent)>,
    b: Seq<(Channel, RawDiEvent)>,
    last_id: i64,
)
    requires
        served_in(a, b),
        served_in(b, a),
        ids_are_unique(a),
        is_merge_of(edges, a, last_id),
        is_newest(newest, a, last_id),
    ensures
        is_merge_of(edges, b, last_id),
        is_newest(newest, b, last_id),
{
    assert forall|i: int| 0 <= i < edges.len() implies is_first_edge(
        #[trigger] edges[i],
        b,
        last_id,
    ) by {
        assert(is_first_edge(edges[i], a, last_id));
        reveal(is_first_edge);
        let j = choose|j: int| #[trigger]
            is_first_of_id(a, last_id, j) && edges[i] == edge_of(a[j]);
        assert(serves(b, a[j]));
        let k = choose|k: int| 0 <= k < b.len() && alike(#[trigger] b[k], a[j]);
        assert(is_new_edge(b[k], last_id));
        let f = lemma_has_first(b, last_id, k);
        assert(serves(a, b[f]));
        let back = choose|back: int| 0 <= back < a.len() && alike(#[trigger] a[back], b[f]);
        assert(alike(a[back], a[j]));
        assert(edge_of(b[f]) == edges[i]);
    }
    assert forall|j: int| 0 <= j < b.len() && is_new_edge(#[trigger] b[j], last_id) implies has_id(
        edges,
        b[j].1.event_id,
    ) by {
        assert(serves(a, b[j]));
        let k = choose|k: int| 0 <= k < a.len() && alike(#[trigger] a[k], b[j]);
        assert(is_new_edge(a[k], last_id));
    }
    assert forall|j: int| 0 <= j < b.len() implies newest >= (#[trigger] b[j]).1.event_id by {
        assert(serves(a, b[j]));
        let k = choose|k: int| 0 <= k < a.len() && alike(#[trigger] a[k], b[j]);
    }
    if newest != last_id {
        let j = choose|j: int| 0 <= j < a.len() && newest == (#[trigger] a[j]).1.event_id;
        assert(serves(b, a[j]));
        let k = choose|k: int| 0 <= k < b.len() && alike(#[trigger] b[k], a[j]);
        assert(newest == b[k].1.event_id);
    }
}

} // verus!
