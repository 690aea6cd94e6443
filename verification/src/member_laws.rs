//! What the debug endpoint serves of a snapshot, key by key.

use vstd::prelude::*;

#[allow(unused_imports)]
use crate::encoder::EncoderCore;
use crate::json::{members, FieldValue, JsonField};
#[allow(unused_imports)]
use crate::ratio::fixed_text;
use crate::state::Snapshot;
#[allow(unused_imports)]
use crate::state::snapshot_members;

verus! {

/// Whether an object holds `value` under `key`, and nothing else under it.
pub open spec fn holds(
    members: Seq<(Seq<char>, FieldValue)>,
    key: Seq<char>,
    value: FieldValue,
) -> bool {
    &&& exists|i: int| 0 <= i < members.len() && #[trigger] members[i] == (key, value)
    &&& forall|i: int|
        0 <= i < members.len() && (#[trigger] members[i]).0 == key ==> members[i].1 == value
}

/// Where a key stands among those of a snapshot.
spec fn place_of(key: Seq<char>) -> int {
    if key == "ts"@ {
        0
    } else if key == "count"@ {
        1
    } else if key == "revolutions"@ {
        2
    } else if key == "rpm"@ {
        3
    } else if key == "rotation_direction"@ {
        4
    } else if key == "height_mm"@ {
        5
    } else if key == "percent_open"@ {
        6
    } else if key == "direction"@ {
        7
    } else if key == "speed_mm_min"@ {
        8
    } else if key == "homed"@ {
        9
    } else if key == "home_switch"@ {
        10
    } else if key == "missed_edges"@ {
        11
    } else if key == "ambiguous_edges"@ {
        12
    } else if key == "unsigned_edges"@ {
        13
    } else if key == "filtered_edges"@ {
        14
    } else if key == "hw_period_edges"@ {
        15
    } else if key == "hw_period_missing"@ {
        16
    } else if key == "period_disagreements"@ {
        17
    } else if key == "stream_reconnects"@ {
        18
    } else if key == "counts_per_rev"@ {
        19
    } else if key == "uptime_s"@ {
        20
    } else if key == "input_mode"@ {
        21
    } else if key == "edge_mode"@ {
        22
    } else if key == "pulse_callbacks"@ {
        23
    } else if key == "pulses_reporting_high"@ {
        24
    } else if key == "events_decoded"@ {
        25
    } else if key == "event_cursor"@ {
        26
    } else if key == "poll_errors"@ {
        27
    } else if key == "pulse_direction"@ {
        28
    } else if key == "publish_interval_s"@ {
        29
    } else {
        -1
    }
}

proof fn lemma_places()
    ensures
        place_of("ts"@) == 0,
        place_of("count"@) == 1,
        place_of("revolutions"@) == 2,
        place_of("rpm"@) == 3,
        place_of("rotation_direction"@) == 4,
        place_of("height_mm"@) == 5,
        place_of("percent_open"@) == 6,
        place_of("direction"@) == 7,
        place_of("speed_mm_min"@) == 8,
        place_of("homed"@) == 9,
        place_of("home_switch"@) == 10,
        place_of("missed_edges"@) == 11,
        place_of("ambiguous_edges"@) == 12,
        place_of("unsigned_edges"@) == 13,
        place_of("filtered_edges"@) == 14,
        place_of("hw_period_edges"@) == 15,
        place_of("hw_period_missing"@) == 16,
        place_of("period_disagreements"@) == 17,
        place_of("stream_reconnects"@) == 18,
        place_of("counts_per_rev"@) == 19,
        place_of("uptime_s"@) == 20,
        place_of("input_mode"@) == 21,
        place_of("edge_mode"@) == 22,
        place_of("pulse_callbacks"@) == 23,
        place_of("pulses_reporting_high"@) == 24,
        place_of("events_decoded"@) == 25,
        place_of("event_cursor"@) == 26,
        place_of("poll_errors"@) == 27,
        place_of("pulse_direction"@) == 28,
        place_of("publish_interval_s"@) == 29,
{
    reveal_strlit("ts");
    reveal_strlit("count");
    reveal_strlit("revolutions");
    reveal_strlit("rpm");
    reveal_strlit("rotation_direction");
    reveal_strlit("height_mm");
    reveal_strlit("percent_open");
    reveal_strlit("direction");
    reveal_strlit("speed_mm_min");
    reveal_strlit("homed");
    reveal_strlit("home_switch");
    reveal_strlit("missed_edges");
    reveal_strlit("ambiguous_edges");
    reveal_strlit("unsigned_edges");
    reveal_strlit("filtered_edges");
    reveal_strlit("hw_period_edges");
    reveal_strlit("hw_period_missing");
    reveal_strlit("period_disagreements");
    reveal_strlit("stream_reconnects");
    reveal_strlit("counts_per_rev");
    reveal_strlit("uptime_s");
    reveal_strlit("input_mode");
    reveal_strlit("edge_mode");
    reveal_strlit("pulse_callbacks");
    reveal_strlit("pulses_reporting_high");
    reveal_strlit("events_decoded");
    reveal_strlit("event_cursor");
    reveal_strlit("poll_errors");
    reveal_strlit("pulse_direction");
    reveal_strlit("publish_interval_s");
    assert("count"@[0] == 'c' && "homed"@[0] == 'h');
    assert("revolutions"@[0] == 'r' && "home_switch"@[0] == 'h');
    assert("revolutions"@[0] == 'r' && "poll_errors"@[0] == 'p');
    assert("home_switch"@[0] == 'h' && "poll_errors"@[0] == 'p');
    assert("rotation_direction"@[0] == 'r' && "publish_interval_s"@[0] == 'p');
    assert("height_mm"@[0] == 'h' && "direction"@[0] == 'd');
    assert("height_mm"@[0] == 'h' && "edge_mode"@[0] == 'e');
    assert("direction"@[0] == 'd' && "edge_mode"@[0] == 'e');
    assert("percent_open"@[0] == 'p' && "speed_mm_min"@[0] == 's');
    assert("percent_open"@[0] == 'p' && "missed_edges"@[0] == 'm');
    assert("percent_open"@[0] == 'p' && "event_cursor"@[0] == 'e');
    assert("speed_mm_min"@[0] == 's' && "missed_edges"@[0] == 'm');
    assert("speed_mm_min"@[0] == 's' && "event_cursor"@[0] == 'e');
    assert("missed_edges"@[0] == 'm' && "event_cursor"@[0] == 'e');
    assert("ambiguous_edges"@[0] == 'a' && "hw_period_edges"@[0] == 'h');
    assert("ambiguous_edges"@[0] == 'a' && "pulse_callbacks"@[0] == 'p');
    assert("ambiguous_edges"@[0] == 'a' && "pulse_direction"@[0] == 'p');
    assert("hw_period_edges"@[0] == 'h' && "pulse_callbacks"@[0] == 'p');
    assert("hw_period_edges"@[0] == 'h' && "pulse_direction"@[0] == 'p');
    assert("pulse_callbacks"@[6] == 'c' && "pulse_direction"@[6] == 'd');
    assert("unsigned_edges"@[0] == 'u' && "filtered_edges"@[0] == 'f');
    assert("unsigned_edges"@[0] == 'u' && "counts_per_rev"@[0] == 'c');
    assert("unsigned_edges"@[0] == 'u' && "events_decoded"@[0] == 'e');
    assert("filtered_edges"@[0] == 'f' && "counts_per_rev"@[0] == 'c');
    assert("filtered_edges"@[0] == 'f' && "events_decoded"@[0] == 'e');
    assert("counts_per_rev"@[0] == 'c' && "events_decoded"@[0] == 'e');
    assert("hw_period_missing"@[0] == 'h' && "stream_reconnects"@[0] == 's');
    assert("ts"@.len() == 2);
    assert("count"@.len() == 5);
    assert("revolutions"@.len() == 11);
    assert("rpm"@.len() == 3);
    assert("rotation_direction"@.len() == 18);
    assert("height_mm"@.len() == 9);
    assert("percent_open"@.len() == 12);
    assert("direction"@.len() == 9);
    assert("speed_mm_min"@.len() == 12);
    assert("homed"@.len() == 5);
    assert("home_switch"@.len() == 11);
    assert("missed_edges"@.len() == 12);
    assert("ambiguous_edges"@.len() == 15);
    assert("unsigned_edges"@.len() == 14);
    assert("filtered_edges"@.len() == 14);
    assert("hw_period_edges"@.len() == 15);
    assert("hw_period_missing"@.len() == 17);
    assert("period_disagreements"@.len() == 20);
    assert("stream_reconnects"@.len() == 17);
    assert("counts_per_rev"@.len() == 14);
    assert("uptime_s"@.len() == 8);
    assert("input_mode"@.len() == 10);
    assert("edge_mode"@.len() == 9);
    assert("pulse_callbacks"@.len() == 15);
    assert("pulses_reporting_high"@.len() == 21);
    assert("events_decoded"@.len() == 14);
    assert("event_cursor"@.len() == 12);
    assert("poll_errors"@.len() == 11);
    assert("pulse_direction"@.len() == 15);
    assert("publish_interval_s"@.len() == 18);
}

proof fn lemma_keys_differ(s: Snapshot)
    ensures
        snapshot_members(s).len() == 30,
        forall|i: int, j: int|
            0 <= i < 30 && 0 <= j < 30 && (#[trigger] snapshot_members(s)[i]).0 == (
            #[trigger] snapshot_members(s)[j]).0 ==> i == j,
{
    let m = snapshot_members(s);
    lemma_places();
    assert forall|i: int| 0 <= i < 30 implies place_of((#[trigger] m[i]).0) == i by {
        assert(m[0].0 == "ts"@);
        assert(m[1].0 == "count"@);
        assert(m[2].0 == "revolutions"@);
        assert(m[3].0 == "rpm"@);
        assert(m[4].0 == "rotation_direction"@);
        assert(m[5].0 == "height_mm"@);
        assert(m[6].0 == "percent_open"@);
        assert(m[7].0 == "direction"@);
        assert(m[8].0 == "speed_mm_min"@);
        assert(m[9].0 == "homed"@);
        assert(m[10].0 == "home_switch"@);
        assert(m[11].0 == "missed_edges"@);
        assert(m[12].0 == "ambiguous_edges"@);
        assert(m[13].0 == "unsigned_edges"@);
        assert(m[14].0 == "filtered_edges"@);
        assert(m[15].0 == "hw_period_edges"@);
        assert(m[16].0 == "hw_period_missing"@);
        assert(m[17].0 == "period_disagreements"@);
        assert(m[18].0 == "stream_reconnects"@);
        assert(m[19].0 == "counts_per_rev"@);
        assert(m[20].0 == "uptime_s"@);
        assert(m[21].0 == "input_mode"@);
        assert(m[22].0 == "edge_mode"@);
        assert(m[23].0 == "pulse_callbacks"@);
        assert(m[24].0 == "pulses_reporting_high"@);
        assert(m[25].0 == "events_decoded"@);
        assert(m[26].0 == "event_cursor"@);
        assert(m[27].0 == "poll_errors"@);
        assert(m[28].0 == "pulse_direction"@);
        assert(m[29].0 == "publish_interval_s"@);
    }
}

proof fn lemma_holds_at(s: Snapshot, i: int, key: Seq<char>, value: FieldValue)
    requires
        0 <= i < 30,
        snapshot_members(s)[i] == (key, value),
    ensures
        holds(snapshot_members(s), key, value),
{
    lemma_keys_differ(s);
}

/// Under each key of the body that the endpoint serves for a snapshot stands
/// the field of that name: counters, flags and words as they are, and fractions
/// written with as many decimals as are served of each.
pub proof fn law_keys_hold_their_fields(s: Snapshot)
    ensures
        snapshot_members(s).len() == 30,
        holds(snapshot_members(s), "ts"@, FieldValue::Decimal(fixed_text(s.ts, 3))),
        holds(snapshot_members(s), "count"@, FieldValue::Int(s.count as int)),
        holds(snapshot_members(s), "revolutions"@, FieldValue::Decimal(fixed_text(s.revolutions, 4))),
        holds(snapshot_members(s), "rpm"@, FieldValue::Decimal(fixed_text(s.rpm, 1))),
        holds(snapshot_members(s), "rotation_direction"@, FieldValue::Text(s.rotation_direction@)),
        holds(snapshot_members(s), "height_mm"@, FieldValue::Decimal(fixed_text(s.height_mm, 2))),
        holds(snapshot_members(s), "percent_open"@, FieldValue::Decimal(fixed_text(s.percent_open, 2))),
        holds(snapshot_members(s), "direction"@, FieldValue::Text(s.direction@)),
        holds(snapshot_members(s), "speed_mm_min"@, FieldValue::Decimal(fixed_text(s.speed_mm_min, 1))),
        holds(snapshot_members(s), "homed"@, FieldValue::Flag(s.homed)),
        holds(snapshot_members(s), "home_switch"@, FieldValue::Flag(s.home_switch)),
        holds(snapshot_members(s), "missed_edges"@, FieldValue::Int(s.missed_edges as int)),
        holds(snapshot_members(s), "ambiguous_edges"@, FieldValue::Int(s.ambiguous_edges as int)),
        holds(snapshot_members(s), "unsigned_edges"@, FieldValue::Int(s.unsigned_edges as int)),
        holds(snapshot_members(s), "filtered_edges"@, FieldValue::Int(s.filtered_edges as int)),
        holds(snapshot_members(s), "hw_period_edges"@, FieldValue::Int(s.hw_period_edges as int)),
        holds(snapshot_members(s), "hw_period_missing"@, FieldValue::Int(s.hw_period_missing as int)),
        holds(snapshot_members(s), "period_disagreements"@, FieldValue::Int(s.period_disagreements as int)),
        holds(snapshot_members(s), "stream_reconnects"@, FieldValue::Int(s.stream_reconnects as int)),
        holds(snapshot_members(s), "counts_per_rev"@, FieldValue::Int(s.counts_per_rev as int)),
        holds(snapshot_members(s), "uptime_s"@, FieldValue::Decimal(fixed_text(s.uptime_s, 1))),
        holds(snapshot_members(s), "input_mode"@, FieldValue::Text(s.input_mode@)),
        holds(snapshot_members(s), "edge_mode"@, FieldValue::Text(s.edge_mode@)),
        holds(snapshot_members(s), "pulse_callbacks"@, FieldValue::Int(s.pulse_callbacks as int)),
        holds(snapshot_members(s), "pulses_reporting_high"@, FieldValue::Int(s.pulses_reporting_high as int)),
        holds(snapshot_members(s), "events_decoded"@, FieldValue::Int(s.events_decoded as int)),
        holds(snapshot_members(s), "event_cursor"@, FieldValue::Int(s.event_cursor as int)),
        holds(snapshot_members(s), "poll_errors"@, FieldValue::Int(s.poll_errors as int)),
        holds(snapshot_members(s), "pulse_direction"@, FieldValue::Int(s.pulse_direction as int)),
        holds(snapshot_members(s), "publish_interval_s"@, FieldValue::Decimal(fixed_text(s.publish_interval_s, 9))),
{
    lemma_keys_differ(s);
    lemma_holds_at(s, 0, "ts"@, FieldValue::Decimal(fixed_text(s.ts, 3)));
    lemma_holds_at(s, 1, "count"@, FieldValue::Int(s.count as int));
    lemma_holds_at(s, 2, "revolutions"@, FieldValue::Decimal(fixed_text(s.revolutions, 4)));
    lemma_holds_at(s, 3, "rpm"@, FieldValue::Decimal(fixed_text(s.rpm, 1)));
    lemma_holds_at(s, 4, "rotation_direction"@, FieldValue::Text(s.rotation_direction@));
    lemma_holds_at(s, 5, "height_mm"@, FieldValue::Decimal(fixed_text(s.height_mm, 2)));
    lemma_holds_at(s, 6, "percent_open"@, FieldValue::Decimal(fixed_text(s.percent_open, 2)));
    lemma_holds_at(s, 7, "direction"@, FieldValue::Text(s.direction@));
    lemma_holds_at(s, 8, "speed_mm_min"@, FieldValue::Decimal(fixed_text(s.speed_mm_min, 1)));
    lemma_holds_at(s, 9, "homed"@, FieldValue::Flag(s.homed));
    lemma_holds_at(s, 10, "home_switch"@, FieldValue::Flag(s.home_switch));
    lemma_holds_at(s, 11, "missed_edges"@, FieldValue::Int(s.missed_edges as int));
    lemma_holds_at(s, 12, "ambiguous_edges"@, FieldValue::Int(s.ambiguous_edges as int));
    lemma_holds_at(s, 13, "unsigned_edges"@, FieldValue::Int(s.unsigned_edges as int));
    lemma_holds_at(s, 14, "filtered_edges"@, FieldValue::Int(s.filtered_edges as int));
    lemma_holds_at(s, 15, "hw_period_edges"@, FieldValue::Int(s.hw_period_edges as int));
    lemma_holds_at(s, 16, "hw_period_missing"@, FieldValue::Int(s.hw_period_missing as int));
    lemma_holds_at(s, 17, "period_disagreements"@, FieldValue::Int(s.period_disagreements as int));
    lemma_holds_at(s, 18, "stream_reconnects"@, FieldValue::Int(s.stream_reconnects as int));
    lemma_holds_at(s, 19, "counts_per_rev"@, FieldValue::Int(s.counts_per_rev as int));
    lemma_holds_at(s, 20, "uptime_s"@, FieldValue::Decimal(fixed_text(s.uptime_s, 1)));
    lemma_holds_at(s, 21, "input_mode"@, FieldValue::Text(s.input_mode@));
    lemma_holds_at(s, 22, "edge_mode"@, FieldValue::Text(s.edge_mode@));
    lemma_holds_at(s, 23, "pulse_callbacks"@, FieldValue::Int(s.pulse_callbacks as int));
    lemma_holds_at(s, 24, "pulses_reporting_high"@, FieldValue::Int(s.pulses_reporting_high as int));
    lemma_holds_at(s, 25, "events_decoded"@, FieldValue::Int(s.events_decoded as int));
    lemma_holds_at(s, 26, "event_cursor"@, FieldValue::Int(s.event_cursor as int));
    lemma_holds_at(s, 27, "poll_errors"@, FieldValue::Int(s.poll_errors as int));
    lemma_holds_at(s, 28, "pulse_direction"@, FieldValue::Int(s.pulse_direction as int));
    lemma_holds_at(s, 29, "publish_interval_s"@, FieldValue::Decimal(fixed_text(s.publish_interval_s, 9)));
}

/// The members come in a fixed order, whatever the snapshot holds.
pub proof fn law_keys_come_in_order(s: Snapshot)
    ensures
        snapshot_members(s)[0].0 == "ts"@,
        snapshot_members(s)[1].0 == "count"@,
        snapshot_members(s)[2].0 == "revolutions"@,
        snapshot_members(s)[3].0 == "rpm"@,
        snapshot_members(s)[4].0 == "rotation_direction"@,
        snapshot_members(s)[5].0 == "height_mm"@,
        snapshot_members(s)[6].0 == "percent_open"@,
        snapshot_members(s)[7].0 == "direction"@,
        snapshot_members(s)[8].0 == "speed_mm_min"@,
        snapshot_members(s)[9].0 == "homed"@,
        snapshot_members(s)[10].0 == "home_switch"@,
        snapshot_members(s)[11].0 == "missed_edges"@,
        snapshot_members(s)[12].0 == "ambiguous_edges"@,
        snapshot_members(s)[13].0 == "unsigned_edges"@,
        snapshot_members(s)[14].0 == "filtered_edges"@,
        snapshot_members(s)[15].0 == "hw_period_edges"@,
        snapshot_members(s)[16].0 == "hw_period_missing"@,
        snapshot_members(s)[17].0 == "period_disagreements"@,
        snapshot_members(s)[18].0 == "stream_reconnects"@,
        snapshot_members(s)[19].0 == "counts_per_rev"@,
        snapshot_members(s)[20].0 == "uptime_s"@,
        snapshot_members(s)[21].0 == "input_mode"@,
        snapshot_members(s)[22].0 == "edge_mode"@,
        snapshot_members(s)[23].0 == "pulse_callbacks"@,
        snapshot_members(s)[24].0 == "pulses_reporting_high"@,
        snapshot_members(s)[25].0 == "events_decoded"@,
        snapshot_members(s)[26].0 == "event_cursor"@,
        snapshot_members(s)[27].0 == "poll_errors"@,
        snapshot_members(s)[28].0 == "pulse_direction"@,
        snapshot_members(s)[29].0 == "publish_interval_s"@,
{
}

/// Served under `direction` is the sense of travel: after a publication in
/// which the count rose since the one before, without a home between them, it
/// is opening; in which it fell, closing; and else, or after a home, stopped.
pub proof fn law_direction_is_served(
    first: EncoderCore,
    published: EncoderCore,
    later: EncoderCore,
    snap: Snapshot,
    then: i64,
    now: i64,
    mono: i64,
)
    requires
        first.derived_to(published, then as int),
        published.moved_to(later),
        later.shown_by(snap, now as int, mono as int),
    ensures
        ({
            let from = first.handles.state;
            let to = later.handles.state;
            let members = snapshot_members(snap);
            &&& from.home_epoch == to.home_epoch && to.decoder@.count > from.decoder@.count
                ==> holds(members, "direction"@, FieldValue::Text("opening"@))
            &&& from.home_epoch == to.home_epoch && to.decoder@.count < from.decoder@.count
                ==> holds(members, "direction"@, FieldValue::Text("closing"@))
            &&& from.home_epoch != to.home_epoch || to.decoder@.count == from.decoder@.count
                ==> holds(members, "direction"@, FieldValue::Text("stopped"@))
        }),
{
    law_keys_hold_their_fields(snap);
    assert(later.last_home_epoch == first.handles.state.home_epoch);
    assert(later.last_count == first.handles.state.decoder.count);
}

/// An object's members are its fields in their order, each under its own key and
/// with its own value; a number is the same number, signed or not.
pub proof fn law_members_are_the_fields(fields: Seq<(&'static str, JsonField)>, i: int)
    requires
        0 <= i < fields.len(),
    ensures
        members(fields).len() == fields.len(),
        members(fields)[i].0 == fields[i].0@,
        match fields[i].1 {
            JsonField::Int(n) => members(fields)[i].1 == FieldValue::Int(n as int),
            JsonField::Uint(n) => members(fields)[i].1 == FieldValue::Int(n as int),
            JsonField::Flag(b) => members(fields)[i].1 == FieldValue::Flag(b),
            JsonField::Text(t) => members(fields)[i].1 == FieldValue::Text(t@),
            JsonField::Decimal(t) => members(fields)[i].1 == FieldValue::Decimal(t@),
        },
{
}

} // verus!
