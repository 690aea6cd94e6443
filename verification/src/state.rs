//! The in-memory state that a pulse touches, and the snapshot that the publish
//! timer produces.
//!
//! A pulse only moves [`EncoderState`]: an integer bump and a few comparisons.
//! Heights, percentages, directions and speeds are derived on the publish
//! timer, decoupled from the edge rate.

use vstd::prelude::*;

use crate::json::{write_object, JsonField};
#[allow(unused_imports)]
use crate::json::{members, object_text, FieldValue};
use crate::quadrature::{Channel, RisingEdgeDecoder};
#[allow(unused_imports)]
use crate::quadrature::{Decoding, Rise};
use crate::ratio::Ratio;
#[allow(unused_imports)]
use crate::ratio::{fixed_text, lemma_in_range_is_writable, lemma_seconds_are_writable};

verus! {

/// Everything that a pulse may touch.
#[derive(Debug)]
pub struct EncoderState {
    pub decoder: RisingEdgeDecoder,
    /// Pulses delivered, across both channels.
    pub callbacks: u64,
    /// Pulses that reported a high level.
    pub pulses_reporting_high: u64,
    /// Whether the home switch is currently asserted.
    pub home_active: bool,
    /// Whether the count has ever been zeroed against the reference.
    pub homed: bool,
    /// Bumped on every home, so that the publish path notices the
    /// discontinuity of the count.
    pub home_epoch: u64,
    /// Arrival times in nanoseconds, where recording them is switched on.
    pub trace: Option<Vec<(Channel, i64)>>,
    /// Times a pulse stream ended and was established again.
    pub stream_reconnects: u64,
    /// Polled edges that were decoded.
    pub events_decoded: u64,
    /// Id of the newest polled event seen.
    pub event_cursor: i64,
    /// Polls that failed.
    pub poll_errors: u64,
}

/// Whether a trace, if any, grew by one arrival.
pub open spec fn trace_grew(
    before: Option<Vec<(Channel, i64)>>,
    after: Option<Vec<(Channel, i64)>>,
    channel: Channel,
    t: i64,
) -> bool {
    match before {
        Some(old_trace) => after matches Some(new_trace) && new_trace@ == old_trace@.push(
            (channel, t),
        ),
        None => after is None,
    }
}

impl EncoderState {
    pub open spec fn wf(&self) -> bool {
        self.decoder.wf()
    }

    /// Whether one more pulse leaves every counter within its type.
    pub open spec fn pulse_fits(&self) -> bool {
        &&& self.callbacks < u64::MAX
        &&& self.pulses_reporting_high < u64::MAX
        &&& self.decoder@.has_room(1)
    }

    /// Whether one more home leaves the epoch within its type.
    pub open spec fn home_fits(&self) -> bool {
        self.home_epoch < u64::MAX
    }

    /// Whether `after` is this state homed: the count is zero and no edge held,
    /// the rest of the decoder as it was, and the epoch moved on.
    pub open spec fn homes_to(&self, after: EncoderState) -> bool {
        &&& after.decoder@ == (Decoding { count: 0, unsigned: 0, ..self.decoder@ })
        &&& after == (EncoderState {
            decoder: after.decoder,
            homed: true,
            home_epoch: (self.home_epoch + 1) as u64,
            ..*self
        })
    }

    pub fn new(invert: bool) -> (state: EncoderState)
        ensures
            state.wf(),
            state.decoder@ == Decoding::fresh(invert),
            state == (EncoderState {
                decoder: state.decoder,
                callbacks: 0,
                pulses_reporting_high: 0,
                home_active: false,
                homed: false,
                home_epoch: 0,
                trace: None,
                stream_reconnects: 0,
                events_decoded: 0,
                event_cursor: 0,
                poll_errors: 0,
            }),
    {
        EncoderState {
            decoder: RisingEdgeDecoder::new(invert),
            callbacks: 0,
            pulses_reporting_high: 0,
            home_active: false,
            homed: false,
            home_epoch: 0,
            trace: None,
            stream_reconnects: 0,
            events_decoded: 0,
            event_cursor: 0,
            poll_errors: 0,
        }
    }

    /// Start recording pulse arrival times, with room for `capacity` of them.
    pub fn enable_trace(&mut self, capacity: usize)
        ensures
            final(self).trace matches Some(trace) && trace@.len() == 0,
            *final(self) == (EncoderState { trace: final(self).trace, ..*old(self) }),
    {
        self.trace = Some(Vec::with_capacity(capacity));
    }

    /// Re-zero the encoder against the reference.
    pub fn home(&mut self)
        requires
            old(self).wf(),
            old(self).home_fits(),
        ensures
            final(self).wf(),
            old(self).homes_to(*final(self)),
    {
        self.decoder.zero();
        self.homed = true;
        self.home_epoch = self.home_epoch + 1;
    }

    /// One pulse on `channel`, observed at `t`, with the hardware's period (not
    /// positive for none), the level it reported, and an external direction.
    pub fn pulse(&mut self, channel: Channel, t: i64, hint: i8, hw_period: i64, reports_high: bool)
        requires
            old(self).wf(),
            old(self).pulse_fits(),
        ensures
            final(self).wf(),
            final(self).decoder@ == old(self).decoder@.step(
                (Rise { channel, t: t as int, hint: hint as int, hw_period: hw_period as int }),
            ),
            trace_grew(old(self).trace, final(self).trace, channel, t),
            *final(self) == (EncoderState {
                decoder: final(self).decoder,
                callbacks: (old(self).callbacks + 1) as u64,
                pulses_reporting_high: if reports_high {
                    (old(self).pulses_reporting_high + 1) as u64
                } else {
                    old(self).pulses_reporting_high
                },
                trace: final(self).trace,
                ..*old(self)
            }),
    {
        self.callbacks = self.callbacks + 1;
        if reports_high {
            self.pulses_reporting_high = self.pulses_reporting_high + 1;
        }
        if let Some(trace) = &mut self.trace {
            trace.push((channel, t));
        }
        self.decoder.edge_with_period(channel, t, hint, hw_period);
    }

    /// An edge of the home switch: it now reads `level`. Only becoming active
    /// homes the encoder; staying so does not.
    pub fn home_edge(&mut self, level: bool, active_high: bool)
        requires
            old(self).wf(),
            old(self).home_fits(),
        ensures
            final(self).wf(),
            final(self).home_active == (level == active_high),
            level == active_high && !old(self).home_active ==> old(self).homes_to(
                (EncoderState { home_active: false, ..*final(self) }),
            ),
            level != active_high || old(self).home_active ==> *final(self) == (EncoderState {
                home_active: level == active_high,
                ..*old(self)
            }),
    {
        let active: bool = level == active_high;
        if active && !self.home_active {
            self.home();
        }
        self.home_active = active;
    }

    /// The home switch's level at start: a gate parked on the switch never
    /// produces an edge, so an active level homes at once.
    pub fn seed_home(&mut self, level: bool, active_high: bool)
        requires
            old(self).wf(),
            old(self).home_fits(),
        ensures
            final(self).wf(),
            final(self).home_active == (level == active_high),
            level == active_high ==> (EncoderState {
                home_active: true,
                ..*old(self)
            }).homes_to(*final(self)),
            level != active_high ==> *final(self) == (EncoderState {
                home_active: false,
                ..*old(self)
            }),
    {
        let active: bool = level == active_high;
        self.home_active = active;
        if active {
            self.home();
        }
    }

    /// Take over a count and a homed flag that were persisted. They can be
    /// trusted only if nothing moved meanwhile; the home switch zeroes
    /// the count on its next pass anyway. A count of zero is nothing to restore.
    pub fn restore(&mut self, count: Option<i64>, homed: Option<bool>)
        requires
            old(self).wf(),
        ensures
            final(self).wf(),
            final(self).decoder@ == (Decoding {
                count: match count {
                    Some(c) if c != 0 => c as int,
                    _ => old(self).decoder@.count,
                },
                ..old(self).decoder@
            }),
            *final(self) == (EncoderState {
                decoder: final(self).decoder,
                homed: match homed {
                    Some(h) => h,
                    None => old(self).homed,
                },
                ..*old(self)
            }),
    {
        if let Some(c) = count {
            if c != 0 {
                self.decoder.count = c;
            }
        }
        if let Some(h) = homed {
            self.homed = h;
        }
    }

    /// Clear the missed-edge counter, and nothing else.
    pub fn reset_missed(&mut self)
        requires
            old(self).wf(),
        ensures
            final(self).wf(),
            final(self).decoder@ == (Decoding { missed: 0, ..old(self).decoder@ }),
            *final(self) == (EncoderState { decoder: final(self).decoder, ..*old(self) }),
    {
        self.decoder.missed = 0;
    }

    /// A pulse stream ended, or could not be opened.
    pub fn note_reconnect(&mut self)
        requires
            old(self).stream_reconnects < u64::MAX,
        ensures
            *final(self) == (EncoderState {
                stream_reconnects: (old(self).stream_reconnects + 1) as u64,
                ..*old(self)
            }),
    {
        self.stream_reconnects = self.stream_reconnects + 1;
    }

    /// A poll of the event log failed.
    pub fn note_poll_error(&mut self)
        requires
            old(self).poll_errors < u64::MAX,
        ensures
            *final(self) == (EncoderState {
                poll_errors: (old(self).poll_errors + 1) as u64,
                ..*old(self)
            }),
    {
        self.poll_errors = self.poll_errors + 1;
    }
}

/// Exactly the numbers that were last published, served verbatim by the debug
/// endpoint. Quantities that are not counters are exact fractions.
#[derive(Debug, Clone, Copy)]
pub struct Snapshot {
    /// Time of the snapshot, in seconds since the Unix epoch.
    pub ts: Ratio,
    /// Signed position, in counts.
    pub count: i64,
    /// Signed revolutions of the target wheel.
    pub revolutions: Ratio,
    /// Signed revolutions per minute.
    pub rpm: Ratio,
    /// `cw`, `ccw` or `stopped`.
    pub rotation_direction: &'static str,
    /// Gate height, in millimetres.
    pub height_mm: Ratio,
    /// Share of gate travel, from 0 to 100.
    pub percent_open: Ratio,
    /// `opening`, `closing` or `stopped`.
    pub direction: &'static str,
    /// Speed without sign, in millimetres per minute.
    pub speed_mm_min: Ratio,
    /// Whether the count has been zeroed against the reference.
    pub homed: bool,
    /// Whether the home switch is asserted.
    pub home_switch: bool,
    /// Same-channel repeats.
    pub missed_edges: u64,
    /// Counts signed by a held direction rather than a measured one.
    pub ambiguous_edges: u64,
    /// Edges held out of the count.
    pub unsigned_edges: u64,
    /// Falling edges that still arrived.
    pub filtered_edges: u64,
    /// Edges whose period the hardware measured.
    pub hw_period_edges: u64,
    /// Edges for which the hardware offered no period.
    pub hw_period_missing: u64,
    /// Edges whose hardware and host periods disagreed.
    pub period_disagreements: u64,
    /// Pulse-stream reconnects.
    pub stream_reconnects: u64,
    /// Counts in one revolution of the target wheel.
    pub counts_per_rev: i64,
    /// Seconds since the encoder started.
    pub uptime_s: Ratio,
    /// `poll` or `stream`.
    pub input_mode: &'static str,
    /// How edges are decoded.
    pub edge_mode: &'static str,
    /// Pulses delivered.
    pub pulse_callbacks: u64,
    /// Pulses that reported a high level.
    pub pulses_reporting_high: u64,
    /// Polled edges that were decoded.
    pub events_decoded: u64,
    /// Id of the newest polled event seen.
    pub event_cursor: i64,
    /// Polls that failed.
    pub poll_errors: u64,
    /// Sign of the last decoded step.
    pub pulse_direction: i8,
    /// Seconds between publications.
    pub publish_interval_s: Ratio,
}

impl Default for Snapshot {
    fn default() -> (snap: Snapshot)
        ensures
            snap.wf(),
            snap.is_blank(),
    {
        proof {
            let nothing = Ratio { num: 0, den: 1 };
            lemma_in_range_is_writable(nothing, 1);
            lemma_in_range_is_writable(nothing, 2);
            lemma_in_range_is_writable(nothing, 3);
            lemma_in_range_is_writable(nothing, 4);
            lemma_seconds_are_writable(Ratio { num: 500_000_000, den: 1_000_000_000 });
        }
        Snapshot {
            ts: Ratio { num: 0, den: 1 },
            count: 0,
            revolutions: Ratio { num: 0, den: 1 },
            rpm: Ratio { num: 0, den: 1 },
            rotation_direction: "stopped",
            height_mm: Ratio { num: 0, den: 1 },
            percent_open: Ratio { num: 0, den: 1 },
            direction: "stopped",
            speed_mm_min: Ratio { num: 0, den: 1 },
            homed: false,
            home_switch: false,
            missed_edges: 0,
            ambiguous_edges: 0,
            unsigned_edges: 0,
            filtered_edges: 0,
            hw_period_edges: 0,
            hw_period_missing: 0,
            period_disagreements: 0,
            stream_reconnects: 0,
            counts_per_rev: 0,
            uptime_s: Ratio { num: 0, den: 1 },
            input_mode: "stream",
            edge_mode: "rising_2x",
            pulse_callbacks: 0,
            pulses_reporting_high: 0,
            events_decoded: 0,
            event_cursor: 0,
            poll_errors: 0,
            pulse_direction: 0,
            publish_interval_s: Ratio { num: 500_000_000, den: 1_000_000_000 },
        }
    }
}

/// The members that the debug endpoint serves for a snapshot: counters as they
/// are, and each fraction rounded to the decimals it is published with.
pub open spec fn snapshot_members(s: Snapshot) -> Seq<(Seq<char>, FieldValue)> {
    seq![
        ("ts"@, FieldValue::Decimal(fixed_text(s.ts, 3))),
        ("count"@, FieldValue::Int(s.count as int)),
        ("revolutions"@, FieldValue::Decimal(fixed_text(s.revolutions, 4))),
        ("rpm"@, FieldValue::Decimal(fixed_text(s.rpm, 1))),
        ("rotation_direction"@, FieldValue::Text(s.rotation_direction@)),
        ("height_mm"@, FieldValue::Decimal(fixed_text(s.height_mm, 2))),
        ("percent_open"@, FieldValue::Decimal(fixed_text(s.percent_open, 2))),
        ("direction"@, FieldValue::Text(s.direction@)),
        ("speed_mm_min"@, FieldValue::Decimal(fixed_text(s.speed_mm_min, 1))),
        ("homed"@, FieldValue::Flag(s.homed)),
        ("home_switch"@, FieldValue::Flag(s.home_switch)),
        ("missed_edges"@, FieldValue::Int(s.missed_edges as int)),
        ("ambiguous_edges"@, FieldValue::Int(s.ambiguous_edges as int)),
        ("unsigned_edges"@, FieldValue::Int(s.unsigned_edges as int)),
        ("filtered_edges"@, FieldValue::Int(s.filtered_edges as int)),
        ("hw_period_edges"@, FieldValue::Int(s.hw_period_edges as int)),
        ("hw_period_missing"@, FieldValue::Int(s.hw_period_missing as int)),
        ("period_disagreements"@, FieldValue::Int(s.period_disagreements as int)),
        ("stream_reconnects"@, FieldValue::Int(s.stream_reconnects as int)),
        ("counts_per_rev"@, FieldValue::Int(s.counts_per_rev as int)),
        ("uptime_s"@, FieldValue::Decimal(fixed_text(s.uptime_s, 1))),
        ("input_mode"@, FieldValue::Text(s.input_mode@)),
        ("edge_mode"@, FieldValue::Text(s.edge_mode@)),
        ("pulse_callbacks"@, FieldValue::Int(s.pulse_callbacks as int)),
        ("pulses_reporting_high"@, FieldValue::Int(s.pulses_reporting_high as int)),
        ("events_decoded"@, FieldValue::Int(s.events_decoded as int)),
        ("event_cursor"@, FieldValue::Int(s.event_cursor as int)),
        ("poll_errors"@, FieldValue::Int(s.poll_errors as int)),
        ("pulse_direction"@, FieldValue::Int(s.pulse_direction as int)),
        ("publish_interval_s"@, FieldValue::Decimal(fixed_text(s.publish_interval_s, 9))),
    ]
}

impl Snapshot {
    /// Every fraction can be written out.
    pub open spec fn wf(&self) -> bool {
        &&& self.ts.writable(3)
        &&& self.revolutions.writable(4)
        &&& i64::MIN <= self.revolutions.num <= i64::MAX
        &&& self.rpm.writable(1)
        &&& self.height_mm.writable(2)
        &&& self.percent_open.writable(2)
        &&& self.speed_mm_min.writable(1)
        &&& self.uptime_s.writable(1)
        &&& self.publish_interval_s.writable(9)
    }

    /// Before anything was published.
    pub open spec fn is_blank(&self) -> bool {
        &&& self.ts == (Ratio { num: 0, den: 1 })
        &&& self.count == 0
        &&& self.revolutions == (Ratio { num: 0, den: 1 })
        &&& self.rpm == (Ratio { num: 0, den: 1 })
        &&& self.rotation_direction@ == "stopped"@
        &&& self.height_mm == (Ratio { num: 0, den: 1 })
        &&& self.percent_open == (Ratio { num: 0, den: 1 })
        &&& self.direction@ == "stopped"@
        &&& self.speed_mm_min == (Ratio { num: 0, den: 1 })
        &&& self.homed == false
        &&& self.home_switch == false
        &&& self.missed_edges == 0
        &&& self.ambiguous_edges == 0
        &&& self.unsigned_edges == 0
        &&& self.filtered_edges == 0
        &&& self.hw_period_edges == 0
        &&& self.hw_period_missing == 0
        &&& self.period_disagreements == 0
        &&& self.stream_reconnects == 0
        &&& self.counts_per_rev == 0
        &&& self.uptime_s == (Ratio { num: 0, den: 1 })
        &&& self.input_mode@ == "stream"@
        &&& self.edge_mode@ == "rising_2x"@
        &&& self.pulse_callbacks == 0
        &&& self.pulses_reporting_high == 0
        &&& self.events_decoded == 0
        &&& self.event_cursor == 0
        &&& self.poll_errors == 0
        &&& self.pulse_direction == 0
        &&& self.publish_interval_s == (Ratio { num: 500_000_000, den: 1_000_000_000 })
    }

    /// The members of [`to_json`](Self::to_json), in the order of the fields.
    pub fn fields(&self) -> (fields: Vec<(&'static str, JsonField)>)
        requires
            self.wf(),
        ensures
            members(fields@) == snapshot_members(*self),
    {
        let mut fields: Vec<(&'static str, JsonField)> = Vec::new();
        fields.push(("ts", JsonField::Decimal(self.ts.fixed(3))));
        fields.push(("count", JsonField::Int(self.count)));
        fields.push(("revolutions", JsonField::Decimal(self.revolutions.fixed(4))));
        fields.push(("rpm", JsonField::Decimal(self.rpm.fixed(1))));
        fields.push(("rotation_direction", JsonField::Text(self.rotation_direction)));
        fields.push(("height_mm", JsonField::Decimal(self.height_mm.fixed(2))));
        fields.push(("percent_open", JsonField::Decimal(self.percent_open.fixed(2))));
        fields.push(("direction", JsonField::Text(self.direction)));
        fields.push(("speed_mm_min", JsonField::Decimal(self.speed_mm_min.fixed(1))));
        fields.push(("homed", JsonField::Flag(self.homed)));
        fields.push(("home_switch", JsonField::Flag(self.home_switch)));
        fields.push(("missed_edges", JsonField::Uint(self.missed_edges)));
        fields.push(("ambiguous_edges", JsonField::Uint(self.ambiguous_edges)));
        fields.push(("unsigned_edges", JsonField::Uint(self.unsigned_edges)));
        fields.push(("filtered_edges", JsonField::Uint(self.filtered_edges)));
        fields.push(("hw_period_edges", JsonField::Uint(self.hw_period_edges)));
        fields.push(("hw_period_missing", JsonField::Uint(self.hw_period_missing)));
        fields.push(("period_disagreements", JsonField::Uint(self.period_disagreements)));
        fields.push(("stream_reconnects", JsonField::Uint(self.stream_reconnects)));
        fields.push(("counts_per_rev", JsonField::Int(self.counts_per_rev)));
        fields.push(("uptime_s", JsonField::Decimal(self.uptime_s.fixed(1))));
        fields.push(("input_mode", JsonField::Text(self.input_mode)));
        fields.push(("edge_mode", JsonField::Text(self.edge_mode)));
        fields.push(("pulse_callbacks", JsonField::Uint(self.pulse_callbacks)));
        fields.push(("pulses_reporting_high", JsonField::Uint(self.pulses_reporting_high)));
        fields.push(("events_decoded", JsonField::Uint(self.events_decoded)));
        fields.push(("event_cursor", JsonField::Int(self.event_cursor)));
        fields.push(("poll_errors", JsonField::Uint(self.poll_errors)));
        fields.push(("pulse_direction", JsonField::Int(self.pulse_direction as i64)));
        fields.push(("publish_interval_s", JsonField::Decimal(self.publish_interval_s.fixed(9))));
        assert(members(fields@) =~= snapshot_members(*self));
        fields
    }

    /// The JSON body that the debug endpoint serves.
    pub fn to_json(&self) -> (text: String)
        requires
            self.wf(),
        ensures
            text@ == object_text(snapshot_members(*self)),
    {
        write_object(&self.fields())
    }
}

} // verus!
