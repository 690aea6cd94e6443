//! The tags that are published for other apps.
//!
//! `Height` is the headline output. `Heartbeat` changes with every publication,
//! so that a reader can tell a live feed from a frozen one, and `Homed` tells
//! whether the height can be trusted yet. A missed edge is a rise that never
//! arrived; an ambiguous one arrived, but its direction could not be measured.

use vstd::prelude::*;

use crate::ratio::Ratio;
#[allow(unused_imports)]
use crate::ratio::{nearest_away, pow10};
#[allow(unused_imports)]
use crate::ratio_laws::{law_places_are_tenths, law_rounding_is_half_away};
use crate::state::Snapshot;

verus! {

#[allow(non_snake_case)]
#[derive(Debug, Clone, Copy)]
pub struct ChannelGateEncoderTags {
    /// Gate height, in millimetres.
    pub Height: Ratio,
    /// Percent of gate travel.
    pub PercentOpen: Ratio,
    /// Signed rising edges.
    pub RawCount: i64,
    /// Whether the count has been zeroed against the reference.
    pub Homed: bool,
    /// `opening`, `closing` or `stopped`.
    pub Direction: &'static str,
    /// Millimetres per minute.
    pub Speed: Ratio,
    /// Whether the limit switch is asserted.
    pub HomeSwitch: bool,
    /// Same-channel repeats.
    pub MissedEdges: i64,
    /// Counts of unknown sign.
    pub AmbiguousEdges: i64,
    /// Seconds since the Unix epoch.
    pub Heartbeat: Ratio,
    /// Signed revolutions since zero, to four decimals.
    pub Revolutions: Ratio,
    /// Signed rpm; positive is clockwise.
    pub RPM: Ratio,
    /// `cw`, `ccw` or `stopped`.
    pub RotationDirection: &'static str,
}

impl ChannelGateEncoderTags {
    /// The tags of a snapshot. The revolutions are rounded to four decimals, a
    /// half away from zero; the two counters keep their bits as signed integers.
    pub fn of(snap: &Snapshot) -> (tags: ChannelGateEncoderTags)
        requires
            snap.wf(),
        ensures
            tags == (ChannelGateEncoderTags {
                Height: snap.height_mm,
                PercentOpen: snap.percent_open,
                RawCount: snap.count,
                Homed: snap.homed,
                Direction: snap.direction,
                Speed: snap.speed_mm_min,
                HomeSwitch: snap.home_switch,
                MissedEdges: snap.missed_edges as i64,
                AmbiguousEdges: snap.ambiguous_edges as i64,
                Heartbeat: snap.ts,
                Revolutions: nearest_away(snap.revolutions, 4),
                RPM: snap.rpm,
                RotationDirection: snap.rotation_direction,
            }),
            tags.Revolutions.den == 10_000,
            snap.revolutions.num >= 0 ==> tags.Revolutions.num >= 0 && -snap.revolutions.den < 2 * (
            tags.Revolutions.num * snap.revolutions.den - snap.revolutions.num * 10_000)
                <= snap.revolutions.den,
            snap.revolutions.num < 0 ==> tags.Revolutions.num <= 0 && -snap.revolutions.den <= 2 * (
            tags.Revolutions.num * snap.revolutions.den - snap.revolutions.num * 10_000)
                < snap.revolutions.den,
    {
        proof {
            law_rounding_is_half_away(snap.revolutions, 4);
            law_places_are_tenths(4);
            reveal_with_fuel(pow10, 5);
        }
        ChannelGateEncoderTags {
            Height: snap.height_mm,
            PercentOpen: snap.percent_open,
            RawCount: snap.count,
            Homed: snap.homed,
            Direction: snap.direction,
            Speed: snap.speed_mm_min,
            HomeSwitch: snap.home_switch,
            MissedEdges: #[verifier::truncate] (snap.missed_edges as i64),
            AmbiguousEdges: #[verifier::truncate] (snap.ambiguous_edges as i64),
            Heartbeat: snap.ts,
            Revolutions: snap.revolutions.rounded(4),
            RPM: snap.rpm,
            RotationDirection: snap.rotation_direction,
        }
    }
}

} // verus!
