//! What a pulse stream's items mean.

use vstd::prelude::*;

verus! {

/// What a pulse stream, or the attempt to open one, came up with.
#[derive(Debug, Clone, Copy, PartialEq, Eq, Structural)]
pub enum ListenerEvent {
    /// A frame, with the period in nanoseconds and the level where it carries
    /// them.
    Frame { period_ns: Option<i64>, level: Option<bool> },
    /// Receiving failed.
    ReceiveError,
    /// The stream ended.
    End,
    /// The stream could not be opened.
    SubscribeError,
}

/// What follows.
#[derive(Debug, Clone, Copy, PartialEq, Eq, Structural)]
pub enum ListenerAction {
    /// Not a pulse: wait for the next item.
    Skip,
    /// A pulse, with the hardware's period, 0 for none.
    Pulse { hw_period: i64, reports_high: bool },
    /// Count a reconnect, wait a second, and open the stream again.
    Reconnect,
}

/// A frame without a period opens the stream and is no pulse; one with a period
/// of zero is a pulse whose period the hardware could not measure. A level
/// counts only where the frame carries one.
pub open spec fn listener_rule(event: ListenerEvent) -> ListenerAction {
    match event {
        ListenerEvent::Frame { period_ns: None, level: _ } => ListenerAction::Skip,
        ListenerEvent::Frame { period_ns: Some(p), level } => ListenerAction::Pulse {
            hw_period: if p > 0 {
                p
            } else {
                0
            },
            reports_high: level == Some(true),
        },
        _ => ListenerAction::Reconnect,
    }
}

pub fn listener_step(event: ListenerEvent) -> (action: ListenerAction)
    ensures
        action == listener_rule(event),
{
    match event {
        ListenerEvent::Frame { period_ns: None, level: _ } => ListenerAction::Skip,
        ListenerEvent::Frame { period_ns: Some(p), level } => ListenerAction::Pulse {
            hw_period: if p > 0 {
                p
            } else {
                0
            },
            reports_high: match level {
                Some(high) => high,
                None => false,
            },
        },
        _ => ListenerAction::Reconnect,
    }
}

} // verus!
