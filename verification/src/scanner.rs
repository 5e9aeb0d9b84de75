//! The block scanner: a small state machine that reads one event per line
//! and decides, at each close of a block, whether a cadence record is added.

use vstd::prelude::*;
use vstd::string::StringSliceAdditionalSpecFns;
use crate::markers::{
    cadence_marker, close_marker, has_cadence_marker, has_close_marker, has_speed_marker,
    occurs_in, speed_marker,
};

verus! {

/// Why a line cannot be scanned.
#[derive(Clone, Copy, Debug, PartialEq, Eq)]
pub enum ScanError {
    /// The line carries the speed marker but no decimal value could be read
    /// from it.
    MalformedSpeed,
}

/// What the scanner reads off one line.
#[derive(Clone, Copy, Debug, PartialEq, Eq)]
pub struct LineEvent {
    /// The cadence that follows from the speed on the line, where the line
    /// carries the speed marker.
    pub speed: Option<i32>,
    /// The line carries the cadence marker.
    pub cadence: bool,
    /// The line carries the close marker.
    pub close: bool,
}

/// The state of the block that is open.
#[derive(Clone, Copy, Debug, PartialEq, Eq)]
pub struct BlockScanner {
    /// The cadence computed from the last speed seen in the block, if any.
    pub pending_cadence: Option<i32>,
    /// The block already holds a cadence record.
    pub cadence_already_present: bool,
}

/// The event of a line, given the cadence computed from its speed value.
/// The cadence counts only where the line carries the speed marker.
pub open spec fn event_of(line: Seq<u8>, cadence: Option<i32>) -> LineEvent {
    LineEvent {
        speed: if occurs_in(speed_marker(), line) {
            cadence
        } else {
            None
        },
        cadence: occurs_in(cadence_marker(), line),
        close: occurs_in(close_marker(), line),
    }
}

/// A line is malformed when it carries the speed marker and no cadence
/// could be computed for it.
pub open spec fn is_malformed(line: Seq<u8>, cadence: Option<i32>) -> bool {
    occurs_in(speed_marker(), line) && cadence is None
}

/// Reads the three markers off a line. `cadence` is the cadence computed
/// from the line's speed value, `None` where none could be read.
pub fn observe(line: &str, cadence: Option<i32>) -> (r: Result<LineEvent, ScanError>)
    ensures
        is_malformed(line.spec_bytes(), cadence) ==> r == Err::<LineEvent, ScanError>(
            ScanError::MalformedSpeed,
        ),
        !is_malformed(line.spec_bytes(), cadence) ==> r == Ok::<LineEvent, ScanError>(
            event_of(line.spec_bytes(), cadence),
        ),
{
    let speed = if has_speed_marker(line) {
        match cadence {
            Some(c) => Some(c),
            None => {
                return Err(ScanError::MalformedSpeed);
            },
        }
    } else {
        None
    };
    Ok(LineEvent { speed, cadence: has_cadence_marker(line), close: has_close_marker(line) })
}

impl BlockScanner {
    /// The state at the start of the stream and after each close marker.
    pub open spec fn initial() -> BlockScanner {
        BlockScanner { pending_cadence: None, cadence_already_present: false }
    }

    /// The state once the line's speed and cadence markers are taken in,
    /// before the close marker is looked at. The last speed of a block wins.
    pub open spec fn observed(self, ev: LineEvent) -> BlockScanner {
        BlockScanner {
            pending_cadence: if ev.speed is Some {
                ev.speed
            } else {
                self.pending_cadence
            },
            cadence_already_present: self.cadence_already_present || ev.cadence,
        }
    }

    /// The cadence to add before the line, if any: only a close marker adds
    /// one, only where the block holds no cadence record, and only where a
    /// speed was seen in it.
    pub open spec fn injection(self, ev: LineEvent) -> Option<i32> {
        let seen = self.observed(ev);
        if ev.close && !seen.cadence_already_present {
            seen.pending_cadence
        } else {
            None
        }
    }

    /// The state after the line: a close marker resets it whatever was
    /// decided.
    pub open spec fn next(self, ev: LineEvent) -> BlockScanner {
        if ev.close {
            Self::initial()
        } else {
            self.observed(ev)
        }
    }

    /// A scanner at the start of a stream.
    pub fn new() -> (s: Self)
        ensures
            s == Self::initial(),
    {
        BlockScanner { pending_cadence: None, cadence_already_present: false }
    }

    /// Takes one line's event. Returns the cadence of the record to write
    /// before the line, if one is to be written.
    pub fn step(&mut self, ev: LineEvent) -> (injected: Option<i32>)
        ensures
            *final(self) == old(self).next(ev),
            injected == old(self).injection(ev),
    {
        if let Some(c) = ev.speed {
            self.pending_cadence = Some(c);
        }
        if ev.cadence {
            self.cadence_already_present = true;
        }
        let mut injected: Option<i32> = None;
        if ev.close {
            if !self.cadence_already_present {
                injected = self.pending_cadence;
            }
            self.pending_cadence = None;
            self.cadence_already_present = false;
        }
        injected
    }
}

/// The state in which the scanner meets line `n`, having started fresh and
/// taken the first `n` events.
pub open spec fn state_after(events: Seq<LineEvent>, n: int) -> BlockScanner
    decreases n,
{
    if n <= 0 {
        BlockScanner::initial()
    } else {
        state_after(events, n - 1).next(events[n - 1])
    }
}

/// The cadence added before line `i`, if any.
pub open spec fn injected_at(events: Seq<LineEvent>, i: int) -> Option<i32> {
    state_after(events, i).injection(events[i])
}

/// The number of records added before the first `n` lines are out.
pub open spec fn injection_count(events: Seq<LineEvent>, n: int) -> nat
    decreases n,
{
    if n <= 0 {
        0
    } else if injected_at(events, n - 1) is Some {
        injection_count(events, n - 1) + 1
    } else {
        injection_count(events, n - 1)
    }
}

} // verus!
