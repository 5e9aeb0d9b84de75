//! What holds of every scan, stated over the events of the lines.

use vstd::prelude::*;
use crate::scanner::{injected_at, state_after, BlockScanner, LineEvent};
use crate::stream::emitted_at;

verus! {

/// A record is added only before a line that closes a block, so a block
/// gets one record at most.
pub proof fn lemma_injection_only_at_close(events: Seq<LineEvent>, i: int)
    requires
        0 <= i < events.len(),
        injected_at(events, i) is Some,
    ensures
        events[i].close,
{
}

/// A close marker clears the state, whatever the block held and whatever was
/// decided: the next line is met as the first line of a stream is.
pub proof fn lemma_close_resets(events: Seq<LineEvent>, i: int)
    requires
        0 <= i < events.len(),
        events[i].close,
    ensures
        state_after(events, i + 1) == BlockScanner::initial(),
{
}

/// Once a cadence marker was seen, the scanner remembers it until the block
/// closes.
proof fn lemma_cadence_remembered(events: Seq<LineEvent>, k: int, j: int)
    requires
        0 <= k < j <= events.len(),
        events[k].cadence,
        forall|i: int| k <= i < j ==> !events[i].close,
    ensures
        state_after(events, j).cadence_already_present,
    decreases j - k,
{
    if j > k + 1 {
        lemma_cadence_remembered(events, k, j - 1);
    }
}

/// No duplicate: where a line of the block carries the cadence marker, at
/// or before the close line, the close adds no record, whether or not a
/// speed was seen.
pub proof fn lemma_no_duplicate_injection(events: Seq<LineEvent>, k: int, close: int)
    requires
        0 <= k <= close < events.len(),
        events[k].cadence,
        forall|i: int| k <= i < close ==> !events[i].close,
    ensures
        injected_at(events, close) is None,
{
    if k < close {
        lemma_cadence_remembered(events, k, close);
    }
}

/// From the start of a block on, the scanner holds no cadence as long as no
/// line carries a speed.
proof fn lemma_nothing_pending(events: Seq<LineEvent>, start: int, j: int)
    requires
        0 <= start <= j <= events.len(),
        start == 0 || events[start - 1].close,
        forall|i: int| start <= i < j ==> events[i].speed is None,
    ensures
        state_after(events, j).pending_cadence is None,
    decreases j - start,
{
    if j > start {
        lemma_nothing_pending(events, start, j - 1);
    }
}

/// No speed, no record: from the first line of a block to any later line
/// with no speed marker in between, each line goes out alone and unchanged.
pub proof fn lemma_no_speed_no_injection(
    lines: Seq<Seq<char>>,
    events: Seq<LineEvent>,
    start: int,
    end: int,
)
    requires
        0 <= start <= end < events.len(),
        start == 0 || events[start - 1].close,
        forall|i: int| start <= i <= end ==> events[i].speed is None,
    ensures
        forall|j: int|
            start <= j <= end ==> #[trigger] injected_at(events, j) is None && emitted_at(
                lines,
                events,
                j,
            ) == seq![lines[j]],
{
    assert forall|j: int| start <= j <= end implies #[trigger] injected_at(events, j)
        is None && emitted_at(lines, events, j) == seq![lines[j]] by {
        lemma_nothing_pending(events, start, j);
    }
}

/// The line whose speed gave the cadence that the scanner holds before
/// line `j`: no block closes between that line and line `j`.
proof fn lemma_pending_source(events: Seq<LineEvent>, j: int, cadence: i32) -> (k: int)
    requires
        0 <= j <= events.len(),
        state_after(events, j).pending_cadence == Some(cadence),
    ensures
        0 <= k < j,
        events[k].speed == Some(cadence),
        forall|i: int| k <= i < j ==> !events[i].close,
    decreases j,
{
    if events[j - 1].speed is Some {
        j - 1
    } else {
        lemma_pending_source(events, j - 1, cadence)
    }
}

/// Blocks are isolated: a cadence that is added at a close marker was
/// computed from a speed line of the block that closes there. No block
/// closes between that line and the close line, so a speed never acts
/// beyond the close of its own block.
pub proof fn lemma_injection_from_own_block(events: Seq<LineEvent>, close: int, cadence: i32) -> (k:
    int)
    requires
        0 <= close < events.len(),
        injected_at(events, close) == Some(cadence),
    ensures
        0 <= k <= close,
        events[k].speed == Some(cadence),
        forall|i: int| k <= i < close ==> !events[i].close,
{
    if events[close].speed is Some {
        close
    } else {
        lemma_pending_source(events, close, cadence)
    }
}

} // verus!
