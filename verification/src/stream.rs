//! The whole pass: every line goes out unchanged and in order, and a block
//! that closes with a pending cadence and no record of its own gets one
//! record, right before its close line.

use vstd::prelude::*;
use vstd::string::StringSliceAdditionalSpecFns;
use vstd::utf8::encode_utf8;
use crate::record::{cadence_record, render_cadence};
use crate::scanner::{
    event_of, injected_at, injection_count, is_malformed, observe, state_after, BlockScanner,
    LineEvent, ScanError,
};

verus! {

/// The text of each line.
pub open spec fn texts(lines: Seq<String>) -> Seq<Seq<char>> {
    Seq::new(lines.len(), |i: int| lines[i]@)
}

/// The cadence computed for line `i`: `None` where none was handed in.
pub open spec fn cadence_for(cadences: Seq<Option<i32>>, i: int) -> Option<i32> {
    if 0 <= i < cadences.len() {
        cadences[i]
    } else {
        None
    }
}

/// Line `i` carries the speed marker and has no cadence.
pub open spec fn malformed_at(lines: Seq<Seq<char>>, cadences: Seq<Option<i32>>, i: int) -> bool {
    is_malformed(encode_utf8(lines[i]), cadence_for(cadences, i))
}

/// The events of the lines, one for one.
pub open spec fn events_of(lines: Seq<Seq<char>>, cadences: Seq<Option<i32>>) -> Seq<LineEvent> {
    Seq::new(lines.len(), |i: int| event_of(encode_utf8(lines[i]), cadence_for(cadences, i)))
}

/// What goes out for line `i`: the record, where one is added, then the
/// line itself.
pub open spec fn emitted_at(lines: Seq<Seq<char>>, events: Seq<LineEvent>, i: int) -> Seq<
    Seq<char>,
> {
    match injected_at(events, i) {
        Some(c) => seq![cadence_record(c as int), lines[i]],
        None => seq![lines[i]],
    }
}

/// What goes out for the first `n` lines.
pub open spec fn output_upto(lines: Seq<Seq<char>>, events: Seq<LineEvent>, n: int) -> Seq<
    Seq<char>,
>
    decreases n,
{
    if n <= 0 {
        Seq::empty()
    } else {
        output_upto(lines, events, n - 1) + emitted_at(lines, events, n - 1)
    }
}

/// The output has one line for each line read and one for each record added.
pub proof fn lemma_line_count(lines: Seq<Seq<char>>, events: Seq<LineEvent>, n: int)
    requires
        0 <= n,
    ensures
        output_upto(lines, events, n).len() == n + injection_count(events, n),
    decreases n,
{
    if n > 0 {
        lemma_line_count(lines, events, n - 1);
    }
}

/// Scans the lines in order and returns the lines to write. `cadences[i]` is
/// the cadence computed from the speed on line `i`; it is read only where
/// that line carries the speed marker. Fails where such a line has none.
pub fn add_cadence(lines: &Vec<String>, cadences: &Vec<Option<i32>>) -> (r: Result<
    Vec<String>,
    ScanError,
>)
    ensures
        match r {
            Ok(out) => {
                &&& forall|i: int|
                    0 <= i < lines@.len() ==> !malformed_at(texts(lines@), cadences@, i)
                &&& texts(out@) == output_upto(
                    texts(lines@),
                    events_of(texts(lines@), cadences@),
                    lines@.len() as int,
                )
                &&& out@.len() == lines@.len() + injection_count(
                    events_of(texts(lines@), cadences@),
                    lines@.len() as int,
                )
            },
            Err(e) => {
                &&& e == ScanError::MalformedSpeed
                &&& exists|i: int|
                    0 <= i < lines@.len() && malformed_at(texts(lines@), cadences@, i)
            },
        },
{
    let ghost all = texts(lines@);
    let ghost events = events_of(all, cadences@);
    let mut out: Vec<String> = Vec::new();
    let mut scanner = BlockScanner::new();
    let mut i: usize = 0;
    while i < lines.len()
        invariant
            i <= lines@.len(),
            all == texts(lines@),
            events == events_of(all, cadences@),
            scanner == state_after(events, i as int),
            texts(out@) == output_upto(all, events, i as int),
            forall|j: int| 0 <= j < i ==> !malformed_at(all, cadences@, j),
        decreases lines@.len() - i,
    {
        let line = &lines[i];
        let cadence = if i < cadences.len() {
            cadences[i]
        } else {
            None
        };
        assert(cadence == cadence_for(cadences@, i as int));
        let text = line.as_str();
        assert(text.spec_bytes() == encode_utf8(all[i as int]));
        let ev = match observe(text, cadence) {
            Ok(ev) => ev,
            Err(e) => {
                assert(malformed_at(all, cadences@, i as int));
                return Err(e);
            },
        };
        assert(ev == events[i as int]);
        let ghost before = texts(out@);
        match scanner.step(ev) {
            Some(c) => {
                let record = render_cadence(c);
                out.push(record);
                out.push(line.clone());
                assert(texts(out@) =~= before + seq![cadence_record(c as int), all[i as int]]);
            },
            None => {
                out.push(line.clone());
                assert(texts(out@) =~= before + seq![all[i as int]]);
            },
        }
        i += 1;
    }
    proof {
        lemma_line_count(all, events, lines@.len() as int);
        assert(texts(out@).len() == out@.len());
    }
    Ok(out)
}

} // verus!
