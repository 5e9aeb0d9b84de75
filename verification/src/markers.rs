//! Marker detection: plain, case-sensitive containment of fixed byte strings
//! in a line.

use vstd::prelude::*;
use vstd::string::StringSliceAdditionalSpecFns;

verus! {

/// `needle` stands in `hay` at byte offset `i`.
pub open spec fn occurs_at(needle: Seq<u8>, hay: Seq<u8>, i: int) -> bool {
    0 <= i && i + needle.len() <= hay.len() && hay.subrange(i, i + needle.len()) == needle
}

/// `needle` stands somewhere in `hay` as a contiguous run of bytes.
pub open spec fn occurs_in(needle: Seq<u8>, hay: Seq<u8>) -> bool {
    exists|i: int| occurs_at(needle, hay, i)
}

/// The marker of a line that carries a speed value.
pub open spec fn speed_marker() -> Seq<u8> {
    ":Speed".spec_bytes()
}

/// The marker of a line that carries a cadence record.
pub open spec fn cadence_marker() -> Seq<u8> {
    "Cadence".spec_bytes()
}

/// The marker of the line that closes a trackpoint block.
pub open spec fn close_marker() -> Seq<u8> {
    "</Trackpoint>".spec_bytes()
}

/// Compares `needle` with the bytes of `hay` that start at `at`.
pub fn matches_at(hay: &[u8], needle: &[u8], at: usize) -> (b: bool)
    requires
        at + needle@.len() <= hay@.len(),
    ensures
        b == occurs_at(needle@, hay@, at as int),
{
    let total: usize = hay.len();
    let mut k: usize = 0;
    while k < needle.len()
        invariant
            k <= needle@.len(),
            total == hay@.len(),
            at + needle@.len() <= hay@.len(),
            forall|j: int| 0 <= j < k ==> hay@[at + j] == needle@[j],
        decreases needle@.len() - k,
    {
        if hay[at + k] != needle[k] {
            proof {
                let window = hay@.subrange(at as int, at + needle@.len());
                assert(window[k as int] == hay@[at + k]);
            }
            return false;
        }
        k += 1;
    }
    proof {
        assert(hay@.subrange(at as int, at + needle@.len()) =~= needle@);
    }
    true
}

/// Whether `needle` occurs in `hay`. An empty needle occurs in every line.
pub fn contains_bytes(hay: &[u8], needle: &[u8]) -> (b: bool)
    ensures
        b == occurs_in(needle@, hay@),
{
    if needle.len() > hay.len() {
        return false;
    }
    let last: usize = hay.len() - needle.len();
    let mut i: usize = 0;
    loop
        invariant
            i <= last,
            last == hay@.len() - needle@.len(),
            forall|j: int| 0 <= j < i ==> !occurs_at(needle@, hay@, j),
        decreases last - i,
    {
        if matches_at(hay, needle, i) {
            return true;
        }
        if i == last {
            return false;
        }
        i += 1;
    }
}

/// Whether the line carries a speed value.
pub fn has_speed_marker(line: &str) -> (b: bool)
    ensures
        b == occurs_in(speed_marker(), line.spec_bytes()),
{
    contains_bytes(line.as_bytes(), ":Speed".as_bytes())
}

/// Whether the line carries a cadence record.
pub fn has_cadence_marker(line: &str) -> (b: bool)
    ensures
        b == occurs_in(cadence_marker(), line.spec_bytes()),
{
    contains_bytes(line.as_bytes(), "Cadence".as_bytes())
}

/// Whether the line closes a trackpoint block.
pub fn has_close_marker(line: &str) -> (b: bool)
    ensures
        b == occurs_in(close_marker(), line.spec_bytes()),
{
    contains_bytes(line.as_bytes(), "</Trackpoint>".as_bytes())
}

} // verus!
