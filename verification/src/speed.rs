//! The speed field: the decimal number that a speed-bearing line holds,
//! found by a regular expression and checked byte by byte.

use vstd::prelude::*;
use vstd::string::StringSliceAdditionalSpecFns;
use vstd::utf8::{
    encode_utf8, encode_utf8_valid_utf8, is_char_boundary,
    is_char_boundary_iff_not_is_continuation_byte, is_char_boundary_start_end_of_seq,
    pop_first_scalar, valid_utf8, valid_utf8_split,
};
use crate::scanner::ScanError;

verus! {

/// The byte offsets, start and end, of the first match of the regular
/// expression `pattern` in `haystack`, as the `regex` crate finds it; `None`
/// where nothing matches or `pattern` is no regular expression. Nothing is
/// proved of it: it is what the crate answers.
pub uninterp spec fn regex_first_match(pattern: Seq<char>, haystack: Seq<char>) -> Option<(usize, usize)>;

/// The pattern of a speed value: digits or none, a point, one digit or more.
pub open spec fn decimal_pattern() -> Seq<char> {
    "([0-9]*[.])[0-9]+"@
}

/// An ASCII digit.
pub open spec fn is_digit(b: u8) -> bool {
    48 <= b <= 57
}

/// `text` has its only point at `p`, a digit after it, and digits
/// everywhere else.
pub open spec fn decimal_with_point_at(text: Seq<u8>, p: int) -> bool {
    &&& 0 <= p < text.len() - 1
    &&& text[p] == 46
    &&& forall|j: int| 0 <= j < text.len() && j != p ==> is_digit(#[trigger] text[j])
}

/// `text` is a decimal number: digits or none, one point, one digit or more.
pub open spec fn is_decimal(text: Seq<u8>) -> bool {
    exists|p: int| decimal_with_point_at(text, p)
}

/// The speed text that a reported span stands for: the bytes of the span,
/// where it lies in the line and holds a decimal number.
pub open spec fn speed_text(line: Seq<u8>, found: Option<(usize, usize)>) -> Option<Seq<u8>> {
    match found {
        Some((start, end)) => if start <= end <= line.len() && is_decimal(
            line.subrange(start as int, end as int),
        ) {
            Some(line.subrange(start as int, end as int))
        } else {
            None
        },
        None => None,
    }
}

/// A span of well-formed text that starts and ends with an ASCII byte
/// starts and ends between characters.
proof fn lemma_ascii_span_on_boundaries(bytes: Seq<u8>, start: int, end: int)
    requires
        valid_utf8(bytes),
        0 <= start < end <= bytes.len(),
        bytes[start] < 128,
        bytes[end - 1] < 128,
    ensures
        is_char_boundary(bytes, start),
        is_char_boundary(bytes, end),
{
    is_char_boundary_iff_not_is_continuation_byte(bytes, start);
    is_char_boundary_iff_not_is_continuation_byte(bytes, end - 1);
    if end == bytes.len() {
        is_char_boundary_start_end_of_seq(bytes);
    } else {
        let tail = bytes.subrange(end - 1, bytes.len() as int);
        valid_utf8_split(bytes, end - 1);
        assert(tail[0] == bytes[end - 1]);
        assert(tail[1] == bytes[end]);
        assert(valid_utf8(pop_first_scalar(tail)));
        assert(is_char_boundary(tail, 1)) by {
            reveal_with_fuel(is_char_boundary, 2);
        }
        is_char_boundary_iff_not_is_continuation_byte(tail, 1);
        is_char_boundary_iff_not_is_continuation_byte(bytes, end);
    }
}

/// A decimal number starts and ends with an ASCII byte.
proof fn lemma_decimal_ends(text: Seq<u8>)
    requires
        is_decimal(text),
    ensures
        text.len() >= 2,
        text[0] < 128,
        text[text.len() - 1] < 128,
{
    let p = choose|p: int| decimal_with_point_at(text, p);
    assert(decimal_with_point_at(text, p));
    if p != 0 {
        assert(is_digit(text[0]));
    }
    assert(is_digit(text[text.len() - 1]));
}

/// Calls `regex::Regex::new` on `pattern` and `regex::Regex::find` on the
/// result, and hands back `regex::Match::start` and `regex::Match::end`.
/// The pattern is compiled on each call. The contract is believed, not
/// proved: it claims only that the answer depends on the two texts alone.
/// What the offsets are is left to the caller to check.
#[verifier::external_body]
fn first_match(pattern: &str, haystack: &str) -> (found: Option<(usize, usize)>)
    ensures
        found == regex_first_match(pattern@, haystack@),
{
    match regex::Regex::new(pattern) {
        Ok(re) => match re.find(haystack) {
            Some(m) => Some((m.start(), m.end())),
            None => None,
        },
        Err(_) => None,
    }
}

/// Whether the bytes from `start` to `end` are a decimal number.
pub fn is_decimal_span(bytes: &[u8], start: usize, end: usize) -> (b: bool)
    requires
        start <= end <= bytes@.len(),
    ensures
        b == is_decimal(bytes@.subrange(start as int, end as int)),
{
    let ghost text = bytes@.subrange(start as int, end as int);
    let mut point: Option<usize> = None;
    let mut i: usize = start;
    while i < end
        invariant
            start <= i <= end <= bytes@.len(),
            text == bytes@.subrange(start as int, end as int),
            point is None ==> forall|j: int| 0 <= j < i - start ==> is_digit(#[trigger] text[j]),
            point matches Some(p) ==> start <= p < i && text[p - start] == 46 && forall|j: int|
                0 <= j < i - start && j != p - start ==> is_digit(#[trigger] text[j]),
        decreases end - i,
    {
        let b = bytes[i];
        assert(b == text[i - start]);
        if b == 46 {
            if point.is_some() {
                assert forall|p: int| !decimal_with_point_at(text, p) by {
                    if decimal_with_point_at(text, p) {
                        if p == i - start {
                            assert(is_digit(text[point.unwrap() - start]));
                        } else {
                            assert(is_digit(text[i - start]));
                        }
                    }
                }
                return false;
            }
            point = Some(i);
        } else if !(48 <= b && b <= 57) {
            assert forall|p: int| !decimal_with_point_at(text, p) by {
                if decimal_with_point_at(text, p) {
                    assert(p != i - start);
                    assert(is_digit(text[i - start]));
                }
            }
            return false;
        }
        i += 1;
    }
    match point {
        Some(p) => {
            if p + 1 < end {
                assert(decimal_with_point_at(text, p - start));
                true
            } else {
                assert forall|q: int| !decimal_with_point_at(text, q) by {
                    if decimal_with_point_at(text, q) {
                        assert(q != p - start);
                        assert(is_digit(text[p - start]));
                    }
                }
                false
            }
        },
        None => {
            assert forall|q: int| !decimal_with_point_at(text, q) by {
                if decimal_with_point_at(text, q) {
                    assert(is_digit(text[q]));
                }
            }
            false
        },
    }
}

/// Takes the speed text out of a line, given the span that the search
/// reported. Fails where there is no span, where it does not lie in the
/// line, and where it does not hold a decimal number.
pub fn speed_text_at(line: &str, found: Option<(usize, usize)>) -> (r: Result<String, ScanError>)
    ensures
        match r {
            Ok(text) => speed_text(line.spec_bytes(), found) == Some(encode_utf8(text@)),
            Err(e) => e == ScanError::MalformedSpeed && speed_text(line.spec_bytes(), found)
                is None,
        },
{
    let (start, end) = match found {
        Some(span) => span,
        None => {
            return Err(ScanError::MalformedSpeed);
        },
    };
    let bytes = line.as_bytes();
    if start > end || end > bytes.len() {
        return Err(ScanError::MalformedSpeed);
    }
    if !is_decimal_span(bytes, start, end) {
        return Err(ScanError::MalformedSpeed);
    }
    proof {
        let all = line.spec_bytes();
        encode_utf8_valid_utf8(line@);
        lemma_decimal_ends(all.subrange(start as int, end as int));
        lemma_ascii_span_on_boundaries(all, start as int, end as int);
    }
    let (head, _) = line.split_at(end);
    proof {
        let all = line.spec_bytes();
        valid_utf8_split(all, end as int);
        assert(head.spec_bytes() == all.subrange(0, end as int));
        is_char_boundary_iff_not_is_continuation_byte(all, start as int);
        is_char_boundary_iff_not_is_continuation_byte(head.spec_bytes(), start as int);
    }
    let (_, text) = head.split_at(start);
    assert(text.spec_bytes() =~= line.spec_bytes().subrange(start as int, end as int));
    Ok(text.to_owned())
}

/// Finds the speed value in a line that is known to carry the speed marker
/// and returns its text: the bytes at the span that the search for the
/// decimal pattern reports, where they are a decimal number. Fails where the
/// search finds nothing.
pub fn extract_speed_text(line: &str) -> (r: Result<String, ScanError>)
    ensures
        match r {
            Ok(text) => speed_text(
                line.spec_bytes(),
                regex_first_match(decimal_pattern(), line@),
            ) == Some(encode_utf8(text@)),
            Err(e) => e == ScanError::MalformedSpeed && speed_text(
                line.spec_bytes(),
                regex_first_match(decimal_pattern(), line@),
            ) is None,
        },
{
    let found = first_match("([0-9]*[.])[0-9]+", line);
    speed_text_at(line, found)
}

} // verus!
