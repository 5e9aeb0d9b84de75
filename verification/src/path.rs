//! Rules on the paths of the input and output files.

use vstd::prelude::*;
use vstd::string::StringSliceAdditionalSpecFns;
use vstd::string::is_ascii_spec_bytes;
use vstd::utf8::{
    encode_utf8, encode_utf8_valid_utf8, is_char_boundary_iff_not_is_continuation_byte,
};
use crate::markers::{matches_at, occurs_at};

verus! {

/// The extension that an input file's name ends in.
pub open spec fn tcx_extension() -> Seq<u8> {
    ".tcx".spec_bytes()
}

/// A path names an activity log when it ends in the extension and has at
/// least one byte before it.
pub open spec fn is_tcx_path(path: Seq<u8>) -> bool {
    path.len() >= 5 && path.subrange(path.len() - 4, path.len() as int) == tcx_extension()
}

/// The extension is four bytes long: a dot and three letters.
pub proof fn lemma_tcx_extension()
    ensures
        tcx_extension() == seq![46u8, 116u8, 99u8, 120u8],
{
    reveal_strlit(".tcx");
    let s = ".tcx";
    assert(vstd::string::is_ascii(s));
    is_ascii_spec_bytes(s);
    assert(tcx_extension() =~= seq![46u8, 116u8, 99u8, 120u8]);
}

/// Checks the file extension of an input path.
pub fn is_tcx_file(path: &str) -> (valid: bool)
    ensures
        valid == is_tcx_path(path.spec_bytes()),
{
    let bytes = path.as_bytes();
    let len: usize = bytes.len();
    if len < 5 {
        return false;
    }
    proof {
        lemma_tcx_extension();
    }
    matches_at(bytes, ".tcx".as_bytes(), len - 4)
}

/// What is put in place of the extension to name the output file.
pub open spec fn output_suffix() -> Seq<u8> {
    "_with_cadence.tcx".spec_bytes()
}

/// The output path of an input path: the extension goes, the suffix comes.
pub open spec fn output_path_of(path: Seq<u8>) -> Seq<u8> {
    path.subrange(0, path.len() - 4) + output_suffix()
}

/// The bytes of two texts in a row are the bytes of the first and then
/// those of the second.
proof fn lemma_encode_concat(a: Seq<char>, b: Seq<char>)
    ensures
        encode_utf8(a + b) == encode_utf8(a) + encode_utf8(b),
    decreases a.len(),
{
    if a.len() == 0 {
        assert(a + b =~= b);
        assert(encode_utf8(a) + encode_utf8(b) =~= encode_utf8(b));
    } else {
        lemma_encode_concat(a.drop_first(), b);
        assert((a + b).drop_first() =~= a.drop_first() + b);
        assert((a + b)[0] == a[0]);
        assert(encode_utf8(a + b) =~= encode_utf8(a) + encode_utf8(b));
    }
}

/// Names the output file for an input path: `None` where the path does not
/// name an activity log.
pub fn output_path(path: &str) -> (r: Option<String>)
    ensures
        match r {
            Some(out) => is_tcx_path(path.spec_bytes()) && encode_utf8(out@) == output_path_of(
                path.spec_bytes(),
            ),
            None => !is_tcx_path(path.spec_bytes()),
        },
{
    if !is_tcx_file(path) {
        return None;
    }
    let cut: usize = path.as_bytes().len() - 4;
    proof {
        lemma_tcx_extension();
        let bytes = path.spec_bytes();
        assert(bytes.subrange(bytes.len() - 4, bytes.len() as int)[0] == 46u8);
        encode_utf8_valid_utf8(path@);
        is_char_boundary_iff_not_is_continuation_byte(bytes, cut as int);
    }
    let (stem, _) = path.split_at(cut);
    let out = String::from_str(stem).concat("_with_cadence.tcx");
    proof {
        lemma_encode_concat(stem@, "_with_cadence.tcx"@);
    }
    Some(out)
}

} // verus!
