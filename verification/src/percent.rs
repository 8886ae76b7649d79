//! Percent-decoding of URL strings.  Every `%XY` escape with two hex digits
//! becomes the byte `0xXY`; any other `%` is passed through unchanged.  The
//! byte-level transform is implemented and proved here; the string form
//! decodes the resulting bytes as UTF-8 and reports failure instead of
//! panicking on a non-UTF-8 result.

use vstd::prelude::*;
use vstd::string::StrSliceExecFns;
use vstd::utf8::{decode_utf8, encode_utf8, valid_utf8};
use crate::chars::opt_str_view;
use crate::outside::utf8_string;

verus! {

/// Whether `b` is the ASCII code of a hex digit.
pub open spec fn is_hex_byte(b: u8) -> bool {
    ('0' as u8) <= b <= ('9' as u8) || ('a' as u8) <= b <= ('f' as u8) || ('A' as u8) <= b
        <= ('F' as u8)
}

/// The value of the hex digit with ASCII code `b`.
pub open spec fn hex_val(b: u8) -> u8
    recommends
        is_hex_byte(b),
{
    if ('0' as u8) <= b <= ('9' as u8) {
        (b - ('0' as u8)) as u8
    } else if ('a' as u8) <= b <= ('f' as u8) {
        (b - ('a' as u8) + 10) as u8
    } else {
        (b - ('A' as u8) + 10) as u8
    }
}

/// The percent-decoding of a byte string: `%` followed by two hex digits
/// becomes one byte; every other byte stays as it is.
pub open spec fn percent_decoded_bytes(b: Seq<u8>) -> Seq<u8>
    decreases b.len(),
{
    if b.len() == 0 {
        Seq::empty()
    } else if b[0] == ('%' as u8) && b.len() >= 3 && is_hex_byte(b[1]) && is_hex_byte(b[2]) {
        seq![(hex_val(b[1]) * 16 + hex_val(b[2])) as u8] + percent_decoded_bytes(b.skip(3))
    } else {
        seq![b[0]] + percent_decoded_bytes(b.skip(1))
    }
}

/// The percent-decoding of a character string: decode the UTF-8 bytes of
/// `s`, then reinterpret the result as UTF-8; `None` when the decoded bytes
/// are not valid UTF-8.
pub open spec fn percent_decoded_str(s: Seq<char>) -> Option<Seq<char>> {
    let d = percent_decoded_bytes(encode_utf8(s));
    if valid_utf8(d) {
        Some(decode_utf8(d))
    } else {
        None
    }
}

/// Whether `b` is the ASCII code of a hex digit.
pub fn is_hex_digit(b: u8) -> (r: bool)
    ensures
        r == is_hex_byte(b),
{
    (48 <= b && b <= 57) || (97 <= b && b <= 102) || (65 <= b && b <= 70)
}

/// The value of the hex digit with ASCII code `b`.
pub fn hex_digit_val(b: u8) -> (r: u8)
    requires
        is_hex_byte(b),
    ensures
        r == hex_val(b),
        r <= 15,
{
    if 48 <= b && b <= 57 {
        b - 48
    } else if 97 <= b && b <= 102 {
        b - 97 + 10
    } else {
        b - 65 + 10
    }
}

/// Percent-decodes a byte string.
pub fn percent_decode_bytes(v: &Vec<u8>) -> (r: Vec<u8>)
    ensures
        r@ == percent_decoded_bytes(v@),
{
    let mut out: Vec<u8> = Vec::new();
    let mut i: usize = 0;
    proof {
        assert(v@.skip(0) =~= v@);
        assert(out@ + percent_decoded_bytes(v@) =~= percent_decoded_bytes(v@));
    }
    while i < v.len()
        invariant
            i <= v@.len(),
            percent_decoded_bytes(v@) == out@ + percent_decoded_bytes(v@.skip(i as int)),
        decreases v@.len() - i,
    {
        let ghost j = i as int;
        let ghost out0 = out@;
        let ghost t = v@.skip(j);
        proof {
            assert(t.len() == v@.len() - j);
            assert(t[0] == v@[j]);
            assert(t.len() >= 3 ==> t[1] == v@[j + 1] && t[2] == v@[j + 2]);
            assert(('%' as u8) == 37u8);
        }
        let b = v[i];
        if b == 37 && v.len() - i >= 3 && is_hex_digit(v[i + 1]) && is_hex_digit(v[i + 2]) {
            let d = hex_digit_val(v[i + 1]) * 16 + hex_digit_val(v[i + 2]);
            out.push(d);
            i = i + 3;
            proof {
                assert(percent_decoded_bytes(t) == seq![d] + percent_decoded_bytes(t.skip(3)));
                assert(t.skip(3) =~= v@.skip(j + 3));
                assert(out@ =~= out0 + seq![d]);
                assert((out0 + seq![d]) + percent_decoded_bytes(v@.skip(j + 3)) =~= out0 + (
                seq![d] + percent_decoded_bytes(v@.skip(j + 3))));
            }
        } else {
            out.push(b);
            i = i + 1;
            proof {
                assert(percent_decoded_bytes(t) == seq![b] + percent_decoded_bytes(t.skip(1)));
                assert(t.skip(1) =~= v@.skip(j + 1));
                assert(out@ =~= out0 + seq![b]);
                assert((out0 + seq![b]) + percent_decoded_bytes(v@.skip(j + 1)) =~= out0 + (
                seq![b] + percent_decoded_bytes(v@.skip(j + 1))));
            }
        }
    }
    proof {
        assert(v@.skip(v@.len() as int) =~= Seq::<u8>::empty());
        assert(out@ + Seq::<u8>::empty() =~= out@);
    }
    out
}

/// Percent-decodes a string; `None` when the decoded bytes are not valid
/// UTF-8.
pub fn percent_decode_str(s: &str) -> (r: Option<String>)
    ensures
        opt_str_view(r) == percent_decoded_str(s@),
{
    let bytes = s.as_bytes_vec();
    let decoded = percent_decode_bytes(&bytes);
    utf8_string(&decoded)
}

} // verus!
