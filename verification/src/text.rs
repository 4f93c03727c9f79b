//! Text values: the UTF-8 bytes of the characters followed by one zero
//! terminator. Decoding trims the terminator and rejects bytes that are
//! not valid text.

use vstd::prelude::*;
use vstd::slice::{slice_subrange, slice_to_vec};
use vstd::utf8::{decode_utf8, encode_utf8, encode_utf8_decode_utf8, encode_utf8_valid_utf8,
    valid_utf8};

verus! {

/// Value bytes of a text attribute: the UTF-8 encoding of its characters
/// and a trailing zero.
pub open spec fn spec_text_value(s: Seq<char>) -> Seq<u8> {
    encode_utf8(s) + seq![0u8]
}

/// Characters of a text value: everything before the single trailing
/// terminator byte, which must be valid UTF-8. An empty value has no
/// terminator and is rejected, as are bytes that are not text.
pub open spec fn spec_parse_text(v: Seq<u8>) -> Option<Seq<char>> {
    if v.len() < 1 {
        None
    } else if valid_utf8(v.take(v.len() - 1)) {
        Some(decode_utf8(v.take(v.len() - 1)))
    } else {
        None
    }
}

/// Relies on String::from_utf8: it succeeds exactly on valid UTF-8 input
/// and yields the characters those bytes encode.
#[verifier::external_body]
fn string_from_utf8(bytes: Vec<u8>) -> (r: Option<String>)
    ensures
        match r {
            Some(s) => valid_utf8(bytes@) && s@ == decode_utf8(bytes@),
            None => !valid_utf8(bytes@),
        },
{
    match String::from_utf8(bytes) {
        Ok(s) => Some(s),
        Err(_) => None,
    }
}

/// Decodes a text value, trimming the terminator.
pub fn parse_text(v: &[u8]) -> (r: Option<String>)
    ensures
        match r {
            Some(s) => spec_parse_text(v@) == Some(s@),
            None => spec_parse_text(v@) is None,
        },
{
    if v.len() < 1 {
        return None;
    }
    let prefix = slice_to_vec(slice_subrange(v, 0, v.len() - 1));
    proof {
        assert(prefix@ =~= v@.take(v@.len() - 1));
    }
    string_from_utf8(prefix)
}

/// Appends a text value: the bytes of `s` and a zero terminator.
pub fn emit_text(s: &str, out: &mut Vec<u8>)
    ensures
        final(out)@ == old(out)@ + spec_text_value(s@),
{
    out.extend_from_slice(s.as_bytes());
    out.push(0);
    proof {
        assert(out@ =~= old(out)@ + spec_text_value(s@));
    }
}

/// Decoding a freshly encoded text value gives the characters back: the
/// terminator is trimmed and the encoding is always valid text.
pub proof fn lemma_text_round_trip(s: Seq<char>)
    ensures
        spec_parse_text(spec_text_value(s)) == Some(s),
{
    let v = spec_text_value(s);
    assert(v.take(v.len() - 1) =~= encode_utf8(s));
    encode_utf8_valid_utf8(s);
    encode_utf8_decode_utf8(s);
}

} // verus!
