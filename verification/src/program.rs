//! What a program printed, as text.

use crate::outside;
use vstd::prelude::*;

verus! {

/// The text that bytes printed by a program stand for: well-formed UTF-8 is decoded;
/// of other bytes a text is made by `outside::utf8_lossy`.
pub open spec fn printed_text(bytes: Seq<u8>) -> Seq<char> {
    if vstd::utf8::valid_utf8(bytes) {
        vstd::utf8::decode_utf8(bytes)
    } else {
        outside::utf8_lossy(bytes)
    }
}

/// The text that a program printed as `bytes`.
pub fn program_text(bytes: &[u8]) -> (s: String)
    ensures
        s@ == printed_text(bytes@),
{
    let s = outside::read_utf8_lossy(bytes);
    proof {
        vstd::utf8::encode_utf8_decode_utf8(s@);
    }
    s
}

} // verus!
