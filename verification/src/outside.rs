//! What the editor takes on trust from the standard library and from crossterm.

use crate::language;
use crate::text;
use crossterm::event::KeyModifiers;
use std::path::Path;
use vstd::prelude::*;

verus! {

/// `String::push` appends the character at the end of the string.
pub assume_specification[ String::push ](s: &mut String, c: char)
    ensures
        final(s)@ == old(s)@.push(c),
;

/// `char::from_u32` gives the character with code point `i`. There is one unless `i`
/// is a surrogate or beyond the last code point.
pub assume_specification[ char::from_u32 ](i: u32) -> (c: Option<char>)
    ensures
        c is Some <==> i <= 0xd7ff || 0xe000 <= i <= 0x10ffff,
        c matches Some(ch) ==> ch as u32 == i,
;

/// The text that `String::from_utf8_lossy` reads from bytes.
pub uninterp spec fn utf8_lossy(bytes: Seq<u8>) -> Seq<char>;

/// `String::from_utf8_lossy`: bytes as text. Bytes that are the UTF-8 form of a text
/// are read as that text; how ill-formed bytes are replaced is left to the name.
#[verifier::external_body]
pub(crate) fn read_utf8_lossy(bytes: &[u8]) -> (s: String)
    ensures
        s@ == utf8_lossy(bytes@),
        vstd::utf8::valid_utf8(bytes@) ==> vstd::utf8::encode_utf8(s@) == bytes@,
{
    String::from_utf8_lossy(bytes).to_string()
}

/// `Path::extension`: what follows the last dot of the file name at the end of a path,
/// unless that dot starts the name or there is no such dot. The file name is the last
/// name of the path: repeated slashes, those at the end and names `.` do not count, and
/// a path that ends in `..` has none. A path that is not portable may be taken apart
/// otherwise by the platform, at backslashes too or behind a drive or a host; of such a
/// path only what holds on every platform is said.
#[verifier::external_body]
pub(crate) fn path_extension(path: &str) -> (ext: Option<String>)
    ensures
        language::extension_fits(path@, text::text_of(ext)),
{
    match Path::new(path).extension() {
        Some(e) => match e.to_str() {
            Some(t) => Some(t.to_string()),
            None => None,
        },
        None => None,
    }
}

/// `KeyModifiers::contains` asked for `KeyModifiers::CONTROL`, on the modifier set
/// that `KeyModifiers::from_bits_truncate` reads from `bits`. Truncation drops only
/// bits that name no modifier, and CONTROL is the bit of value two: the answer is
/// whether that bit is set.
#[verifier::external_body]
pub(crate) fn control_held(bits: u8) -> (held: bool)
    ensures
        held == (bits & 2u8 == 2u8),
{
    KeyModifiers::from_bits_truncate(bits).contains(KeyModifiers::CONTROL)
}

} // verus!
