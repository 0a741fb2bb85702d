//! What this library takes from the standard library on trust: four
//! functions on text that the verifier has no specification for.
//!
//! Two of them are stated in full. Of the other two, which go by Unicode's
//! tables, the contract only gives the result a name; what the library does
//! with the result is proved for every value of it.

use vstd::prelude::*;
use vstd::utf8::{decode_utf8, valid_utf8};

verus! {

/// Whether `char::is_numeric` holds of `c`.
pub uninterp spec fn numeric(c: char) -> bool;

/// What `str::trim` leaves of `s`.
pub uninterp spec fn trimmed(s: Seq<char>) -> Seq<char>;

/// `char::is_numeric`: whether the character belongs to one of Unicode's
/// number categories. The contract only gives the answer its name.
pub assume_specification[ char::is_numeric ](c: char) -> (r: bool)
    ensures
        r == numeric(c),
;

/// `str::trim`: the slice without its leading and trailing whitespace. The
/// contract only gives the result its name.
pub assume_specification[ str::trim ](s: &str) -> (r: &str)
    ensures
        r@ == trimmed(s@),
;

/// `String::push`: the string with the character appended at its end.
pub assume_specification[ String::push ](s: &mut String, c: char)
    ensures
        final(s)@ == old(s)@.push(c),
;

/// `std::str::from_utf8`: the text that the bytes encode, where they are
/// valid UTF-8, and `None` where they are not. Validity and decoding are
/// those of `vstd::utf8`.
#[verifier::external_body]
pub(crate) fn utf8_text(bytes: &[u8]) -> (text: Option<&str>)
    ensures
        text is Some == valid_utf8(bytes@),
        text is Some ==> text.unwrap()@ == decode_utf8(bytes@),
{
    match std::str::from_utf8(bytes) {
        Ok(text) => Some(text),
        Err(_) => None,
    }
}

} // verus!
