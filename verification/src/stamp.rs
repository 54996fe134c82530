//! Fresh identifiers and the current time.
//!
//! What these functions return differs from call to call, so their contracts
//! say only what holds of every result.

use vstd::prelude::*;
use crate::classes::{is_digit, is_upper};

verus! {

/// `std::time::SystemTime`, a point in time as the system clock gives it.
/// Records carry it as it is; nothing is read from it.
#[verifier::external_type_specification]
#[verifier::external_body]
pub struct ExSystemTime(std::time::SystemTime);

/// `c` is one of the 32 characters of Crockford's base 32: a digit, or an
/// upper-case letter other than `I`, `L`, `O` and `U`.
pub open spec fn is_base32(c: char) -> bool {
    is_digit(c) || (is_upper(c) && c != 'I' && c != 'L' && c != 'O' && c != 'U')
}

/// `s` has the form of a ULID in text: 26 characters of Crockford's base 32.
pub open spec fn is_ulid(s: Seq<char>) -> bool {
    &&& s.len() == 26
    &&& forall|i: int| 0 <= i < s.len() ==> is_base32(#[trigger] s[i])
}

/// `ulid::Ulid::new` makes an identifier from the clock and a random number
/// generator, and `Ulid::to_string` writes it as 26 characters of Crockford's
/// base 32.  Which characters is not known beforehand.
#[verifier::external_body]
pub(crate) fn new_ulid() -> (id: String)
    ensures
        is_ulid(id@),
{
    ulid::Ulid::new().to_string()
}

/// `chrono::Utc::now` reads the clock, and `DateTime::to_rfc3339` writes the
/// time in the format of RFC 3339.  Nothing is claimed of the text.  The call
/// needs a clock that stands at or after the start of 1970.
#[verifier::external_body]
pub(crate) fn now_rfc3339() -> (text: String) {
    chrono::Utc::now().to_rfc3339()
}

/// `SystemTime::now` reads the clock.  Nothing is claimed of the result.
pub assume_specification[ std::time::SystemTime::now ]() -> (now: std::time::SystemTime);

} // verus!
