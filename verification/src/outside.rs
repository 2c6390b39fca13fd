//! Contracts for the outside functions the library relies on.
//!
//! Everything in this module is trusted: Verus believes the stated
//! contracts without reading the bodies.  Each item names the outside
//! function it stands for and says no more of it than that function's
//! source or documentation shows.

use vstd::prelude::*;

verus! {

/// Relies on `alloc::string::String::push`: appends one character to the
/// end of the string.
pub assume_specification[ String::push ](s: &mut String, c: char)
    ensures
        final(s)@ == old(s)@.push(c),
;

/// Relies on `std::time::SystemTime::now`: milliseconds since the Unix
/// epoch, as the system clock reports them.  Saturates instead of
/// wrapping, so the result is never negative.
#[verifier::external_body]
pub(crate) fn now_millis() -> (r: i64)
    ensures
        r >= 0,
{
    match std::time::SystemTime::now().duration_since(std::time::UNIX_EPOCH) {
        Ok(d) => {
            let ms = d.as_millis();
            if ms > i64::MAX as u128 {
                i64::MAX
            } else {
                ms as i64
            }
        },
        Err(_) => 0,
    }
}

/// Relies on `char::from_u32`: `Some` exactly for Unicode scalar
/// values, that is everything below `0x110000` except the surrogate
/// range, and the returned character has the given code.
pub assume_specification[ char::from_u32 ](u: u32) -> (r: Option<char>)
    ensures
        match r {
            Some(c) => c as u32 == u,
            None => !(u < 0xD800 || (0xE000 <= u && u < 0x110000)),
        },
;

/// Relies on `uuid::Uuid::new_v4` and its `Display`: a fresh random
/// version-4 UUID, rendered in the 36-character hyphenated lower-case
/// hex form.  Randomness allows no claim beyond the shape.
#[verifier::external_body]
pub(crate) fn new_uuid_string() -> (r: String)
    ensures
        r@.len() == 36,
{
    uuid::Uuid::new_v4().to_string()
}

} // verus!
