//! The library's trusted boundary: each function here makes one call into
//! an outside crate (or std) and states only what that crate's source or
//! documentation promises. Nothing else in the crate is taken on trust.
use vstd::prelude::*;

verus! {

/// Relies on `uuid::Uuid::new_v4` and `Uuid::as_u128`: a freshly generated
/// random (version 4) UUID, carried as its 128-bit value. The result is
/// random, so nothing is promised of it; callers check freshness against
/// the store themselves.
#[verifier::external_body]
pub(crate) fn generate_uuid_value() -> u128 {
    uuid::Uuid::new_v4().as_u128()
}

/// Relies on `chrono::Utc::now` and `DateTime`'s `Display`: the current
/// UTC date and time rendered as text. The result depends on the clock, so
/// nothing is promised of it. (`Utc::now` aborts only on a system clock
/// before the Unix epoch.)
#[verifier::external_body]
pub(crate) fn current_timestamp() -> String {
    chrono::Utc::now().to_string()
}

/// A byte from rand's `Alphanumeric` set: an ASCII letter or digit.
pub open spec fn is_alphanumeric_byte(b: u8) -> bool {
    (97 <= b && b <= 122) || (65 <= b && b <= 90) || (48 <= b && b <= 57)
}

/// Relies on `rand::rng` and `Rng::sample` with rand's `Alphanumeric`
/// distribution, whose source draws uniformly from the 62 bytes
/// a-z, A-Z, 0-9.
#[verifier::external_body]
pub(crate) fn sample_alphanumeric_byte() -> (r: u8)
    ensures
        is_alphanumeric_byte(r),
{
    rand::Rng::sample(&mut rand::rng(), rand::distr::Alphanumeric)
}

/// Relies on `String::from_utf8`: ASCII bytes are valid UTF-8 and decode
/// to exactly one character per byte, with the same code.
#[verifier::external_body]
pub(crate) fn ascii_bytes_to_string(v: Vec<u8>) -> (r: String)
    requires
        forall|i: int| 0 <= i < v@.len() ==> v@[i] < 128,
    ensures
        r@ == v@.map_values(|b: u8| b as char),
{
    match String::from_utf8(v) {
        Ok(s) => s,
        Err(_) => String::new(),
    }
}

} // verus!
