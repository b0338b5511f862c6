//! Random identifier generation.
//!
//! The randomness itself comes from the rand crate; everything around the
//! sampled bytes — assembling them into a string of the requested length,
//! all characters alphanumeric — is verified.

use vstd::prelude::*;

verus! {

/// An ASCII letter or digit, by code point.
pub open spec fn is_alphanumeric_byte(b: u8) -> bool {
    (48 <= b && b <= 57) || (65 <= b && b <= 90) || (97 <= b && b <= 122)
}

/// An ASCII letter or digit character, by code point.
pub open spec fn is_alphanumeric_char(c: char) -> bool {
    (48 <= c as int && c as int <= 57) || (65 <= c as int && c as int <= 90) || (97 <= c as int
        && c as int <= 122)
}

#[verifier::external_type_specification]
#[verifier::external_body]
pub struct ExThreadRng(rand::rngs::ThreadRng);

/// Relies on rand::thread_rng: a handle to the thread-local random number
/// generator. Nothing is assumed about the values it will produce.
#[verifier::external_body]
fn fresh_rng() -> rand::rngs::ThreadRng {
    rand::thread_rng()
}

/// Relies on Rng::sample with the rand Alphanumeric distribution, which
/// draws uniformly from the ASCII letters and digits (A-Z, a-z, 0-9); only
/// membership in that set is assumed, not which member comes out.
#[verifier::external_body]
fn sample_alphanumeric(rng: &mut rand::rngs::ThreadRng) -> (b: u8)
    ensures
        is_alphanumeric_byte(b),
{
    rand::Rng::sample(rng, rand::distributions::Alphanumeric)
}

/// Relies on String::from_utf8: bytes below 128 are valid UTF-8 and decode
/// to one character each, with the same code points.
#[verifier::external_body]
fn ascii_to_string(bytes: Vec<u8>) -> (r: String)
    requires
        forall|i: int| 0 <= i < bytes@.len() ==> bytes@[i] < 128,
    ensures
        r@.len() == bytes@.len(),
        forall|i: int| 0 <= i < r@.len() ==> #[trigger] r@[i] as int == bytes@[i] as int,
{
    match String::from_utf8(bytes) {
        Ok(s) => s,
        Err(_) => String::new(),
    }
}

/// Generate a random string of the specified length using alphanumeric
/// characters.
#[verifier::loop_isolation(false)]
pub fn generate_random_string(length: usize) -> (r: String)
    ensures
        r@.len() == length,
        forall|i: int| 0 <= i < r@.len() ==> is_alphanumeric_char(#[trigger] r@[i]),
{
    let mut rng = fresh_rng();
    let mut bytes: Vec<u8> = Vec::new();
    let mut i: usize = 0;
    while i < length
        invariant
            bytes@.len() == i,
            i <= length,
            forall|j: int| 0 <= j < bytes@.len() ==> is_alphanumeric_byte(#[trigger] bytes@[j]),
        decreases length - i,
    {
        let b = sample_alphanumeric(&mut rng);
        bytes.push(b);
        i = i + 1;
    }
    let ghost bs = bytes@;
    let r = ascii_to_string(bytes);
    proof {
        assert forall|j: int| 0 <= j < r@.len() implies is_alphanumeric_char(#[trigger] r@[j]) by {
            assert(is_alphanumeric_byte(bs[j]));
            assert(r@[j] as int == bs[j] as int);
        }
    }
    r
}

} // verus!
