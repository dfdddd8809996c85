use vstd::prelude::*;

use rand::Rng;

verus! {

#[verifier::external_type_specification]
#[verifier::external_body]
pub struct ExStdRng(rand::rngs::StdRng);

/// Relies on `rand::Rng::gen_range` over an inclusive `i32` range: it
/// returns a value within the bounds (and panics on an empty range,
/// which the precondition excludes). Nothing more is promised of a
/// random draw.
#[verifier::external_body]
pub(crate) fn gen_range_i32(rng: &mut rand::rngs::StdRng, lo: i32, hi: i32) -> (r: i32)
    requires
        lo <= hi,
    ensures
        lo <= r <= hi,
{
    rng.gen_range(lo..=hi)
}

/// Relies on `rand::Rng::gen_range` over an inclusive `char` range: it
/// returns a character within the bounds. Used for the lowercase
/// letters, a nonempty range.
#[verifier::external_body]
pub(crate) fn gen_lowercase(rng: &mut rand::rngs::StdRng) -> (r: char)
    ensures
        'a' <= r <= 'z',
{
    rng.gen_range('a'..='z')
}

} // verus!
