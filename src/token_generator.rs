use vstd::prelude::*;

verus! {

/// An ASCII letter or digit.
pub open spec fn is_alphanumeric(c: char) -> bool {
    ('a' <= c && c <= 'z') || ('A' <= c && c <= 'Z') || ('0' <= c && c <= '9')
}

/// Relies on `rand::distributions::Alphanumeric` sampled from
/// `rand::thread_rng`: each draw is one of the 62 ASCII letters and digits,
/// and `take(size)` keeps exactly `size` of them.
#[verifier::external_body]
pub fn generate_token(size: usize) -> (r: String)
    ensures
        r@.len() == size,
        forall|i: int| 0 <= i < r@.len() ==> is_alphanumeric(#[trigger] r@[i]),
{
    rand::Rng::sample_iter(rand::thread_rng(), &rand::distributions::Alphanumeric).take(size).map(
        char::from,
    ).collect()
}

} // verus!
