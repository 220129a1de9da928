use vstd::prelude::*;

verus! {

/// Relies on `rand::Rng::gen_range` over an inclusive range drawn from
/// `rand::thread_rng()`: the result lies in `[min, max]`; it panics only on an
/// empty range, which `requires` leaves out.
#[verifier::external_body]
fn gen_inclusive(min: i32, max: i32) -> (r: i32)
    requires
        min <= max,
    ensures
        min <= r <= max,
{
    rand::Rng::gen_range(&mut rand::thread_rng(), min..=max)
}

/// Returns a random integer in `[min, max]`.
pub fn random_int(min: i32, max: i32) -> (r: i32)
    requires
        min <= max,
    ensures
        min <= r <= max,
{
    gen_inclusive(min, max)
}

/// Returns a random index into a collection of `len` items.
pub fn random_index(len: usize) -> (r: usize)
    requires
        0 < len <= i32::MAX as usize + 1,
    ensures
        r < len,
{
    let top = (len - 1) as i32;
    let k = random_int(0, top);
    k as usize
}

} // verus!
