use vstd::prelude::*;

verus! {

/// `r` is the integer square root of `n`: the largest value whose square does
/// not exceed `n`.
pub open spec fn is_isqrt(n: int, r: int) -> bool {
    &&& 0 <= r
    &&& r * r <= n
    &&& n < (r + 1) * (r + 1)
}

/// Side of the stratification grid for `samples_per_pixel` samples: the largest
/// `s` with `s * s <= samples_per_pixel`. Each pixel is sampled once in each of
/// the `s * s` cells of the grid.
pub fn sqrt_samples(samples_per_pixel: usize) -> (r: usize)
    ensures
        is_isqrt(samples_per_pixel as int, r as int),
{
    let n = samples_per_pixel;
    let mut r: usize = 0;
    while r + 1 <= n / (r + 1)
        invariant
            r * r <= n,
            r <= n,
            r < usize::MAX,
        decreases n - r,
    {
        proof {
            let k = r as int + 1;
            let q = n as int / k;
            vstd::arithmetic::div_mod::lemma_fundamental_div_mod(n as int, k);
            assert(k * k <= n) by (nonlinear_arith)
                requires
                    k <= q,
                    k > 0,
                    n as int == k * q + n as int % k,
                    n as int % k >= 0,
            ;
            assert(k <= n && (k == 1 || k < k * k)) by (nonlinear_arith)
                requires
                    k * k <= n,
                    k > 0,
            ;
        }
        r = r + 1;
    }
    proof {
        let k = r as int + 1;
        let q = n as int / k;
        vstd::arithmetic::div_mod::lemma_fundamental_div_mod(n as int, k);
        assert(n < k * k) by (nonlinear_arith)
            requires
                k > q,
                k > 0,
                n as int == k * q + n as int % k,
                n as int % k < k,
        ;
    }
    r
}

} // verus!
