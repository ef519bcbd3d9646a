//! A Park-Miller-Lehmer pseudo-random generator.
use vstd::prelude::*;

verus! {

/// The generator's modulus, the Mersenne prime 2^31 - 1.
pub const RAND_MAX: u64 = 2_147_483_647;

/// The generator's multiplier.
pub const RAND_MULTIPLIER: u64 = 48271;

/// The state that follows `s`.
pub open spec fn lehmer_next(s: int) -> int {
    (s * 48271) % 2_147_483_647
}

/// The state `k` steps after `s`.
pub open spec fn lehmer_iter(s: int, k: nat) -> int
    decreases k,
{
    if k == 0 {
        s
    } else {
        lehmer_next(lehmer_iter(s, (k - 1) as nat))
    }
}

/// The states 1 to `k` after `s`, as the digits of a number in base 2^32,
/// the first most significant.
pub open spec fn lehmer_acc(s: int, k: nat) -> int
    decreases k,
{
    if k == 0 {
        0
    } else {
        lehmer_acc(s, (k - 1) as nat) * 0x1_0000_0000 + lehmer_iter(s, k)
    }
}

/// 2^(32 * k).
pub open spec fn pow_2_32(k: nat) -> int
    decreases k,
{
    if k == 0 {
        1
    } else {
        pow_2_32((k - 1) as nat) * 0x1_0000_0000
    }
}

/// A 128-bit random number built from the next four states after `seed`,
/// most significant first. A zero seed is first replaced by the low 32
/// bits of `current_ticks`.
pub fn random(seed: &mut u32, current_ticks: u64) -> (r: u128)
    ensures
        ({
            let s0 = if *old(seed) == 0 { (current_ticks % 0x1_0000_0000) as int } else { *old(seed) as int };
            let s1 = lehmer_next(s0);
            let s2 = lehmer_next(s1);
            let s3 = lehmer_next(s2);
            let s4 = lehmer_next(s3);
            &&& *final(seed) == s4
            &&& r == s1 * 0x1_0000_0000_0000_0000_0000_0000 + s2 * 0x1_0000_0000_0000_0000 + s3
                * 0x1_0000_0000 + s4
        }),
{
    if *seed == 0 {
        *seed = (current_ticks % 0x1_0000_0000) as u32;
    }
    let ghost s0 = *seed as int;
    assert(pow_2_32(4) == 0x1_0000_0000_0000_0000_0000_0000_0000_0000) by {
        reveal_with_fuel(pow_2_32, 5);
    }
    let mut ret: u128 = 0;
    let mut k: usize = 0;
    while k < 4
        invariant
            k <= 4,
            0 <= ret < pow_2_32(k as nat),
            pow_2_32(4) == 0x1_0000_0000_0000_0000_0000_0000_0000_0000,
            *seed == lehmer_iter(s0, k as nat),
            ret == lehmer_acc(s0, k as nat),
        decreases 4 - k,
    {
        let next = (*seed as u64 * RAND_MULTIPLIER) % RAND_MAX;
        *seed = next as u32;
        proof {
            let p = pow_2_32(k as nat);
            assert(pow_2_32((k + 1) as nat) == p * 0x1_0000_0000);
            assert(p * 0x1_0000_0000 <= pow_2_32(4)) by {
                reveal_with_fuel(pow_2_32, 5);
            }
            assert(ret * 0x1_0000_0000 + next < p * 0x1_0000_0000) by (nonlinear_arith)
                requires
                    ret < p,
                    next < 0x1_0000_0000,
            ;
        }
        ret = ret * 0x1_0000_0000 + (next as u128);
        k = k + 1;
    }
    proof {
        reveal_with_fuel(lehmer_acc, 5);
        reveal_with_fuel(lehmer_iter, 5);
        let (a, b, c, d) = (
            lehmer_iter(s0, 1),
            lehmer_iter(s0, 2),
            lehmer_iter(s0, 3),
            lehmer_iter(s0, 4),
        );
        assert(((a * 0x1_0000_0000 + b) * 0x1_0000_0000 + c) * 0x1_0000_0000 + d == a
            * 0x1_0000_0000_0000_0000_0000_0000 + b * 0x1_0000_0000_0000_0000 + c * 0x1_0000_0000
            + d) by (nonlinear_arith);
    }
    ret
}

} // verus!
