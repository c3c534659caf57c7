//! Small integer facts.
use vstd::arithmetic::power2::is_pow2;
use vstd::prelude::*;

verus! {

/// Whether `n` is a power of two. Zero is not.
pub fn is_power_of_two(n: u32) -> (b: bool)
    ensures
        b == is_pow2(n as int),
{
    reveal(is_pow2);
    if n == 0 {
        return false;
    }
    let mut rest: u32 = n;
    while rest % 2 == 0
        invariant
            rest > 0,
            is_pow2(rest as int) == is_pow2(n as int),
        decreases rest,
    {
        reveal(is_pow2);
        rest = rest / 2;
    }
    rest == 1
}

/// A number counts as a power of two exactly when it is one: some number of doublings of one.
pub proof fn law_powers_of_two_are_doublings_of_one(n: u32, b: bool)
    requires
        call_ensures(is_power_of_two, (n,), b),
    ensures
        b <==> exists|k: nat| n == #[trigger] vstd::arithmetic::power2::pow2(k),
        n == 0 ==> !b,
        n == 1 ==> b,
{
    vstd::arithmetic::power2::is_pow2_equiv(n as int);
    reveal(is_pow2);
    if b {
        let k = choose|k: nat| vstd::arithmetic::power::pow(2, k) == n;
        vstd::arithmetic::power2::lemma_pow2(k);
        assert(n == vstd::arithmetic::power2::pow2(k));
    }
    if exists|k: nat| n == #[trigger] vstd::arithmetic::power2::pow2(k) {
        let k = choose|k: nat| n == #[trigger] vstd::arithmetic::power2::pow2(k);
        vstd::arithmetic::power2::lemma_pow2(k);
        assert(vstd::arithmetic::power::pow(2, k) == n);
    }
}

} // verus!
