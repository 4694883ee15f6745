use vstd::prelude::*;

verus! {

/// `n` is `2^k` for some `k >= 0`.
pub open spec fn is_pow2(n: nat) -> bool
    decreases n,
{
    if n == 0 {
        false
    } else if n == 1 {
        true
    } else {
        n % 2 == 0 && is_pow2(n / 2)
    }
}

proof fn lemma_bit_trick_even(n: usize)
    requires
        n > 1,
        n % 2 == 0,
    ensures
        (n & (n - 1) as usize) == 0 <==> ((n / 2) & ((n / 2) - 1) as usize) == 0,
{
    assert((n & (n - 1) as usize) == 0 <==> ((n / 2) & ((n / 2) - 1) as usize) == 0)
        by (bit_vector)
        requires
            n > 1,
            n % 2 == 0,
    ;
}

proof fn lemma_bit_trick_odd(n: usize)
    requires
        n > 1,
        n % 2 == 1,
    ensures
        (n & (n - 1) as usize) != 0,
{
    assert((n & (n - 1) as usize) != 0) by (bit_vector)
        requires
            n > 1,
            n % 2 == 1,
    ;
}

proof fn lemma_bit_trick(n: usize)
    requires
        n > 0,
    ensures
        (n & (n - 1) as usize) == 0 <==> is_pow2(n as nat),
    decreases n,
{
    if n == 1 {
        assert((1usize & 0usize) == 0) by (bit_vector);
    } else if n % 2 == 0 {
        lemma_bit_trick_even(n);
        lemma_bit_trick((n / 2) as usize);
    } else {
        lemma_bit_trick_odd(n);
    }
}

/// Whether `n` is a power of two (`1, 2, 4, ...`); zero is not.
pub fn is_power_of_two(n: usize) -> (r: bool)
    ensures
        r == is_pow2(n as nat),
{
    if n == 0 {
        false
    } else {
        proof {
            lemma_bit_trick(n);
        }
        (n & (n - 1)) == 0
    }
}

} // verus!
