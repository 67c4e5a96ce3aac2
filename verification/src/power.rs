//! Rounding a size up to a power of two.

use vstd::prelude::*;

verus! {

/// The smallest power of two that is at least `n`.
pub open spec fn next_power_of_two(n: nat) -> nat
    decreases n,
{
    if n <= 1 {
        1
    } else {
        2 * next_power_of_two(((n + 1) / 2) as nat)
    }
}

/// The largest power of two that is a possible length of a vector of bytes: a vector holds
/// at most `isize::MAX` bytes, and `isize::MAX` is one less than a power of two.
pub open spec fn max_storage() -> nat {
    ((isize::MAX + 1) / 2) as nat
}

/// Rounding `n` up gives a power of two that is at least `n`, and every power of two that is
/// at least `n` is at least as large.
pub proof fn law_next_power_of_two_is_least(n: nat)
    ensures
        vstd::arithmetic::power2::is_pow2(next_power_of_two(n) as int),
        n <= next_power_of_two(n),
        forall|p: int|
            n <= p && #[trigger] vstd::arithmetic::power2::is_pow2(p) ==> next_power_of_two(n)
                <= p,
    decreases n,
{
    reveal(vstd::arithmetic::power2::is_pow2);
    if n > 1 {
        let half = ((n + 1) / 2) as nat;
        law_next_power_of_two_is_least(half);
        assert forall|p: int| n <= p && #[trigger] vstd::arithmetic::power2::is_pow2(
            p,
        ) implies next_power_of_two(n) <= p by {
            assert(vstd::arithmetic::power2::is_pow2(p / 2));
        }
    }
}

/// Rounding up stops at the first power of two: one that was rounded up from more than one is
/// less than twice as large.
pub proof fn law_next_power_of_two_is_near(n: nat)
    ensures
        n > 1 ==> next_power_of_two(n) < 2 * n,
        n <= 1 ==> next_power_of_two(n) == 1,
{
    reveal(vstd::arithmetic::power2::is_pow2);
    law_next_power_of_two_is_least(n);
    if n > 1 {
        let p = next_power_of_two(n) as int;
        assert(vstd::arithmetic::power2::is_pow2(p / 2));
    }
}

/// Rounding up a size that is a power of two already leaves it as it is.
pub proof fn law_next_power_of_two_keeps_powers(n: nat)
    requires
        vstd::arithmetic::power2::is_pow2(n as int),
    ensures
        next_power_of_two(n) == n,
{
    law_next_power_of_two_is_least(n);
}

/// A power of two that is larger than another is at least twice as large.
proof fn lemma_powers_double(p: int, q: int)
    requires
        vstd::arithmetic::power2::is_pow2(p),
        vstd::arithmetic::power2::is_pow2(q),
        p < q,
    ensures
        2 * p <= q,
    decreases q,
{
    reveal(vstd::arithmetic::power2::is_pow2);
    if p > 1 {
        lemma_powers_double(p / 2, q / 2);
    }
}

/// Doubling a power of two gives a power of two.
pub proof fn law_double_power(p: int)
    requires
        vstd::arithmetic::power2::is_pow2(p),
    ensures
        vstd::arithmetic::power2::is_pow2(2 * p),
{
    reveal(vstd::arithmetic::power2::is_pow2);
    assert((2 * p) / 2 == p);
}

/// `max_storage()` is a power of two, and twice that is the largest power of two in `usize`.
pub proof fn law_max_storage()
    ensures
        vstd::arithmetic::power2::is_pow2(max_storage() as int),
        2 * max_storage() == isize::MAX + 1,
        4 * max_storage() == usize::MAX + 1,
{
    reveal_with_fuel(vstd::arithmetic::power2::is_pow2, 64);
    if usize::BITS == 32 {
        assert(max_storage() == 0x4000_0000);
    } else {
        assert(max_storage() == 0x4000_0000_0000_0000);
    }
}

/// The size that `n` rounds up to can be allocated exactly if `n` is at most `max_storage()`,
/// and does not fit in a `usize` exactly if `n` is more than twice that.
pub proof fn law_next_power_of_two_range(n: nat)
    ensures
        next_power_of_two(n) <= isize::MAX <==> n <= max_storage(),
        next_power_of_two(n) > usize::MAX <==> n > 2 * max_storage(),
{
    let m = max_storage() as int;
    law_max_storage();
    law_double_power(m);
    law_next_power_of_two_is_least(n);
    if next_power_of_two(n) > 2 * m {
        lemma_powers_double(2 * m, next_power_of_two(n) as int);
    }
    if m < next_power_of_two(n) {
        lemma_powers_double(m, next_power_of_two(n) as int);
    }
}

/// A storage does not shrink when its size is multiplied by a factor of at least one and
/// rounded up, and keeps its size if the factor is one.
pub proof fn law_grown_size(size: nat, factor: nat)
    requires
        vstd::arithmetic::power2::is_pow2(size as int),
        factor > 0,
    ensures
        next_power_of_two(size * factor) >= size * factor >= size,
        factor == 1 ==> next_power_of_two(size * factor) == size,
{
    assert(size * factor >= size) by (nonlinear_arith)
        requires
            factor >= 1,
    ;
    law_next_power_of_two_is_least(size * factor);
    law_next_power_of_two_keeps_powers(size);
}

/// The smallest power of two that is at least `n`, or `None` if it does not fit in a `usize`.
pub(crate) fn checked_next_power_of_two(n: usize) -> (r: Option<usize>)
    ensures
        match r {
            Some(p) => p == next_power_of_two(n as nat),
            None => next_power_of_two(n as nat) > usize::MAX,
        },
{
    proof {
        reveal(vstd::arithmetic::power2::is_pow2);
        law_next_power_of_two_is_least(n as nat);
    }
    let ghost least = next_power_of_two(n as nat) as int;
    let mut p: usize = 1;
    while p < n
        invariant
            vstd::arithmetic::power2::is_pow2(p as int),
            vstd::arithmetic::power2::is_pow2(least),
            least == next_power_of_two(n as nat),
            n <= least,
            0 < p <= least,
        decreases least - p,
    {
        proof {
            lemma_powers_double(p as int, least);
            law_double_power(p as int);
        }
        if p > usize::MAX / 2 {
            return None;
        }
        p = 2 * p;
    }
    Some(p)
}

} // verus!
