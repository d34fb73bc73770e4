//! Small facts about integers.

use vstd::arithmetic::power2::{lemma_pow2_pos, lemma_pow2_unfold, pow2};
use vstd::prelude::*;

verus! {

/// The exponent of a power of two; `None` for any other number.
pub fn exact_log2(value: usize) -> (exponent: Option<u16>)
    ensures
        match exponent {
            Some(e) => e < usize::BITS && value == pow2(e as nat),
            None => forall|e: nat| value != #[trigger] pow2(e),
        },
{
    if value == 0 {
        proof {
            assert forall|e: nat| value != #[trigger] pow2(e) by {
                lemma_pow2_pos(e);
            }
        }
        return None;
    }
    let mut rest: usize = value;
    let mut exponent: u16 = 0;
    assert(pow2(0) == 1) by {
        vstd::arithmetic::power2::lemma2_to64();
    }
    while rest % 2 == 0
        invariant
            0 < rest <= value,
            value == rest * pow2(exponent as nat),
            exponent < usize::BITS,
        decreases rest,
    {
        proof {
            lemma_pow2_unfold((exponent + 1) as nat);
            lemma_pow2_pos(exponent as nat);
            let half = (rest / 2) as int;
            let power = pow2(exponent as nat) as int;
            assert(rest == 2 * half);
            assert((2 * half) * power == half * (2 * power)) by (nonlinear_arith);
            assert(half * (2 * power) >= 2 * power) by (nonlinear_arith)
                requires
                    half >= 1,
                    power >= 1,
            ;
            if exponent + 1 >= usize::BITS {
                lemma_past_word((exponent + 1) as nat);
            }
        }
        rest = rest / 2;
        exponent = exponent + 1;
    }
    if rest == 1 {
        Some(exponent)
    } else {
        proof {
            assert forall|e: nat| value != #[trigger] pow2(e) by {
                if value == pow2(e) {
                    lemma_odd_times_power(rest as nat, exponent as nat, e);
                }
            }
        }
        None
    }
}

/// Whether this is the smallest power of two that is not below a number.
pub open spec fn is_next_power(value: int, power: int) -> bool {
    exists|e: nat|
        #![trigger pow2(e)]
        power == pow2(e) && value <= power && (e > 0 ==> pow2((e - 1) as nat) < value)
}

/// The smallest power of two that is not below a number, where it fits into a
/// word.
pub fn next_power_of_two(value: usize) -> (power: Option<usize>)
    ensures
        match power {
            Some(power) => is_next_power(value as int, power as int),
            None => forall|e: nat| value <= #[trigger] pow2(e) ==> pow2(e) > usize::MAX,
        },
{
    let mut power: usize = 1;
    let ghost mut exponent: nat = 0;
    proof {
        vstd::arithmetic::power2::lemma2_to64();
    }
    while power < value
        invariant
            power >= 1,
            power == pow2(exponent),
            exponent > 0 ==> pow2((exponent - 1) as nat) < value,
        decreases usize::MAX - power,
    {
        proof {
            lemma_pow2_unfold((exponent + 1) as nat);
        }
        if power > usize::MAX / 2 {
            proof {
                assert forall|e: nat| value <= #[trigger] pow2(e) implies pow2(e) > usize::MAX by {
                    if e <= exponent {
                        if e < exponent {
                            vstd::arithmetic::power2::lemma_pow2_strictly_increases(e, exponent);
                        }
                    } else if e > exponent + 1 {
                        vstd::arithmetic::power2::lemma_pow2_strictly_increases(
                            (exponent + 1) as nat,
                            e,
                        );
                    }
                }
            }
            return None;
        }
        power = power * 2;
        proof {
            exponent = exponent + 1;
        }
    }
    assert(is_next_power(value as int, power as int)) by {
        assert(power == pow2(exponent));
    }
    Some(power)
}

proof fn lemma_past_word(e: nat)
    requires
        e >= usize::BITS,
    ensures
        pow2(e) > usize::MAX,
{
    vstd::arithmetic::power2::lemma2_to64();
    vstd::arithmetic::power2::lemma2_to64_rest();
    if e > usize::BITS {
        vstd::arithmetic::power2::lemma_pow2_strictly_increases(usize::BITS as nat, e);
    }
}

/// No odd number above one times a power of two is a power of two.
proof fn lemma_odd_times_power(odd: nat, k: nat, e: nat)
    requires
        odd % 2 == 1,
        odd * pow2(k) == pow2(e),
    ensures
        odd == 1,
    decreases e,
{
    vstd::arithmetic::power2::lemma2_to64();
    lemma_pow2_pos(k);
    if k == 0 {
        let one = pow2(k);
        assert(odd * one == odd) by (nonlinear_arith)
            requires
                one == 1,
        ;
        if e > 0 {
            lemma_pow2_unfold(e);
        }
    } else {
        lemma_pow2_unfold(k);
        let half = pow2((k - 1) as nat) as int;
        lemma_pow2_pos((k - 1) as nat);
        assert(odd * (2 * half) == 2 * (odd * half)) by (nonlinear_arith);
        assert(odd * half >= 1) by (nonlinear_arith)
            requires
                odd >= 1,
                half >= 1,
        ;
        if e == 0 {
            assert(false);
        }
        lemma_pow2_unfold(e);
        lemma_odd_times_power(odd, (k - 1) as nat, (e - 1) as nat);
    }
}

} // verus!
