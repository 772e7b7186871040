//! Integer arithmetic that the money operations share: truncated division,
//! sums of shares, and rounding to a power of ten.
use vstd::prelude::*;
use vstd::arithmetic::div_mod::{
    lemma_basic_div, lemma_div_pos_is_pos, lemma_fundamental_div_mod, lemma_mod_bound,
    lemma_mod_multiples_basic,
};
use vstd::arithmetic::power::{lemma_pow0, lemma_pow_increases, pow};

verus! {

/// The absolute value of `x`.
pub open spec fn magnitude(x: int) -> nat {
    if x < 0 {
        (-x) as nat
    } else {
        x as nat
    }
}

/// The sign of `x`: 1, 0 or -1.
pub open spec fn signum(x: int) -> int {
    if x > 0 {
        1
    } else if x < 0 {
        -1
    } else {
        0
    }
}

/// `a` divided by `b`, rounded toward zero.
pub open spec fn truncated_quotient(a: int, b: int) -> int
    recommends
        b > 0,
{
    if a >= 0 {
        a / b
    } else {
        -((-a) / b)
    }
}

/// What is left of `a` after `truncated_quotient(a, b)` times `b`: it has the
/// sign of `a` or is zero.
pub open spec fn truncated_remainder(a: int, b: int) -> int
    recommends
        b > 0,
{
    a - truncated_quotient(a, b) * b
}

/// The sum of `amounts`.
pub open spec fn total(amounts: Seq<int>) -> int
    decreases amounts.len(),
{
    if amounts.len() == 0 {
        0
    } else {
        total(amounts.drop_last()) + amounts.last()
    }
}

/// `base` with `step` added to each of its first `count` items.
pub open spec fn with_bonus(base: Seq<int>, count: nat, step: int) -> Seq<int> {
    Seq::new(
        base.len(),
        |i: int|
            base[i] + if i < count {
                step
            } else {
                0
            },
    )
}

/// The multiple of `unit` nearest to `amount`; an amount halfway between two
/// multiples goes to the one farther from zero.
pub open spec fn rounded_half_away(amount: int, unit: int) -> int
    recommends
        unit > 0,
{
    signum(amount) * (((2 * magnitude(amount) + unit) / (2 * unit)) * unit)
}

/// Truncated division is division of the magnitudes, with the sign of the
/// dividend put back; the remainder is smaller than the divisor.
pub proof fn lemma_truncated_division(a: int, b: int)
    requires
        b > 0,
    ensures
        truncated_quotient(a, b) == signum(a) * (magnitude(a) as int / b),
        truncated_remainder(a, b) == signum(a) * (magnitude(a) as int % b),
        magnitude(truncated_remainder(a, b)) == magnitude(a) as int % b,
        magnitude(truncated_remainder(a, b)) < b,
        magnitude(truncated_quotient(a, b)) == magnitude(a) as int / b,
        truncated_remainder(a, b) != 0 ==> signum(truncated_remainder(a, b)) == signum(a),
{
    let m = magnitude(a) as int;
    lemma_fundamental_div_mod(m, b);
    lemma_mod_bound(m, b);
    lemma_div_pos_is_pos(m, b);
    let q = m / b;
    let r = m % b;
    assert(b * q == q * b) by (nonlinear_arith);
    if a > 0 {
        assert(signum(a) * q == q && signum(a) * r == r);
    } else if a < 0 {
        assert((-q) * b == -(q * b)) by (nonlinear_arith);
        assert(signum(a) * q == -q && signum(a) * r == -r);
    } else {
        assert(q == 0 && r == 0) by (nonlinear_arith)
            requires
                0 == b * q + r,
                0 <= q,
                0 <= r,
                b > 0,
        ;
    }
}

/// Adding `step` to the first `count` items adds `count` times `step` to the sum.
pub proof fn lemma_total_with_bonus(base: Seq<int>, count: nat, step: int)
    requires
        count <= base.len(),
    ensures
        total(with_bonus(base, count, step)) == total(base) + count * step,
    decreases base.len(),
{
    let bumped = with_bonus(base, count, step);
    if base.len() == 0 {
        assert(count * step == 0) by (nonlinear_arith)
            requires
                count == 0,
        ;
    } else {
        let shorter = base.drop_last();
        if count == base.len() {
            assert(bumped.drop_last() == with_bonus(shorter, (count - 1) as nat, step));
            lemma_total_with_bonus(shorter, (count - 1) as nat, step);
            assert((count - 1) * step + step == count * step) by (nonlinear_arith);
        } else {
            assert(bumped.drop_last() == with_bonus(shorter, count, step));
            lemma_total_with_bonus(shorter, count, step);
        }
    }
}

/// The sum of `count` items that are all `value`.
pub proof fn lemma_total_of_equal_items(items: Seq<int>, value: int)
    requires
        forall|i: int| 0 <= i < items.len() ==> items[i] == value,
    ensures
        total(items) == items.len() * value,
    decreases items.len(),
{
    if items.len() == 0 {
        assert(items.len() * value == 0) by (nonlinear_arith)
            requires
                items.len() == 0,
        ;
    } else {
        lemma_total_of_equal_items(items.drop_last(), value);
        assert((items.len() - 1) * value + value == items.len() * value) by (nonlinear_arith);
    }
}

/// Where no item is negative, none exceeds the sum; where none is positive,
/// none is below it.
pub proof fn lemma_total_bounds_items(items: Seq<int>, index: int)
    requires
        0 <= index < items.len(),
    ensures
        (forall|i: int| 0 <= i < items.len() ==> items[i] >= 0) ==> 0 <= items[index] <= total(items),
        (forall|i: int| 0 <= i < items.len() ==> items[i] <= 0) ==> total(items) <= items[index] <= 0,
    decreases items.len(),
{
    let shorter = items.drop_last();
    if forall|i: int| 0 <= i < items.len() ==> items[i] >= 0 {
        assert forall|i: int| 0 <= i < shorter.len() implies shorter[i] >= 0 by {
            assert(shorter[i] == items[i]);
        }
        lemma_total_sign(shorter);
    }
    if forall|i: int| 0 <= i < items.len() ==> items[i] <= 0 {
        assert forall|i: int| 0 <= i < shorter.len() implies shorter[i] <= 0 by {
            assert(shorter[i] == items[i]);
        }
        lemma_total_sign(shorter);
    }
    if index < items.len() - 1 {
        lemma_total_bounds_items(shorter, index);
    }
}

/// A sum of items of one sign has that sign.
pub proof fn lemma_total_sign(items: Seq<int>)
    ensures
        (forall|i: int| 0 <= i < items.len() ==> items[i] >= 0) ==> total(items) >= 0,
        (forall|i: int| 0 <= i < items.len() ==> items[i] <= 0) ==> total(items) <= 0,
    decreases items.len(),
{
    if items.len() > 0 {
        let shorter = items.drop_last();
        if forall|i: int| 0 <= i < items.len() ==> items[i] >= 0 {
            assert forall|i: int| 0 <= i < shorter.len() implies shorter[i] >= 0 by {
                assert(shorter[i] == items[i]);
            }
        }
        if forall|i: int| 0 <= i < items.len() ==> items[i] <= 0 {
            assert forall|i: int| 0 <= i < shorter.len() implies shorter[i] <= 0 by {
                assert(shorter[i] == items[i]);
            }
        }
        lemma_total_sign(shorter);
    }
}

/// Rounding gives a multiple of the unit that is no farther from the amount
/// than half a unit, and the one with the larger magnitude where two
/// multiples are equally near.
pub proof fn lemma_rounded_half_away(amount: int, unit: int)
    requires
        unit > 0,
    ensures
        rounded_half_away(amount, unit) % unit == 0,
        2 * magnitude(rounded_half_away(amount, unit) - amount) <= unit,
        2 * magnitude(rounded_half_away(amount, unit) - amount) == unit ==> magnitude(
            rounded_half_away(amount, unit),
        ) > magnitude(amount),
{
    let size = magnitude(amount) as int;
    let units = (2 * size + unit) / (2 * unit);
    let rest = (2 * size + unit) % (2 * unit);
    lemma_fundamental_div_mod(2 * size + unit, 2 * unit);
    lemma_mod_bound(2 * size + unit, 2 * unit);
    lemma_div_pos_is_pos(2 * size + unit, 2 * unit);
    assert((2 * unit) * units == 2 * (units * unit)) by (nonlinear_arith);
    let rounded = rounded_half_away(amount, unit);
    assert(rounded == if amount > 0 {
        units * unit
    } else if amount < 0 {
        -(units * unit)
    } else {
        0
    }) by (nonlinear_arith)
        requires
            rounded == signum(amount) * (units * unit),
    ;
    lemma_mod_multiples_basic(units, unit);
    lemma_mod_multiples_basic(-units, unit);
    lemma_mod_multiples_basic(0, unit);
    assert((-units) * unit == -(units * unit) && 0 * unit == 0) by (nonlinear_arith);
    if amount == 0 {
        assert(units == 0) by {
            lemma_basic_div(unit, 2 * unit);
        }
    }
}

/// The magnitude of `amount`, which always fits the unsigned type.
pub fn magnitude_of(amount: i64) -> (size: u64)
    ensures
        size == magnitude(amount as int),
{
    if amount < 0 {
        (-(amount as i128)) as u64
    } else {
        amount as u64
    }
}

/// `size` with the sign of `amount`.
pub fn signed_like(amount: i64, size: u64) -> (value: i64)
    requires
        amount > 0 ==> size <= i64::MAX,
        amount < 0 ==> -size >= i64::MIN,
    ensures
        value == signum(amount as int) * size,
{
    if amount < 0 {
        (-(size as i128)) as i64
    } else if amount > 0 {
        size as i64
    } else {
        0
    }
}

/// `amount` rounded to the nearest multiple of ten to the power `digits`,
/// halves away from zero.
pub fn round_to_power_of_ten(amount: i64, digits: usize) -> (rounded: i64)
    requires
        i64::MIN <= rounded_half_away(amount as int, pow(10, digits as nat)) <= i64::MAX,
    ensures
        rounded == rounded_half_away(amount as int, pow(10, digits as nat)),
{
    let ghost goal = pow(10, digits as nat);
    if amount == 0 {
        assert(0 * (((2 * magnitude(0) + goal) / (2 * goal)) * goal) == 0) by (nonlinear_arith);
        return 0;
    }
    let size: u128 = magnitude_of(amount) as u128;
    let mut unit: u128 = 1;
    let mut i: usize = 0;
    proof {
        lemma_pow0(10);
    }
    while i < digits
        invariant
            i <= digits,
            unit == pow(10, i as nat),
            1 <= unit <= 2 * size,
            size <= u64::MAX,
            goal == pow(10, digits as nat),
            size == magnitude(amount as int),
        decreases digits - i,
    {
        proof {
            assert(pow(10, (i + 1) as nat) == 10 * pow(10, i as nat)) by {
                reveal(pow);
            }
        }
        unit = unit * 10;
        i += 1;
        if unit > 2 * size {
            // The power already exceeds twice the amount, and the full
            // power is no smaller: the nearest multiple is zero.
            proof {
                lemma_pow_increases(10, i as nat, digits as nat);
                lemma_basic_div(2 * size + goal, 2 * goal);
                assert(0int * goal == 0);
                assert(signum(amount as int) * 0 == 0) by (nonlinear_arith);
            }
            return 0;
        }
    }
    let units: u128 = (2 * size + unit) / (2 * unit);
    proof {
        lemma_fundamental_div_mod(2 * size + unit, 2 * unit);
        lemma_mod_bound(2 * size + unit, 2 * unit);
        assert(0 <= units * unit <= size + unit) by (nonlinear_arith)
            requires
                2 * size + unit == (2 * unit) * units + (2 * size + unit) % (2 * unit),
                0 <= (2 * size + unit) % (2 * unit),
                unit >= 1,
                units >= 0,
                size >= 0,
        ;
    }
    let value: u128 = units * unit;
    proof {
        let q = (2 * size + unit) / (2 * unit);
        assert(rounded_half_away(amount as int, goal) == signum(amount as int) * (q * unit));
        assert(signum(amount as int) * (q * unit) == if amount > 0 {
            q * unit
        } else {
            -(q * unit)
        });
    }
    signed_like(amount, value as u64)
}

} // verus!
