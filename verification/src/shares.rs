//! Cutting an amount into shares that add up to it: equal shares and shares
//! by ratios.
use vstd::prelude::*;
use crate::arith::{
    lemma_total_bounds_items, lemma_total_of_equal_items, lemma_total_with_bonus,
    lemma_truncated_division, magnitude, magnitude_of, signed_like, signum, total,
    truncated_quotient, truncated_remainder, with_bonus,
};

verus! {

/// The amounts of `list` as integers.
pub open spec fn as_ints(list: Seq<i64>) -> Seq<int> {
    Seq::new(list.len(), |i: int| list[i] as int)
}

/// `amount` cut into `parts` shares: each is the truncated quotient, and the
/// first shares take one unit each of what the division left, with its sign.
pub open spec fn split_shares(amount: int, parts: nat) -> Seq<int> {
    let remainder = truncated_remainder(amount, parts as int);
    with_bonus(
        Seq::new(parts, |i: int| truncated_quotient(amount, parts as int)),
        magnitude(remainder),
        signum(remainder),
    )
}

/// The sum of `ratios`.
pub open spec fn ratio_total(ratios: Seq<u32>) -> nat
    decreases ratios.len(),
{
    if ratios.len() == 0 {
        0
    } else {
        ratio_total(ratios.drop_last()) + ratios.last() as nat
    }
}

/// For each ratio, `amount` times the ratio over `whole`, truncated toward zero.
pub open spec fn floor_shares(amount: int, ratios: Seq<u32>, whole: int) -> Seq<int> {
    Seq::new(ratios.len(), |i: int| truncated_quotient(amount * ratios[i] as int, whole))
}

/// What the truncated shares leave of `amount`.
pub open spec fn leftover(amount: int, ratios: Seq<u32>) -> int {
    amount - total(floor_shares(amount, ratios, ratio_total(ratios) as int))
}

/// `amount` laid out by `ratios`: the truncated shares, the first of which
/// take one unit each of the leftover, with its sign. Where the ratios sum to
/// zero, every share is zero.
pub open spec fn allocated_shares(amount: int, ratios: Seq<u32>) -> Seq<int> {
    if ratio_total(ratios) == 0 {
        Seq::new(ratios.len(), |i: int| 0int)
    } else {
        with_bonus(
            floor_shares(amount, ratios, ratio_total(ratios) as int),
            magnitude(leftover(amount, ratios)),
            signum(leftover(amount, ratios)),
        )
    }
}

/// The shares of a split add up to the amount that was split.
pub proof fn lemma_split_total(amount: int, parts: nat)
    requires
        parts >= 1,
    ensures
        split_shares(amount, parts).len() == parts,
        total(split_shares(amount, parts)) == amount,
{
    let quotient = truncated_quotient(amount, parts as int);
    let remainder = truncated_remainder(amount, parts as int);
    let base = Seq::new(parts, |i: int| quotient);
    lemma_truncated_division(amount, parts as int);
    lemma_total_of_equal_items(base, quotient);
    lemma_total_with_bonus(base, magnitude(remainder), signum(remainder));
    assert(magnitude(remainder) * signum(remainder) == remainder) by (nonlinear_arith);
    assert(parts * quotient == quotient * parts) by (nonlinear_arith);
}

/// No ratio exceeds the sum of the ratios.
pub proof fn lemma_ratio_within_total(ratios: Seq<u32>, index: int)
    requires
        0 <= index < ratios.len(),
    ensures
        ratios[index] <= ratio_total(ratios),
    decreases ratios.len(),
{
    if index < ratios.len() - 1 {
        lemma_ratio_within_total(ratios.drop_last(), index);
    }
}

/// The sum of the ratios is at most their number times the largest ratio.
pub proof fn lemma_ratio_total_bound(ratios: Seq<u32>)
    ensures
        ratio_total(ratios) <= ratios.len() * u32::MAX,
    decreases ratios.len(),
{
    if ratios.len() > 0 {
        lemma_ratio_total_bound(ratios.drop_last());
        assert((ratios.len() - 1) * u32::MAX + u32::MAX == ratios.len() * u32::MAX)
            by (nonlinear_arith);
    } else {
        assert(ratios.len() * u32::MAX == 0) by (nonlinear_arith)
            requires
                ratios.len() == 0,
        ;
    }
}

/// What truncation loses over the first shares: `whole` times their sum falls
/// short of `amount` times the sum of their ratios by less than `whole` for
/// each share, on the side of `amount`'s sign.
pub proof fn lemma_floor_shares_error(amount: int, ratios: Seq<u32>, whole: int)
    requires
        whole > 0,
    ensures
        ({
            let error = amount * ratio_total(ratios) - whole * total(
                floor_shares(amount, ratios, whole),
            );
            &&& amount >= 0 ==> 0 <= error <= ratios.len() * (whole - 1)
            &&& amount <= 0 ==> -(ratios.len() * (whole - 1)) <= error <= 0
        }),
        forall|i: int|
            0 <= i < ratios.len() ==> signum(#[trigger] floor_shares(amount, ratios, whole)[i])
                == signum(amount) || floor_shares(amount, ratios, whole)[i] == 0,
    decreases ratios.len(),
{
    let floors = floor_shares(amount, ratios, whole);
    if ratios.len() == 0 {
        assert(amount * ratio_total(ratios) == 0) by (nonlinear_arith)
            requires
                ratio_total(ratios) == 0,
        ;
        assert(whole * total(floors) == 0) by (nonlinear_arith)
            requires
                total(floors) == 0,
        ;
        assert(ratios.len() * (whole - 1) == 0) by (nonlinear_arith)
            requires
                ratios.len() == 0,
        ;
    } else {
        let shorter = ratios.drop_last();
        let ratio = ratios.last() as int;
        let product = amount * ratio;
        let share = truncated_quotient(product, whole);
        lemma_floor_shares_error(amount, shorter, whole);
        assert(floors.drop_last() == floor_shares(amount, shorter, whole));
        assert(floors.last() == share);
        lemma_truncated_division(product, whole);
        let before = total(floor_shares(amount, shorter, whole));
        let lost = truncated_remainder(product, whole);
        assert(amount * ratio_total(ratios) == amount * ratio_total(shorter) + product)
            by (nonlinear_arith)
            requires
                ratio_total(ratios) == ratio_total(shorter) + ratio,
                product == amount * ratio,
        ;
        assert(whole * (before + share) == whole * before + share * whole) by (nonlinear_arith);
        assert((ratios.len() - 1) * (whole - 1) + (whole - 1) == ratios.len() * (whole - 1))
            by (nonlinear_arith);
        assert(amount >= 0 ==> product >= 0) by (nonlinear_arith)
            requires
                product == amount * ratio,
                ratio >= 0,
        ;
        assert(amount <= 0 ==> product <= 0) by (nonlinear_arith)
            requires
                product == amount * ratio,
                ratio >= 0,
        ;
        assert(lost == product - share * whole);
        assert forall|i: int| 0 <= i < ratios.len() implies signum(#[trigger] floors[i]) == signum(
            amount,
        ) || floors[i] == 0 by {
            if i < ratios.len() - 1 {
                assert(floors[i] == floor_shares(amount, shorter, whole)[i]);
            } else {
                assert(share == signum(product) * (magnitude(product) as int / whole));
                vstd::arithmetic::div_mod::lemma_div_pos_is_pos(magnitude(product) as int, whole);
            }
        }
    }
}

/// Fewer units are left over than there are shares, and they have the sign
/// of the amount.
pub proof fn lemma_leftover_bound(amount: int, ratios: Seq<u32>)
    requires
        ratio_total(ratios) > 0,
    ensures
        magnitude(leftover(amount, ratios)) < ratios.len(),
        leftover(amount, ratios) != 0 ==> signum(leftover(amount, ratios)) == signum(amount),
{
    let whole = ratio_total(ratios) as int;
    let rest = leftover(amount, ratios);
    let count = ratios.len() as int;
    lemma_floor_shares_error(amount, ratios, whole);
    let error = amount * whole - whole * total(floor_shares(amount, ratios, whole));
    assert(error == whole * rest) by (nonlinear_arith)
        requires
            error == amount * whole - whole * total(floor_shares(amount, ratios, whole)),
            rest == amount - total(floor_shares(amount, ratios, whole)),
    ;
    let bound = count * (whole - 1);
    assert(count >= 1);
    assert(-count < rest < count && (amount >= 0 ==> rest >= 0) && (amount <= 0 ==> rest <= 0))
        by (nonlinear_arith)
        requires
            whole > 0,
            count >= 1,
            bound == count * (whole - 1),
            error == whole * rest,
            amount >= 0 ==> 0 <= error <= bound,
            amount <= 0 ==> -bound <= error <= 0,
    ;
}

/// The shares of an allocation add up to the amount that was laid out.
pub proof fn lemma_allocation_total(amount: int, ratios: Seq<u32>)
    requires
        ratio_total(ratios) > 0,
    ensures
        allocated_shares(amount, ratios).len() == ratios.len(),
        total(allocated_shares(amount, ratios)) == amount,
{
    let rest = leftover(amount, ratios);
    lemma_leftover_bound(amount, ratios);
    lemma_total_with_bonus(
        floor_shares(amount, ratios, ratio_total(ratios) as int),
        magnitude(rest),
        signum(rest),
    );
    assert(magnitude(rest) * signum(rest) == rest) by (nonlinear_arith);
}

/// The sign of `amount` as a step of one unit.
fn unit_step(amount: i64) -> (step: i64)
    ensures
        step == signum(amount as int),
{
    if amount > 0 {
        1
    } else if amount < 0 {
        -1
    } else {
        0
    }
}

/// Cuts `amount` into `parts` shares that add up to it.
pub fn split_amounts(amount: i64, parts: usize) -> (shares: Vec<i64>)
    requires
        parts >= 1,
    ensures
        as_ints(shares@) == split_shares(amount as int, parts as nat),
        total(as_ints(shares@)) == amount,
{
    let size = magnitude_of(amount);
    let quotient: u64 = size / (parts as u64);
    let extra: u64 = size % (parts as u64);
    let step = unit_step(amount);
    proof {
        lemma_truncated_division(amount as int, parts as int);
        lemma_split_total(amount as int, parts as nat);
        vstd::arithmetic::div_mod::lemma_fundamental_div_mod(size as int, parts as int);
        assert(quotient + 1 <= size || extra == 0) by (nonlinear_arith)
            requires
                size == parts * quotient + extra,
                parts >= 1,
                extra >= 0,
                quotient >= 0,
        ;
        assert(quotient <= size) by (nonlinear_arith)
            requires
                size == parts * quotient + extra,
                parts >= 1,
                extra >= 0,
                quotient >= 0,
        ;
    }
    let base = signed_like(amount, quotient);
    let raised = if extra > 0 {
        signed_like(amount, quotient + 1)
    } else {
        base
    };
    assert(extra > 0 ==> raised == base + step) by (nonlinear_arith)
        requires
            extra > 0 ==> raised == step * (quotient + 1),
            base == step * quotient,
    ;
    let mut shares: Vec<i64> = Vec::new();
    let mut i: usize = 0;
    while i < parts
        invariant
            i <= parts,
            parts >= 1,
            base == truncated_quotient(amount as int, parts as int),
            extra == magnitude(truncated_remainder(amount as int, parts as int)),
            extra > 0 ==> raised == base + signum(truncated_remainder(amount as int, parts as int)),
            shares@.len() == i,
            as_ints(shares@) == split_shares(amount as int, parts as nat).take(i as int),
        decreases parts - i,
    {
        let share = if (i as u64) < extra {
            raised
        } else {
            base
        };
        let ghost before = shares@;
        shares.push(share);
        proof {
            let target = split_shares(amount as int, parts as nat);
            assert(target[i as int] == share);
            assert forall|k: int| 0 <= k < i + 1 implies as_ints(shares@)[k] == target[k] by {
                if k < i {
                    assert(as_ints(before)[k] == target.take(i as int)[k]);
                }
            }
            assert(as_ints(shares@) == target.take(i + 1));
        }
        i += 1;
    }
    assert(split_shares(amount as int, parts as nat).take(parts as int) == split_shares(
        amount as int,
        parts as nat,
    ));
    shares
}

/// The sum of `ratios`.
pub fn sum_ratios(ratios: &[u32]) -> (sum: u128)
    ensures
        sum == ratio_total(ratios@),
{
    let mut sum: u128 = 0;
    let mut i: usize = 0;
    while i < ratios.len()
        invariant
            i <= ratios.len(),
            sum == ratio_total(ratios@.take(i as int)),
        decreases ratios.len() - i,
    {
        proof {
            lemma_ratio_total_bound(ratios@.take(i as int));
            assert(i * u32::MAX <= usize::MAX * u32::MAX) by (nonlinear_arith)
                requires
                    i <= usize::MAX,
            ;
            assert(ratios@.take(i + 1).drop_last() == ratios@.take(i as int));
        }
        sum = sum + ratios[i] as u128;
        i += 1;
    }
    assert(ratios@.take(ratios@.len() as int) == ratios@);
    sum
}

/// `amount` times `ratio` over `whole`, truncated toward zero.
fn floor_share(amount: i64, ratio: u32, whole: u128) -> (share: i64)
    requires
        0 < whole,
        ratio <= whole,
    ensures
        share == truncated_quotient(amount * ratio, whole as int),
{
    let size = magnitude_of(amount);
    let ghost product = amount * ratio;
    proof {
        lemma_truncated_division(product, whole as int);
        assert(magnitude(product) == size * ratio && (signum(product) == signum(amount as int)
            || product == 0)) by (nonlinear_arith)
            requires
                product == amount * ratio,
                size == magnitude(amount as int),
                ratio >= 0,
        ;
        assert(size * ratio <= u64::MAX * u32::MAX) by (nonlinear_arith)
            requires
                size <= u64::MAX,
                ratio <= u32::MAX,
        ;
        assert(0 <= (size * ratio) / (whole as int) <= size) by {
            assert(0 <= size * ratio <= size * whole) by (nonlinear_arith)
                requires
                    0 <= ratio <= whole,
                    size >= 0,
            ;
            vstd::arithmetic::div_mod::lemma_div_pos_is_pos(size * ratio, whole as int);
            vstd::arithmetic::div_mod::lemma_div_is_ordered(size * ratio, size * whole, whole as int);
            vstd::arithmetic::div_mod::lemma_div_by_multiple(size as int, whole as int);
        }
    }
    let part: u64 = ((size as u128 * ratio as u128) / whole) as u64;
    assert(signum(product) * part == signum(amount as int) * part) by (nonlinear_arith)
        requires
            signum(product) == signum(amount as int) || (product == 0 && part == 0),
    ;
    signed_like(amount, part)
}

/// Lays `amount` out by `ratios`, in shares that add up to it unless every
/// ratio is zero.
pub fn allocate_amounts(amount: i64, ratios: &[u32]) -> (shares: Vec<i64>)
    ensures
        as_ints(shares@) == allocated_shares(amount as int, ratios@),
        ratio_total(ratios@) > 0 ==> total(as_ints(shares@)) == amount,
{
    let whole = sum_ratios(ratios);
    let count = ratios.len();
    let mut shares: Vec<i64> = Vec::new();
    if whole == 0 {
        let mut i: usize = 0;
        while i < count
            invariant
                i <= count,
                shares@ == Seq::new(i as nat, |k: int| 0i64),
            decreases count - i,
        {
            shares.push(0);
            i += 1;
        }
        return shares;
    }
    let ghost floors = floor_shares(amount as int, ratios@, whole as int);
    let mut allocated: i128 = 0;
    let mut i: usize = 0;
    while i < count
        invariant
            i <= count == ratios@.len(),
            whole == ratio_total(ratios@) > 0,
            floors == floor_shares(amount as int, ratios@, whole as int),
            as_ints(shares@) == floors.take(i as int),
            allocated == total(floors.take(i as int)),
            -(i * 0x8000_0000_0000_0000) <= allocated <= i * 0x8000_0000_0000_0000,
        decreases count - i,
    {
        proof {
            lemma_ratio_within_total(ratios@, i as int);
            assert(floors.take(i + 1).drop_last() == floors.take(i as int));
        }
        let share = floor_share(amount, ratios[i], whole);
        shares.push(share);
        allocated = allocated + share as i128;
        i += 1;
    }
    proof {
        assert(floors.take(count as int) == floors);
        lemma_floor_shares_error(amount as int, ratios@, whole as int);
        lemma_leftover_bound(amount as int, ratios@);
        lemma_allocation_total(amount as int, ratios@);
    }
    let rest: i128 = amount as i128 - allocated;
    let step = unit_step(amount);
    let bumps: usize = (if rest < 0 {
        -rest
    } else {
        rest
    }) as usize;
    let mut i: usize = 0;
    while i < bumps
        invariant
            i <= bumps < count == shares@.len() == ratios@.len(),
            rest == leftover(amount as int, ratios@),
            bumps == magnitude(rest as int),
            bumps > 0 ==> step == signum(rest as int) == signum(amount as int),
            floors == floor_shares(amount as int, ratios@, ratio_total(ratios@) as int),
            total(floors) == amount - rest,
            forall|k: int|
                0 <= k < floors.len() ==> signum(#[trigger] floors[k]) == signum(amount as int)
                    || floors[k] == 0,
            as_ints(shares@) == with_bonus(floors, i as nat, step as int),
        decreases bumps - i,
    {
        proof {
            // No share passes the amount itself: the shares have one sign
            // and their sum stops short of the amount.
            lemma_total_bounds_items(floors, i as int);
            assert(as_ints(shares@)[i as int] == floors[i as int]);
        }
        let ghost before = shares@;
        let raised = shares[i] + step;
        shares.set(i, raised);
        proof {
            let target = with_bonus(floors, (i + 1) as nat, step as int);
            assert forall|k: int| 0 <= k < count implies as_ints(shares@)[k] == target[k] by {
                assert(as_ints(before)[k] == with_bonus(floors, i as nat, step as int)[k]);
            }
            assert(as_ints(shares@) == target);
        }
        i += 1;
    }
    assert(as_ints(shares@) == allocated_shares(amount as int, ratios@));
    shares
}

} // verus!
