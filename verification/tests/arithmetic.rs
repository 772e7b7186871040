use money::{Money, MoneyError};
use std::cmp::Ordering;

fn amounts(list: &[Money]) -> Vec<i64> {
    list.iter().map(|money| money.amount()).collect()
}

fn sum(list: &[Money]) -> i128 {
    list.iter().map(|money| money.amount() as i128).sum()
}

#[test]
fn split_hundred_in_three() {
    let shares = Money::new(100, "USD").split(3).unwrap();
    assert_eq!(amounts(&shares), vec![34, 33, 33]);
    for share in &shares {
        assert_eq!(share.currency().code(), "USD");
        assert_eq!(share.currency().grapheme(), "$");
    }
}

#[test]
fn split_negative_amount() {
    assert_eq!(amounts(&Money::new(-100, "USD").split(3).unwrap()), vec![-34, -33, -33]);
    assert_eq!(amounts(&Money::new(-5, "USD").split(2).unwrap()), vec![-3, -2]);
}

#[test]
fn split_into_more_parts_than_units() {
    assert_eq!(
        amounts(&Money::new(5, "JPY").split(10).unwrap()),
        vec![1, 1, 1, 1, 1, 0, 0, 0, 0, 0]
    );
    assert_eq!(amounts(&Money::new(0, "JPY").split(3).unwrap()), vec![0, 0, 0]);
}

#[test]
fn split_in_one_part_gives_the_amount() {
    assert_eq!(amounts(&Money::new(i64::MIN, "USD").split(1).unwrap()), vec![i64::MIN]);
    assert_eq!(amounts(&Money::new(i64::MAX, "USD").split(1).unwrap()), vec![i64::MAX]);
}

#[test]
fn split_of_the_extremes() {
    assert_eq!(
        amounts(&Money::new(i64::MAX, "USD").split(2).unwrap()),
        vec![4611686018427387904, 4611686018427387903]
    );
    assert_eq!(
        amounts(&Money::new(i64::MIN, "USD").split(3).unwrap()),
        vec![-3074457345618258603, -3074457345618258603, -3074457345618258602]
    );
}

#[test]
fn split_in_no_parts_is_refused() {
    let refused = Money::new(100, "USD").split(0);
    assert!(matches!(refused, Err(MoneyError::InvalidSplit)));
}

#[test]
fn split_shares_add_up_to_the_amount() {
    for amount in [0i64, 1, -1, 7, -7, 100, -100, 123456789, i64::MAX, i64::MIN] {
        for parts in [1usize, 2, 3, 7, 10, 97] {
            let shares = Money::new(amount, "EUR").split(parts).unwrap();
            assert_eq!(shares.len(), parts);
            assert_eq!(sum(&shares), amount as i128);
        }
    }
}

#[test]
fn allocate_negative_hundred_by_equal_ratios() {
    let shares = Money::new(-100, "GBP").allocate(&[33, 33, 33]).unwrap();
    assert_eq!(amounts(&shares), vec![-34, -33, -33]);
    assert_eq!(sum(&shares), -100);
    for share in &shares {
        assert_eq!(share.currency().code(), "GBP");
    }
}

#[test]
fn allocate_by_uneven_ratios() {
    assert_eq!(amounts(&Money::new(5, "USD").allocate(&[3, 7]).unwrap()), vec![2, 3]);
    assert_eq!(amounts(&Money::new(100, "USD").allocate(&[1, 1, 1]).unwrap()), vec![34, 33, 33]);
    assert_eq!(amounts(&Money::new(100, "USD").allocate(&[70, 20, 10]).unwrap()), vec![70, 20, 10]);
    assert_eq!(amounts(&Money::new(101, "USD").allocate(&[0, 1, 1]).unwrap()), vec![1, 50, 50]);
    assert_eq!(amounts(&Money::new(-7, "USD").allocate(&[1, 2]).unwrap()), vec![-3, -4]);
}

#[test]
fn allocate_by_a_single_ratio_gives_the_amount() {
    assert_eq!(amounts(&Money::new(i64::MIN, "USD").allocate(&[5]).unwrap()), vec![i64::MIN]);
    assert_eq!(amounts(&Money::new(i64::MAX, "USD").allocate(&[u32::MAX]).unwrap()), vec![i64::MAX]);
}

#[test]
fn allocate_with_the_largest_ratios() {
    assert_eq!(
        amounts(&Money::new(i64::MAX, "USD").allocate(&[u32::MAX, u32::MAX]).unwrap()),
        vec![4611686018427387904, 4611686018427387903]
    );
}

#[test]
fn allocate_by_zero_ratios_gives_zeros() {
    let shares = Money::new(100, "USD").allocate(&[0, 0, 0]).unwrap();
    assert_eq!(amounts(&shares), vec![0, 0, 0]);
    assert_eq!(shares[0].currency().code(), "USD");
}

#[test]
fn allocate_without_ratios_is_refused() {
    let refused = Money::new(100, "USD").allocate(&[]);
    assert!(matches!(refused, Err(MoneyError::NoRatios)));
}

#[test]
fn allocated_shares_add_up_to_the_amount() {
    let lists: [&[u32]; 6] =
        [&[1], &[1, 1], &[33, 33, 33], &[1, 2, 3, 4, 5], &[0, 0, 7, 0], &[u32::MAX, 1, u32::MAX]];
    for amount in [0i64, 1, -1, 99, -99, 100, 123456789, -987654321, i64::MAX, i64::MIN] {
        for ratios in lists {
            let shares = Money::new(amount, "EUR").allocate(ratios).unwrap();
            assert_eq!(shares.len(), ratios.len());
            assert_eq!(sum(&shares), amount as i128);
        }
    }
}

#[test]
fn add_and_subtract_in_one_currency() {
    let a = Money::new(100, "USD");
    let b = Money::new(250, "usd");
    let sum = a.add(&b).unwrap();
    assert_eq!(sum.amount(), 350);
    assert_eq!(sum.currency().code(), "USD");
    assert_eq!(sum.currency().grapheme(), "$");
    assert_eq!(sum.currency().fraction(), 2);
    let difference = a.subtract(&b).unwrap();
    assert_eq!(difference.amount(), -150);
    assert_eq!(difference.currency().code(), "USD");
    assert_eq!(difference.currency().template(), "$1");
}

#[test]
fn add_and_subtract_across_currencies_are_refused() {
    let a = Money::new(100, "USD");
    let b = Money::new(100, "EUR");
    assert!(matches!(a.add(&b), Err(MoneyError::CurrencyMismatch)));
    assert!(matches!(a.subtract(&b), Err(MoneyError::CurrencyMismatch)));
    assert!(matches!(Money::new(i64::MAX, "USD").add(&Money::new(i64::MAX, "JPY")), Err(MoneyError::CurrencyMismatch)));
}

#[test]
fn equals_across_currencies_is_an_error_not_false() {
    let answer = Money::new(100, "EUR").equals(&Money::new(100, "USD"));
    assert_eq!(answer, Err(MoneyError::CurrencyMismatch));
}

#[test]
fn comparisons_in_one_currency() {
    let small = Money::new(100, "GBP");
    let large = Money::new(200, "GBP");
    assert_eq!(small.equals(&large), Ok(false));
    assert_eq!(small.equals(&Money::new(100, "gbp")), Ok(true));
    assert_eq!(small.greater_than(&large), Ok(false));
    assert_eq!(large.greater_than(&small), Ok(true));
    assert_eq!(small.greater_than(&small), Ok(false));
    assert_eq!(small.greater_than_or_equal(&small), Ok(true));
    assert_eq!(small.greater_than_or_equal(&large), Ok(false));
    assert_eq!(small.less_than(&large), Ok(true));
    assert_eq!(small.less_than(&small), Ok(false));
    assert_eq!(small.less_than_or_equal(&small), Ok(true));
    assert_eq!(large.less_than_or_equal(&small), Ok(false));
}

#[test]
fn comparisons_across_currencies_are_refused() {
    let a = Money::new(100, "GBP");
    let b = Money::new(200, "EUR");
    assert_eq!(a.greater_than(&b), Err(MoneyError::CurrencyMismatch));
    assert_eq!(a.greater_than_or_equal(&b), Err(MoneyError::CurrencyMismatch));
    assert_eq!(a.less_than(&b), Err(MoneyError::CurrencyMismatch));
    assert_eq!(a.less_than_or_equal(&b), Err(MoneyError::CurrencyMismatch));
    assert_eq!(a.compare_money(&b), Err(MoneyError::CurrencyMismatch));
}

#[test]
fn compare_goes_by_amount_in_one_currency() {
    let a = Money::new(-1, "GBP");
    let b = Money::new(1, "gbp");
    assert_eq!(a.compare(&b), Ok(Ordering::Less));
    assert_eq!(b.compare(&a), Ok(Ordering::Greater));
    assert_eq!(a.compare(&a), Ok(Ordering::Equal));
    assert_eq!(a.compare_money(&Money::new(5, "GBP")), Ok(-1));
    assert_eq!(a.compare_money(&Money::new(-1, "GBP")), Ok(0));
    assert_eq!(a.compare_money(&Money::new(-5, "GBP")), Ok(1));
}

#[test]
fn compare_across_currencies_is_refused() {
    let pound = Money::new(1, "GBP");
    let euro = Money::new(2, "EUR");
    assert_eq!(pound.compare(&euro), Err(MoneyError::CurrencyMismatch));
    assert_eq!(euro.compare(&pound), Err(MoneyError::CurrencyMismatch));
    assert_eq!(Money::new(1, "GBP").compare(&Money::new(1, "EUR")), Err(MoneyError::CurrencyMismatch));
}

#[test]
fn same_currency_goes_by_code() {
    assert!(Money::new(1, "usd").same_currency(&Money::new(2, "USD")));
    assert!(!Money::new(1, "USD").same_currency(&Money::new(1, "CAD")));
    assert!(Money::new(1, "USD") == Money::new(1, "usd"));
    assert!(Money::new(1, "USD") != Money::new(2, "USD"));
    assert!(Money::new(1, "USD") != Money::new(1, "EUR"));
}

#[test]
fn sign_predicates() {
    assert!(Money::new(0, "USD").is_zero());
    assert!(!Money::new(0, "USD").is_positive());
    assert!(!Money::new(0, "USD").is_negative());
    assert!(Money::new(1, "USD").is_positive());
    assert!(!Money::new(1, "USD").is_zero());
    assert!(Money::new(-1, "USD").is_negative());
    assert!(!Money::new(-1, "USD").is_positive());
}

#[test]
fn absolute_and_negative() {
    let debt = Money::new(-100, "CNY");
    assert_eq!(debt.absolute().amount(), 100);
    assert_eq!(debt.absolute().currency().code(), "CNY");
    assert_eq!(debt.negative().amount(), 100);
    assert_eq!(Money::new(100, "CNY").absolute().amount(), 100);
    assert_eq!(Money::new(100, "CNY").negative().amount(), -100);
    assert_eq!(Money::new(0, "CNY").negative().amount(), 0);
    assert_eq!(Money::new(i64::MAX, "CNY").negative().amount(), -i64::MAX);
    assert_eq!(Money::new(-i64::MAX, "CNY").absolute().amount(), i64::MAX);
}

#[test]
fn multiply_by_a_factor() {
    let money = Money::new(100, "GBP");
    assert_eq!(money.multiply(2).amount(), 200);
    assert_eq!(money.multiply(-3).amount(), -300);
    assert_eq!(money.multiply(0).amount(), 0);
    assert_eq!(money.multiply(2).currency().code(), "GBP");
    let copy = money.clone();
    assert_eq!(copy.amount(), 100);
    assert_eq!(copy.currency().grapheme(), "£");
}

#[test]
fn round_to_whole_major_units() {
    assert_eq!(Money::new(149, "USD").round().amount(), 100);
    assert_eq!(Money::new(150, "USD").round().amount(), 200);
    assert_eq!(Money::new(151, "USD").round().amount(), 200);
    assert_eq!(Money::new(49, "USD").round().amount(), 0);
    assert_eq!(Money::new(50, "USD").round().amount(), 100);
    assert_eq!(Money::new(0, "USD").round().amount(), 0);
    assert_eq!(Money::new(200, "USD").round().amount(), 200);
    assert_eq!(Money::new(150, "USD").round().currency().code(), "USD");
}

#[test]
fn round_goes_away_from_zero_at_the_half() {
    assert_eq!(Money::new(-149, "USD").round().amount(), -100);
    assert_eq!(Money::new(-150, "USD").round().amount(), -200);
    assert_eq!(Money::new(-50, "USD").round().amount(), -100);
    assert_eq!(Money::new(-49, "USD").round().amount(), 0);
}

#[test]
fn round_by_the_fraction_of_the_currency() {
    assert_eq!(Money::new(123, "JPY").round().amount(), 123);
    assert_eq!(Money::new(-123, "JPY").round().amount(), -123);
    assert_eq!(Money::new(i64::MIN, "JPY").round().amount(), i64::MIN);
    assert_eq!(Money::new(1499, "BHD").round().amount(), 1000);
    assert_eq!(Money::new(1500, "BHD").round().amount(), 2000);
    assert_eq!(Money::new(15000, "CLF").round().amount(), 20000);
    assert_eq!(Money::new(14999, "CLF").round().amount(), 10000);
    assert_eq!(Money::new(9223372036854775749, "USD").round().amount(), 9223372036854775700);
}

#[test]
fn error_messages() {
    assert_eq!(MoneyError::CurrencyMismatch.to_string(), "Currency mismatch");
    assert_eq!(MoneyError::InvalidSplit.to_string(), "Invalid split value");
    assert_eq!(MoneyError::NoRatios.to_string(), "No ratios specified");
}

#[test]
fn new_money_holds_amount_and_resolved_currency() {
    let money = Money::new(123456789, "eur");
    assert_eq!(money.amount(), 123456789);
    assert_eq!(money.currency().code(), "EUR");
    assert_eq!(money.currency().numeric_code(), "978");
    assert_eq!(money.currency().fraction(), 2);
    assert_eq!(money.currency().grapheme(), "€");
}
