//! Money as an integer amount of minor units tagged with a currency.
//!
//! Arithmetic, comparison, splitting and allocation work on the integer
//! amount and never lose or gain a unit; formatting follows the conventions
//! of the currency. Every function states what it returns, and Verus proves
//! that it does.
use std::cmp::Ordering;
use vstd::arithmetic::power::pow;
use vstd::prelude::*;
use vstd::string::StringExecFns;

pub mod arith;
pub mod currency;
pub mod formatter;
pub mod shares;
pub mod table;
pub mod text;

use crate::arith::{magnitude, round_to_power_of_ten, rounded_half_away, total};
use crate::currency::{default_registry, normalized_code, Currency, CurrencyView};
use crate::shares::{allocate_amounts, allocated_shares, as_ints, ratio_total, split_amounts, split_shares};

verus! {

/// Why an operation on money values was refused.
#[derive(Debug, Clone, Copy, PartialEq, Eq, Structural)]
pub enum MoneyError {
    /// The two operands are in different currencies.
    CurrencyMismatch,
    /// A split into zero parts was asked for.
    InvalidSplit,
    /// An allocation was asked for with no ratios.
    NoRatios,
}

impl MoneyError {
    /// The message that describes this error.
    pub fn to_string(&self) -> (text: String)
        ensures
            text@ == match *self {
                MoneyError::CurrencyMismatch => "Currency mismatch"@,
                MoneyError::InvalidSplit => "Invalid split value"@,
                MoneyError::NoRatios => "No ratios specified"@,
            },
    {
        match self {
            MoneyError::CurrencyMismatch => "Currency mismatch".to_owned(),
            MoneyError::InvalidSplit => "Invalid split value".to_owned(),
            MoneyError::NoRatios => "No ratios specified".to_owned(),
        }
    }
}

/// What a money value is, as plain values.
pub struct MoneyView {
    /// The amount in minor units.
    pub amount: int,
    /// The currency.
    pub currency: CurrencyView,
}

/// The amounts of `list`, in order.
pub open spec fn amounts_of(list: Seq<Money>) -> Seq<int> {
    Seq::new(list.len(), |i: int| list[i]@.amount)
}

/// An amount of minor units in one currency.
#[derive(Debug)]
pub struct Money {
    amount: i64,
    currency: Currency,
}

impl View for Money {
    type V = MoneyView;

    closed spec fn view(&self) -> MoneyView {
        MoneyView { amount: self.amount as int, currency: self.currency@ }
    }
}

impl Clone for Money {
    fn clone(&self) -> (copy: Self)
        ensures
            copy@ == self@,
    {
        Money { amount: self.amount, currency: self.currency.clone() }
    }
}

impl PartialEq for Money {
    /// Two values are the same where the amounts and the currency codes are.
    fn eq(&self, other: &Self) -> (same: bool) {
        self.amount == other.amount && self.currency == other.currency
    }
}

impl vstd::std_specs::cmp::PartialEqSpecImpl for Money {
    open spec fn obeys_eq_spec() -> bool {
        true
    }

    open spec fn eq_spec(&self, other: &Self) -> bool {
        self@.amount == other@.amount && self@.currency.code == other@.currency.code
    }
}

impl Money {
    /// `amount` minor units of the currency that the bundled table has under
    /// `code`. A code that the table lacks gives a currency with that code
    /// and nothing else, whose amounts are written as bare numbers.
    pub fn new(amount: i64, code: &str) -> (money: Self)
        ensures
            money@ == (MoneyView {
                amount: amount as int,
                currency: CurrencyView::bare(normalized_code(code@)).resolved_in(default_registry()),
            }),
    {
        let mut currency = Currency::new(code);
        currency.get();
        Money { amount, currency }
    }

    /// The currency.
    pub fn currency(&self) -> (currency: &Currency)
        ensures
            currency@ == self@.currency,
    {
        &self.currency
    }

    /// The amount in minor units.
    pub fn amount(&self) -> (amount: i64)
        ensures
            amount == self@.amount,
    {
        self.amount
    }

    /// Whether the two values are in the same currency, by code.
    pub fn same_currency(&self, other: &Money) -> (same: bool)
        ensures
            same == (self@.currency.code == other@.currency.code),
    {
        self.currency.eq(&other.currency)
    }

    fn assert_same_currency(&self, other: &Money) -> (checked: Result<(), MoneyError>)
        ensures
            checked == if self@.currency.code == other@.currency.code {
                Ok::<(), MoneyError>(())
            } else {
                Err::<(), MoneyError>(MoneyError::CurrencyMismatch)
            },
    {
        if !self.same_currency(other) {
            Err(MoneyError::CurrencyMismatch)
        } else {
            Ok(())
        }
    }

    /// How this amount stands to the other, for two values in the same
    /// currency. Amounts of two currencies are never put in order.
    pub fn compare(&self, other: &Money) -> (order: Result<Ordering, MoneyError>)
        ensures
            order == if self@.currency.code != other@.currency.code {
                Err::<Ordering, MoneyError>(MoneyError::CurrencyMismatch)
            } else if self@.amount < other@.amount {
                Ok::<Ordering, MoneyError>(Ordering::Less)
            } else if self@.amount > other@.amount {
                Ok::<Ordering, MoneyError>(Ordering::Greater)
            } else {
                Ok::<Ordering, MoneyError>(Ordering::Equal)
            },
    {
        match self.assert_same_currency(other) {
            Err(error) => Err(error),
            Ok(()) => Ok(self.amount.cmp(&other.amount)),
        }
    }

    /// Whether the amounts are equal, for two values in the same currency.
    pub fn equals(&self, other: &Money) -> (answer: Result<bool, MoneyError>)
        ensures
            answer == if self@.currency.code == other@.currency.code {
                Ok::<bool, MoneyError>(self@.amount == other@.amount)
            } else {
                Err::<bool, MoneyError>(MoneyError::CurrencyMismatch)
            },
    {
        match self.compare(other) {
            Err(error) => Err(error),
            Ok(order) => Ok(matches!(order, Ordering::Equal)),
        }
    }

    /// Whether this amount is above the other, for two values in the same
    /// currency.
    pub fn greater_than(&self, other: &Money) -> (answer: Result<bool, MoneyError>)
        ensures
            answer == if self@.currency.code == other@.currency.code {
                Ok::<bool, MoneyError>(self@.amount > other@.amount)
            } else {
                Err::<bool, MoneyError>(MoneyError::CurrencyMismatch)
            },
    {
        match self.compare(other) {
            Err(error) => Err(error),
            Ok(order) => Ok(matches!(order, Ordering::Greater)),
        }
    }

    /// Whether this amount is not below the other, for two values in the same
    /// currency.
    pub fn greater_than_or_equal(&self, other: &Money) -> (answer: Result<bool, MoneyError>)
        ensures
            answer == if self@.currency.code == other@.currency.code {
                Ok::<bool, MoneyError>(self@.amount >= other@.amount)
            } else {
                Err::<bool, MoneyError>(MoneyError::CurrencyMismatch)
            },
    {
        match self.compare(other) {
            Err(error) => Err(error),
            Ok(order) => Ok(!matches!(order, Ordering::Less)),
        }
    }

    /// Whether this amount is below the other, for two values in the same
    /// currency.
    pub fn less_than(&self, other: &Money) -> (answer: Result<bool, MoneyError>)
        ensures
            answer == if self@.currency.code == other@.currency.code {
                Ok::<bool, MoneyError>(self@.amount < other@.amount)
            } else {
                Err::<bool, MoneyError>(MoneyError::CurrencyMismatch)
            },
    {
        match self.compare(other) {
            Err(error) => Err(error),
            Ok(order) => Ok(matches!(order, Ordering::Less)),
        }
    }

    /// Whether this amount is not above the other, for two values in the same
    /// currency.
    pub fn less_than_or_equal(&self, other: &Money) -> (answer: Result<bool, MoneyError>)
        ensures
            answer == if self@.currency.code == other@.currency.code {
                Ok::<bool, MoneyError>(self@.amount <= other@.amount)
            } else {
                Err::<bool, MoneyError>(MoneyError::CurrencyMismatch)
            },
    {
        match self.compare(other) {
            Err(error) => Err(error),
            Ok(order) => Ok(!matches!(order, Ordering::Greater)),
        }
    }

    /// Whether the amount is zero.
    pub fn is_zero(&self) -> (answer: bool)
        ensures
            answer == (self@.amount == 0),
    {
        self.amount == 0
    }

    /// Whether the amount is above zero.
    pub fn is_positive(&self) -> (answer: bool)
        ensures
            answer == (self@.amount > 0),
    {
        self.amount > 0
    }

    /// Whether the amount is below zero.
    pub fn is_negative(&self) -> (answer: bool)
        ensures
            answer == (self@.amount < 0),
    {
        self.amount < 0
    }

    /// The same currency with the amount's magnitude.
    pub fn absolute(&self) -> (money: Self)
        requires
            self@.amount > i64::MIN,
        ensures
            money@ == (MoneyView { amount: magnitude(self@.amount) as int, currency: self@.currency }),
    {
        Money {
            amount: if self.amount < 0 {
                -self.amount
            } else {
                self.amount
            },
            currency: self.currency.clone(),
        }
    }

    /// The same currency with the amount's sign turned.
    pub fn negative(&self) -> (money: Self)
        requires
            self@.amount > i64::MIN,
        ensures
            money@ == (MoneyView { amount: -self@.amount, currency: self@.currency }),
    {
        Money { amount: -self.amount, currency: self.currency.clone() }
    }

    /// The sum of the two amounts, in their common currency.
    pub fn add(&self, other: &Money) -> (sum: Result<Self, MoneyError>)
        requires
            self@.currency.code == other@.currency.code ==> i64::MIN <= self@.amount
                + other@.amount <= i64::MAX,
        ensures
            match sum {
                Ok(money) => self@.currency.code == other@.currency.code && money@ == (MoneyView {
                    amount: self@.amount + other@.amount,
                    currency: self@.currency,
                }),
                Err(error) => self@.currency.code != other@.currency.code && error
                    == MoneyError::CurrencyMismatch,
            },
    {
        match self.assert_same_currency(other) {
            Err(error) => Err(error),
            Ok(()) => Ok(
                Money { amount: self.amount + other.amount, currency: self.currency.clone() },
            ),
        }
    }

    /// This amount less the other, in their common currency.
    pub fn subtract(&self, other: &Money) -> (difference: Result<Self, MoneyError>)
        requires
            self@.currency.code == other@.currency.code ==> i64::MIN <= self@.amount
                - other@.amount <= i64::MAX,
        ensures
            match difference {
                Ok(money) => self@.currency.code == other@.currency.code && money@ == (MoneyView {
                    amount: self@.amount - other@.amount,
                    currency: self@.currency,
                }),
                Err(error) => self@.currency.code != other@.currency.code && error
                    == MoneyError::CurrencyMismatch,
            },
    {
        match self.assert_same_currency(other) {
            Err(error) => Err(error),
            Ok(()) => Ok(
                Money { amount: self.amount - other.amount, currency: self.currency.clone() },
            ),
        }
    }

    /// The amount times `multiplier`, in the same currency.
    pub fn multiply(&self, multiplier: i64) -> (money: Self)
        requires
            i64::MIN <= self@.amount * multiplier <= i64::MAX,
        ensures
            money@ == (MoneyView { amount: self@.amount * multiplier, currency: self@.currency }),
    {
        Money { amount: self.amount * multiplier, currency: self.currency.clone() }
    }

    /// The amount rounded to whole major units, halves away from zero.
    pub fn round(&self) -> (money: Self)
        requires
            i64::MIN <= rounded_half_away(self@.amount, pow(10, self@.currency.fraction))
                <= i64::MAX,
        ensures
            money@ == (MoneyView {
                amount: rounded_half_away(self@.amount, pow(10, self@.currency.fraction)),
                currency: self@.currency,
            }),
    {
        Money {
            amount: round_to_power_of_ten(self.amount, self.currency.fraction()),
            currency: self.currency.clone(),
        }
    }

    /// This value cut into `parts` shares of the same currency that add up to
    /// it: each is the truncated quotient, and the first shares take one unit
    /// each of the remainder.
    pub fn split(&self, parts: usize) -> (shares: Result<Vec<Money>, MoneyError>)
        ensures
            match shares {
                Ok(list) => {
                    &&& parts >= 1
                    &&& amounts_of(list@) == split_shares(self@.amount, parts as nat)
                    &&& total(amounts_of(list@)) == self@.amount
                    &&& forall|i: int| 0 <= i < list@.len() ==> (#[trigger] list@[i])@.currency == self@.currency
                },
                Err(error) => parts == 0 && error == MoneyError::InvalidSplit,
            },
    {
        if parts == 0 {
            return Err(MoneyError::InvalidSplit);
        }
        Ok(self.with_amounts(split_amounts(self.amount, parts)))
    }

    /// This value laid out by `ratios` in shares of the same currency: each is
    /// the amount times its ratio over the sum of the ratios, truncated, and
    /// the first shares take one unit each of what is left. The shares add up
    /// to this value unless every ratio is zero, when every share is zero.
    pub fn allocate(&self, ratios: &[u32]) -> (shares: Result<Vec<Money>, MoneyError>)
        ensures
            match shares {
                Ok(list) => {
                    &&& ratios@.len() >= 1
                    &&& amounts_of(list@) == allocated_shares(self@.amount, ratios@)
                    &&& ratio_total(ratios@) > 0 ==> total(amounts_of(list@)) == self@.amount
                    &&& forall|i: int| 0 <= i < list@.len() ==> (#[trigger] list@[i])@.currency == self@.currency
                },
                Err(error) => ratios@.len() == 0 && error == MoneyError::NoRatios,
            },
    {
        if ratios.len() == 0 {
            return Err(MoneyError::NoRatios);
        }
        Ok(self.with_amounts(allocate_amounts(self.amount, ratios)))
    }

    /// One value of this currency for each of `amounts`.
    fn with_amounts(&self, amounts: Vec<i64>) -> (list: Vec<Money>)
        ensures
            amounts_of(list@) == as_ints(amounts@),
            forall|i: int| 0 <= i < list@.len() ==> (#[trigger] list@[i])@.currency == self@.currency,
    {
        let mut list: Vec<Money> = Vec::new();
        let mut i: usize = 0;
        while i < amounts.len()
            invariant
                i <= amounts.len(),
                list@.len() == i,
                forall|k: int| 0 <= k < i ==> (#[trigger] list@[k])@.amount == amounts@[k],
                forall|k: int| 0 <= k < i ==> (#[trigger] list@[k])@.currency == self@.currency,
            decreases amounts.len() - i,
        {
            list.push(Money { amount: amounts[i], currency: self.currency.clone() });
            i += 1;
        }
        assert(amounts_of(list@) == as_ints(amounts@));
        list
    }

    /// 1, 0 or -1 as this amount is greater than, equal to or less than the
    /// other, for two values in the same currency.
    pub fn compare_money(&self, other: &Money) -> (answer: Result<i32, MoneyError>)
        ensures
            answer == if self@.currency.code != other@.currency.code {
                Err::<i32, MoneyError>(MoneyError::CurrencyMismatch)
            } else if self@.amount > other@.amount {
                Ok::<i32, MoneyError>(1i32)
            } else if self@.amount == other@.amount {
                Ok::<i32, MoneyError>(0i32)
            } else {
                Ok::<i32, MoneyError>(-1i32)
            },
    {
        match self.compare(other) {
            Err(error) => Err(error),
            Ok(Ordering::Greater) => Ok(1),
            Ok(Ordering::Equal) => Ok(0),
            Ok(Ordering::Less) => Ok(-1),
        }
    }

    /// The currency code, a space and the formatted amount. A value whose
    /// code the bundled table lacks shows the bare number behind its code.
    pub fn to_string(&self) -> (text: String)
        ensures
            text@ == self@.currency.code + seq![' '] + self@.currency.formatter().format(
                self@.amount,
            ),
    {
        let formatted = self.currency.formatter().format(self.amount);
        let mut text = String::from_str(self.currency.code());
        proof {
            reveal_strlit(" ");
            assert(" "@ == seq![' ']);
        }
        text.append(" ");
        text.append(formatted.as_str());
        text
    }
}

} // verus!
