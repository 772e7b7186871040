use money::currency::Currencies;
use money::formatter::Formatter;
use money::Money;

fn formatter_for(code: &str) -> Formatter {
    Currencies::default().get_currency_by_code(code).unwrap().formatter()
}

#[test]
fn usd_amount_is_grouped_and_marked() {
    assert_eq!(formatter_for("USD").format(123456), "$1,234.56");
}

#[test]
fn usd_small_amounts_get_a_leading_zero() {
    let usd = formatter_for("USD");
    assert_eq!(usd.format(0), "$0.00");
    assert_eq!(usd.format(5), "$0.05");
    assert_eq!(usd.format(50), "$0.50");
    assert_eq!(usd.format(100), "$1.00");
}

#[test]
fn usd_grouping_starts_at_the_fourth_whole_digit() {
    let usd = formatter_for("USD");
    assert_eq!(usd.format(99999), "$999.99");
    assert_eq!(usd.format(100000), "$1,000.00");
    assert_eq!(usd.format(99999999), "$999,999.99");
    assert_eq!(usd.format(100000000), "$1,000,000.00");
}

#[test]
fn negative_amount_has_the_sign_in_front_of_the_symbol() {
    assert_eq!(formatter_for("USD").format(-123456789), "-$1,234,567.89");
}

#[test]
fn jpy_has_no_decimal_mark() {
    let jpy = formatter_for("JPY");
    assert_eq!(jpy.format(-50), "-¥50");
    assert_eq!(jpy.format(0), "¥0");
    assert_eq!(jpy.format(1234567), "¥1,234,567");
}

#[test]
fn zero_fraction_currencies_never_show_their_decimal_mark() {
    for code in ["JPY", "KRW", "VND", "CLP", "ISK", "XAF", "UGX"] {
        let currencies = Currencies::default();
        let currency = currencies.get_currency_by_code(code).unwrap();
        assert_eq!(currency.fraction(), 0);
        let mark = currency.decimal().chars().next().unwrap();
        for amount in [0i64, 7, -7, 999, 1000, -123456789, i64::MAX, i64::MIN] {
            let text = currency.formatter().format(amount);
            assert!(!text.contains(mark), "{} {}", code, text);
        }
    }
}

#[test]
fn zero_fraction_text_holds_the_mark_where_the_symbol_brings_it() {
    let formatter = Formatter::new(0, ".", ",", "Bs.", "$1");
    assert_eq!(formatter.format(5), "Bs.5");
}

#[test]
fn eur_amount() {
    assert_eq!(formatter_for("EUR").format(123456789), "€1,234,567.89");
}

#[test]
fn three_decimals_with_symbol_behind() {
    assert_eq!(formatter_for("BHD").format(1234567), "1,234.567 .د.ب");
    assert_eq!(formatter_for("BHD").format(7), "0.007 .د.ب");
}

#[test]
fn four_decimals_with_swapped_marks() {
    assert_eq!(formatter_for("CLF").format(123456789), "UF12.345,6789");
}

#[test]
fn symbol_that_holds_the_placeholder_is_not_replaced_again() {
    assert_eq!(formatter_for("BRL").format(123456), "R$1.234,56");
}

#[test]
fn template_with_space_before_symbol() {
    assert_eq!(formatter_for("SEK").format(12345), "123.45 kr");
    assert_eq!(formatter_for("DKK").format(12345), "kr 123,45");
}

#[test]
fn smallest_and_largest_amounts() {
    let usd = formatter_for("USD");
    assert_eq!(usd.format(i64::MAX), "$92,233,720,368,547,758.07");
    assert_eq!(usd.format(i64::MIN), "-$92,233,720,368,547,758.08");
}

#[test]
fn format_of_negated_amount_is_minus_and_format() {
    for code in ["USD", "JPY", "BHD", "CLF", "SEK", "BRL"] {
        let formatter = formatter_for(code);
        for amount in [1i64, 9, 10, 99, 100, 999, 1000, 123456, 1000000, i64::MAX] {
            assert_eq!(formatter.format(-amount), format!("-{}", formatter.format(amount)));
        }
    }
}

#[test]
fn empty_group_separator_gives_no_grouping() {
    assert_eq!(Formatter::new(2, ".", "", "$", "$1").format(123456789), "$1234567.89");
}

#[test]
fn group_separator_of_several_characters_is_put_in_whole() {
    assert_eq!(Formatter::new(0, ".", "::", "", "1").format(1234567), "1::234::567");
}

#[test]
fn only_the_first_character_of_the_decimal_mark_is_used() {
    assert_eq!(Formatter::new(2, ",.", "", "", "1").format(123), "1,23");
}

#[test]
fn empty_decimal_mark_puts_nothing_between_the_parts() {
    assert_eq!(Formatter::new(2, "", ",", "$", "$1").format(123456), "$1,23456");
}

#[test]
fn many_fraction_digits_are_padded() {
    assert_eq!(Formatter::new(5, ".", ",", "", "1").format(12), "0.00012");
    assert_eq!(Formatter::new(5, ".", ",", "", "1").format(-123456), "-1.23456");
}

#[test]
fn every_placeholder_of_the_template_is_replaced() {
    assert_eq!(Formatter::new(0, ".", ",", "kr", "1 $ ($1)").format(42), "42 kr (kr42)");
}

#[test]
fn placeholder_brought_by_the_separator_takes_the_symbol() {
    assert_eq!(Formatter::new(0, ".", "$", "S", "1").format(1234), "1S234");
}

#[test]
fn template_without_placeholders_stands_as_it_is() {
    assert_eq!(Formatter::new(2, ".", ",", "$", "n/a").format(123456), "n/a");
    assert_eq!(Formatter::new(2, ".", ",", "$", "n/a").format(-123456), "-n/a");
}

#[test]
fn empty_template_gives_the_bare_numeral() {
    let empty = Formatter::new(0, "", "", "", "");
    assert_eq!(empty.format(5), "5");
    assert_eq!(empty.format(0), "0");
    assert_eq!(empty.format(-5), "-5");
    assert_eq!(empty.format(1234567), "1234567");
    assert_eq!(Formatter::new(2, ".", ",", "$", "").format(-1), "-0.01");
    assert_eq!(Formatter::new(2, ".", ",", "$", "").format(123456), "1,234.56");
}

#[test]
fn unknown_currency_formats_as_a_bare_numeral() {
    let money = Money::new(5, "ZZZ");
    assert_eq!(money.currency().formatter().format(5), "5");
    assert_eq!(money.currency().formatter().format(-5), "-5");
    assert_eq!(money.to_string(), "ZZZ 5");
    assert_eq!(Money::new(-1234, "zzz").to_string(), "ZZZ -1234");
}

#[test]
fn formatter_keeps_what_it_was_made_with() {
    let formatter = Formatter::new(3, ",", ".", "Kč", "1 $");
    assert_eq!(formatter.fraction, 3);
    assert_eq!(formatter.decimal, ",");
    assert_eq!(formatter.thousand, ".");
    assert_eq!(formatter.grapheme, "Kč");
    assert_eq!(formatter.template, "1 $");
    let copy = formatter.clone();
    assert_eq!(copy.format(1234567), "1.234,567 Kč");
}

#[test]
fn money_text_is_code_space_and_amount() {
    assert_eq!(Money::new(123456, "USD").to_string(), "USD $1,234.56");
    assert_eq!(Money::new(-100, "cny").to_string(), "CNY -1.00 元");
    assert_eq!(Money::new(100, "GBP").to_string(), "GBP £1.00");
}

#[test]
fn money_of_unknown_code_has_empty_metadata() {
    let money = Money::new(1234, "zzz");
    assert_eq!(money.currency().code(), "ZZZ");
    assert_eq!(money.currency().fraction(), 0);
    assert_eq!(money.currency().template(), "");
    assert_eq!(money.currency().grapheme(), "");
    assert_eq!(money.to_string(), "ZZZ 1234");
}

#[test]
fn sum_of_two_dollars_formats_as_two_dollars() {
    let m = Money::new(100, "USD");
    let sum = m.add(&m).unwrap();
    assert_eq!(sum.amount(), 200);
    assert_eq!(sum.currency().formatter().format(sum.amount()), "$2.00");
}
