use money::currency::{Currencies, Currency};

#[test]
fn test_currency_get() {
    let currencies = Currencies::default();
    let option = currencies.get_currency_by_code("EUR");
    println!("{:?}", option);
}

#[test]
fn test_currency_add() {
    let mut currencies = Currencies::default();
    let currency = Currency::new_all("ssdfd", "sss", "", "", "", "", 32);
    currencies.add(currency);
    let option = currencies.get_currency_by_code("ssdfd");
    println!("{:?}", option);
}

#[test]
fn test_currency_equals() {
    let currencies = Currencies::default();
    let option = currencies.get_currency_by_code("EUR").unwrap();
    let option2 = currencies.get_currency_by_code("USD").unwrap();
    let option3 = currencies.get_currency_by_code("EUR").unwrap();
    println!("{:?}", option.eq(option2));
    println!("{:?}", option.eq(option3));
}
