use money::currency::{Currencies, Currency};

#[test]
fn lookup_ignores_case() {
    let currencies = Currencies::default();
    for code in ["USD", "EUR", "JPY", "BHD", "ZWL", "AED"] {
        let found = currencies.get_currency_by_code(code).unwrap();
        let upper = currencies.get_currency_by_code(&code.to_uppercase()).unwrap();
        let lower = currencies.get_currency_by_code(&code.to_lowercase()).unwrap();
        assert_eq!(found.code(), code);
        for other in [upper, lower] {
            assert_eq!(other.code(), found.code());
            assert_eq!(other.numeric_code(), found.numeric_code());
            assert_eq!(other.fraction(), found.fraction());
            assert_eq!(other.grapheme(), found.grapheme());
            assert_eq!(other.template(), found.template());
            assert_eq!(other.decimal(), found.decimal());
            assert_eq!(other.thousand(), found.thousand());
        }
    }
    assert_eq!(currencies.get_currency_by_code("uSd").unwrap().numeric_code(), "840");
}

#[test]
fn lookup_of_unknown_code_finds_nothing() {
    let currencies = Currencies::default();
    assert!(currencies.get_currency_by_code("XXX").is_none());
    assert!(currencies.get_currency_by_code("").is_none());
    assert!(currencies.get_currency_by_code("US").is_none());
    assert!(Currencies::new().get_currency_by_code("USD").is_none());
}

#[test]
fn bundled_entries_hold_their_metadata() {
    let currencies = Currencies::default();
    let usd = currencies.get_currency_by_code("USD").unwrap();
    assert_eq!(usd.code(), "USD");
    assert_eq!(usd.numeric_code(), "840");
    assert_eq!(usd.fraction(), 2);
    assert_eq!(usd.grapheme(), "$");
    assert_eq!(usd.template(), "$1");
    assert_eq!(usd.decimal(), ".");
    assert_eq!(usd.thousand(), ",");
    let bhd = currencies.get_currency_by_code("BHD").unwrap();
    assert_eq!(bhd.fraction(), 3);
    assert_eq!(bhd.template(), "1 $");
    let clf = currencies.get_currency_by_code("CLF").unwrap();
    assert_eq!(clf.fraction(), 4);
    assert_eq!(clf.decimal(), ",");
    assert_eq!(clf.thousand(), ".");
    let byn = currencies.get_currency_by_code("BYN").unwrap();
    assert_eq!(byn.thousand(), " ");
    assert_eq!(currencies.get_currency_by_code("AED").unwrap().numeric_code(), "784");
    assert_eq!(currencies.get_currency_by_code("ZWL").unwrap().numeric_code(), "932");
}

#[test]
fn numeric_code_search_finds_the_currency() {
    let currencies = Currencies::default();
    assert_eq!(currencies.currency_by_numeric_code("840").unwrap().code(), "USD");
    assert_eq!(currencies.currency_by_numeric_code("978").unwrap().code(), "EUR");
    assert_eq!(currencies.currency_by_numeric_code("392").unwrap().code(), "JPY");
    assert_eq!(currencies.currency_by_numeric_code("008").unwrap().code(), "ALL");
    assert!(currencies.currency_by_numeric_code("000").is_none());
    assert!(currencies.currency_by_numeric_code("84").is_none());
    assert!(Currencies::new().currency_by_numeric_code("840").is_none());
}

#[test]
fn numeric_code_search_takes_the_first_registered() {
    let currencies = Currencies::default();
    assert_eq!(currencies.currency_by_numeric_code("").unwrap().code(), "BYR");
    let mut own = Currencies::new();
    own.add(Currency::new_all("bbb", "b", "001", "1", ".", ",", 2));
    own.add(Currency::new_all("aaa", "a", "001", "1", ".", ",", 2));
    assert_eq!(own.currency_by_numeric_code("001").unwrap().code(), "BBB");
    own.add(Currency::new_all("bbb", "b", "002", "1", ".", ",", 2));
    assert_eq!(own.currency_by_numeric_code("001").unwrap().code(), "AAA");
    assert_eq!(own.currency_by_numeric_code("002").unwrap().code(), "BBB");
}

#[test]
fn add_registers_under_the_upper_case_code() {
    let mut currencies = Currencies::default();
    currencies.add(Currency::new_all("ssdfd", "sss", "", "", "", "", 32));
    let found = currencies.get_currency_by_code("ssdfd").unwrap();
    assert_eq!(found.code(), "SSDFD");
    assert_eq!(found.grapheme(), "sss");
    assert_eq!(found.fraction(), 32);
    assert_eq!(currencies.get_currency_by_code("SsDfD").unwrap().code(), "SSDFD");
}

#[test]
fn add_replaces_the_entry_of_the_same_code() {
    let mut currencies = Currencies::default();
    currencies.add(Currency::new_all("usd", "US$", "840", "1 $", ",", ".", 3));
    let usd = currencies.get_currency_by_code("USD").unwrap();
    assert_eq!(usd.grapheme(), "US$");
    assert_eq!(usd.fraction(), 3);
    assert_eq!(usd.formatter().format(1234567), "1.234,567 US$");
    assert_eq!(currencies.get_currency_by_code("EUR").unwrap().grapheme(), "€");
}

#[test]
fn currencies_are_equal_by_code() {
    let currencies = Currencies::default();
    let eur = currencies.get_currency_by_code("EUR").unwrap();
    let usd = currencies.get_currency_by_code("USD").unwrap();
    assert!(!eur.eq(usd));
    assert!(eur.eq(currencies.get_currency_by_code("eur").unwrap()));
    assert!(eur.eq(&Currency::new("eur")));
    assert!(eur == &Currency::new_all("EUR", "E", "", "1", ".", ",", 0));
}

#[test]
fn new_currency_has_only_its_code() {
    let currency = Currency::new("usd");
    assert_eq!(currency.code(), "USD");
    assert_eq!(currency.numeric_code(), "");
    assert_eq!(currency.fraction(), 0);
    assert_eq!(currency.grapheme(), "");
    assert_eq!(currency.template(), "");
    assert_eq!(currency.decimal(), "");
    assert_eq!(currency.thousand(), "");
}

#[test]
fn get_fills_in_the_bundled_metadata() {
    let mut currency = Currency::new("jpy");
    currency.get();
    assert_eq!(currency.code(), "JPY");
    assert_eq!(currency.numeric_code(), "392");
    assert_eq!(currency.fraction(), 0);
    assert_eq!(currency.grapheme(), "¥");
    assert_eq!(currency.template(), "$1");
    assert_eq!(currency.decimal(), ".");
    assert_eq!(currency.thousand(), ",");
    let copy = currency.clone();
    assert_eq!(copy.code(), "JPY");
    assert_eq!(copy.grapheme(), "¥");
}

#[test]
fn get_leaves_an_unknown_currency_as_it_is() {
    let mut currency = Currency::new_all("nope", "N", "999", "1$", ".", ",", 2);
    currency.get();
    assert_eq!(currency.code(), "NOPE");
    assert_eq!(currency.numeric_code(), "999");
    assert_eq!(currency.grapheme(), "N");
    assert_eq!(currency.fraction(), 2);
}

#[test]
fn ascii_codes_are_folded_as_the_standard_library_folds_them() {
    for byte in 0u8..128 {
        let text = format!("a{}Z", byte as char);
        assert_eq!(Currency::new(&text).code(), text.to_uppercase());
    }
}

#[test]
fn ascii_codes_in_either_case_are_kept_under_one_form() {
    for byte in 0u8..128 {
        let text = format!("u{}D", byte as char);
        let kept = Currency::new(&text);
        assert_eq!(Currency::new(&text.to_uppercase()).code(), kept.code());
        assert_eq!(Currency::new(&text.to_lowercase()).code(), kept.code());
        assert_eq!(Currency::new(kept.code()).code(), kept.code());
    }
}

#[test]
fn lookups_of_a_code_in_either_case_find_one_entry() {
    let mut currencies = Currencies::default();
    currencies.add(Currency::new_all("ssdfd", "sss", "", "", "", "", 32));
    for code in ["usd", "Eur", "jPy", "BHD", "clf", "SSDFD", "sSdFd", "Zwl", "aed"] {
        let found = currencies.get_currency_by_code(code).unwrap();
        let upper = currencies.get_currency_by_code(&code.to_uppercase()).unwrap();
        let lower = currencies.get_currency_by_code(&code.to_lowercase()).unwrap();
        assert!(std::ptr::eq(found, upper));
        assert!(std::ptr::eq(found, lower));
    }
}

#[test]
fn other_codes_take_the_unicode_upper_case() {
    assert_eq!(Currency::new("é").code(), "É");
    assert_eq!(Currency::new("straße").code(), "STRASSE");
    assert_eq!(Currency::new("元").code(), "元");
}

#[test]
fn lookup_outside_ascii_can_depend_on_case() {
    let mut currencies = Currencies::new();
    currencies.add(Currency::new_all("İ", "", "", "1", ".", ",", 0));
    assert!(currencies.get_currency_by_code("İ").is_some());
    assert!(currencies.get_currency_by_code(&"İ".to_uppercase()).is_some());
    assert!(currencies.get_currency_by_code(&"İ".to_lowercase()).is_none());
}
