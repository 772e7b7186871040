use money::Money;

#[test]
fn example_money() {
    let m1 = Money::new(100, "USD");
    let result = m1.add(&m1).unwrap();
    let result1 = result.split(3).unwrap();
    println!("{}", result1[0].to_string());
    println!("{}", result1[1].to_string());
    println!("{}", result1[2].to_string());
}

#[test]
fn example_new() {
    let m1 = Money::new(100, "GBP");
    println!("{}", m1.to_string());
}

#[test]
fn example_money_comparisons() {
    let m1 = Money::new(100, "GBP");
    let m2 = Money::new(200, "GBP");
    let m3 = Money::new(200, "EUR");
    let x = m1.greater_than(&m2);
    println!("{:?}", x);
    let result = m1.less_than(&m2);
    println!("{:?}", result);
    let result1 = m2.equals(&m3);
    println!("{:?}", result1);
}

#[test]
fn example_money_is_negative() {
    let m1 = Money::new(100, "GBP");
    println!("{}", m1.is_negative());
}

#[test]
fn example_money_add() {
    let m1 = Money::new(100, "GBP");
    let m2 = Money::new(200, "GBP");
    let result = m1.add(&m2).unwrap();
    println!("{}", result.to_string());
}

#[test]
fn example_money_subtract() {
    let m1 = Money::new(100, "GBP");
    let result = m1.multiply(2);
    println!("{}", result.to_string());
}

#[test]
fn example_money_absolute() {
    let m1 = Money::new(-100, "cny");
    let result = m1.absolute();
    println!("{}", result.to_string());
}

#[test]
fn example_money_allocate() {
    let m1 = Money::new(-100, "GBP");
    let result = m1.allocate(&[33, 33, 33]).unwrap();
    println!("{}", result[0].to_string());
    println!("{}", result[1].to_string());
    println!("{}", result[2].to_string());
}

#[test]
fn example_money_as_major_units() {
    let money = Money::new(123456789, "EUR");
    let m1 = money.amount() as f64 / 10_f64.powi(money.currency().fraction() as i32);
    println!("{}", m1);
    assert_eq!(m1, 1234567.89);
}
