use portfolio::display::{
    bold, change_cell, change_string, decimal_string, default_cell, item_symbol, number_cell,
    number_cell_or, percent_string, price_cell, price_cell_or, Align, Color,
};
use portfolio::model::{Holding, Item};
use portfolio::money::{format_amount, format_signed_amount, Currency, Money};
use portfolio::quote::Quote;

fn usd_currency() -> Currency {
    Currency::with_numeric_code(840).unwrap()
}

fn usd(minor: i32) -> Money {
    Money { minor, currency: usd_currency() }
}

#[test]
fn change_down_in_red() {
    assert_eq!(change_string(&usd(-50), 250), "\u{2212}$0.50 \u{2193}2.5%");
    let q = Quote { price: usd(1000), change: Some(usd(-50)), percentage: Some(250), range: None };
    let c = change_cell(&q);
    assert_eq!(c.text, "\u{2212}$0.50 \u{2193}2.5%");
    assert_eq!(c.color, Color::Red);
}

#[test]
fn change_up_in_green() {
    assert_eq!(change_string(&usd(100), 300), "+$1.00 \u{2191}3.0%");
    let q = Quote { price: usd(1000), change: Some(usd(100)), percentage: Some(300), range: None };
    let c = change_cell(&q);
    assert_eq!(c.text, "+$1.00 \u{2191}3.0%");
    assert_eq!(c.color, Color::Green);
    assert_eq!(c.align, Align::Right);
}

#[test]
fn zero_change_points_up() {
    let q = Quote { price: usd(1000), change: Some(usd(0)), percentage: Some(0), range: None };
    let c = change_cell(&q);
    assert_eq!(c.text, "+$0.00 \u{2191}0.0%");
    assert_eq!(c.color, Color::Green);
}

#[test]
fn change_needs_both_parts() {
    let q = Quote { price: usd(1000), change: Some(usd(100)), percentage: None, range: None };
    assert_eq!(change_cell(&q).text, "-");
    let q = Quote { price: usd(1000), change: None, percentage: Some(100), range: None };
    assert_eq!(change_cell(&q).align, Align::Center);
}

#[test]
fn percentages() {
    assert_eq!(percent_string(250), "2.5");
    assert_eq!(percent_string(300), "3.0");
    assert_eq!(percent_string(257), "2.57");
    assert_eq!(percent_string(5), "0.05");
    assert_eq!(percent_string(123456), "1234.56");
    assert_eq!(decimal_string(0), "0");
    assert_eq!(decimal_string(9071), "9071");
}

#[test]
fn amounts() {
    assert_eq!(price_cell(usd(123456)).text, "$1,234.56");
    assert_eq!(price_cell(usd(-5)).text, "\u{2212}$0.05");
    assert_eq!(format_amount(-200, usd_currency()).unwrap(), "\u{2212}$2.00");
    assert_eq!(format_signed_amount(7, usd_currency()).unwrap(), "+$0.07");
    assert_eq!(format_amount(i64::MAX as i128 + 1, usd_currency()), None);
    assert!(Currency::with_numeric_code(999).is_none());
    assert!(Currency::with_code("XYZ").is_none());
}

#[test]
fn other_currency_uses_its_code() {
    assert_eq!(price_cell(Money { minor: 150, currency: Currency::with_numeric_code(978).unwrap() }).text, "EUR1.50");
}

#[test]
fn placeholders_and_defaults() {
    let d = default_cell();
    assert_eq!(d.text, "-");
    assert_eq!(d.align, Align::Center);
    assert!(!d.bold);
    assert_eq!(price_cell_or(None, default_cell()).text, "-");
    assert_eq!(price_cell_or(Some(usd(1)), default_cell()).text, "$0.01");
    assert_eq!(number_cell_or(None, default_cell()).text, "-");
    assert_eq!(number_cell_or(Some(u64::MAX), default_cell()).text, "18,446,744,073,709,551,615");
    assert_eq!(number_cell_or(Some(1000), default_cell()).text, "1,000");
}

#[test]
fn currencies_by_code_and_number() {
    let eur = Currency::with_code("EUR").unwrap();
    assert_eq!(eur.numeric_code(), 978);
    assert_eq!(eur.code_string(), "EUR");
    assert_eq!(eur.decimal_places(), 2);
    assert_eq!(Currency::with_numeric_code(392).unwrap().decimal_places(), 0);
    assert_eq!(Currency::with_numeric_code(840).unwrap().code_string(), "USD");
}

#[test]
fn numbers_are_grouped() {
    assert_eq!(number_cell(1234567).text, "1,234,567");
    assert_eq!(number_cell(-1000).text, "-1,000");
    assert_eq!(number_cell(999).text, "999");
    assert!(bold(number_cell(5)).bold);
}

#[test]
fn symbol_of_items() {
    assert_eq!(item_symbol(&Item::Watch("AAPL".to_string())), "AAPL");
    let h = Holding { quantity: 1, purchase_price: usd(1) };
    assert_eq!(item_symbol(&Item::Price("MSFT".to_string(), h)), "MSFT");
}
