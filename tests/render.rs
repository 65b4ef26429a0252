use portfolio::display::{Align, Color};
use portfolio::model::{Holding, Item};
use portfolio::money::{Currency, Money};
use portfolio::quote::{DayRange, Quote};
use portfolio::show::{RenderPass, Table};

fn usd(minor: i32) -> Money {
    Money { minor, currency: Currency::with_numeric_code(840).unwrap() }
}

fn bare_quote(price: i32) -> Quote {
    Quote { price: usd(price), change: None, percentage: None, range: None }
}

fn watch(s: &str) -> Item {
    Item::Watch(s.to_string())
}

fn priced(s: &str, quantity: u32, price: i32) -> Item {
    Item::Price(s.to_string(), Holding { quantity, purchase_price: usd(price) })
}

/// Drives a pass with a provider that answers from `answer`, recording each
/// symbol asked for.
fn drive(
    items: Vec<Item>,
    answer: &dyn Fn(&str) -> Result<Quote, String>,
) -> (Vec<String>, Result<Table, portfolio::show::FetchFailure>) {
    let mut pass = RenderPass::new(items);
    let mut asked = Vec::new();
    while let Some(symbol) = pass.next_fetch() {
        asked.push(symbol.clone());
        pass.record(answer(&symbol));
    }
    (asked, pass.finish())
}

fn texts(row: &[portfolio::display::Cell]) -> Vec<String> {
    row.iter().map(|c| c.text.clone()).collect()
}

#[test]
fn one_fetch_per_distinct_symbol() {
    let items = vec![watch("AAPL"), watch("MSFT"), priced("AAPL", 2, 1000), watch("GOOG"), watch("MSFT")];
    let (asked, table) = drive(items, &|_| Ok(bare_quote(1000)));
    assert_eq!(asked, vec!["AAPL", "MSFT", "GOOG"]);
    assert_eq!(table.unwrap().rows.len(), 5);
}

#[test]
fn rows_follow_item_order_with_duplicates() {
    let items = vec![watch("MSFT"), watch("AAPL"), watch("MSFT")];
    let (_, table) = drive(items, &|s| Ok(bare_quote(if s == "MSFT" { 30000 } else { 15000 })));
    let table = table.unwrap();
    let symbols: Vec<String> = table.rows.iter().map(|r| r[0].text.clone()).collect();
    assert_eq!(symbols, vec!["MSFT", "AAPL", "MSFT"]);
    assert_eq!(table.rows[0][1].text, "$300.00");
    assert_eq!(table.rows[1][1].text, "$150.00");
    assert_eq!(table.rows[2][1].text, "$300.00");
    assert_eq!(table.rows[0][0].align, Align::Left);
}

#[test]
fn header_has_eleven_columns() {
    let (_, table) = drive(vec![watch("AAPL")], &|_| Ok(bare_quote(100)));
    let table = table.unwrap();
    assert_eq!(
        table.titles,
        vec!["Symbol", "Price", "Change", "Open", "Low", "High", "Close", "Volume", "Purchased", "Quantity", "Value"]
    );
    assert_eq!(table.rows[0].len(), table.titles.len());
}

#[test]
fn missing_day_range_gives_placeholders() {
    let (_, table) = drive(vec![priced("IBM", 3, 10000)], &|_| Ok(bare_quote(11000)));
    let row = &table.unwrap().rows[0];
    assert_eq!(row.len(), 11);
    for cell in &row[3..8] {
        assert_eq!(cell.text, "-");
        assert_eq!(cell.align, Align::Center);
    }
    assert_eq!(row[2].text, "-");
}

#[test]
fn day_range_is_shown() {
    let quote = Quote {
        price: usd(1250),
        change: None,
        percentage: None,
        range: Some(DayRange {
            open: usd(1200),
            low: usd(1190),
            high: usd(1260),
            close: usd(1245),
            volume: Some(1234567),
        }),
    };
    let (_, table) = drive(vec![watch("X")], &|_| Ok(quote));
    let row = &table.unwrap().rows[0];
    assert_eq!(texts(&row[3..8]), vec!["$12.00", "$11.90", "$12.60", "$12.45", "1,234,567"]);
    assert_eq!(row[7].align, Align::Right);
}

#[test]
fn largest_volume_is_grouped() {
    let quote = Quote {
        price: usd(1250),
        change: None,
        percentage: None,
        range: Some(DayRange {
            open: usd(1200),
            low: usd(1190),
            high: usd(1260),
            close: usd(1245),
            volume: Some(u64::MAX),
        }),
    };
    let (_, table) = drive(vec![watch("X")], &|_| Ok(quote));
    let row = &table.unwrap().rows[0];
    assert_eq!(row[7].text, "18,446,744,073,709,551,615");
    assert_eq!(row[7].align, Align::Right);
}

#[test]
fn value_of_a_gain() {
    let (_, table) = drive(vec![priced("X", 4, 1000)], &|_| Ok(bare_quote(1250)));
    let row = &table.unwrap().rows[0];
    assert_eq!(texts(&row[8..11]), vec!["$10.00", "4", "$10.00"]);
    assert!(row[8].bold && row[9].bold && row[10].bold);
}

#[test]
fn value_of_a_loss() {
    let (_, table) = drive(vec![priced("X", 2, 1000)], &|_| Ok(bare_quote(900)));
    let row = &table.unwrap().rows[0];
    assert_eq!(row[10].text, "\u{2212}$2.00");
    assert!(row[10].bold);
}

#[test]
fn value_in_another_currency_is_a_placeholder() {
    let item = Item::Price("X".to_string(), Holding { quantity: 1, purchase_price: Money { minor: 100, currency: Currency::with_code("EUR").unwrap() } });
    let (_, table) = drive(vec![item], &|_| Ok(bare_quote(900)));
    assert_eq!(table.unwrap().rows[0][10].text, "-");
}

#[test]
fn watch_has_placeholder_holding_cells() {
    let (_, table) = drive(vec![watch("X")], &|_| Ok(bare_quote(900)));
    let row = &table.unwrap().rows[0];
    assert_eq!(texts(&row[8..11]), vec!["-", "-", "-"]);
    assert!(!row[8].bold);
}

#[test]
fn change_column_is_coloured() {
    let quote = Quote { price: usd(900), change: Some(usd(-50)), percentage: Some(-250), range: None };
    let (_, table) = drive(vec![watch("X")], &|_| Ok(quote));
    let cell = &table.unwrap().rows[0][2];
    assert_eq!(cell.text, "\u{2212}$0.50 \u{2193}2.5%");
    assert_eq!(cell.color, Color::Red);
    assert_eq!(cell.align, Align::Right);
}

#[test]
fn failure_on_second_of_three_stops_the_pass() {
    let items = vec![watch("AAA"), watch("BBB"), watch("CCC")];
    let (asked, table) = drive(items, &|s| if s == "BBB" { Err("down".to_string()) } else { Ok(bare_quote(1)) });
    assert_eq!(asked, vec!["AAA", "BBB"]);
    match table {
        Ok(_) => panic!("a table after a failed fetch"),
        Err(f) => {
            assert_eq!(f.symbol, "BBB");
            assert_eq!(f.message, "down");
        }
    }
}

#[test]
fn empty_portfolio_gives_header_only() {
    let (asked, table) = drive(Vec::new(), &|_| panic!("no fetch expected"));
    assert!(asked.is_empty());
    let table = table.unwrap();
    assert_eq!(table.rows.len(), 0);
    assert_eq!(table.titles.len(), 11);
}
