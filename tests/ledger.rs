use portfolio::holdings::show_holdings;
use portfolio::model::{
    item_from_record, money_from_record, money_to_record, parse_price, portfolio_from_record, price_of, remove_symbol,
    record_of_portfolio, Holding, HoldingRecord, Item, ModelError, MoneyRecord, Portfolio,
    PortfolioRecord,
};
use portfolio::money::{Currency, Money};
use portfolio::watch::{LoopAction, LoopEvent, LoopState, RefreshLoop};

fn usd_currency() -> Currency {
    Currency::with_numeric_code(840).unwrap()
}

fn usd(minor: i32) -> Money {
    Money { minor, currency: usd_currency() }
}

fn money_record(major: i32, minor: i32, code: &str) -> MoneyRecord {
    MoneyRecord { major, minor, currency_code: code.to_string() }
}

fn sample() -> Portfolio {
    Portfolio {
        default_currency: Some(usd_currency()),
        items: vec![
            Item::Watch("AAPL".to_string()),
            Item::Price("MSFT".to_string(), Holding { quantity: 10, purchase_price: usd(12345) }),
            Item::Watch("AMZN".to_string()),
            Item::Price("IBM".to_string(), Holding { quantity: 1500, purchase_price: usd(-250) }),
        ],
    }
}

#[test]
fn holdings_lists_priced_items_and_watches() {
    let (table, line) = show_holdings(&sample());
    assert_eq!(table.titles, vec!["Symbol", "Purchase Date", "Purchase Price", "Quantity"]);
    assert_eq!(table.rows.len(), 2);
    let first: Vec<String> = table.rows[0].iter().map(|c| c.text.clone()).collect();
    assert_eq!(first, vec!["MSFT", "-", "$123.45", "10"]);
    let second: Vec<String> = table.rows[1].iter().map(|c| c.text.clone()).collect();
    assert_eq!(second, vec!["IBM", "-", "\u{2212}$2.50", "1,500"]);
    assert_eq!(line, "Also watching: AAPL, AMZN");
}

#[test]
fn holdings_of_empty_portfolio() {
    let (table, line) = show_holdings(&Portfolio { default_currency: None, items: Vec::new() });
    assert!(table.rows.is_empty());
    assert_eq!(line, "Also watching: ");
}

#[test]
fn money_records_scale_by_decimal_places() {
    assert_eq!(money_from_record(&money_record(12, 34, "USD")), Some(usd(1234)));
    assert_eq!(money_from_record(&money_record(-12, -34, "USD")), Some(usd(-1234)));
    assert_eq!(money_from_record(&money_record(5, 0, "JPY")), Some(Money { minor: 5, currency: Currency::with_code("JPY").unwrap() }));
    assert_eq!(money_from_record(&money_record(1, 0, "XYZ")), None);
    assert_eq!(money_from_record(&money_record(i32::MAX, 0, "USD")), None);
}

#[test]
fn money_records_split_the_amount() {
    let r = money_to_record(usd(-1234));
    assert_eq!((r.major, r.minor, r.currency_code.as_str()), (-12, -34, "USD"));
    let r = money_to_record(usd(99));
    assert_eq!((r.major, r.minor), (0, 99));
    let r = money_to_record(Money { minor: -7, currency: Currency::with_code("JPY").unwrap() });
    assert_eq!((r.major, r.minor, r.currency_code.as_str()), (-7, 0, "JPY"));
}

#[test]
fn holding_records_become_items() {
    let watch = HoldingRecord { symbol: "AAPL".to_string(), watch_only: true, quantity: None, purchase_price: None };
    assert!(matches!(item_from_record(&watch), Some(Item::Watch(s)) if s == "AAPL"));
    let priced = HoldingRecord {
        symbol: "MSFT".to_string(),
        watch_only: false,
        quantity: Some(3),
        purchase_price: Some(money_record(10, 5, "USD")),
    };
    match item_from_record(&priced) {
        Some(Item::Price(s, h)) => {
            assert_eq!(s, "MSFT");
            assert_eq!(h, Holding { quantity: 3, purchase_price: usd(1005) });
        }
        _ => panic!("expected a priced item"),
    }
    let incomplete = HoldingRecord { quantity: None, ..priced };
    assert!(item_from_record(&incomplete).is_none());
}

#[test]
fn portfolio_survives_a_round_trip() {
    let saved = sample();
    let record = record_of_portfolio(&saved);
    assert_eq!(record.default_currency.as_deref(), Some("USD"));
    let back = portfolio_from_record(&record).unwrap();
    assert_eq!(back.default_currency, Some(usd_currency()));
    assert_eq!(back.items.len(), saved.items.len());
    for (a, b) in back.items.iter().zip(saved.items.iter()) {
        match (a, b) {
            (Item::Watch(x), Item::Watch(y)) => assert_eq!(x, y),
            (Item::Price(x, g), Item::Price(y, h)) => {
                assert_eq!(x, y);
                assert_eq!(g, h);
            }
            _ => panic!("item kinds differ"),
        }
    }
}

#[test]
fn malformed_records_are_parse_errors() {
    let record = PortfolioRecord {
        default_currency: None,
        holdings: vec![HoldingRecord { symbol: "X".to_string(), watch_only: false, quantity: Some(1), purchase_price: None }],
    };
    assert!(matches!(portfolio_from_record(&record), Err(ModelError::ParseError(_))));
    let record = PortfolioRecord { default_currency: Some("XYZ".to_string()), holdings: Vec::new() };
    assert!(matches!(portfolio_from_record(&record), Err(ModelError::ParseError(_))));
}

#[test]
fn prices_scale_by_decimal_places() {
    assert_eq!(price_of(12, 5, usd_currency()), Some(usd(1205)));
    assert_eq!(price_of(i32::MAX, 0, usd_currency()), None);
}

#[test]
fn prices_are_read_from_text() {
    assert_eq!(parse_price("12", usd_currency()), Some(usd(1200)));
    assert_eq!(parse_price("12.34", usd_currency()), Some(usd(1234)));
    assert_eq!(parse_price("-3.5", usd_currency()), Some(usd(-295)));
    assert_eq!(parse_price("+7", usd_currency()), Some(usd(700)));
    assert_eq!(parse_price("1.2.3", usd_currency()), None);
    assert_eq!(parse_price("abc", usd_currency()), None);
    assert_eq!(parse_price("", usd_currency()), None);
    assert_eq!(parse_price("12.", usd_currency()), None);
    assert_eq!(parse_price("99999999999", usd_currency()), None);
    assert_eq!(parse_price("30000000", usd_currency()), None);
}

#[test]
fn removing_a_symbol_drops_all_its_items() {
    let items = sample().items;
    let kept = remove_symbol(&items, &"MSFT".to_string());
    let symbols: Vec<String> = kept
        .iter()
        .map(|i| match i {
            Item::Watch(s) | Item::Price(s, _) => s.clone(),
        })
        .collect();
    assert_eq!(symbols, vec!["AAPL", "AMZN", "IBM"]);
    let twice = vec![Item::Watch("A".to_string()), Item::Watch("B".to_string()), Item::Watch("A".to_string())];
    assert_eq!(remove_symbol(&twice, &"A".to_string()).len(), 1);
    assert_eq!(remove_symbol(&twice, &"C".to_string()).len(), 3);
}

#[test]
fn refresh_loop_cycles_and_continues_after_errors() {
    assert!(RefreshLoop::new(0).is_none());
    let mut l = RefreshLoop::new(30).unwrap();
    assert_eq!(l.step(LoopEvent::Started), LoopAction::RunPass);
    assert_eq!(l.state, LoopState::Fetching);
    assert_eq!(l.step(LoopEvent::PassSucceeded), LoopAction::ShowTable);
    assert_eq!(l.step(LoopEvent::Shown), LoopAction::Sleep(30));
    assert_eq!(l.step(LoopEvent::DelayElapsed), LoopAction::RunPass);
    assert_eq!(l.step(LoopEvent::PassFailed), LoopAction::ReportErrorAndSleep(30));
    assert_eq!(l.state, LoopState::Sleeping);
    assert_eq!(l.step(LoopEvent::Shown), LoopAction::Wait);
    assert_eq!(l.step(LoopEvent::DelayElapsed), LoopAction::RunPass);
}

#[test]
fn refresh_loop_stops_on_interruption_only() {
    let mut l = RefreshLoop::new(5).unwrap();
    l.step(LoopEvent::Started);
    l.step(LoopEvent::PassSucceeded);
    l.step(LoopEvent::Shown);
    assert_eq!(l.step(LoopEvent::Interrupted), LoopAction::Exit);
    assert_eq!(l.state, LoopState::Terminated);
    assert_eq!(l.step(LoopEvent::Started), LoopAction::Wait);
    assert_eq!(l.state, LoopState::Terminated);
}
