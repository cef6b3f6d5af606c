use stock_alerts::alerts::{add_alert, check_alerts, remove_alert, triggers, StoredAlert};
use stock_alerts::cache::PriceCache;
use stock_alerts::error::ServiceError;
use stock_alerts::portfolio::{buy_stock, sell_stock, PortfolioStock};
use stock_alerts::protocol::{AlertDirection, Price, ServerMsg};

fn pr(micros: i64) -> Price {
    Price { micros }
}

fn alert(symbol: &str, direction: AlertDirection, threshold: i64) -> StoredAlert {
    StoredAlert { symbol: symbol.to_string(), direction, threshold: pr(threshold) }
}

fn keys(book: &[StoredAlert]) -> Vec<(String, AlertDirection, i64)> {
    book.iter().map(|a| (a.symbol.clone(), a.direction, a.threshold.micros)).collect()
}

#[test]
fn trigger_is_strict() {
    assert!(triggers(AlertDirection::Above, pr(100), pr(101)));
    assert!(!triggers(AlertDirection::Above, pr(100), pr(100)));
    assert!(!triggers(AlertDirection::Above, pr(100), pr(99)));
    assert!(triggers(AlertDirection::Below, pr(100), pr(99)));
    assert!(!triggers(AlertDirection::Below, pr(100), pr(100)));
    assert!(!triggers(AlertDirection::Below, pr(100), pr(101)));
}

#[test]
fn cache_get_insert_merge() {
    let mut cache = PriceCache::new();
    assert_eq!(cache.get("AAPL"), None);
    cache.insert("AAPL".to_string(), pr(10));
    assert_eq!(cache.get("AAPL"), Some(pr(10)));
    cache.merge(vec![
        ("MSFT".to_string(), pr(20)),
        ("AAPL".to_string(), pr(11)),
        ("MSFT".to_string(), pr(21)),
    ]);
    assert_eq!(cache.get("AAPL"), Some(pr(11)));
    assert_eq!(cache.get("MSFT"), Some(pr(21)));
    cache.merge(vec![("NFLX".to_string(), pr(5))]);
    assert_eq!(cache.get("AAPL"), Some(pr(11)));
    assert_eq!(cache.get("NFLX"), Some(pr(5)));
    assert_eq!(cache.get("aapl"), None);
}

#[test]
fn duplicate_alert_is_refused() {
    let mut book = Vec::new();
    assert_eq!(add_alert(&mut book, alert("AAPL", AlertDirection::Above, 1)), Ok(()));
    assert_eq!(
        add_alert(&mut book, alert("AAPL", AlertDirection::Above, 7)),
        Err(ServiceError::AlertExists)
    );
    assert_eq!(book.len(), 1);
    assert_eq!(book[0].threshold, pr(1));
    assert_eq!(add_alert(&mut book, alert("AAPL", AlertDirection::Below, 7)), Ok(()));
    assert_eq!(book.len(), 2);
}

#[test]
fn removing_absent_alert_changes_nothing() {
    let mut book = vec![alert("AAPL", AlertDirection::Above, 1), alert("TSLA", AlertDirection::Below, 2)];
    let before = keys(&book);
    remove_alert(&mut book, "AAPL", AlertDirection::Below);
    assert_eq!(keys(&book), before);
    remove_alert(&mut book, "MSFT", AlertDirection::Above);
    assert_eq!(keys(&book), before);
    remove_alert(&mut book, "AAPL", AlertDirection::Above);
    assert_eq!(keys(&book), vec![("TSLA".to_string(), AlertDirection::Below, 2)]);
    let mut empty: Vec<StoredAlert> = Vec::new();
    remove_alert(&mut empty, "AAPL", AlertDirection::Above);
    assert!(empty.is_empty());
}

#[test]
fn periodic_check_reports_firing_alerts() {
    let mut cache = PriceCache::new();
    cache.merge(vec![("AAPL".to_string(), pr(150)), ("TSLA".to_string(), pr(90))]);
    let book = vec![
        alert("AAPL", AlertDirection::Above, 100),
        alert("AAPL", AlertDirection::Below, 100),
        alert("TSLA", AlertDirection::Below, 100),
        alert("MSFT", AlertDirection::Above, 1),
        alert("TSLA", AlertDirection::Above, 90),
    ];
    let out = check_alerts(&book, &cache);
    assert_eq!(out.len(), 2);
    assert_eq!(out[0].to_wire(), "TRIGGER AAPL ABOVE 0.0001 0.00015\n");
    match &out[1] {
        ServerMsg::AlertTriggered { symbol, direction, threshold, current_price } => {
            assert_eq!(symbol, "TSLA");
            assert_eq!(*direction, AlertDirection::Below);
            assert_eq!(*threshold, pr(100));
            assert_eq!(*current_price, pr(90));
        }
        other => panic!("unexpected {other:?}"),
    }
    assert!(check_alerts(&book, &PriceCache::new()).is_empty());
}

#[test]
fn buy_then_sell_keeps_cost_history() {
    let mut holdings: Vec<PortfolioStock> = Vec::new();
    assert_eq!(buy_stock(&mut holdings, "AAPL", 5, pr(10_000_000)), Ok(()));
    assert_eq!(holdings.len(), 1);
    assert_eq!(holdings[0].quantity, 5);
    assert_eq!(holdings[0].total_price, pr(50_000_000));
    assert_eq!(sell_stock(&mut holdings, "AAPL", 5, pr(12_000_000)), Ok(()));
    assert_eq!(holdings.len(), 1);
    assert_eq!(holdings[0].symbol, "AAPL");
    assert_eq!(holdings[0].quantity, 0);
    assert_eq!(holdings[0].total_price, pr(-10_000_000));
    assert_eq!(buy_stock(&mut holdings, "AAPL", 2, pr(1_000_000)), Ok(()));
    assert_eq!(holdings[0].quantity, 2);
    assert_eq!(holdings[0].total_price, pr(-8_000_000));
}

#[test]
fn oversell_is_refused() {
    let mut holdings: Vec<PortfolioStock> = Vec::new();
    assert_eq!(buy_stock(&mut holdings, "MSFT", 3, pr(2_000_000)), Ok(()));
    assert_eq!(
        sell_stock(&mut holdings, "MSFT", 4, pr(2_000_000)),
        Err(ServiceError::InsufficientHoldings(3))
    );
    assert_eq!(holdings[0].quantity, 3);
    assert_eq!(holdings[0].total_price, pr(6_000_000));
    assert_eq!(
        sell_stock(&mut holdings, "AAPL", 1, pr(2_000_000)),
        Err(ServiceError::InsufficientHoldings(0))
    );
}

#[test]
fn trade_quantity_and_range_checks() {
    let mut holdings: Vec<PortfolioStock> = Vec::new();
    assert_eq!(buy_stock(&mut holdings, "A", -1, pr(1)), Err(ServiceError::InvalidQuantity));
    assert_eq!(sell_stock(&mut holdings, "A", -1, pr(1)), Err(ServiceError::InvalidQuantity));
    assert_eq!(sell_stock(&mut holdings, "A", 0, pr(1)), Err(ServiceError::InsufficientHoldings(0)));
    assert!(holdings.is_empty());
    assert_eq!(buy_stock(&mut holdings, "A", i32::MAX, pr(1)), Ok(()));
    assert_eq!(buy_stock(&mut holdings, "A", 1, pr(1)), Err(ServiceError::Overflow));
    assert_eq!(holdings[0].quantity, i32::MAX);
    assert_eq!(buy_stock(&mut holdings, "B", 2, pr(i64::MAX)), Err(ServiceError::Overflow));
    assert_eq!(holdings.len(), 1);
    assert_eq!(buy_stock(&mut holdings, "C", 1, pr(3)), Ok(()));
    assert_eq!(holdings[1].symbol, "C");
}

#[test]
fn error_reasons() {
    assert_eq!(ServiceError::NotLoggedIn.message(), "not logged in");
    assert_eq!(ServiceError::InsufficientHoldings(4).message(), "insufficient holdings, held: 4");
    for e in [
        ServiceError::Malformed,
        ServiceError::AlreadyLoggedIn,
        ServiceError::InvalidCredentials,
        ServiceError::UserExists,
        ServiceError::PasswordTooLong,
        ServiceError::SymbolUnavailable,
        ServiceError::AlertExists,
        ServiceError::InvalidQuantity,
        ServiceError::Overflow,
        ServiceError::Storage,
    ] {
        assert!(!e.message().is_empty());
    }
}

#[test]
fn zero_quantity_trades() {
    let mut holdings: Vec<PortfolioStock> = Vec::new();
    assert_eq!(buy_stock(&mut holdings, "ZED", 0, pr(5_000_000)), Ok(()));
    assert_eq!(holdings.len(), 1);
    assert_eq!(holdings[0].symbol, "ZED");
    assert_eq!(holdings[0].quantity, 0);
    assert_eq!(holdings[0].total_price, pr(0));
    assert_eq!(buy_stock(&mut holdings, "ZED", 4, pr(5_000_000)), Ok(()));
    assert_eq!(sell_stock(&mut holdings, "ZED", 0, pr(9_000_000)), Ok(()));
    assert_eq!(holdings.len(), 1);
    assert_eq!(holdings[0].quantity, 4);
    assert_eq!(holdings[0].total_price, pr(20_000_000));
}

#[test]
fn refresh_sets_and_keeps_prices() {
    let mut cache = PriceCache::new();
    cache.merge(vec![("AAPL".to_string(), pr(1)), ("MSFT".to_string(), pr(2))]);
    cache.merge(vec![("AAPL".to_string(), pr(3))]);
    assert_eq!(cache.get("AAPL"), Some(pr(3)));
    assert_eq!(cache.get("MSFT"), Some(pr(2)));
    cache.merge(Vec::new());
    assert_eq!(cache.get("MSFT"), Some(pr(2)));
}
