use stock_alerts::alerts::{add_alert, StoredAlert};
use stock_alerts::auth::{login_outcome, login_user, new_user, register_user, UserRecord};
use stock_alerts::cache::PriceCache;
use stock_alerts::error::ServiceError;
use stock_alerts::protocol::{AlertDirection, Price, ServerMsg};
use stock_alerts::session::{
    alert_added, alert_removed, client_data, register_finished, stock_bought, stock_sold, Action, Session,
};

fn price_of(micros: i64) -> Price {
    Price { micros }
}

fn cache_with(symbol: &str, micros: i64) -> PriceCache {
    let mut c = PriceCache::new();
    c.insert(symbol.to_string(), price_of(micros));
    c
}

fn logged_in(id: i64) -> Session {
    let mut s = Session::new();
    let r = s.login_finished(Ok(id));
    assert!(matches!(r, Ok(ServerMsg::UserLogged)));
    s
}

fn commands() -> Vec<&'static str> {
    vec!["ADD AAPL ABOVE 1", "DEL AAPL ABOVE", "PRICE AAPL", "BUY AAPL 1", "SELL AAPL 1", "DATA"]
}

#[test]
fn commands_need_login() {
    let cache = cache_with("AAPL", 5_000_000);
    let fresh = Session::new();
    for line in commands() {
        assert!(matches!(fresh.handle_line(line, &cache), Action::Fail(ServiceError::NotLoggedIn)), "{line}");
    }
    let s = logged_in(7);
    assert!(matches!(s.handle_line("ADD AAPL ABOVE 1", &cache), Action::AddAlert { user_id: 7, .. }));
    assert!(matches!(s.handle_line("DEL AAPL ABOVE", &cache), Action::RemoveAlert { user_id: 7, .. }));
    match s.handle_line("PRICE AAPL", &cache) {
        Action::Reply(m) => assert_eq!(m.to_wire(), "PRICE AAPL 5\n"),
        _ => panic!("expected a price"),
    }
    assert!(matches!(s.handle_line("BUY AAPL 1", &cache), Action::Buy { user_id: 7, quantity: 1, .. }));
    assert!(matches!(s.handle_line("SELL AAPL 1", &cache), Action::Sell { user_id: 7, quantity: 1, .. }));
    assert!(matches!(s.handle_line("DATA", &cache), Action::SendData { user_id: 7 }));
}

#[test]
fn login_and_register_gating() {
    let cache = PriceCache::new();
    let fresh = Session::new();
    assert!(matches!(fresh.handle_line("LOGIN alice secret", &cache), Action::Login { ref username, ref password } if username == "alice" && password == "secret"));
    assert!(matches!(fresh.handle_line("REGISTER alice secret", &cache), Action::Register { .. }));
    let s = logged_in(1);
    assert!(matches!(s.handle_line("LOGIN alice secret", &cache), Action::Fail(ServiceError::AlreadyLoggedIn)));
    assert!(matches!(s.handle_line("REGISTER bob pw", &cache), Action::Fail(ServiceError::AlreadyLoggedIn)));
    assert!(matches!(fresh.handle_line("NONSENSE", &cache), Action::Fail(ServiceError::Malformed)));
    assert!(matches!(s.handle_line("", &cache), Action::Fail(ServiceError::Malformed)));
    let mut t = Session::new();
    assert!(matches!(t.login_finished(Err(ServiceError::InvalidCredentials)), Err(ServiceError::InvalidCredentials)));
    assert_eq!(t.user_id, None);
    assert!(matches!(register_finished(Ok(())), Ok(ServerMsg::UserRegistered)));
    assert!(matches!(register_finished(Err(ServiceError::UserExists)), Err(ServiceError::UserExists)));
}

#[test]
fn uncached_symbol_is_unavailable_until_refresh() {
    let mut cache = PriceCache::new();
    let s = logged_in(3);
    for line in ["PRICE IBM", "BUY IBM 2", "ADD IBM ABOVE 10", "SELL IBM 1"] {
        assert!(matches!(s.handle_line(line, &cache), Action::Fail(ServiceError::SymbolUnavailable)), "{line}");
    }
    cache.merge(vec![("IBM".to_string(), price_of(120_000_000))]);
    assert!(matches!(s.handle_line("PRICE IBM", &cache), Action::Reply(ServerMsg::PriceChecked { .. })));
    assert!(matches!(s.handle_line("BUY IBM 2", &cache), Action::Buy { price, .. } if price == price_of(120_000_000)));
    assert!(matches!(s.handle_line("ADD IBM ABOVE 10", &cache), Action::AddAlert { current, .. } if current == price_of(120_000_000)));
}

#[test]
fn added_alert_fires_at_once() {
    let a = StoredAlert { symbol: "AAPL".to_string(), direction: AlertDirection::Above, threshold: price_of(1_000_000) };
    let out = alert_added(&a, price_of(150_000_000), Ok(())).unwrap();
    let lines: Vec<String> = out.iter().map(|m| m.to_wire()).collect();
    assert_eq!(lines, vec!["ALERTADDED AAPL ABOVE 1\n".to_string(), "TRIGGER AAPL ABOVE 1 150\n".to_string()]);
    let quiet = alert_added(&a, price_of(1_000_000), Ok(())).unwrap();
    assert_eq!(quiet.len(), 1);
    assert!(matches!(alert_added(&a, price_of(2), Err(ServiceError::AlertExists)), Err(ServiceError::AlertExists)));
}

#[test]
fn login_decision() {
    let rec = Some(UserRecord { id: 9, password_hash: "x".to_string() });
    assert_eq!(login_outcome(&rec, true), Ok(9));
    assert_eq!(login_outcome(&rec, false), Err(ServiceError::InvalidCredentials));
    assert_eq!(login_outcome(&None, true), Err(ServiceError::InvalidCredentials));
    assert_eq!(login_user(&None, "pw"), Err(ServiceError::InvalidCredentials));
    assert_eq!(new_user("carol", None).err(), Some(ServiceError::Storage));
    let u = new_user("carol", Some("h".to_string())).unwrap();
    assert_eq!(u.username, "carol");
    assert_eq!(u.password_hash, "h");
}

#[test]
fn registered_password_logs_in() {
    let u = register_user("alice", "secret").expect("hashing works");
    assert_eq!(u.username, "alice");
    assert_ne!(u.password_hash, "secret");
    assert!(u.password_hash.starts_with("$argon2"));
    let rec = Some(UserRecord { id: 1, password_hash: u.password_hash });
    assert_eq!(login_user(&rec, "secret"), Ok(1));
}

#[test]
fn wrong_password_is_refused() {
    let u = register_user("bob", "right").expect("hashing works");
    let rec = Some(UserRecord { id: 2, password_hash: u.password_hash });
    assert_eq!(login_user(&rec, "wrong"), Err(ServiceError::InvalidCredentials));
    let garbled = Some(UserRecord { id: 2, password_hash: "not a hash".to_string() });
    assert_eq!(login_user(&garbled, "right"), Err(ServiceError::InvalidCredentials));
}

#[test]
fn register_login_data_add_scenario() {
    let mut cache = PriceCache::new();
    cache.merge(vec![("AAPL".to_string(), price_of(187_500_000))]);
    let mut session = Session::new();
    let mut users: Vec<(i64, String, String)> = Vec::new();

    let (name, pw) = match session.handle_line("REGISTER alice secret", &cache) {
        Action::Register { username, password } => (username, password),
        _ => panic!("expected a registration"),
    };
    let row = register_user(&name, &pw).unwrap();
    users.push((1, row.username, row.password_hash));
    let reply = register_finished(Ok(())).unwrap();
    assert_eq!(reply.to_wire(), "REGISTER\n");

    let (name, pw) = match session.handle_line("LOGIN alice secret", &cache) {
        Action::Login { username, password } => (username, password),
        _ => panic!("expected a login"),
    };
    let rec = users
        .iter()
        .find(|u| u.1 == name)
        .map(|u| UserRecord { id: u.0, password_hash: u.2.clone() });
    let reply = session.login_finished(login_user(&rec, &pw)).unwrap();
    assert_eq!(reply.to_wire(), "LOGIN\n");

    assert!(matches!(session.handle_line("DATA", &cache), Action::SendData { user_id: 1 }));
    let data = client_data(Ok("{\"stocks\":[],\"alerts\":[]}".to_string())).unwrap();
    assert_eq!(data.to_wire(), "DATA {\"stocks\":[],\"alerts\":[]}\n");

    let mut book: Vec<StoredAlert> = Vec::new();
    match session.handle_line("ADD AAPL ABOVE 1.0", &cache) {
        Action::AddAlert { user_id: 1, alert, current } => {
            let outcome = add_alert(&mut book, alert.clone());
            let lines: Vec<String> =
                alert_added(&alert, current, outcome).unwrap().iter().map(|m| m.to_wire()).collect();
            assert_eq!(lines[0], "ALERTADDED AAPL ABOVE 1\n");
            assert_eq!(lines[1], "TRIGGER AAPL ABOVE 1 187.5\n");
        }
        _ => panic!("expected an alert"),
    }
}

#[test]
fn store_outcome_replies() {
    let r = alert_removed("AAPL".to_string(), AlertDirection::Below, Ok(())).unwrap();
    assert_eq!(r.to_wire(), "ALERTDELETED AAPL BELOW\n");
    let b = stock_bought("AAPL".to_string(), 0, Ok(())).unwrap();
    assert_eq!(b.to_wire(), "BOUGHT AAPL 0\n");
    let s = stock_sold("AAPL".to_string(), 3, Ok(())).unwrap();
    assert_eq!(s.to_wire(), "SOLD AAPL 3\n");
    assert!(matches!(
        stock_sold("AAPL".to_string(), 9, Err(ServiceError::InsufficientHoldings(3))),
        Err(ServiceError::InsufficientHoldings(3))
    ));
    let d = client_data(Ok("{\"stocks\":[],\"alerts\":[]}".to_string())).unwrap();
    assert_eq!(d.to_wire(), "DATA {\"stocks\":[],\"alerts\":[]}\n");
    assert!(matches!(client_data(Err(ServiceError::Storage)), Err(ServiceError::Storage)));
    assert!(matches!(alert_removed("X".to_string(), AlertDirection::Above, Err(ServiceError::Storage)), Err(ServiceError::Storage)));
}
