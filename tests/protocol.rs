use stock_alerts::protocol::{
    parse_client_msg, parse_server_msg, wire_error, AlertDirection, AlertRequest, ClientMsg,
    Price, ServerMsg,
};
use stock_alerts::text::{now_hhmmss, parse_fixed_exec, parse_i32, symbol_list};

fn px(micros: i64) -> Price {
    Price { micros }
}

fn client_round_trip(m: ClientMsg) -> ClientMsg {
    parse_client_msg(&m.to_wire()).expect("client line decodes")
}

fn server_round_trip(m: ServerMsg) -> ServerMsg {
    parse_server_msg(&m.to_wire()).expect("server line decodes")
}

#[test]
fn direction_tokens() {
    assert_eq!(AlertDirection::Above.as_str(), "ABOVE");
    assert_eq!(AlertDirection::Below.as_str(), "BELOW");
    assert_eq!(AlertDirection::from_str("ABOVE"), Some(AlertDirection::Above));
    assert_eq!(AlertDirection::from_str("BELOW"), Some(AlertDirection::Below));
    assert_eq!(AlertDirection::from_str("above"), None);
    assert_eq!(AlertDirection::from_str(""), None);
}

#[test]
fn add_alert_wire_text() {
    let m = ClientMsg::AddAlert(AlertRequest {
        symbol: "AAPL".to_string(),
        direction: AlertDirection::Above,
        threshold: px(1_000_000),
    });
    assert_eq!(m.to_wire(), "ADD AAPL ABOVE 1\n");
    match client_round_trip(m) {
        ClientMsg::AddAlert(a) => {
            assert_eq!(a.symbol, "AAPL");
            assert_eq!(a.direction, AlertDirection::Above);
            assert_eq!(a.threshold, px(1_000_000));
        }
        other => panic!("unexpected {other:?}"),
    }
}

#[test]
fn client_messages_round_trip() {
    let m = client_round_trip(ClientMsg::RemoveAlert {
        symbol: "TSLA".to_string(),
        direction: AlertDirection::Below,
    });
    assert!(matches!(m, ClientMsg::RemoveAlert { ref symbol, direction: AlertDirection::Below } if symbol == "TSLA"));
    let m = client_round_trip(ClientMsg::LoginClient {
        username: "alice".to_string(),
        password: "secret".to_string(),
    });
    assert!(matches!(m, ClientMsg::LoginClient { ref username, ref password } if username == "alice" && password == "secret"));
    let m = client_round_trip(ClientMsg::RegisterClient {
        username: "bob".to_string(),
        password: "pw".to_string(),
    });
    assert!(matches!(m, ClientMsg::RegisterClient { ref username, ref password } if username == "bob" && password == "pw"));
    let m = client_round_trip(ClientMsg::CheckPrice { symbol: "NFLX".to_string() });
    assert!(matches!(m, ClientMsg::CheckPrice { ref symbol } if symbol == "NFLX"));
    let m = client_round_trip(ClientMsg::BuyStock { symbol: "AAPL".to_string(), quantity: 5 });
    assert!(matches!(m, ClientMsg::BuyStock { ref symbol, quantity: 5 } if symbol == "AAPL"));
    let m = client_round_trip(ClientMsg::SellStock { symbol: "AAPL".to_string(), quantity: -7 });
    assert!(matches!(m, ClientMsg::SellStock { ref symbol, quantity: -7 } if symbol == "AAPL"));
    assert!(matches!(client_round_trip(ClientMsg::GetAllClientData), ClientMsg::GetAllClientData));
    assert_eq!(ClientMsg::GetAllClientData.to_wire(), "DATA\n");
    assert_eq!(
        ClientMsg::BuyStock { symbol: "AAPL".to_string(), quantity: 12 }.to_wire(),
        "BUY AAPL 12\n"
    );
}

#[test]
fn server_messages_round_trip() {
    let t = ServerMsg::AlertTriggered {
        symbol: "AAPL".to_string(),
        direction: AlertDirection::Above,
        threshold: px(1_000_000),
        current_price: px(150_250_000),
    };
    assert_eq!(t.to_wire(), "TRIGGER AAPL ABOVE 1 150.25\n");
    match server_round_trip(t) {
        ServerMsg::AlertTriggered { symbol, direction, threshold, current_price } => {
            assert_eq!(symbol, "AAPL");
            assert_eq!(direction, AlertDirection::Above);
            assert_eq!(threshold, px(1_000_000));
            assert_eq!(current_price, px(150_250_000));
        }
        other => panic!("unexpected {other:?}"),
    }
    let a = ServerMsg::AlertAdded {
        symbol: "AAPL".to_string(),
        direction: AlertDirection::Below,
        threshold: px(-2_500_000),
    };
    assert_eq!(a.to_wire(), "ALERTADDED AAPL BELOW -2.5\n");
    assert!(matches!(server_round_trip(a), ServerMsg::AlertAdded { threshold, .. } if threshold == px(-2_500_000)));
    let r = ServerMsg::AlertRemoved { symbol: "AAPL".to_string(), direction: AlertDirection::Above };
    assert_eq!(r.to_wire(), "ALERTDELETED AAPL ABOVE\n");
    assert!(matches!(server_round_trip(r), ServerMsg::AlertRemoved { direction: AlertDirection::Above, .. }));
    let c = ServerMsg::PriceChecked { symbol: "NFLX".to_string(), price: px(100_240_000) };
    assert_eq!(c.to_wire(), "PRICE NFLX 100.24\n");
    assert!(matches!(server_round_trip(c), ServerMsg::PriceChecked { price, .. } if price == px(100_240_000)));
    let b = ServerMsg::StockBought { symbol: "AAPL".to_string(), quantity: 3 };
    assert_eq!(b.to_wire(), "BOUGHT AAPL 3\n");
    assert!(matches!(server_round_trip(b), ServerMsg::StockBought { quantity: 3, .. }));
    let s = ServerMsg::StockSold { symbol: "AAPL".to_string(), quantity: 2 };
    assert_eq!(s.to_wire(), "SOLD AAPL 2\n");
    assert!(matches!(server_round_trip(s), ServerMsg::StockSold { quantity: 2, .. }));
    let d = ServerMsg::AllClientData { json: "{\"stocks\":[],\"alerts\":[]}".to_string() };
    assert_eq!(d.to_wire(), "DATA {\"stocks\":[],\"alerts\":[]}\n");
    assert!(matches!(server_round_trip(d), ServerMsg::AllClientData { ref json } if json == "{\"stocks\":[],\"alerts\":[]}"));
    assert_eq!(ServerMsg::UserLogged.to_wire(), "LOGIN\n");
    assert!(matches!(server_round_trip(ServerMsg::UserLogged), ServerMsg::UserLogged));
    assert_eq!(ServerMsg::UserRegistered.to_wire(), "REGISTER\n");
    assert!(matches!(server_round_trip(ServerMsg::UserRegistered), ServerMsg::UserRegistered));
    let e = ServerMsg::Error("not logged in".to_string());
    assert_eq!(e.to_wire(), "ERR not logged in\n");
    assert!(matches!(server_round_trip(e), ServerMsg::Error(ref t) if t == "not logged in"));
}

#[test]
fn error_line_keeps_text() {
    assert_eq!(wire_error("  symbol   not\tavailable "), "ERR   symbol   not\tavailable \n");
    assert_eq!(wire_error(""), "ERR \n");
    assert!(matches!(parse_server_msg("ERR \n"), Some(ServerMsg::Error(ref t)) if t.is_empty()));
    assert!(matches!(parse_server_msg("ERR"), Some(ServerMsg::Error(ref t)) if t.is_empty()));
}

#[test]
fn malformed_lines_do_not_decode() {
    assert!(parse_client_msg("").is_none());
    assert!(parse_client_msg("   \n").is_none());
    assert!(parse_client_msg("HELLO").is_none());
    assert!(parse_client_msg("ADD AAPL SIDEWAYS 1").is_none());
    assert!(parse_client_msg("ADD AAPL ABOVE abc").is_none());
    assert!(parse_client_msg("ADD AAPL ABOVE 1.1234567").is_none());
    assert!(parse_client_msg("ADD AAPL ABOVE").is_none());
    assert!(parse_client_msg("BUY AAPL 1.5").is_none());
    assert!(parse_client_msg("BUY AAPL 2147483648").is_none());
    assert!(parse_client_msg("DATA extra").is_none());
    assert!(parse_client_msg("add AAPL ABOVE 1").is_none());
    assert!(parse_server_msg("TRIGGER AAPL ABOVE 1").is_none());
    assert!(parse_server_msg("LOGIN alice").is_none());
    assert!(parse_server_msg("WHAT").is_none());
}

#[test]
fn lines_with_extra_spacing_decode() {
    match parse_client_msg("  ADD   MSFT\tBELOW  0.5 \r\n") {
        Some(ClientMsg::AddAlert(a)) => {
            assert_eq!(a.symbol, "MSFT");
            assert_eq!(a.direction, AlertDirection::Below);
            assert_eq!(a.threshold, px(500_000));
        }
        other => panic!("unexpected {other:?}"),
    }
}

#[test]
fn decimal_fields() {
    assert_eq!(parse_fixed_exec("1"), Some(1_000_000));
    assert_eq!(parse_fixed_exec("1.0"), Some(1_000_000));
    assert_eq!(parse_fixed_exec("0.05"), Some(50_000));
    assert_eq!(parse_fixed_exec("-10"), Some(-10_000_000));
    assert_eq!(parse_fixed_exec("100.240000"), Some(100_240_000));
    assert_eq!(parse_fixed_exec("9223372036854.775807"), Some(i64::MAX));
    assert_eq!(parse_fixed_exec("-9223372036854.775808"), Some(i64::MIN));
    assert_eq!(parse_fixed_exec("9223372036854.775808"), None);
    assert_eq!(parse_fixed_exec("1."), None);
    assert_eq!(parse_fixed_exec(".5"), None);
    assert_eq!(parse_fixed_exec(""), None);
    assert_eq!(parse_fixed_exec("-"), None);
    assert_eq!(parse_i32("+5"), Some(5));
    assert_eq!(parse_i32("-3"), Some(-3));
    assert_eq!(parse_i32("2147483647"), Some(i32::MAX));
    assert_eq!(parse_i32("-2147483648"), Some(i32::MIN));
    assert_eq!(parse_i32("2147483648"), None);
    assert_eq!(parse_i32("12a"), None);
    let extreme = ServerMsg::PriceChecked { symbol: "X".to_string(), price: px(i64::MIN) };
    assert_eq!(extreme.to_wire(), "PRICE X -9223372036854.775808\n");
    assert!(matches!(server_round_trip(extreme), ServerMsg::PriceChecked { price, .. } if price == px(i64::MIN)));
}

#[test]
fn clock_and_symbol_list() {
    assert_eq!(now_hhmmss(0), "00:00:00");
    assert_eq!(now_hhmmss(3661), "01:01:01");
    assert_eq!(now_hhmmss(86399 + 86400), "23:59:59");
    let list = symbol_list("AAPL\n  MSFT  \n\nNFLX\r\n");
    assert_eq!(list, vec!["AAPL".to_string(), "MSFT".to_string(), "NFLX".to_string()]);
    assert!(symbol_list("\n\n").is_empty());
    assert!(symbol_list("").is_empty());
    assert_eq!(symbol_list("  BRK B \u{a0}\nX"), vec!["BRK B".to_string(), "X".to_string()]);
}

#[test]
fn codec_keeps_symbol_case() {
    match parse_client_msg("PRICE aApl") {
        Some(ClientMsg::CheckPrice { symbol }) => assert_eq!(symbol, "aApl"),
        other => panic!("unexpected {other:?}"),
    }
    let upper = "aApl".to_uppercase();
    let m = ClientMsg::CheckPrice { symbol: upper };
    assert_eq!(m.to_wire(), "PRICE AAPL\n");
    assert!(matches!(client_round_trip(m), ClientMsg::CheckPrice { ref symbol } if symbol == "AAPL"));
}

#[test]
fn data_payload_must_be_json() {
    assert!(parse_server_msg("DATA {").is_none());
    assert!(parse_server_msg("DATA not-json").is_none());
    assert!(matches!(parse_server_msg("DATA [1,2]"), Some(ServerMsg::AllClientData { ref json }) if json == "[1,2]"));
    assert!(matches!(
        parse_server_msg("DATA {\"stocks\":[],\"alerts\":[]}"),
        Some(ServerMsg::AllClientData { .. })
    ));
}

#[test]
fn unicode_spaces_separate_fields() {
    match parse_client_msg("BUY\u{a0}AAPL\u{3000}7\u{2009}") {
        Some(ClientMsg::BuyStock { symbol, quantity }) => {
            assert_eq!(symbol, "AAPL");
            assert_eq!(quantity, 7);
        }
        other => panic!("unexpected {other:?}"),
    }
    assert!(matches!(parse_client_msg("PRICE\u{85}X"), Some(ClientMsg::CheckPrice { ref symbol }) if symbol == "X"));
}
