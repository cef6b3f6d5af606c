//! The line protocol between clients and the server: typed messages, their
//! encoding as one text line each, and decoding back.
use vstd::prelude::*;
use vstd::string::*;

use crate::text::{
    all_tokens, fixed_text, int_text, is_token, join, join_from, join_line, lemma_fixed_text, lemma_int_text,
    lemma_split_word, lemma_tokens_of_line, lemma_tokens_are_tokens, line_of, no_space, split_from, parse_fixed_exec, parse_fixed_i64,
    parse_i32, parse_i32_spec, push_fixed, push_int, split_tokens, text_is, tokens, views,
};

verus! {

/// Whether `s` is one well-formed JSON document.
pub uninterp spec fn json_valid_of(s: Seq<char>) -> bool;

/// Relies on `serde_json::from_str` into a `serde_json::Value`: whether the
/// text parses as one JSON document.
#[verifier::external_body]
fn json_valid(s: &str) -> (r: bool)
    ensures
        r == json_valid_of(s@),
{
    serde_json::from_str::<serde_json::Value>(s).is_ok()
}

/// A quoted amount in millionths of the currency unit.
#[derive(Debug, Clone, Copy, PartialEq, Eq, Structural)]
pub struct Price {
    pub micros: i64,
}

/// Which side of the threshold makes an alert fire.
#[derive(Debug, Clone, Copy, PartialEq, Eq, Structural)]
pub enum AlertDirection {
    Above,
    Below,
}

pub open spec fn direction_token(d: AlertDirection) -> Seq<char> {
    match d {
        AlertDirection::Above => seq!['A', 'B', 'O', 'V', 'E'],
        AlertDirection::Below => seq!['B', 'E', 'L', 'O', 'W'],
    }
}

/// The direction that a wire token names, if any.
pub open spec fn direction_of(t: Seq<char>) -> Option<AlertDirection> {
    if t == direction_token(AlertDirection::Above) {
        Some(AlertDirection::Above)
    } else if t == direction_token(AlertDirection::Below) {
        Some(AlertDirection::Below)
    } else {
        None
    }
}

impl AlertDirection {
    /// The wire token of the direction.
    pub fn as_str(&self) -> (r: &'static str)
        ensures
            r@ == direction_token(*self),
    {
        proof {
            reveal_strlit("ABOVE");
            reveal_strlit("BELOW");
        }
        match self {
            AlertDirection::Above => "ABOVE",
            AlertDirection::Below => "BELOW",
        }
    }

    /// The direction named by a wire token; the match is case-sensitive.
    pub fn from_str(token: &str) -> (r: Option<AlertDirection>)
        ensures
            r == direction_of(token@),
    {
        proof {
            reveal_strlit("ABOVE");
            reveal_strlit("BELOW");
        }
        assert("ABOVE"@ =~= direction_token(AlertDirection::Above));
        assert("BELOW"@ =~= direction_token(AlertDirection::Below));
        if text_is(token, "ABOVE") {
            Some(AlertDirection::Above)
        } else if text_is(token, "BELOW") {
            Some(AlertDirection::Below)
        } else {
            None
        }
    }
}

/// A request to be told when `symbol` crosses `threshold`.
#[derive(Debug, Clone)]
pub struct AlertRequest {
    pub symbol: String,
    pub direction: AlertDirection,
    pub threshold: Price,
}

/// What a client sends.
#[derive(Debug, Clone)]
pub enum ClientMsg {
    AddAlert(AlertRequest),
    RemoveAlert { symbol: String, direction: AlertDirection },
    LoginClient { username: String, password: String },
    RegisterClient { username: String, password: String },
    CheckPrice { symbol: String },
    BuyStock { symbol: String, quantity: i32 },
    SellStock { symbol: String, quantity: i32 },
    GetAllClientData,
}

/// What the server sends.
#[derive(Debug, Clone)]
pub enum ServerMsg {
    AlertTriggered {
        symbol: String,
        direction: AlertDirection,
        threshold: Price,
        current_price: Price,
    },
    AlertAdded { symbol: String, direction: AlertDirection, threshold: Price },
    AlertRemoved { symbol: String, direction: AlertDirection },
    PriceChecked { symbol: String, price: Price },
    StockBought { symbol: String, quantity: i32 },
    StockSold { symbol: String, quantity: i32 },
    /// A user's positions and alerts as one JSON document.
    AllClientData { json: String },
    UserLogged,
    UserRegistered,
    Error(String),
}

/// A client message with its text fields as character sequences.
pub enum ClientMsgView {
    AddAlert { symbol: Seq<char>, direction: AlertDirection, threshold: Price },
    RemoveAlert { symbol: Seq<char>, direction: AlertDirection },
    LoginClient { username: Seq<char>, password: Seq<char> },
    RegisterClient { username: Seq<char>, password: Seq<char> },
    CheckPrice { symbol: Seq<char> },
    BuyStock { symbol: Seq<char>, quantity: i32 },
    SellStock { symbol: Seq<char>, quantity: i32 },
    GetAllClientData,
}

/// A server message with its text fields as character sequences.
pub enum ServerMsgView {
    AlertTriggered {
        symbol: Seq<char>,
        direction: AlertDirection,
        threshold: Price,
        current_price: Price,
    },
    AlertAdded { symbol: Seq<char>, direction: AlertDirection, threshold: Price },
    AlertRemoved { symbol: Seq<char>, direction: AlertDirection },
    PriceChecked { symbol: Seq<char>, price: Price },
    StockBought { symbol: Seq<char>, quantity: i32 },
    StockSold { symbol: Seq<char>, quantity: i32 },
    AllClientData { json: Seq<char> },
    UserLogged,
    UserRegistered,
    Error(Seq<char>),
}

impl View for ClientMsg {
    type V = ClientMsgView;

    open spec fn view(&self) -> ClientMsgView {
        match self {
            ClientMsg::AddAlert(a) => ClientMsgView::AddAlert {
                symbol: a.symbol@,
                direction: a.direction,
                threshold: a.threshold,
            },
            ClientMsg::RemoveAlert { symbol, direction } => ClientMsgView::RemoveAlert {
                symbol: symbol@,
                direction: *direction,
            },
            ClientMsg::LoginClient { username, password } => ClientMsgView::LoginClient {
                username: username@,
                password: password@,
            },
            ClientMsg::RegisterClient { username, password } => ClientMsgView::RegisterClient {
                username: username@,
                password: password@,
            },
            ClientMsg::CheckPrice { symbol } => ClientMsgView::CheckPrice { symbol: symbol@ },
            ClientMsg::BuyStock { symbol, quantity } => ClientMsgView::BuyStock {
                symbol: symbol@,
                quantity: *quantity,
            },
            ClientMsg::SellStock { symbol, quantity } => ClientMsgView::SellStock {
                symbol: symbol@,
                quantity: *quantity,
            },
            ClientMsg::GetAllClientData => ClientMsgView::GetAllClientData,
        }
    }
}

impl View for ServerMsg {
    type V = ServerMsgView;

    open spec fn view(&self) -> ServerMsgView {
        match self {
            ServerMsg::AlertTriggered { symbol, direction, threshold, current_price } =>
                ServerMsgView::AlertTriggered {
                symbol: symbol@,
                direction: *direction,
                threshold: *threshold,
                current_price: *current_price,
            },
            ServerMsg::AlertAdded { symbol, direction, threshold } => ServerMsgView::AlertAdded {
                symbol: symbol@,
                direction: *direction,
                threshold: *threshold,
            },
            ServerMsg::AlertRemoved { symbol, direction } => ServerMsgView::AlertRemoved {
                symbol: symbol@,
                direction: *direction,
            },
            ServerMsg::PriceChecked { symbol, price } => ServerMsgView::PriceChecked {
                symbol: symbol@,
                price: *price,
            },
            ServerMsg::StockBought { symbol, quantity } => ServerMsgView::StockBought {
                symbol: symbol@,
                quantity: *quantity,
            },
            ServerMsg::StockSold { symbol, quantity } => ServerMsgView::StockSold {
                symbol: symbol@,
                quantity: *quantity,
            },
            ServerMsg::AllClientData { json } => ServerMsgView::AllClientData { json: json@ },
            ServerMsg::UserLogged => ServerMsgView::UserLogged,
            ServerMsg::UserRegistered => ServerMsgView::UserRegistered,
            ServerMsg::Error(m) => ServerMsgView::Error(m@),
        }
    }
}

pub open spec fn cmd_add() -> Seq<char> {
    seq!['A', 'D', 'D']
}

pub open spec fn cmd_del() -> Seq<char> {
    seq!['D', 'E', 'L']
}

pub open spec fn cmd_login() -> Seq<char> {
    seq!['L', 'O', 'G', 'I', 'N']
}

pub open spec fn cmd_register() -> Seq<char> {
    seq!['R', 'E', 'G', 'I', 'S', 'T', 'E', 'R']
}

pub open spec fn cmd_price() -> Seq<char> {
    seq!['P', 'R', 'I', 'C', 'E']
}

pub open spec fn cmd_buy() -> Seq<char> {
    seq!['B', 'U', 'Y']
}

pub open spec fn cmd_sell() -> Seq<char> {
    seq!['S', 'E', 'L', 'L']
}

pub open spec fn cmd_data() -> Seq<char> {
    seq!['D', 'A', 'T', 'A']
}

pub open spec fn cmd_trigger() -> Seq<char> {
    seq!['T', 'R', 'I', 'G', 'G', 'E', 'R']
}

pub open spec fn cmd_alert_added() -> Seq<char> {
    seq!['A', 'L', 'E', 'R', 'T', 'A', 'D', 'D', 'E', 'D']
}

pub open spec fn cmd_alert_deleted() -> Seq<char> {
    seq!['A', 'L', 'E', 'R', 'T', 'D', 'E', 'L', 'E', 'T', 'E', 'D']
}

pub open spec fn cmd_bought() -> Seq<char> {
    seq!['B', 'O', 'U', 'G', 'H', 'T']
}

pub open spec fn cmd_sold() -> Seq<char> {
    seq!['S', 'O', 'L', 'D']
}

pub open spec fn cmd_err() -> Seq<char> {
    seq!['E', 'R', 'R']
}

/// The tokens of a client message's line.
pub open spec fn client_tokens(m: ClientMsgView) -> Seq<Seq<char>> {
    match m {
        ClientMsgView::AddAlert { symbol, direction, threshold } => seq![
            cmd_add(),
            symbol,
            direction_token(direction),
            fixed_text(threshold.micros as int),
        ],
        ClientMsgView::RemoveAlert { symbol, direction } => seq![
            cmd_del(),
            symbol,
            direction_token(direction),
        ],
        ClientMsgView::LoginClient { username, password } => seq![cmd_login(), username, password],
        ClientMsgView::RegisterClient { username, password } => seq![
            cmd_register(),
            username,
            password,
        ],
        ClientMsgView::CheckPrice { symbol } => seq![cmd_price(), symbol],
        ClientMsgView::BuyStock { symbol, quantity } => seq![
            cmd_buy(),
            symbol,
            int_text(quantity as int),
        ],
        ClientMsgView::SellStock { symbol, quantity } => seq![
            cmd_sell(),
            symbol,
            int_text(quantity as int),
        ],
        ClientMsgView::GetAllClientData => seq![cmd_data()],
    }
}

/// The line that encodes a client message.
pub open spec fn client_wire(m: ClientMsgView) -> Seq<char> {
    line_of(client_tokens(m))
}

/// The client message that a token list spells, if any.
pub open spec fn parse_client_tokens(ts: Seq<Seq<char>>) -> Option<ClientMsgView> {
    if ts.len() == 0 {
        None
    } else if ts[0] == cmd_add() && ts.len() == 4 {
        match (direction_of(ts[2]), parse_fixed_i64(ts[3])) {
            (Some(d), Some(v)) => Some(
                ClientMsgView::AddAlert { symbol: ts[1], direction: d, threshold: Price { micros: v } },
            ),
            _ => None,
        }
    } else if ts[0] == cmd_del() && ts.len() == 3 {
        match direction_of(ts[2]) {
            Some(d) => Some(ClientMsgView::RemoveAlert { symbol: ts[1], direction: d }),
            None => None,
        }
    } else if ts[0] == cmd_login() && ts.len() == 3 {
        Some(ClientMsgView::LoginClient { username: ts[1], password: ts[2] })
    } else if ts[0] == cmd_register() && ts.len() == 3 {
        Some(ClientMsgView::RegisterClient { username: ts[1], password: ts[2] })
    } else if ts[0] == cmd_price() && ts.len() == 2 {
        Some(ClientMsgView::CheckPrice { symbol: ts[1] })
    } else if ts[0] == cmd_buy() && ts.len() == 3 {
        match parse_i32_spec(ts[2]) {
            Some(q) => Some(ClientMsgView::BuyStock { symbol: ts[1], quantity: q }),
            None => None,
        }
    } else if ts[0] == cmd_sell() && ts.len() == 3 {
        match parse_i32_spec(ts[2]) {
            Some(q) => Some(ClientMsgView::SellStock { symbol: ts[1], quantity: q }),
            None => None,
        }
    } else if ts[0] == cmd_data() && ts.len() == 1 {
        Some(ClientMsgView::GetAllClientData)
    } else {
        None
    }
}

/// The client message that a line holds, if any.
pub open spec fn parse_client_spec(line: Seq<char>) -> Option<ClientMsgView> {
    parse_client_tokens(tokens(line))
}

/// The tokens of a server message's line; an error's tokens are `ERR` and
/// the words of its text.
pub open spec fn server_tokens(m: ServerMsgView) -> Seq<Seq<char>> {
    match m {
        ServerMsgView::AlertTriggered { symbol, direction, threshold, current_price } => seq![
            cmd_trigger(),
            symbol,
            direction_token(direction),
            fixed_text(threshold.micros as int),
            fixed_text(current_price.micros as int),
        ],
        ServerMsgView::AlertAdded { symbol, direction, threshold } => seq![
            cmd_alert_added(),
            symbol,
            direction_token(direction),
            fixed_text(threshold.micros as int),
        ],
        ServerMsgView::AlertRemoved { symbol, direction } => seq![
            cmd_alert_deleted(),
            symbol,
            direction_token(direction),
        ],
        ServerMsgView::PriceChecked { symbol, price } => seq![
            cmd_price(),
            symbol,
            fixed_text(price.micros as int),
        ],
        ServerMsgView::StockBought { symbol, quantity } => seq![
            cmd_bought(),
            symbol,
            int_text(quantity as int),
        ],
        ServerMsgView::StockSold { symbol, quantity } => seq![
            cmd_sold(),
            symbol,
            int_text(quantity as int),
        ],
        ServerMsgView::AllClientData { json } => seq![cmd_data(), json],
        ServerMsgView::UserLogged => seq![cmd_login()],
        ServerMsgView::UserRegistered => seq![cmd_register()],
        ServerMsgView::Error(text) => seq![cmd_err()] + tokens(text),
    }
}

/// The line that encodes a server message.
/// An error is `ERR`, a space and its text as it is; every other message
/// is its tokens joined by single spaces.
pub open spec fn server_wire(m: ServerMsgView) -> Seq<char> {
    match m {
        ServerMsgView::Error(text) => cmd_err() + seq![' '] + text + seq!['\n'],
        _ => line_of(server_tokens(m)),
    }
}

/// The server message that a token list spells, if any.
pub open spec fn parse_server_tokens(ts: Seq<Seq<char>>) -> Option<ServerMsgView> {
    if ts.len() == 0 {
        None
    } else if ts[0] == cmd_trigger() && ts.len() == 5 {
        match (direction_of(ts[2]), parse_fixed_i64(ts[3]), parse_fixed_i64(ts[4])) {
            (Some(d), Some(t), Some(c)) => Some(
                ServerMsgView::AlertTriggered {
                    symbol: ts[1],
                    direction: d,
                    threshold: Price { micros: t },
                    current_price: Price { micros: c },
                },
            ),
            _ => None,
        }
    } else if ts[0] == cmd_alert_added() && ts.len() == 4 {
        match (direction_of(ts[2]), parse_fixed_i64(ts[3])) {
            (Some(d), Some(t)) => Some(
                ServerMsgView::AlertAdded { symbol: ts[1], direction: d, threshold: Price { micros: t } },
            ),
            _ => None,
        }
    } else if ts[0] == cmd_alert_deleted() && ts.len() == 3 {
        match direction_of(ts[2]) {
            Some(d) => Some(ServerMsgView::AlertRemoved { symbol: ts[1], direction: d }),
            None => None,
        }
    } else if ts[0] == cmd_price() && ts.len() == 3 {
        match parse_fixed_i64(ts[2]) {
            Some(p) => Some(ServerMsgView::PriceChecked { symbol: ts[1], price: Price { micros: p } }),
            None => None,
        }
    } else if ts[0] == cmd_bought() && ts.len() == 3 {
        match parse_i32_spec(ts[2]) {
            Some(q) => Some(ServerMsgView::StockBought { symbol: ts[1], quantity: q }),
            None => None,
        }
    } else if ts[0] == cmd_sold() && ts.len() == 3 {
        match parse_i32_spec(ts[2]) {
            Some(q) => Some(ServerMsgView::StockSold { symbol: ts[1], quantity: q }),
            None => None,
        }
    } else if ts[0] == cmd_data() && ts.len() == 2 && json_valid_of(ts[1]) {
        Some(ServerMsgView::AllClientData { json: ts[1] })
    } else if ts[0] == cmd_login() && ts.len() == 1 {
        Some(ServerMsgView::UserLogged)
    } else if ts[0] == cmd_register() && ts.len() == 1 {
        Some(ServerMsgView::UserRegistered)
    } else if ts[0] == cmd_err() {
        Some(ServerMsgView::Error(join(ts.drop_first())))
    } else {
        None
    }
}

/// The server message that a line holds, if any.
pub open spec fn parse_server_spec(line: Seq<char>) -> Option<ServerMsgView> {
    parse_server_tokens(tokens(line))
}

/// The text of an amount of millionths, as its own string.
fn fixed_string(v: i64) -> (r: String)
    ensures
        r@ == fixed_text(v as int),
{
    let mut out = String::new();
    push_fixed(&mut out, v);
    out
}

/// The decimal text of an integer, as its own string.
fn int_string(v: i32) -> (r: String)
    ensures
        r@ == int_text(v as int),
{
    let mut out = String::new();
    push_int(&mut out, v as i64);
    out
}

proof fn lemma_command_words()
    ensures
        cmd_buy() != cmd_del(),
        direction_token(AlertDirection::Above) != direction_token(AlertDirection::Below),
        is_token(cmd_add()),
        is_token(cmd_del()),
        is_token(cmd_login()),
        is_token(cmd_register()),
        is_token(cmd_price()),
        is_token(cmd_buy()),
        is_token(cmd_sell()),
        is_token(cmd_data()),
        is_token(cmd_trigger()),
        is_token(cmd_alert_added()),
        is_token(cmd_alert_deleted()),
        is_token(cmd_bought()),
        is_token(cmd_sold()),
        is_token(cmd_err()),
        is_token(direction_token(AlertDirection::Above)),
        is_token(direction_token(AlertDirection::Below)),
{
    assert(cmd_buy()[0] != cmd_del()[0]);
    assert(direction_token(AlertDirection::Above)[0] != direction_token(AlertDirection::Below)[0]);
}

impl ClientMsg {
    /// The message as one protocol line, newline included.
    pub fn to_wire(&self) -> (r: String)
        ensures
            r@ == client_wire(self@),
    {
        let mut v: Vec<String> = Vec::new();
        match self {
            ClientMsg::AddAlert(a) => {
                proof {
                    reveal_strlit("ADD");
                }
                assert("ADD"@ =~= cmd_add());
                v.push("ADD".to_owned());
                v.push(a.symbol.clone());
                v.push(a.direction.as_str().to_owned());
                v.push(fixed_string(a.threshold.micros));
            },
            ClientMsg::RemoveAlert { symbol, direction } => {
                proof {
                    reveal_strlit("DEL");
                }
                assert("DEL"@ =~= cmd_del());
                v.push("DEL".to_owned());
                v.push(symbol.clone());
                v.push(direction.as_str().to_owned());
            },
            ClientMsg::LoginClient { username, password } => {
                proof {
                    reveal_strlit("LOGIN");
                }
                assert("LOGIN"@ =~= cmd_login());
                v.push("LOGIN".to_owned());
                v.push(username.clone());
                v.push(password.clone());
            },
            ClientMsg::RegisterClient { username, password } => {
                proof {
                    reveal_strlit("REGISTER");
                }
                assert("REGISTER"@ =~= cmd_register());
                v.push("REGISTER".to_owned());
                v.push(username.clone());
                v.push(password.clone());
            },
            ClientMsg::CheckPrice { symbol } => {
                proof {
                    reveal_strlit("PRICE");
                }
                assert("PRICE"@ =~= cmd_price());
                v.push("PRICE".to_owned());
                v.push(symbol.clone());
            },
            ClientMsg::BuyStock { symbol, quantity } => {
                proof {
                    reveal_strlit("BUY");
                }
                assert("BUY"@ =~= cmd_buy());
                v.push("BUY".to_owned());
                v.push(symbol.clone());
                v.push(int_string(*quantity));
            },
            ClientMsg::SellStock { symbol, quantity } => {
                proof {
                    reveal_strlit("SELL");
                }
                assert("SELL"@ =~= cmd_sell());
                v.push("SELL".to_owned());
                v.push(symbol.clone());
                v.push(int_string(*quantity));
            },
            ClientMsg::GetAllClientData => {
                proof {
                    reveal_strlit("DATA");
                }
                assert("DATA"@ =~= cmd_data());
                v.push("DATA".to_owned());
            },
        }
        assert(views(v@) =~= client_tokens(self@));
        join_line(&v)
    }
}

impl ServerMsg {
    /// The message as one protocol line, newline included.
    pub fn to_wire(&self) -> (r: String)
        ensures
            r@ == server_wire(self@),
    {
        let mut v: Vec<String> = Vec::new();
        match self {
            ServerMsg::AlertTriggered { symbol, direction, threshold, current_price } => {
                proof {
                    reveal_strlit("TRIGGER");
                }
                assert("TRIGGER"@ =~= cmd_trigger());
                v.push("TRIGGER".to_owned());
                v.push(symbol.clone());
                v.push(direction.as_str().to_owned());
                v.push(fixed_string(threshold.micros));
                v.push(fixed_string(current_price.micros));
            },
            ServerMsg::AlertAdded { symbol, direction, threshold } => {
                proof {
                    reveal_strlit("ALERTADDED");
                }
                assert("ALERTADDED"@ =~= cmd_alert_added());
                v.push("ALERTADDED".to_owned());
                v.push(symbol.clone());
                v.push(direction.as_str().to_owned());
                v.push(fixed_string(threshold.micros));
            },
            ServerMsg::AlertRemoved { symbol, direction } => {
                proof {
                    reveal_strlit("ALERTDELETED");
                }
                assert("ALERTDELETED"@ =~= cmd_alert_deleted());
                v.push("ALERTDELETED".to_owned());
                v.push(symbol.clone());
                v.push(direction.as_str().to_owned());
            },
            ServerMsg::PriceChecked { symbol, price } => {
                proof {
                    reveal_strlit("PRICE");
                }
                assert("PRICE"@ =~= cmd_price());
                v.push("PRICE".to_owned());
                v.push(symbol.clone());
                v.push(fixed_string(price.micros));
            },
            ServerMsg::StockBought { symbol, quantity } => {
                proof {
                    reveal_strlit("BOUGHT");
                }
                assert("BOUGHT"@ =~= cmd_bought());
                v.push("BOUGHT".to_owned());
                v.push(symbol.clone());
                v.push(int_string(*quantity));
            },
            ServerMsg::StockSold { symbol, quantity } => {
                proof {
                    reveal_strlit("SOLD");
                }
                assert("SOLD"@ =~= cmd_sold());
                v.push("SOLD".to_owned());
                v.push(symbol.clone());
                v.push(int_string(*quantity));
            },
            ServerMsg::AllClientData { json } => {
                proof {
                    reveal_strlit("DATA");
                }
                assert("DATA"@ =~= cmd_data());
                v.push("DATA".to_owned());
                v.push(json.clone());
            },
            ServerMsg::UserLogged => {
                proof {
                    reveal_strlit("LOGIN");
                }
                assert("LOGIN"@ =~= cmd_login());
                v.push("LOGIN".to_owned());
            },
            ServerMsg::UserRegistered => {
                proof {
                    reveal_strlit("REGISTER");
                }
                assert("REGISTER"@ =~= cmd_register());
                v.push("REGISTER".to_owned());
            },
            ServerMsg::Error(text) => {
                return wire_error(text.as_str());
            },
        }
        assert(views(v@) =~= server_tokens(self@));
        join_line(&v)
    }
}

/// The `ERR` line that carries `msg`: `ERR`, a space, the text as it is.
pub fn wire_error(msg: &str) -> (r: String)
    ensures
        r@ == server_wire(ServerMsgView::Error(msg@)),
{
    proof {
        reveal_strlit("ERR ");
        reveal_strlit("\n");
    }
    assert("ERR "@ =~= cmd_err() + seq![' ']);
    assert("\n"@ =~= seq!['\n']);
    let mut out = "ERR ".to_owned();
    out.append(msg);
    out.append("\n");
    out
}

proof fn lemma_reveal_words()
    ensures
        "ADD"@ == cmd_add(),
        "DEL"@ == cmd_del(),
        "LOGIN"@ == cmd_login(),
        "REGISTER"@ == cmd_register(),
        "PRICE"@ == cmd_price(),
        "BUY"@ == cmd_buy(),
        "SELL"@ == cmd_sell(),
        "DATA"@ == cmd_data(),
        "TRIGGER"@ == cmd_trigger(),
        "ALERTADDED"@ == cmd_alert_added(),
        "ALERTDELETED"@ == cmd_alert_deleted(),
        "BOUGHT"@ == cmd_bought(),
        "SOLD"@ == cmd_sold(),
        "ERR"@ == cmd_err(),
{
    reveal_strlit("ADD");
    reveal_strlit("DEL");
    reveal_strlit("LOGIN");
    reveal_strlit("REGISTER");
    reveal_strlit("PRICE");
    reveal_strlit("BUY");
    reveal_strlit("SELL");
    reveal_strlit("DATA");
    reveal_strlit("TRIGGER");
    reveal_strlit("ALERTADDED");
    reveal_strlit("ALERTDELETED");
    reveal_strlit("BOUGHT");
    reveal_strlit("SOLD");
    reveal_strlit("ERR");
    assert("ADD"@ =~= cmd_add());
    assert("DEL"@ =~= cmd_del());
    assert("LOGIN"@ =~= cmd_login());
    assert("REGISTER"@ =~= cmd_register());
    assert("PRICE"@ =~= cmd_price());
    assert("BUY"@ =~= cmd_buy());
    assert("SELL"@ =~= cmd_sell());
    assert("DATA"@ =~= cmd_data());
    assert("TRIGGER"@ =~= cmd_trigger());
    assert("ALERTADDED"@ =~= cmd_alert_added());
    assert("ALERTDELETED"@ =~= cmd_alert_deleted());
    assert("BOUGHT"@ =~= cmd_bought());
    assert("SOLD"@ =~= cmd_sold());
    assert("ERR"@ =~= cmd_err());
}

/// Decodes one line sent by a client; `None` for an unknown command, a
/// wrong number of fields or a malformed field.
pub fn parse_client_msg(line: &str) -> (r: Option<ClientMsg>)
    ensures
        match r {
            Some(m) => parse_client_spec(line@) == Some(m@),
            None => parse_client_spec(line@) is None,
        },
{
    let ts = split_tokens(line);
    let ghost tv = views(ts@);
    let n = ts.len();
    if n == 0 {
        return None;
    }
    proof {
        lemma_reveal_words();
    }
    assert(tv[0] == ts@[0]@);
    let c = ts[0].as_str();
    if text_is(c, "ADD") && n == 4 {
        assert(tv[2] == ts@[2]@ && tv[3] == ts@[3]@ && tv[1] == ts@[1]@);
        match (AlertDirection::from_str(ts[2].as_str()), parse_fixed_exec(ts[3].as_str())) {
            (Some(d), Some(v)) => Some(
                ClientMsg::AddAlert(
                    AlertRequest { symbol: ts[1].clone(), direction: d, threshold: Price { micros: v } },
                ),
            ),
            _ => None,
        }
    } else if text_is(c, "DEL") && n == 3 {
        assert(tv[2] == ts@[2]@ && tv[1] == ts@[1]@);
        match AlertDirection::from_str(ts[2].as_str()) {
            Some(d) => Some(ClientMsg::RemoveAlert { symbol: ts[1].clone(), direction: d }),
            None => None,
        }
    } else if text_is(c, "LOGIN") && n == 3 {
        assert(tv[2] == ts@[2]@ && tv[1] == ts@[1]@);
        Some(ClientMsg::LoginClient { username: ts[1].clone(), password: ts[2].clone() })
    } else if text_is(c, "REGISTER") && n == 3 {
        assert(tv[2] == ts@[2]@ && tv[1] == ts@[1]@);
        Some(ClientMsg::RegisterClient { username: ts[1].clone(), password: ts[2].clone() })
    } else if text_is(c, "PRICE") && n == 2 {
        assert(tv[1] == ts@[1]@);
        Some(ClientMsg::CheckPrice { symbol: ts[1].clone() })
    } else if text_is(c, "BUY") && n == 3 {
        assert(tv[2] == ts@[2]@ && tv[1] == ts@[1]@);
        match parse_i32(ts[2].as_str()) {
            Some(q) => Some(ClientMsg::BuyStock { symbol: ts[1].clone(), quantity: q }),
            None => None,
        }
    } else if text_is(c, "SELL") && n == 3 {
        assert(tv[2] == ts@[2]@ && tv[1] == ts@[1]@);
        match parse_i32(ts[2].as_str()) {
            Some(q) => Some(ClientMsg::SellStock { symbol: ts[1].clone(), quantity: q }),
            None => None,
        }
    } else if text_is(c, "DATA") && n == 1 {
        Some(ClientMsg::GetAllClientData)
    } else {
        None
    }
}

/// Decodes one line sent by the server; `None` for an unknown command, a
/// wrong number of fields or a malformed field, a `DATA` payload that is not
/// JSON included.
pub fn parse_server_msg(line: &str) -> (r: Option<ServerMsg>)
    ensures
        match r {
            Some(m) => parse_server_spec(line@) == Some(m@),
            None => parse_server_spec(line@) is None,
        },
{
    let ts = split_tokens(line);
    let ghost tv = views(ts@);
    let n = ts.len();
    if n == 0 {
        return None;
    }
    proof {
        lemma_reveal_words();
    }
    assert(tv[0] == ts@[0]@);
    let c = ts[0].as_str();
    if text_is(c, "TRIGGER") && n == 5 {
        assert(tv[1] == ts@[1]@ && tv[2] == ts@[2]@ && tv[3] == ts@[3]@ && tv[4] == ts@[4]@);
        match (
            AlertDirection::from_str(ts[2].as_str()),
            parse_fixed_exec(ts[3].as_str()),
            parse_fixed_exec(ts[4].as_str()),
        ) {
            (Some(d), Some(t), Some(p)) => Some(
                ServerMsg::AlertTriggered {
                    symbol: ts[1].clone(),
                    direction: d,
                    threshold: Price { micros: t },
                    current_price: Price { micros: p },
                },
            ),
            _ => None,
        }
    } else if text_is(c, "ALERTADDED") && n == 4 {
        assert(tv[1] == ts@[1]@ && tv[2] == ts@[2]@ && tv[3] == ts@[3]@);
        match (AlertDirection::from_str(ts[2].as_str()), parse_fixed_exec(ts[3].as_str())) {
            (Some(d), Some(t)) => Some(
                ServerMsg::AlertAdded {
                    symbol: ts[1].clone(),
                    direction: d,
                    threshold: Price { micros: t },
                },
            ),
            _ => None,
        }
    } else if text_is(c, "ALERTDELETED") && n == 3 {
        assert(tv[1] == ts@[1]@ && tv[2] == ts@[2]@);
        match AlertDirection::from_str(ts[2].as_str()) {
            Some(d) => Some(ServerMsg::AlertRemoved { symbol: ts[1].clone(), direction: d }),
            None => None,
        }
    } else if text_is(c, "PRICE") && n == 3 {
        assert(tv[1] == ts@[1]@ && tv[2] == ts@[2]@);
        match parse_fixed_exec(ts[2].as_str()) {
            Some(p) => Some(ServerMsg::PriceChecked { symbol: ts[1].clone(), price: Price { micros: p } }),
            None => None,
        }
    } else if text_is(c, "BOUGHT") && n == 3 {
        assert(tv[1] == ts@[1]@ && tv[2] == ts@[2]@);
        match parse_i32(ts[2].as_str()) {
            Some(q) => Some(ServerMsg::StockBought { symbol: ts[1].clone(), quantity: q }),
            None => None,
        }
    } else if text_is(c, "SOLD") && n == 3 {
        assert(tv[1] == ts@[1]@ && tv[2] == ts@[2]@);
        match parse_i32(ts[2].as_str()) {
            Some(q) => Some(ServerMsg::StockSold { symbol: ts[1].clone(), quantity: q }),
            None => None,
        }
    } else if text_is(c, "DATA") && n == 2 && json_valid(ts[1].as_str()) {
        assert(tv[1] == ts@[1]@);
        Some(ServerMsg::AllClientData { json: ts[1].clone() })
    } else if text_is(c, "LOGIN") && n == 1 {
        Some(ServerMsg::UserLogged)
    } else if text_is(c, "REGISTER") && n == 1 {
        Some(ServerMsg::UserRegistered)
    } else if text_is(c, "ERR") {
        let text = join_from(&ts, 1);
        assert(tv.skip(1) =~= tv.drop_first());
        Some(ServerMsg::Error(text))
    } else {
        None
    }
}

/// A client message whose text fields are single tokens.
pub open spec fn client_well_formed(m: ClientMsgView) -> bool {
    match m {
        ClientMsgView::AddAlert { symbol, .. } => is_token(symbol),
        ClientMsgView::RemoveAlert { symbol, .. } => is_token(symbol),
        ClientMsgView::LoginClient { username, password } => is_token(username) && is_token(password),
        ClientMsgView::RegisterClient { username, password } => is_token(username) && is_token(
            password,
        ),
        ClientMsgView::CheckPrice { symbol } => is_token(symbol),
        ClientMsgView::BuyStock { symbol, .. } => is_token(symbol),
        ClientMsgView::SellStock { symbol, .. } => is_token(symbol),
        ClientMsgView::GetAllClientData => true,
    }
}

/// A server message whose text fields are single tokens, whose data payload
/// is well-formed JSON, and whose error text has its words separated by
/// single spaces.
pub open spec fn server_well_formed(m: ServerMsgView) -> bool {
    match m {
        ServerMsgView::AlertTriggered { symbol, .. } => is_token(symbol),
        ServerMsgView::AlertAdded { symbol, .. } => is_token(symbol),
        ServerMsgView::AlertRemoved { symbol, .. } => is_token(symbol),
        ServerMsgView::PriceChecked { symbol, .. } => is_token(symbol),
        ServerMsgView::StockBought { symbol, .. } => is_token(symbol),
        ServerMsgView::StockSold { symbol, .. } => is_token(symbol),
        ServerMsgView::AllClientData { json } => is_token(json) && json_valid_of(json),
        ServerMsgView::UserLogged => true,
        ServerMsgView::UserRegistered => true,
        ServerMsgView::Error(text) => text == join(tokens(text)),
    }
}

proof fn lemma_fields(p: Price, q: i32)
    ensures
        parse_fixed_i64(fixed_text(p.micros as int)) == Some(p.micros),
        is_token(fixed_text(p.micros as int)),
        parse_i32_spec(int_text(q as int)) == Some(q),
        is_token(int_text(q as int)),
        direction_of(direction_token(AlertDirection::Above)) == Some(AlertDirection::Above),
        direction_of(direction_token(AlertDirection::Below)) == Some(AlertDirection::Below),
{
    lemma_fixed_text(p.micros as int);
    lemma_int_text(q as int);
    lemma_command_words();
}

/// Decoding the line that encodes a client message gives the message back.
pub proof fn lemma_client_round_trip(m: ClientMsgView)
    requires
        client_well_formed(m),
    ensures
        parse_client_spec(client_wire(m)) == Some(m),
{
    lemma_command_words();
    let ts = client_tokens(m);
    match m {
        ClientMsgView::AddAlert { symbol, direction, threshold } => {
            lemma_fields(threshold, 0);
        },
        ClientMsgView::BuyStock { quantity, .. } => {
            lemma_fields(Price { micros: 0 }, quantity);
        },
        ClientMsgView::SellStock { quantity, .. } => {
            lemma_fields(Price { micros: 0 }, quantity);
        },
        _ => {
            lemma_fields(Price { micros: 0 }, 0);
        },
    }
    assert(all_tokens(ts));
    lemma_tokens_of_line(ts);
}

/// Decoding the line that encodes a server message gives the message back.
pub proof fn lemma_server_round_trip(m: ServerMsgView)
    requires
        server_well_formed(m),
    ensures
        parse_server_spec(server_wire(m)) == Some(m),
{
    lemma_command_words();
    let ts = server_tokens(m);
    match m {
        ServerMsgView::AlertTriggered { threshold, current_price, .. } => {
            lemma_fields(threshold, 0);
            lemma_fields(current_price, 0);
        },
        ServerMsgView::AlertAdded { threshold, .. } => {
            lemma_fields(threshold, 0);
        },
        ServerMsgView::PriceChecked { price, .. } => {
            lemma_fields(price, 0);
        },
        ServerMsgView::StockBought { quantity, .. } => {
            lemma_fields(Price { micros: 0 }, quantity);
        },
        ServerMsgView::StockSold { quantity, .. } => {
            lemma_fields(Price { micros: 0 }, quantity);
        },
        ServerMsgView::Error(text) => {
            lemma_tokens_are_tokens(text);
            assert(ts.drop_first() =~= tokens(text));
            assert forall|i: int| 0 <= i < ts.len() implies is_token(#[trigger] ts[i]) by {
                if i > 0 {
                    assert(ts[i] == tokens(text)[i - 1]);
                }
            }
        },
        _ => {
            lemma_fields(Price { micros: 0 }, 0);
        },
    }
    assert(all_tokens(ts));
    lemma_tokens_of_line(ts);
    match m {
        ServerMsgView::Error(text) => {
            let words = tokens(text);
            let line = server_wire(m);
            if words.len() > 0 {
                assert(ts.drop_first() =~= words);
                assert(join(ts) == cmd_err() + seq![' '] + join(words));
                assert(line =~= line_of(ts));
            } else {
                let tail = seq![' ', '\n'];
                assert(text == Seq::<char>::empty());
                assert(line =~= cmd_err() + tail);
                assert(no_space(cmd_err()));
                lemma_split_word(cmd_err(), tail, seq![]);
                assert(Seq::<char>::empty() + cmd_err() =~= cmd_err());
                assert(tail.drop_first() =~= seq!['\n']);
                assert(seq!['\n'].drop_first() =~= Seq::<char>::empty());
                assert(split_from(seq!['\n'], seq![]) == split_from(Seq::<char>::empty(), seq![]));
                assert(split_from(Seq::<char>::empty(), Seq::<char>::empty()) == Seq::<Seq<char>>::empty());
                assert(tokens(line) =~= seq![cmd_err()]);
                assert(seq![cmd_err()].drop_first() =~= Seq::<Seq<char>>::empty());
            }
        },
        _ => {},
    }
}

} // verus!
