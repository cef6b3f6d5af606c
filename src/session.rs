//! The per-connection state machine: authentication gating and command
//! dispatch.  The connection task performs each action against the store
//! and hands the outcome back.
use vstd::prelude::*;

use crate::alerts::{fires, AlertView, StoredAlert};
use crate::cache::PriceCache;
use crate::error::ServiceError;
use crate::protocol::{
    parse_client_msg, parse_client_spec, AlertDirection, AlertRequest, ClientMsg, ClientMsgView,
    Price, ServerMsg, ServerMsgView,
};

verus! {

/// What a session does next for one client command.
pub enum Action {
    /// Send this message.
    Reply(ServerMsg),
    /// Send `ERR` with this reason.
    Fail(ServiceError),
    /// Create a user; the session stays logged out.
    Register { username: String, password: String },
    /// Check the credentials; on success the session logs in.
    Login { username: String, password: String },
    /// Store the alert; `current` is the cached price for the instant check.
    AddAlert { user_id: i64, alert: StoredAlert, current: Price },
    RemoveAlert { user_id: i64, symbol: String, direction: AlertDirection },
    Buy { user_id: i64, symbol: String, quantity: i32, price: Price },
    Sell { user_id: i64, symbol: String, quantity: i32, price: Price },
    /// Send the user's positions and alerts.
    SendData { user_id: i64 },
}

pub enum ActionView {
    Reply(ServerMsgView),
    Fail(ServiceError),
    Register { username: Seq<char>, password: Seq<char> },
    Login { username: Seq<char>, password: Seq<char> },
    AddAlert { user_id: i64, alert: AlertView, current: Price },
    RemoveAlert { user_id: i64, symbol: Seq<char>, direction: AlertDirection },
    Buy { user_id: i64, symbol: Seq<char>, quantity: i32, price: Price },
    Sell { user_id: i64, symbol: Seq<char>, quantity: i32, price: Price },
    SendData { user_id: i64 },
}

impl View for Action {
    type V = ActionView;

    open spec fn view(&self) -> ActionView {
        match self {
            Action::Reply(m) => ActionView::Reply(m@),
            Action::Fail(e) => ActionView::Fail(*e),
            Action::Register { username, password } => ActionView::Register {
                username: username@,
                password: password@,
            },
            Action::Login { username, password } => ActionView::Login {
                username: username@,
                password: password@,
            },
            Action::AddAlert { user_id, alert, current } => ActionView::AddAlert {
                user_id: *user_id,
                alert: alert@,
                current: *current,
            },
            Action::RemoveAlert { user_id, symbol, direction } => ActionView::RemoveAlert {
                user_id: *user_id,
                symbol: symbol@,
                direction: *direction,
            },
            Action::Buy { user_id, symbol, quantity, price } => ActionView::Buy {
                user_id: *user_id,
                symbol: symbol@,
                quantity: *quantity,
                price: *price,
            },
            Action::Sell { user_id, symbol, quantity, price } => ActionView::Sell {
                user_id: *user_id,
                symbol: symbol@,
                quantity: *quantity,
                price: *price,
            },
            Action::SendData { user_id } => ActionView::SendData { user_id: *user_id },
        }
    }
}

/// What a session with `user` logged in (or none) does for message `m`,
/// given the cached prices.
pub open spec fn decide(user: Option<i64>, m: ClientMsgView, prices: Map<Seq<char>, Price>) -> ActionView {
    match user {
        None => match m {
            ClientMsgView::LoginClient { username, password } => ActionView::Login { username, password },
            ClientMsgView::RegisterClient { username, password } => ActionView::Register {
                username,
                password,
            },
            _ => ActionView::Fail(ServiceError::NotLoggedIn),
        },
        Some(id) => match m {
            ClientMsgView::LoginClient { .. } => ActionView::Fail(ServiceError::AlreadyLoggedIn),
            ClientMsgView::RegisterClient { .. } => ActionView::Fail(ServiceError::AlreadyLoggedIn),
            ClientMsgView::AddAlert { symbol, direction, threshold } => if prices.contains_key(symbol) {
                ActionView::AddAlert {
                    user_id: id,
                    alert: AlertView { symbol, direction, threshold },
                    current: prices[symbol],
                }
            } else {
                ActionView::Fail(ServiceError::SymbolUnavailable)
            },
            ClientMsgView::RemoveAlert { symbol, direction } => ActionView::RemoveAlert {
                user_id: id,
                symbol,
                direction,
            },
            ClientMsgView::CheckPrice { symbol } => if prices.contains_key(symbol) {
                ActionView::Reply(ServerMsgView::PriceChecked { symbol, price: prices[symbol] })
            } else {
                ActionView::Fail(ServiceError::SymbolUnavailable)
            },
            ClientMsgView::BuyStock { symbol, quantity } => if prices.contains_key(symbol) {
                ActionView::Buy { user_id: id, symbol, quantity, price: prices[symbol] }
            } else {
                ActionView::Fail(ServiceError::SymbolUnavailable)
            },
            ClientMsgView::SellStock { symbol, quantity } => if prices.contains_key(symbol) {
                ActionView::Sell { user_id: id, symbol, quantity, price: prices[symbol] }
            } else {
                ActionView::Fail(ServiceError::SymbolUnavailable)
            },
            ClientMsgView::GetAllClientData => ActionView::SendData { user_id: id },
        },
    }
}

/// One client connection's state: the logged-in user, if any.
pub struct Session {
    pub user_id: Option<i64>,
}

impl Session {
    /// A fresh connection: nobody is logged in.
    pub fn new() -> (r: Session)
        ensures
            r.user_id is None,
    {
        Session { user_id: None }
    }

    /// The action for one decoded client message.
    pub fn handle(&self, msg: ClientMsg, cache: &PriceCache) -> (r: Action)
        requires
            cache.wf(),
        ensures
            r@ == decide(self.user_id, msg@, cache.view()),
    {
        match self.user_id {
            None => match msg {
                ClientMsg::LoginClient { username, password } => Action::Login { username, password },
                ClientMsg::RegisterClient { username, password } => Action::Register { username, password },
                _ => Action::Fail(ServiceError::NotLoggedIn),
            },
            Some(id) => match msg {
                ClientMsg::LoginClient { .. } => Action::Fail(ServiceError::AlreadyLoggedIn),
                ClientMsg::RegisterClient { .. } => Action::Fail(ServiceError::AlreadyLoggedIn),
                ClientMsg::AddAlert(AlertRequest { symbol, direction, threshold }) => {
                    match cache.get(symbol.as_str()) {
                        Some(p) => Action::AddAlert {
                            user_id: id,
                            alert: StoredAlert { symbol, direction, threshold },
                            current: p,
                        },
                        None => Action::Fail(ServiceError::SymbolUnavailable),
                    }
                },
                ClientMsg::RemoveAlert { symbol, direction } => Action::RemoveAlert {
                    user_id: id,
                    symbol,
                    direction,
                },
                ClientMsg::CheckPrice { symbol } => match cache.get(symbol.as_str()) {
                    Some(p) => Action::Reply(ServerMsg::PriceChecked { symbol, price: p }),
                    None => Action::Fail(ServiceError::SymbolUnavailable),
                },
                ClientMsg::BuyStock { symbol, quantity } => match cache.get(symbol.as_str()) {
                    Some(p) => Action::Buy { user_id: id, symbol, quantity, price: p },
                    None => Action::Fail(ServiceError::SymbolUnavailable),
                },
                ClientMsg::SellStock { symbol, quantity } => match cache.get(symbol.as_str()) {
                    Some(p) => Action::Sell { user_id: id, symbol, quantity, price: p },
                    None => Action::Fail(ServiceError::SymbolUnavailable),
                },
                ClientMsg::GetAllClientData => Action::SendData { user_id: id },
            },
        }
    }

    /// The action for one line from the client; a line that does not decode
    /// is refused and the session goes on.
    pub fn handle_line(&self, line: &str, cache: &PriceCache) -> (r: Action)
        requires
            cache.wf(),
        ensures
            match parse_client_spec(line@) {
                Some(m) => r@ == decide(self.user_id, m, cache.view()),
                None => r@ == ActionView::Fail(ServiceError::Malformed),
            },
    {
        match parse_client_msg(line) {
            Some(m) => self.handle(m, cache),
            None => Action::Fail(ServiceError::Malformed),
        }
    }

    /// Applies the outcome of a login: on success the session is logged in.
    pub fn login_finished(&mut self, outcome: Result<i64, ServiceError>) -> (r: Result<ServerMsg, ServiceError>)
        ensures
            match outcome {
                Ok(id) => final(self).user_id == Some(id) && (r matches Ok(m) && m@ == ServerMsgView::UserLogged),
                Err(e) => final(self).user_id == old(self).user_id && r == Err::<ServerMsg, ServiceError>(e),
            },
    {
        match outcome {
            Ok(id) => {
                self.user_id = Some(id);
                Ok(ServerMsg::UserLogged)
            },
            Err(e) => Err(e),
        }
    }
}

/// The reply to a registration; registering does not log in.
pub fn register_finished(outcome: Result<(), ServiceError>) -> (r: Result<ServerMsg, ServiceError>)
    ensures
        match outcome {
            Ok(()) => r matches Ok(m) && m@ == ServerMsgView::UserRegistered,
            Err(e) => r == Err::<ServerMsg, ServiceError>(e),
        },
{
    match outcome {
        Ok(()) => Ok(ServerMsg::UserRegistered),
        Err(e) => Err(e),
    }
}

/// The reply to a removal: `ALERTDELETED` for the symbol and direction.
pub fn alert_removed(symbol: String, direction: AlertDirection, outcome: Result<(), ServiceError>) -> (r:
    Result<ServerMsg, ServiceError>)
    ensures
        match outcome {
            Ok(()) => r matches Ok(m) && m@ == (ServerMsgView::AlertRemoved { symbol: symbol@, direction }),
            Err(e) => r == Err::<ServerMsg, ServiceError>(e),
        },
{
    match outcome {
        Ok(()) => Ok(ServerMsg::AlertRemoved { symbol, direction }),
        Err(e) => Err(e),
    }
}

/// The reply to a recorded purchase: `BOUGHT` with the symbol and quantity.
pub fn stock_bought(symbol: String, quantity: i32, outcome: Result<(), ServiceError>) -> (r: Result<
    ServerMsg,
    ServiceError,
>)
    ensures
        match outcome {
            Ok(()) => r matches Ok(m) && m@ == (ServerMsgView::StockBought { symbol: symbol@, quantity }),
            Err(e) => r == Err::<ServerMsg, ServiceError>(e),
        },
{
    match outcome {
        Ok(()) => Ok(ServerMsg::StockBought { symbol, quantity }),
        Err(e) => Err(e),
    }
}

/// The reply to a recorded sale: `SOLD` with the symbol and quantity.
pub fn stock_sold(symbol: String, quantity: i32, outcome: Result<(), ServiceError>) -> (r: Result<
    ServerMsg,
    ServiceError,
>)
    ensures
        match outcome {
            Ok(()) => r matches Ok(m) && m@ == (ServerMsgView::StockSold { symbol: symbol@, quantity }),
            Err(e) => r == Err::<ServerMsg, ServiceError>(e),
        },
{
    match outcome {
        Ok(()) => Ok(ServerMsg::StockSold { symbol, quantity }),
        Err(e) => Err(e),
    }
}

/// The reply carrying a user's positions and alerts as a JSON document.
pub fn client_data(payload: Result<String, ServiceError>) -> (r: Result<ServerMsg, ServiceError>)
    ensures
        match payload {
            Ok(json) => r matches Ok(m) && m@ == (ServerMsgView::AllClientData { json: json@ }),
            Err(e) => r == Err::<ServerMsg, ServiceError>(e),
        },
{
    match payload {
        Ok(json) => Ok(ServerMsg::AllClientData { json }),
        Err(e) => Err(e),
    }
}

/// The replies to a stored alert: `ALERTADDED`, then `TRIGGER` at once if
/// the current price already makes it fire.
pub fn alert_added(alert: &StoredAlert, current: Price, outcome: Result<(), ServiceError>) -> (r: Result<
    Vec<ServerMsg>,
    ServiceError,
>)
    ensures
        match outcome {
            Ok(()) => r matches Ok(v) && v@.len() == (if fires(
                alert.direction,
                alert.threshold.micros as int,
                current.micros as int,
            ) {
                2int
            } else {
                1int
            }) && v@[0]@ == (ServerMsgView::AlertAdded {
                symbol: alert.symbol@,
                direction: alert.direction,
                threshold: alert.threshold,
            }) && (v@.len() == 2 ==> v@[1]@ == (ServerMsgView::AlertTriggered {
                symbol: alert.symbol@,
                direction: alert.direction,
                threshold: alert.threshold,
                current_price: current,
            })),
            Err(e) => r == Err::<Vec<ServerMsg>, ServiceError>(e),
        },
{
    match outcome {
        Ok(()) => {
            let mut v: Vec<ServerMsg> = Vec::new();
            v.push(
                ServerMsg::AlertAdded {
                    symbol: alert.symbol.clone(),
                    direction: alert.direction,
                    threshold: alert.threshold,
                },
            );
            if crate::alerts::triggers(alert.direction, alert.threshold, current) {
                v.push(
                    ServerMsg::AlertTriggered {
                        symbol: alert.symbol.clone(),
                        direction: alert.direction,
                        threshold: alert.threshold,
                        current_price: current,
                    },
                );
            }
            Ok(v)
        },
        Err(e) => Err(e),
    }
}

/// The symbol whose cached price a command needs, if it needs one.
pub open spec fn priced_symbol(m: ClientMsgView) -> Option<Seq<char>> {
    match m {
        ClientMsgView::AddAlert { symbol, .. } => Some(symbol),
        ClientMsgView::CheckPrice { symbol } => Some(symbol),
        ClientMsgView::BuyStock { symbol, .. } => Some(symbol),
        ClientMsgView::SellStock { symbol, .. } => Some(symbol),
        _ => None,
    }
}

/// Before login every command but Login and Register is refused as not
/// logged in; once logged in, the same command is not refused, provided the
/// price it needs, if any, is cached.
pub proof fn lemma_auth_gating(m: ClientMsgView, prices: Map<Seq<char>, Price>, id: i64)
    requires
        !(m is LoginClient),
        !(m is RegisterClient),
    ensures
        decide(None, m, prices) == ActionView::Fail(ServiceError::NotLoggedIn),
        (priced_symbol(m) matches Some(s) ==> prices.contains_key(s)) ==> !(decide(
            Some(id),
            m,
            prices,
        ) is Fail),
{
}

/// A symbol with no cached price makes PRICE, BUY and ADD fail as
/// unavailable; once a refresh has cached a price for it, they go through.
pub proof fn lemma_cache_staleness(
    id: i64,
    symbol: Seq<char>,
    prices: Map<Seq<char>, Price>,
    fetched: Price,
    quantity: i32,
    direction: AlertDirection,
    threshold: Price,
)
    requires
        !prices.contains_key(symbol),
    ensures
        decide(Some(id), (ClientMsgView::CheckPrice { symbol }), prices) == ActionView::Fail(
            ServiceError::SymbolUnavailable,
        ),
        decide(Some(id), (ClientMsgView::BuyStock { symbol, quantity }), prices) == ActionView::Fail(
            ServiceError::SymbolUnavailable,
        ),
        decide(Some(id), (ClientMsgView::AddAlert { symbol, direction, threshold }), prices)
            == ActionView::Fail(ServiceError::SymbolUnavailable),
        decide(Some(id), (ClientMsgView::CheckPrice { symbol }), prices.insert(symbol, fetched))
            == ActionView::Reply((ServerMsgView::PriceChecked { symbol, price: fetched })),
        decide(Some(id), (ClientMsgView::BuyStock { symbol, quantity }), prices.insert(symbol, fetched))
            == (ActionView::Buy { user_id: id, symbol, quantity, price: fetched }),
        decide(
            Some(id),
            (ClientMsgView::AddAlert { symbol, direction, threshold }),
            prices.insert(symbol, fetched),
        ) == (ActionView::AddAlert {
            user_id: id,
            alert: (AlertView { symbol, direction, threshold }),
            current: fetched,
        }),
{
}

} // verus!
