//! Alert evaluation and a user's set of alerts.
use vstd::prelude::*;

use crate::cache::PriceCache;
use crate::error::ServiceError;
use crate::protocol::{AlertDirection, Price, ServerMsg, ServerMsgView};
use crate::text::text_is;

verus! {

/// Whether a price makes an alert fire: strictly above, or strictly below,
/// the threshold.
pub open spec fn fires(direction: AlertDirection, threshold: int, price: int) -> bool {
    match direction {
        AlertDirection::Above => price > threshold,
        AlertDirection::Below => price < threshold,
    }
}

/// Whether `current` makes an alert with `direction` and `threshold` fire.
pub fn triggers(direction: AlertDirection, threshold: Price, current: Price) -> (r: bool)
    ensures
        r == fires(direction, threshold.micros as int, current.micros as int),
{
    match direction {
        AlertDirection::Above => current.micros > threshold.micros,
        AlertDirection::Below => current.micros < threshold.micros,
    }
}

/// An Above alert fires exactly on prices above its threshold, a Below alert
/// exactly on prices below it; a price equal to the threshold fires neither.
pub proof fn lemma_trigger_rule(threshold: int, price: int)
    ensures
        fires(AlertDirection::Above, threshold, price) <==> price > threshold,
        fires(AlertDirection::Below, threshold, price) <==> price < threshold,
        !fires(AlertDirection::Above, threshold, threshold),
        !fires(AlertDirection::Below, threshold, threshold),
{
}

/// A stored alert subscription of one user.
#[derive(Debug, Clone)]
pub struct StoredAlert {
    pub symbol: String,
    pub direction: AlertDirection,
    pub threshold: Price,
}

pub struct AlertView {
    pub symbol: Seq<char>,
    pub direction: AlertDirection,
    pub threshold: Price,
}

impl View for StoredAlert {
    type V = AlertView;

    open spec fn view(&self) -> AlertView {
        AlertView { symbol: self.symbol@, direction: self.direction, threshold: self.threshold }
    }
}

pub open spec fn alert_views(v: Seq<StoredAlert>) -> Seq<AlertView> {
    v.map_values(|a: StoredAlert| a@)
}

/// Whether the list holds an alert on `symbol` and `direction`.
pub open spec fn has_alert(book: Seq<AlertView>, symbol: Seq<char>, direction: AlertDirection) -> bool {
    exists|i: int| 0 <= i < book.len() && book[i].symbol == symbol && book[i].direction == direction
}

/// At most one alert per symbol and direction.
pub open spec fn alerts_unique(book: Seq<AlertView>) -> bool {
    forall|i: int, j: int|
        0 <= i < j < book.len() ==> !(book[i].symbol == book[j].symbol && book[i].direction
            == book[j].direction)
}

/// The list after adding `a`: refused when an alert on the same symbol and
/// direction is there already.
pub open spec fn spec_add_alert(book: Seq<AlertView>, a: AlertView) -> Result<Seq<AlertView>, ServiceError> {
    if has_alert(book, a.symbol, a.direction) {
        Err(ServiceError::AlertExists)
    } else {
        Ok(book.push(a))
    }
}

/// The list without its alerts on `symbol` and `direction`, order kept.
pub open spec fn without(book: Seq<AlertView>, symbol: Seq<char>, direction: AlertDirection) -> Seq<AlertView>
    decreases book.len(),
{
    if book.len() == 0 {
        book
    } else {
        let rest = without(book.drop_last(), symbol, direction);
        if book.last().symbol == symbol && book.last().direction == direction {
            rest
        } else {
            rest.push(book.last())
        }
    }
}

/// Adds `alert` to a user's alerts, unless one on the same symbol and
/// direction is there already.
pub fn add_alert(book: &mut Vec<StoredAlert>, alert: StoredAlert) -> (r: Result<(), ServiceError>)
    ensures
        match r {
            Ok(()) => spec_add_alert(alert_views(old(book)@), alert@) == Ok::<Seq<AlertView>, ServiceError>(
                alert_views(final(book)@),
            ),
            Err(e) => spec_add_alert(alert_views(old(book)@), alert@) == Err::<Seq<AlertView>, ServiceError>(
                e,
            ) && final(book)@ == old(book)@,
        },
{
    let ghost bv = alert_views(book@);
    let n = book.len();
    let mut i: usize = 0;
    while i < n
        invariant
            n == book@.len(),
            i <= n,
            bv == alert_views(book@),
            forall|j: int|
                0 <= j < i ==> !(bv[j].symbol == alert.symbol@ && bv[j].direction == alert.direction),
        decreases n - i,
    {
        if text_is(book[i].symbol.as_str(), alert.symbol.as_str()) && book[i].direction == alert.direction {
            assert(bv[i as int].symbol == alert.symbol@);
            return Err(ServiceError::AlertExists);
        }
        i = i + 1;
    }
    book.push(alert);
    assert(alert_views(book@) =~= bv.push(alert@));
    Ok(())
}

/// Removes a user's alert on `symbol` and `direction`; removing one that is
/// not there changes nothing and is no error.
pub fn remove_alert(book: &mut Vec<StoredAlert>, symbol: &str, direction: AlertDirection)
    ensures
        alert_views(final(book)@) == without(alert_views(old(book)@), symbol@, direction),
{
    let ghost bv = alert_views(book@);
    let mut kept: Vec<StoredAlert> = Vec::new();
    let n = book.len();
    let mut rest: Vec<StoredAlert> = Vec::new();
    std::mem::swap(book, &mut rest);
    let ghost all = rest@;
    let mut i: usize = 0;
    assert(bv.take(0) =~= Seq::<AlertView>::empty());
    assert(alert_views(kept@) =~= Seq::<AlertView>::empty());
    while i < n
        invariant
            n == all.len(),
            bv == alert_views(all),
            i <= n,
            rest@ == all.skip(i as int),
            alert_views(kept@) == without(bv.take(i as int), symbol@, direction),
        decreases n - i,
    {
        let a = rest.remove(0);
        assert(a == all[i as int]);
        assert(rest@ =~= all.skip(i + 1));
        assert(bv.take(i + 1).drop_last() =~= bv.take(i as int));
        assert(bv.take(i + 1).last() == a@);
        if text_is(a.symbol.as_str(), symbol) && a.direction == direction {
        } else {
            let ghost before = kept@;
            kept.push(a);
            assert(alert_views(kept@) =~= alert_views(before).push(a@));
        }
        i = i + 1;
    }
    assert(bv.take(n as int) =~= bv);
    *book = kept;
}

/// Removing an alert that is not there leaves the list as it was.
pub proof fn lemma_remove_absent(book: Seq<AlertView>, symbol: Seq<char>, direction: AlertDirection)
    requires
        !has_alert(book, symbol, direction),
    ensures
        without(book, symbol, direction) == book,
    decreases book.len(),
{
    if book.len() > 0 {
        let p = book.drop_last();
        assert(!has_alert(p, symbol, direction)) by {
            if has_alert(p, symbol, direction) {
                let i = choose|i: int| 0 <= i < p.len() && p[i].symbol == symbol && p[i].direction == direction;
                assert(book[i] == p[i]);
            }
        }
        lemma_remove_absent(p, symbol, direction);
        assert(!(book[book.len() - 1].symbol == symbol && book[book.len() - 1].direction == direction));
        assert(p.push(book.last()) =~= book);
    }
}

/// Once an alert is added, a second one on the same symbol and direction is
/// refused, and the list keeps its size.
pub proof fn lemma_duplicate_alert_refused(book: Seq<AlertView>, first: AlertView, second: AlertView)
    requires
        first.symbol == second.symbol,
        first.direction == second.direction,
    ensures
        ({
            let after = match spec_add_alert(book, first) {
                Ok(b) => b,
                Err(_) => book,
            };
            spec_add_alert(after, second) == Err::<Seq<AlertView>, ServiceError>(ServiceError::AlertExists)
        }),
{
    match spec_add_alert(book, first) {
        Ok(b) => {
            assert(b[book.len() as int] == first);
        },
        Err(_) => {},
    }
}

/// Adding keeps at most one alert per symbol and direction.
pub proof fn lemma_add_keeps_unique(book: Seq<AlertView>, a: AlertView)
    requires
        alerts_unique(book),
    ensures
        spec_add_alert(book, a) matches Ok(b) ==> alerts_unique(b),
{
    if !has_alert(book, a.symbol, a.direction) {
        let b = book.push(a);
        assert forall|i: int, j: int| 0 <= i < j < b.len() implies !(b[i].symbol == b[j].symbol
            && b[i].direction == b[j].direction) by {
            if j == book.len() {
                assert(b[i] == book[i]);
            } else {
                assert(b[i] == book[i] && b[j] == book[j]);
            }
        }
    }
}

/// The notice that an alert fires at `price`, if it fires.
pub open spec fn notice(a: AlertView, price: Price) -> ServerMsgView {
    ServerMsgView::AlertTriggered {
        symbol: a.symbol,
        direction: a.direction,
        threshold: a.threshold,
        current_price: price,
    }
}

/// The notices for the alerts whose symbol has a cached price that makes
/// them fire, in list order.
pub open spec fn notices(book: Seq<AlertView>, prices: Map<Seq<char>, Price>) -> Seq<ServerMsgView>
    decreases book.len(),
{
    if book.len() == 0 {
        seq![]
    } else {
        let rest = notices(book.drop_last(), prices);
        let a = book.last();
        if prices.contains_key(a.symbol) && fires(
            a.direction,
            a.threshold.micros as int,
            prices[a.symbol].micros as int,
        ) {
            rest.push(notice(a, prices[a.symbol]))
        } else {
            rest
        }
    }
}

pub open spec fn msg_views(v: Seq<ServerMsg>) -> Seq<ServerMsgView> {
    v.map_values(|m: ServerMsg| m@)
}

/// Checks a user's alerts against the cache: one `TRIGGER` message for each
/// alert that fires, in list order.
pub fn check_alerts(book: &Vec<StoredAlert>, cache: &PriceCache) -> (r: Vec<ServerMsg>)
    requires
        cache.wf(),
    ensures
        msg_views(r@) == notices(alert_views(book@), cache.view()),
{
    let ghost bv = alert_views(book@);
    let mut out: Vec<ServerMsg> = Vec::new();
    let n = book.len();
    let mut i: usize = 0;
    assert(bv.take(0) =~= Seq::<AlertView>::empty());
    assert(msg_views(out@) =~= Seq::<ServerMsgView>::empty());
    while i < n
        invariant
            n == book@.len(),
            bv == alert_views(book@),
            i <= n,
            cache.wf(),
            msg_views(out@) == notices(bv.take(i as int), cache.view()),
        decreases n - i,
    {
        let a = &book[i];
        assert(bv.take(i + 1).drop_last() =~= bv.take(i as int));
        assert(bv.take(i + 1).last() == a@);
        match cache.get(a.symbol.as_str()) {
            Some(p) => {
                if triggers(a.direction, a.threshold, p) {
                    let ghost before = out@;
                    out.push(
                        ServerMsg::AlertTriggered {
                            symbol: a.symbol.clone(),
                            direction: a.direction,
                            threshold: a.threshold,
                            current_price: p,
                        },
                    );
                    assert(msg_views(out@) =~= msg_views(before).push(notice(a@, p)));
                }
            },
            None => {},
        }
        i = i + 1;
    }
    assert(bv.take(n as int) =~= bv);
    out
}

} // verus!
