//! Paper-trading positions of one user.
use vstd::prelude::*;

use crate::error::ServiceError;
use crate::protocol::Price;
use crate::text::text_is;

verus! {

/// A user's holding of one symbol: the quantity held and the cumulative
/// signed cost, in millionths (money spent minus money received).
#[derive(Debug, Clone)]
pub struct PortfolioStock {
    pub symbol: String,
    pub quantity: i32,
    pub total_price: Price,
}

pub struct PositionView {
    pub symbol: Seq<char>,
    pub quantity: int,
    pub total: int,
}

impl View for PortfolioStock {
    type V = PositionView;

    open spec fn view(&self) -> PositionView {
        PositionView {
            symbol: self.symbol@,
            quantity: self.quantity as int,
            total: self.total_price.micros as int,
        }
    }
}

pub open spec fn position_views(v: Seq<PortfolioStock>) -> Seq<PositionView> {
    v.map_values(|p: PortfolioStock| p@)
}

/// Quantities held are never negative.
pub open spec fn positions_valid(ps: Seq<PositionView>) -> bool {
    forall|i: int| 0 <= i < ps.len() ==> #[trigger] ps[i].quantity >= 0
}

/// The row of `symbol`, or the length of the list when there is none.
pub open spec fn row_of(ps: Seq<PositionView>, symbol: Seq<char>) -> int
    decreases ps.len(),
{
    if ps.len() == 0 {
        0
    } else if ps[0].symbol == symbol {
        0
    } else {
        1 + row_of(ps.drop_first(), symbol)
    }
}

pub open spec fn fits_i64(v: int) -> bool {
    i64::MIN <= v <= i64::MAX
}

pub open spec fn fits_i32(v: int) -> bool {
    i32::MIN <= v <= i32::MAX
}

/// The positions after buying `quantity` at `price`: the quantity and the
/// cost grow; the first purchase of a symbol adds its row at the end.
pub open spec fn spec_buy(ps: Seq<PositionView>, symbol: Seq<char>, quantity: int, price: int) -> Result<
    Seq<PositionView>,
    ServiceError,
> {
    let k = row_of(ps, symbol);
    let cost = quantity * price;
    if quantity < 0 {
        Err(ServiceError::InvalidQuantity)
    } else if k == ps.len() {
        if fits_i64(cost) {
            Ok(ps.push(PositionView { symbol, quantity, total: cost }))
        } else {
            Err(ServiceError::Overflow)
        }
    } else if fits_i32(ps[k].quantity + quantity) && fits_i64(ps[k].total + cost) {
        Ok(
            ps.update(
                k,
                PositionView {
                    symbol,
                    quantity: ps[k].quantity + quantity,
                    total: ps[k].total + cost,
                },
            ),
        )
    } else {
        Err(ServiceError::Overflow)
    }
}

/// The positions after selling `quantity` at `price`: refused when more is
/// sold than held; otherwise the quantity shrinks and the proceeds are taken
/// off the cost.  A row that reaches zero stays.
pub open spec fn spec_sell(ps: Seq<PositionView>, symbol: Seq<char>, quantity: int, price: int) -> Result<
    Seq<PositionView>,
    ServiceError,
> {
    let k = row_of(ps, symbol);
    let proceeds = quantity * price;
    if quantity < 0 {
        Err(ServiceError::InvalidQuantity)
    } else if k == ps.len() {
        Err(ServiceError::InsufficientHoldings(0))
    } else if ps[k].quantity < quantity {
        Err(ServiceError::InsufficientHoldings(ps[k].quantity as i32))
    } else if fits_i64(ps[k].total - proceeds) {
        Ok(
            ps.update(
                k,
                PositionView {
                    symbol,
                    quantity: ps[k].quantity - quantity,
                    total: ps[k].total - proceeds,
                },
            ),
        )
    } else {
        Err(ServiceError::Overflow)
    }
}

proof fn lemma_row_of(ps: Seq<PositionView>, symbol: Seq<char>, k: int)
    requires
        0 <= k <= ps.len(),
        k < ps.len() ==> ps[k].symbol == symbol,
        forall|j: int| 0 <= j < k ==> ps[j].symbol != symbol,
    ensures
        row_of(ps, symbol) == k,
    decreases ps.len(),
{
    if ps.len() > 0 && k > 0 {
        lemma_row_of(ps.drop_first(), symbol, k - 1);
    }
}

/// The row of `symbol` in `holdings`, found by a scan.
fn find_row(holdings: &Vec<PortfolioStock>, symbol: &str) -> (r: usize)
    ensures
        r as int == row_of(position_views(holdings@), symbol@),
        r <= holdings@.len(),
{
    let ghost pv = position_views(holdings@);
    let n = holdings.len();
    let mut i: usize = 0;
    while i < n
        invariant
            n == holdings@.len(),
            pv == position_views(holdings@),
            i <= n,
            forall|j: int| 0 <= j < i ==> pv[j].symbol != symbol@,
        decreases n - i,
    {
        if text_is(holdings[i].symbol.as_str(), symbol) {
            proof {
                lemma_row_of(pv, symbol@, i as int);
            }
            return i;
        }
        i = i + 1;
    }
    proof {
        lemma_row_of(pv, symbol@, n as int);
    }
    n
}

/// `quantity * price`, exactly.
fn times(quantity: i32, price: i64) -> (r: i128)
    ensures
        r == quantity * price,
        -0x1_0000_0000_0000_0000_0000_0000 <= r <= 0x1_0000_0000_0000_0000_0000_0000,
{
    let a = quantity as i128;
    let b = price as i128;
    assert(-0x1_0000_0000_0000_0000_0000_0000 <= a * b <= 0x1_0000_0000_0000_0000_0000_0000) by (nonlinear_arith)
        requires
            -0x8000_0000 <= a <= 0x8000_0000,
            -0x8000_0000_0000_0000 <= b <= 0x8000_0000_0000_0000,
    ;
    a * b
}

/// Records a purchase of `quantity` shares of `symbol` at `price` each.
pub fn buy_stock(holdings: &mut Vec<PortfolioStock>, symbol: &str, quantity: i32, price: Price) -> (r:
    Result<(), ServiceError>)
    ensures
        match r {
            Ok(()) => spec_buy(position_views(old(holdings)@), symbol@, quantity as int, price.micros as int)
                == Ok::<Seq<PositionView>, ServiceError>(position_views(final(holdings)@)),
            Err(e) => spec_buy(position_views(old(holdings)@), symbol@, quantity as int, price.micros as int)
                == Err::<Seq<PositionView>, ServiceError>(e) && final(holdings)@ == old(holdings)@,
        },
        positions_valid(position_views(old(holdings)@)) ==> positions_valid(position_views(final(holdings)@)),
{
    let ghost pv = position_views(holdings@);
    if quantity < 0 {
        return Err(ServiceError::InvalidQuantity);
    }
    let k = find_row(holdings, symbol);
    let cost = times(quantity, price.micros);
    if k == holdings.len() {
        if cost < i64::MIN as i128 || cost > i64::MAX as i128 {
            return Err(ServiceError::Overflow);
        }
        let row = PortfolioStock {
            symbol: symbol.to_owned(),
            quantity,
            total_price: Price { micros: cost as i64 },
        };
        holdings.push(row);
        assert(position_views(holdings@) =~= pv.push(row@));
        assert(positions_valid(pv) ==> positions_valid(pv.push(row@))) by {
            if positions_valid(pv) {
                assert forall|i: int| 0 <= i < pv.len() + 1 implies #[trigger] pv.push(row@)[i].quantity >= 0 by {
                    if i < pv.len() {
                        assert(pv.push(row@)[i] == pv[i]);
                    }
                }
            }
        }
    } else {
        let q = holdings[k].quantity as i64 + quantity as i64;
        let t = holdings[k].total_price.micros as i128 + cost;
        if q > i32::MAX as i64 || t < i64::MIN as i128 || t > i64::MAX as i128 {
            return Err(ServiceError::Overflow);
        }
        let row = PortfolioStock {
            symbol: symbol.to_owned(),
            quantity: q as i32,
            total_price: Price { micros: t as i64 },
        };
        holdings.set(k, row);
        assert(position_views(holdings@) =~= pv.update(k as int, row@));
        proof {
            if positions_valid(pv) {
                assert(pv[k as int].quantity >= 0);
                lemma_update_valid(pv, k as int, row@);
            }
        }
    }
    Ok(())
}

/// Records a sale of `quantity` shares of `symbol` at `price` each; refused,
/// with the quantity held, when more is sold than held.
pub fn sell_stock(holdings: &mut Vec<PortfolioStock>, symbol: &str, quantity: i32, price: Price) -> (r:
    Result<(), ServiceError>)
    ensures
        match r {
            Ok(()) => spec_sell(position_views(old(holdings)@), symbol@, quantity as int, price.micros as int)
                == Ok::<Seq<PositionView>, ServiceError>(position_views(final(holdings)@)),
            Err(e) => spec_sell(position_views(old(holdings)@), symbol@, quantity as int, price.micros as int)
                == Err::<Seq<PositionView>, ServiceError>(e) && final(holdings)@ == old(holdings)@,
        },
        positions_valid(position_views(old(holdings)@)) ==> positions_valid(position_views(final(holdings)@)),
{
    let ghost pv = position_views(holdings@);
    if quantity < 0 {
        return Err(ServiceError::InvalidQuantity);
    }
    let k = find_row(holdings, symbol);
    if k == holdings.len() {
        return Err(ServiceError::InsufficientHoldings(0));
    }
    let held = holdings[k].quantity;
    if held < quantity {
        return Err(ServiceError::InsufficientHoldings(held));
    }
    let proceeds = times(quantity, price.micros);
    let t = holdings[k].total_price.micros as i128 - proceeds;
    if t < i64::MIN as i128 || t > i64::MAX as i128 {
        return Err(ServiceError::Overflow);
    }
    let row = PortfolioStock {
        symbol: symbol.to_owned(),
        quantity: held - quantity,
        total_price: Price { micros: t as i64 },
    };
    holdings.set(k, row);
    assert(position_views(holdings@) =~= pv.update(k as int, row@));
    proof {
        lemma_update_valid(pv, k as int, row@);
    }
    Ok(())
}

/// Replacing a row by one with a non-negative quantity keeps the list valid.
proof fn lemma_update_valid(ps: Seq<PositionView>, k: int, row: PositionView)
    requires
        0 <= k < ps.len(),
        row.quantity >= 0,
    ensures
        positions_valid(ps) ==> positions_valid(ps.update(k, row)),
{
    if positions_valid(ps) {
        assert forall|i: int| 0 <= i < ps.len() implies #[trigger] ps.update(k, row)[i].quantity >= 0 by {
            if i != k {
                assert(ps.update(k, row)[i] == ps[i]);
            }
        }
    }
}

/// Buying and then selling the same quantity brings the quantity back to
/// what it was, and leaves the cost changed by what was paid minus what was
/// received.
pub proof fn lemma_buy_then_sell(ps: Seq<PositionView>, symbol: Seq<char>, quantity: int, bought_at: int, sold_at: int)
    requires
        positions_valid(ps),
        spec_buy(ps, symbol, quantity, bought_at) is Ok,
        fits_i64(
            (if row_of(ps, symbol) < ps.len() {
                ps[row_of(ps, symbol)].total
            } else {
                0
            }) + quantity * bought_at - quantity * sold_at,
        ),
    ensures
        ({
            let after_buy = spec_buy(ps, symbol, quantity, bought_at)->Ok_0;
            let k = row_of(ps, symbol);
            let (held, cost) = if k < ps.len() {
                (ps[k].quantity, ps[k].total)
            } else {
                (0, 0)
            };
            spec_sell(after_buy, symbol, quantity, sold_at) matches Ok(after_sell) && k < after_sell.len()
                && after_sell[k]
                == PositionView {
                symbol,
                quantity: held,
                total: cost + quantity * bought_at - quantity * sold_at,
            }
        }),
{
    let k = row_of(ps, symbol);
    let b = spec_buy(ps, symbol, quantity, bought_at)->Ok_0;
    if k == ps.len() {
        assert forall|j: int| 0 <= j < k implies b[j].symbol != symbol by {
            assert(b[j] == ps[j]);
            if ps[j].symbol == symbol {
                lemma_row_first(ps, symbol, j);
            }
        }
        lemma_row_of(b, symbol, k);
    } else {
        lemma_row_bound(ps, symbol);
        assert forall|j: int| 0 <= j < k implies b[j].symbol != symbol by {
            assert(b[j] == ps[j]);
            if ps[j].symbol == symbol {
                lemma_row_first(ps, symbol, j);
            }
        }
        lemma_row_of(b, symbol, k);
    }
}

/// No row before `row_of` holds the symbol.
proof fn lemma_row_first(ps: Seq<PositionView>, symbol: Seq<char>, j: int)
    requires
        0 <= j < ps.len(),
        ps[j].symbol == symbol,
    ensures
        row_of(ps, symbol) <= j,
    decreases ps.len(),
{
    if j > 0 && ps[0].symbol != symbol {
        lemma_row_first(ps.drop_first(), symbol, j - 1);
    }
}

/// `row_of` is a row that holds the symbol, or the length.
proof fn lemma_row_bound(ps: Seq<PositionView>, symbol: Seq<char>)
    ensures
        0 <= row_of(ps, symbol) <= ps.len(),
        row_of(ps, symbol) < ps.len() ==> ps[row_of(ps, symbol)].symbol == symbol,
    decreases ps.len(),
{
    if ps.len() > 0 && ps[0].symbol != symbol {
        lemma_row_bound(ps.drop_first(), symbol);
    }
}

/// Selling one more share than is held is refused, with the quantity held.
pub proof fn lemma_oversell_refused(ps: Seq<PositionView>, symbol: Seq<char>, price: int)
    requires
        row_of(ps, symbol) < ps.len(),
        0 <= ps[row_of(ps, symbol)].quantity < i32::MAX,
    ensures
        spec_sell(ps, symbol, ps[row_of(ps, symbol)].quantity + 1, price) == Err::<
            Seq<PositionView>,
            ServiceError,
        >(ServiceError::InsufficientHoldings(ps[row_of(ps, symbol)].quantity as i32)),
{
}

} // verus!
