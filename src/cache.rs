//! The price cache: the latest known price of each symbol.
use vstd::prelude::*;

use crate::protocol::Price;
use crate::text::text_is;

verus! {

/// The map that symbol and price columns describe: a later row wins.
pub open spec fn map_of(syms: Seq<Seq<char>>, prices: Seq<Price>) -> Map<Seq<char>, Price>
    decreases syms.len(),
{
    if syms.len() == 0 || prices.len() < syms.len() {
        Map::empty()
    } else {
        map_of(syms.drop_last(), prices.take(syms.len() - 1)).insert(
            syms.last(),
            prices[syms.len() - 1],
        )
    }
}

/// No symbol stands in two rows.
pub open spec fn unique(syms: Seq<Seq<char>>) -> bool {
    forall|i: int, j: int| 0 <= i < j < syms.len() ==> syms[i] != syms[j]
}

/// Symbol→price table, refreshed in whole batches.
pub struct PriceCache {
    symbols: Vec<String>,
    prices: Vec<Price>,
}

proof fn lemma_map_of_lookup(syms: Seq<Seq<char>>, prices: Seq<Price>, k: Seq<char>)
    requires
        syms.len() == prices.len(),
        unique(syms),
    ensures
        map_of(syms, prices).contains_key(k) <==> exists|i: int| 0 <= i < syms.len() && syms[i] == k,
        forall|i: int| 0 <= i < syms.len() && syms[i] == k ==> map_of(syms, prices)[k] == prices[i],
    decreases syms.len(),
{
    if syms.len() > 0 {
        let n = syms.len() - 1;
        let s2 = syms.drop_last();
        let p2 = prices.take(n);
        lemma_map_of_lookup(s2, p2, k);
        if syms.last() != k {
            if exists|i: int| 0 <= i < syms.len() && syms[i] == k {
                let i = choose|i: int| 0 <= i < syms.len() && syms[i] == k;
                assert(s2[i] == k);
            }
            assert forall|i: int| 0 <= i < syms.len() && syms[i] == k implies map_of(syms, prices)[k]
                == prices[i] by {
                assert(s2[i] == k);
                assert(p2[i] == prices[i]);
            }
        } else {
            assert(syms[n] == k);
            assert forall|i: int| 0 <= i < syms.len() && syms[i] == k implies map_of(syms, prices)[k]
                == prices[i] by {
                if i < n {
                    assert(syms[i] != syms[n]);
                }
            }
        }
    }
}

proof fn lemma_map_of_update(syms: Seq<Seq<char>>, prices: Seq<Price>, i: int, p: Price)
    requires
        syms.len() == prices.len(),
        unique(syms),
        0 <= i < syms.len(),
    ensures
        map_of(syms, prices.update(i, p)) == map_of(syms, prices).insert(syms[i], p),
    decreases syms.len(),
{
    let n = syms.len() - 1;
    let s2 = syms.drop_last();
    let q = prices.update(i, p);
    if i == n {
        assert(q.take(n) =~= prices.take(n));
        assert(map_of(syms, q) =~= map_of(syms, prices).insert(syms[i], p));
    } else {
        assert(q.take(n) =~= prices.take(n).update(i, p));
        lemma_map_of_update(s2, prices.take(n), i, p);
        assert(s2[i] == syms[i]);
        assert(syms[i] != syms[n]);
        assert(map_of(syms, q) =~= map_of(syms, prices).insert(syms[i], p));
    }
}

impl PriceCache {
    pub closed spec fn view(&self) -> Map<Seq<char>, Price> {
        map_of(self.symbols@.map_values(|s: String| s@), self.prices@)
    }

    /// The cache's rows are consistent: one price per row, one row per symbol.
    pub closed spec fn wf(&self) -> bool {
        &&& self.symbols@.len() == self.prices@.len()
        &&& unique(self.symbols@.map_values(|s: String| s@))
    }

    /// An empty cache: no symbol has a price yet.
    pub fn new() -> (r: PriceCache)
        ensures
            r.wf(),
            r.view() == Map::<Seq<char>, Price>::empty(),
    {
        let r = PriceCache { symbols: Vec::new(), prices: Vec::new() };
        assert(r.symbols@.map_values(|s: String| s@) =~= Seq::<Seq<char>>::empty());
        r
    }

    /// The row of `symbol`, if any.
    fn find(&self, symbol: &str) -> (r: Option<usize>)
        requires
            self.wf(),
        ensures
            match r {
                Some(i) => i < self.symbols@.len() && self.symbols@[i as int]@ == symbol@,
                None => forall|i: int| 0 <= i < self.symbols@.len() ==> self.symbols@[i]@ != symbol@,
            },
    {
        let n = self.symbols.len();
        let mut i: usize = 0;
        while i < n
            invariant
                n == self.symbols@.len(),
                i <= n,
                forall|j: int| 0 <= j < i ==> self.symbols@[j]@ != symbol@,
            decreases n - i,
        {
            if text_is(self.symbols[i].as_str(), symbol) {
                return Some(i);
            }
            i = i + 1;
        }
        None
    }

    /// The cached price of `symbol`; `None` when it was never fetched.
    pub fn get(&self, symbol: &str) -> (r: Option<Price>)
        requires
            self.wf(),
        ensures
            r == (if self.view().contains_key(symbol@) {
                Some(self.view()[symbol@])
            } else {
                None
            }),
    {
        let ghost syms = self.symbols@.map_values(|s: String| s@);
        proof {
            lemma_map_of_lookup(syms, self.prices@, symbol@);
        }
        match self.find(symbol) {
            Some(i) => {
                assert(syms[i as int] == symbol@);
                Some(self.prices[i])
            },
            None => {
                assert forall|i: int| 0 <= i < syms.len() implies syms[i] != symbol@ by {
                    assert(syms[i] == self.symbols@[i]@);
                }
                None
            },
        }
    }

    /// Sets the price of `symbol`, keeping every other row.
    pub fn insert(&mut self, symbol: String, price: Price)
        requires
            old(self).wf(),
        ensures
            final(self).wf(),
            final(self).view() == old(self).view().insert(symbol@, price),
    {
        let ghost syms = self.symbols@.map_values(|s: String| s@);
        match self.find(symbol.as_str()) {
            Some(i) => {
                proof {
                    lemma_map_of_update(syms, self.prices@, i as int, price);
                    assert(syms[i as int] == symbol@);
                }
                self.prices.set(i, price);
            },
            None => {
                self.symbols.push(symbol);
                self.prices.push(price);
                let ghost s2 = self.symbols@.map_values(|s: String| s@);
                assert(s2.drop_last() =~= syms);
                assert(self.prices@.take(syms.len() as int) =~= old(self).prices@);
                assert forall|a: int, b: int| 0 <= a < b < s2.len() implies s2[a] != s2[b] by {
                    if b < syms.len() {
                        assert(s2[a] == syms[a] && s2[b] == syms[b]);
                    } else {
                        assert(s2[a] == syms[a]);
                        assert(syms[a] == old(self).symbols@[a]@);
                    }
                }
            },
        }
    }

    /// Merges one refresh cycle's prices: each listed symbol takes its new
    /// price, in list order; symbols not listed keep their last price.
    pub fn merge(&mut self, updates: Vec<(String, Price)>)
        requires
            old(self).wf(),
        ensures
            final(self).wf(),
            final(self).view() == merged(old(self).view(), updates@),
    {
        let ghost start = self.view();
        let n = updates.len();
        let mut rest = updates;
        let mut i: usize = 0;
        let ghost all = rest@;
        while i < n
            invariant
                n == all.len(),
                i <= n,
                rest@ == all.skip(i as int),
                self.wf(),
                self.view() == merged(start, all.take(i as int)),
            decreases n - i,
        {
            let (sym, p) = rest.remove(0);
            proof {
                assert(all.take(i + 1).drop_last() =~= all.take(i as int));
                assert(all.take(i + 1).last() == all[i as int]);
                assert(all[i as int] == (sym, p));
                assert(rest@ =~= all.skip(i + 1));
            }
            self.insert(sym, p);
            i = i + 1;
        }
        assert(all.take(n as int) =~= all);
    }
}

/// The map after applying price updates in order.
pub open spec fn merged(m: Map<Seq<char>, Price>, updates: Seq<(String, Price)>) -> Map<
    Seq<char>,
    Price,
>
    decreases updates.len(),
{
    if updates.len() == 0 {
        m
    } else {
        merged(m, updates.drop_last()).insert(updates.last().0@, updates.last().1)
    }
}

/// After a refresh, a symbol whose last update in the batch carries a price
/// is cached at that price.
pub proof fn lemma_refresh_caches(
    m: Map<Seq<char>, Price>,
    updates: Seq<(String, Price)>,
    i: int,
    k: Seq<char>,
)
    requires
        0 <= i < updates.len(),
        updates[i].0@ == k,
        forall|j: int| i < j < updates.len() ==> updates[j].0@ != k,
    ensures
        merged(m, updates).contains_key(k),
        merged(m, updates)[k] == updates[i].1,
    decreases updates.len(),
{
    let n = updates.len() - 1;
    if i < n {
        assert(updates.drop_last()[i] == updates[i]);
        assert forall|j: int| i < j < updates.drop_last().len() implies updates.drop_last()[j].0@ != k by {
            assert(updates.drop_last()[j] == updates[j]);
        }
        lemma_refresh_caches(m, updates.drop_last(), i, k);
    }
}

/// A refresh never drops a cached symbol.
pub proof fn lemma_refresh_keeps(m: Map<Seq<char>, Price>, updates: Seq<(String, Price)>, k: Seq<char>)
    requires
        m.contains_key(k),
    ensures
        merged(m, updates).contains_key(k),
    decreases updates.len(),
{
    if updates.len() > 0 {
        lemma_refresh_keeps(m, updates.drop_last(), k);
    }
}

} // verus!
