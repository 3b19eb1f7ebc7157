//! The trading bot's bookkeeping: positions, live prices, price histories,
//! position multipliers and the per-symbol configuration. Amounts and prices
//! are of the type `V` the caller trades in; the library only stores, looks
//! up and moves them.

use vstd::prelude::*;
use vstd::string::StringExecFns;
use crate::history::{last_six, lemma_recorded_last_six, recorded, PriceHistory, HISTORY_LEN};
use crate::parse::{base_currency, base_currency_of};
use crate::signal::{decide_signal, signal_decision, MultChange, Signal, SignalInputs};
use crate::ohlc::OhlcData;
use crate::table::{lookup, SymbolTable};

verus! {

/// A symbol's trading parameters, as the configuration file gives them.
pub struct SymbolConfig<V> {
    pub symbol: String,
    pub entry_amount: V,
    pub exit_amount: V,
    pub entry_threshold: V,
    pub exit_threshold: V,
}

/// A symbol's trading parameters, as the bot keeps them.
pub struct Symbol<V> {
    pub symbol: String,
    pub entry_amount: V,
    pub exit_amount: V,
    pub entry_threshold: V,
    pub exit_threshold: V,
}

/// The multiplier of a symbol never set: 1.0, counted in half steps.
pub const BASE_MULT_HALVES: u64 = 2;

/// The multiplier after one step up (half steps; it stays put at the top of `u64`).
pub open spec fn stepped_up(h: u64) -> u64 {
    if h < u64::MAX {
        (h + 1) as u64
    } else {
        h
    }
}

/// The parameters that a configuration line gives.
pub open spec fn symbol_of_config<V>(c: SymbolConfig<V>) -> Symbol<V> {
    Symbol {
        symbol: c.symbol,
        entry_amount: c.entry_amount,
        exit_amount: c.exit_amount,
        entry_threshold: c.entry_threshold,
        exit_threshold: c.exit_threshold,
    }
}

/// The configuration table that a list of configuration lines gives; a later
/// line for the same symbol replaces an earlier one.
pub open spec fn configs_map<V>(cs: Seq<SymbolConfig<V>>) -> Map<Seq<char>, Symbol<V>>
    decreases cs.len(),
{
    if cs.len() == 0 {
        Map::empty()
    } else {
        configs_map(cs.drop_last()).insert(cs.last().symbol@, symbol_of_config(cs.last()))
    }
}

/// The history that `h` keeps for `s`, empty when none.
pub open spec fn history_in<V>(h: Map<Seq<char>, Seq<V>>, s: Seq<char>) -> Seq<V> {
    if h.dom().contains(s) {
        h[s]
    } else {
        Seq::empty()
    }
}

/// The histories after recording a round of closes, each a (symbol, close)
/// pair, in order.
pub open spec fn round_histories<V>(h: Map<Seq<char>, Seq<V>>, cs: Seq<(Seq<char>, V)>) -> Map<
    Seq<char>,
    Seq<V>,
>
    decreases cs.len(),
{
    if cs.len() == 0 {
        h
    } else {
        let prev = round_histories(h, cs.drop_last());
        prev.insert(cs.last().0, recorded(history_in(prev, cs.last().0), cs.last().1))
    }
}

/// The closes of a round that belong to `s`, in order.
pub open spec fn closes_of<V>(cs: Seq<(Seq<char>, V)>, s: Seq<char>) -> Seq<V>
    decreases cs.len(),
{
    if cs.len() == 0 {
        Seq::empty()
    } else if cs.last().0 == s {
        closes_of(cs.drop_last(), s).push(cs.last().1)
    } else {
        closes_of(cs.drop_last(), s)
    }
}

/// A candle's symbol and close.
pub open spec fn candle_close<V>(c: OhlcData<String, V>) -> (Seq<char>, V) {
    (c.symbol@, c.close)
}

/// The balances after applying updates, each an (asset, balance) pair, in order.
pub open spec fn applied<V>(m: Map<Seq<char>, V>, us: Seq<(Seq<char>, V)>) -> Map<Seq<char>, V>
    decreases us.len(),
{
    if us.len() == 0 {
        m
    } else {
        applied(m, us.drop_last()).insert(us.last().0, us.last().1)
    }
}

/// No later update in `us` than the `j`-th names the same asset.
pub open spec fn is_last_update<V>(us: Seq<(Seq<char>, V)>, j: int) -> bool {
    forall|k: int| j < k < us.len() ==> #[trigger] us[k].0 != us[j].0
}

/// No update in `us` names `a`.
pub open spec fn not_updated<V>(us: Seq<(Seq<char>, V)>, a: Seq<char>) -> bool {
    forall|k: int| 0 <= k < us.len() ==> #[trigger] us[k].0 != a
}

/// Law: after applying balance updates, every asset named in them holds the
/// balance of its last update (the first update counts like any other), and
/// every asset not named keeps the balance it had, or stays without one.
pub proof fn law_balances_last_update_wins<V>(m: Map<Seq<char>, V>, us: Seq<(Seq<char>, V)>)
    ensures
        forall|j: int|
            0 <= j < us.len() && #[trigger] is_last_update(us, j) ==> applied(m, us).dom().contains(
                us[j].0,
            ) && applied(m, us)[us[j].0] == us[j].1,
        forall|a: Seq<char>| #[trigger]
            not_updated(us, a) ==> (applied(m, us).dom().contains(a) == m.dom().contains(a) && (
            m.dom().contains(a) ==> applied(m, us)[a] == m[a])),
    decreases us.len(),
{
    if us.len() > 0 {
        let ud = us.drop_last();
        let n = us.len() - 1;
        law_balances_last_update_wins(m, ud);
        assert forall|j: int|
            0 <= j < us.len() && #[trigger] is_last_update(us, j) implies applied(m, us).dom().contains(
            us[j].0,
        ) && applied(m, us)[us[j].0] == us[j].1 by {
            if j < n {
                assert(us[n].0 != us[j].0);
                assert forall|k: int| j < k < ud.len() implies #[trigger] ud[k].0 != ud[j].0 by {
                    assert(ud[k] == us[k]);
                    assert(us[k].0 != us[j].0);
                }
                assert(is_last_update(ud, j));
                assert(ud[j] == us[j]);
            }
        }
        assert forall|a: Seq<char>| #[trigger] not_updated(us, a) implies (applied(m, us).dom().contains(
            a,
        ) == m.dom().contains(a) && (m.dom().contains(a) ==> applied(m, us)[a] == m[a])) by {
            assert(us[n].0 != a);
            assert forall|k: int| 0 <= k < ud.len() implies #[trigger] ud[k].0 != a by {
                assert(ud[k] == us[k]);
            }
            assert(not_updated(ud, a));
        }
    }
}

/// No later line in `cs` than the `j`-th is for the same symbol.
pub open spec fn is_last_line<V>(cs: Seq<SymbolConfig<V>>, j: int) -> bool {
    forall|k: int| j < k < cs.len() ==> #[trigger] cs[k].symbol@ != cs[j].symbol@
}

/// Law: the configuration table holds exactly the symbols that have a line;
/// each symbol's parameters are those of its last line, field by field: the
/// symbol, the entry and exit amounts and the entry and exit thresholds.
pub proof fn law_configs_keep_their_lines<V>(cs: Seq<SymbolConfig<V>>)
    ensures
        forall|j: int|
            0 <= j < cs.len() && #[trigger] is_last_line(cs, j) ==> {
                let c = configs_map(cs)[cs[j].symbol@];
                &&& configs_map(cs).dom().contains(cs[j].symbol@)
                &&& c.symbol == cs[j].symbol
                &&& c.entry_amount == cs[j].entry_amount
                &&& c.exit_amount == cs[j].exit_amount
                &&& c.entry_threshold == cs[j].entry_threshold
                &&& c.exit_threshold == cs[j].exit_threshold
            },
        forall|k: Seq<char>| #[trigger]
            configs_map(cs).dom().contains(k) <==> exists|j: int|
                0 <= j < cs.len() && #[trigger] cs[j].symbol@ == k,
    decreases cs.len(),
{
    if cs.len() > 0 {
        let cd = cs.drop_last();
        let n = cs.len() - 1;
        law_configs_keep_their_lines(cd);
        assert forall|j: int| 0 <= j < cs.len() && #[trigger] is_last_line(cs, j) implies {
            let c = configs_map(cs)[cs[j].symbol@];
            &&& configs_map(cs).dom().contains(cs[j].symbol@)
            &&& c.symbol == cs[j].symbol
            &&& c.entry_amount == cs[j].entry_amount
            &&& c.exit_amount == cs[j].exit_amount
            &&& c.entry_threshold == cs[j].entry_threshold
            &&& c.exit_threshold == cs[j].exit_threshold
        } by {
            if j < n {
                assert(cs[n].symbol@ != cs[j].symbol@);
                assert forall|k: int| j < k < cd.len() implies #[trigger] cd[k].symbol@ != cd[j].symbol@ by {
                    assert(cd[k] == cs[k]);
                    assert(cs[k].symbol@ != cs[j].symbol@);
                }
                assert(is_last_line(cd, j));
                assert(cd[j] == cs[j]);
            }
        }
        assert forall|k: Seq<char>| #[trigger] configs_map(cs).dom().contains(k) implies exists|j: int|
            0 <= j < cs.len() && #[trigger] cs[j].symbol@ == k by {
            if k == cs[n].symbol@ {
                assert(cs[n].symbol@ == k);
            } else {
                assert(configs_map(cd).dom().contains(k));
                let j = choose|j: int| 0 <= j < cd.len() && #[trigger] cd[j].symbol@ == k;
                assert(cd[j] == cs[j]);
                assert(cs[j].symbol@ == k);
            }
        }
        assert forall|k: Seq<char>|
            (exists|j: int| 0 <= j < cs.len() && #[trigger] cs[j].symbol@ == k) implies #[trigger] configs_map(
            cs,
        ).dom().contains(k) by {
            let j = choose|j: int| 0 <= j < cs.len() && #[trigger] cs[j].symbol@ == k;
            if j < n {
                assert(cd[j] == cs[j]);
                assert(cd[j].symbol@ == k);
                assert(configs_map(cd).dom().contains(k));
            }
        }
    }
}

/// `n` steps up from `h` half steps.
pub open spec fn stepped_up_n(h: u64, n: nat) -> u64
    decreases n,
{
    if n == 0 {
        h
    } else {
        stepped_up(stepped_up_n(h, (n - 1) as nat))
    }
}

/// The state of the trading bot.
pub struct TradingBot<V> {
    price_history: SymbolTable<PriceHistory<V>>,
    positions: SymbolTable<V>,
    real_time_prices: SymbolTable<V>,
    mult: SymbolTable<u64>,
    symbols_config: SymbolTable<Symbol<V>>,
}

impl<V> TradingBot<V> {
    /// Every history holds at most six closes and every multiplier is at
    /// least 1.0 (kept by every method).
    #[verifier::type_invariant]
    pub closed spec fn wf(&self) -> bool {
        &&& forall|k: Seq<char>| #[trigger]
            self.price_history@.dom().contains(k) ==> self.price_history@[k].wf()
        &&& forall|k: Seq<char>| #[trigger]
            self.mult@.dom().contains(k) ==> self.mult@[k] >= BASE_MULT_HALVES
    }
}

impl<V: Copy> TradingBot<V> {
    /// Closing price histories by symbol.
    pub closed spec fn histories(&self) -> Map<Seq<char>, Seq<V>> {
        self.price_history@.map_values(|h: PriceHistory<V>| h@)
    }

    /// Balances by asset (base currency, or `USD` for cash).
    pub closed spec fn positions_view(&self) -> Map<Seq<char>, V> {
        self.positions@
    }

    /// Latest prices by symbol.
    pub closed spec fn prices_view(&self) -> Map<Seq<char>, V> {
        self.real_time_prices@
    }

    /// Multipliers set by symbol, in half steps (2 is 1.0).
    pub closed spec fn mults_view(&self) -> Map<Seq<char>, u64> {
        self.mult@
    }

    /// Trading parameters by symbol.
    pub closed spec fn configs_view(&self) -> Map<Seq<char>, Symbol<V>> {
        self.symbols_config@
    }

    /// The multiplier of `symbol` in half steps: 2 (1.0) unless set.
    pub open spec fn mult_of(&self, symbol: Seq<char>) -> u64 {
        if self.mults_view().dom().contains(symbol) {
            self.mults_view()[symbol]
        } else {
            BASE_MULT_HALVES
        }
    }

    /// The history of `symbol`, empty when it has none.
    pub open spec fn history_of(&self, symbol: Seq<char>) -> Seq<V> {
        if self.histories().dom().contains(symbol) {
            self.histories()[symbol]
        } else {
            Seq::empty()
        }
    }

    /// A return can be taken for `symbol`: six closes are known.
    pub open spec fn return_ready(&self, symbol: Seq<char>) -> bool {
        self.history_of(symbol).len() >= HISTORY_LEN
    }

    /// Every history the bot keeps holds at most six closes, and every
    /// multiplier is at least 1.0.
    pub proof fn lemma_wf(&self)
        requires
            self.wf(),
        ensures
            forall|k: Seq<char>| #[trigger]
                self.histories().dom().contains(k) ==> self.histories()[k].len() <= HISTORY_LEN,
            forall|k: Seq<char>| self.mult_of(k) >= BASE_MULT_HALVES,
    {
        assert forall|k: Seq<char>| #[trigger]
            self.histories().dom().contains(k) implies self.histories()[k].len() <= HISTORY_LEN by {
            assert(self.price_history@.dom().contains(k));
        }
    }

    /// A bot for the configured symbols: each symbol's parameters are kept
    /// (a later line for a symbol replaces an earlier one) and its multiplier
    /// starts at 1.0; there are no positions, prices or histories yet.
    pub fn from_configs(configs: &Vec<SymbolConfig<V>>) -> (b: Self)
        ensures
            b.configs_view() == configs_map(configs@),
            b.mults_view() == Map::new(
                |k: Seq<char>| configs_map(configs@).dom().contains(k),
                |k: Seq<char>| BASE_MULT_HALVES,
            ),
            b.positions_view() == Map::<Seq<char>, V>::empty(),
            b.prices_view() == Map::<Seq<char>, V>::empty(),
            b.histories() == Map::<Seq<char>, Seq<V>>::empty(),
    {
        let mut mult: SymbolTable<u64> = SymbolTable::new();
        let mut symbols_config: SymbolTable<Symbol<V>> = SymbolTable::new();
        let mut i: usize = 0;
        assert(configs@.take(0) =~= Seq::<SymbolConfig<V>>::empty());
        assert(mult@ =~= Map::new(
            |k: Seq<char>| configs_map(configs@.take(0)).dom().contains(k),
            |k: Seq<char>| BASE_MULT_HALVES,
        ));
        while i < configs.len()
            invariant
                i <= configs.len(),
                symbols_config@ == configs_map(configs@.take(i as int)),
                mult@ == Map::new(
                    |k: Seq<char>| configs_map(configs@.take(i as int)).dom().contains(k),
                    |k: Seq<char>| BASE_MULT_HALVES,
                ),
            decreases configs.len() - i,
        {
            let c = &configs[i];
            assert(configs@.take(i + 1).drop_last() =~= configs@.take(i as int));
            assert(configs@.take(i + 1).last() == configs@[i as int]);
            mult.insert(c.symbol.clone(), BASE_MULT_HALVES);
            let sym = Symbol {
                symbol: c.symbol.clone(),
                entry_amount: c.entry_amount,
                exit_amount: c.exit_amount,
                entry_threshold: c.entry_threshold,
                exit_threshold: c.exit_threshold,
            };
            symbols_config.insert(c.symbol.clone(), sym);
            assert(sym == symbol_of_config(configs@[i as int]));
            assert(mult@ =~= Map::new(
                |k: Seq<char>| configs_map(configs@.take(i + 1)).dom().contains(k),
                |k: Seq<char>| BASE_MULT_HALVES,
            ));
            i = i + 1;
        }
        assert(configs@.take(configs.len() as int) =~= configs@);
        let b = TradingBot {
            price_history: SymbolTable::new(),
            positions: SymbolTable::new(),
            real_time_prices: SymbolTable::new(),
            mult,
            symbols_config,
        };
        assert(b.histories() =~= Map::<Seq<char>, Seq<V>>::empty());
        b
    }

    /// The balance of the base currency of `symbol` (`"BTC/USD"` reads the
    /// `BTC` balance; `"USD"` reads cash), if one is known.
    pub fn get_position(&self, symbol: &str) -> (r: Option<V>)
        ensures
            r == lookup(self.positions_view(), base_currency_of(symbol@)),
    {
        proof {
            use_type_invariant(&*self);
        }
        let base = base_currency(symbol);
        self.positions.get_copy(base.as_str())
    }

    /// Sets the balance of `asset`.
    pub fn set_position(&mut self, asset: String, amount: V)
        ensures
            final(self).positions_view() == old(self).positions_view().insert(asset@, amount),
            final(self).prices_view() == old(self).prices_view(),
            final(self).histories() == old(self).histories(),
            final(self).mults_view() == old(self).mults_view(),
            final(self).configs_view() == old(self).configs_view(),
    {
        proof {
            use_type_invariant(&*self);
        }
        let mut t = SymbolTable::new();
        std::mem::swap(&mut t, &mut self.positions);
        t.insert(asset, amount);
        self.positions = t;
    }

    /// The latest price of `symbol`, if one was received.
    pub fn get_real_time_price(&self, symbol: &str) -> (r: Option<V>)
        ensures
            r == lookup(self.prices_view(), symbol@),
    {
        proof {
            use_type_invariant(&*self);
        }
        self.real_time_prices.get_copy(symbol)
    }

    /// Sets the latest price of `symbol`.
    pub fn set_real_time_price(&mut self, symbol: String, price: V)
        ensures
            final(self).prices_view() == old(self).prices_view().insert(symbol@, price),
            final(self).positions_view() == old(self).positions_view(),
            final(self).histories() == old(self).histories(),
            final(self).mults_view() == old(self).mults_view(),
            final(self).configs_view() == old(self).configs_view(),
    {
        proof {
            use_type_invariant(&*self);
        }
        let mut t = SymbolTable::new();
        std::mem::swap(&mut t, &mut self.real_time_prices);
        t.insert(symbol, price);
        self.real_time_prices = t;
    }

    /// The multiplier of `symbol`, in half steps (2 is 1.0, the default).
    pub fn get_mult(&self, symbol: &str) -> (r: u64)
        ensures
            r == self.mult_of(symbol@),
            r >= BASE_MULT_HALVES,
    {
        proof {
            use_type_invariant(&*self);
        }
        match self.mult.get_copy(symbol) {
            Some(m) => m,
            None => BASE_MULT_HALVES,
        }
    }

    /// Sets the multiplier of `symbol` back to 1.0.
    pub fn reset_mult(&mut self, symbol: &str)
        ensures
            final(self).mults_view() == old(self).mults_view().insert(symbol@, BASE_MULT_HALVES),
            final(self).mult_of(symbol@) == BASE_MULT_HALVES,
            final(self).positions_view() == old(self).positions_view(),
            final(self).prices_view() == old(self).prices_view(),
            final(self).histories() == old(self).histories(),
            final(self).configs_view() == old(self).configs_view(),
    {
        proof {
            use_type_invariant(&*self);
        }
        let mut t = SymbolTable::new();
        std::mem::swap(&mut t, &mut self.mult);
        t.insert(<String as StringExecFns>::from_str(symbol), BASE_MULT_HALVES);
        self.mult = t;
    }

    /// Raises the multiplier of `symbol` by one half step (0.5).
    pub fn increase_mult(&mut self, symbol: &str)
        ensures
            final(self).mults_view() == old(self).mults_view().insert(
                symbol@,
                stepped_up(old(self).mult_of(symbol@)),
            ),
            final(self).mult_of(symbol@) == stepped_up(old(self).mult_of(symbol@)),
            final(self).positions_view() == old(self).positions_view(),
            final(self).prices_view() == old(self).prices_view(),
            final(self).histories() == old(self).histories(),
            final(self).configs_view() == old(self).configs_view(),
    {
        proof {
            use_type_invariant(&*self);
        }
        let current = self.get_mult(symbol);
        let next = if current < u64::MAX {
            current + 1
        } else {
            current
        };
        let mut t = SymbolTable::new();
        std::mem::swap(&mut t, &mut self.mult);
        t.insert(<String as StringExecFns>::from_str(symbol), next);
        self.mult = t;
    }

    /// Records a closing price for `symbol`, starting its history if needed.
    pub fn record_close(&mut self, symbol: &str, close: V)
        ensures
            final(self).histories() == old(self).histories().insert(
                symbol@,
                recorded(old(self).history_of(symbol@), close),
            ),
            final(self).positions_view() == old(self).positions_view(),
            final(self).prices_view() == old(self).prices_view(),
            final(self).mults_view() == old(self).mults_view(),
            final(self).configs_view() == old(self).configs_view(),
    {
        proof {
            use_type_invariant(&*self);
        }
        let mut t = SymbolTable::new();
        std::mem::swap(&mut t, &mut self.price_history);
        let ghost before = t@;
        let mut h = match t.remove(symbol) {
            Some(h) => h,
            None => PriceHistory::new(),
        };
        assert(h.wf());
        assert(h@ == old(self).history_of(symbol@));
        h.record_close(close);
        let ghost hv = h@;
        t.insert(<String as StringExecFns>::from_str(symbol), h);
        assert(t@ == before.remove(symbol@).insert(symbol@, h));
        assert forall|k: Seq<char>| #[trigger] t@.dom().contains(k) implies t@[k].wf() by {
            if k != symbol@ {
                assert(before.dom().contains(k));
            }
        }
        self.price_history = t;
        assert(self.histories() =~= old(self).histories().insert(symbol@, hv));
    }

    /// The oldest and newest of the six closes of `symbol`, once six are
    /// known; the symbol's return is `(newest - oldest) / oldest * 100`.
    pub fn calculate_return(&self, symbol: &str) -> (r: Option<(V, V)>)
        ensures
            r is Some <==> self.return_ready(symbol@),
            r matches Some(p) ==> p.0 == self.history_of(symbol@)[0] && p.1 == self.history_of(
                symbol@,
            ).last(),
    {
        proof {
            use_type_invariant(&*self);
        }
        match self.price_history.get(symbol) {
            Some(h) => h.return_endpoints(),
            None => None,
        }
    }

    /// Records the close of every candle of a round, in order.
    pub fn record_candles(&mut self, candles: &Vec<OhlcData<String, V>>)
        ensures
            final(self).histories() == round_histories(
                old(self).histories(),
                candles@.map_values(|c: OhlcData<String, V>| candle_close(c)),
            ),
            final(self).positions_view() == old(self).positions_view(),
            final(self).prices_view() == old(self).prices_view(),
            final(self).mults_view() == old(self).mults_view(),
            final(self).configs_view() == old(self).configs_view(),
    {
        proof {
            use_type_invariant(&*self);
        }
        let ghost cs = candles@.map_values(|c: OhlcData<String, V>| candle_close(c));
        let mut i: usize = 0;
        assert(cs.take(0) =~= Seq::<(Seq<char>, V)>::empty());
        while i < candles.len()
            invariant
                i <= candles.len(),
                cs == candles@.map_values(|c: OhlcData<String, V>| candle_close(c)),
                self.histories() == round_histories(old(self).histories(), cs.take(i as int)),
                self.positions_view() == old(self).positions_view(),
                self.prices_view() == old(self).prices_view(),
                self.mults_view() == old(self).mults_view(),
                self.configs_view() == old(self).configs_view(),
            decreases candles.len() - i,
        {
            assert(cs.take(i + 1).drop_last() =~= cs.take(i as int));
            assert(cs.take(i + 1).last() == candle_close(candles@[i as int]));
            self.record_close(candles[i].symbol.as_str(), candles[i].close);
            i = i + 1;
        }
        assert(cs.take(candles.len() as int) =~= cs);
    }

    /// Applies balance updates, each an (asset, balance) pair, in order.
    pub fn apply_balances(&mut self, updates: &Vec<(String, V)>)
        ensures
            final(self).positions_view() == applied(
                old(self).positions_view(),
                updates@.map_values(|u: (String, V)| (u.0@, u.1)),
            ),
            final(self).prices_view() == old(self).prices_view(),
            final(self).histories() == old(self).histories(),
            final(self).mults_view() == old(self).mults_view(),
            final(self).configs_view() == old(self).configs_view(),
    {
        proof {
            use_type_invariant(&*self);
        }
        let ghost us = updates@.map_values(|u: (String, V)| (u.0@, u.1));
        assert(us.take(0) =~= Seq::<(Seq<char>, V)>::empty());
        let mut i: usize = 0;
        while i < updates.len()
            invariant
                i <= updates.len(),
                us == updates@.map_values(|u: (String, V)| (u.0@, u.1)),
                self.positions_view() == applied(old(self).positions_view(), us.take(i as int)),
                self.prices_view() == old(self).prices_view(),
                self.histories() == old(self).histories(),
                self.mults_view() == old(self).mults_view(),
                self.configs_view() == old(self).configs_view(),
            decreases updates.len() - i,
        {
            assert(us.take(i + 1).drop_last() =~= us.take(i as int));
            assert(us.take(i + 1).last() == (updates@[i as int].0@, updates@[i as int].1));
            let asset = updates[i].0.clone();
            self.set_position(asset, updates[i].1);
            i = i + 1;
        }
        assert(us.take(updates.len() as int) =~= us);
    }

    /// The trading parameters of `symbol`.
    pub fn symbol_config(&self, symbol: &str) -> (r: Option<&Symbol<V>>)
        ensures
            match r {
                Some(c) => self.configs_view().dom().contains(symbol@) && *c == self.configs_view()[symbol@],
                None => !self.configs_view().dom().contains(symbol@),
            },
    {
        proof {
            use_type_invariant(&*self);
        }
        self.symbols_config.get(symbol)
    }

    /// The parameters a signal for `symbol` is judged by: its own, or, for a
    /// symbol without any, those of a configured symbol; none only when no
    /// symbol is configured.
    pub fn signal_config(&self, symbol: &str) -> (r: Option<&Symbol<V>>)
        ensures
            r is None <==> self.configs_view().dom().len() == 0,
            self.configs_view().dom().contains(symbol@) ==> r == Some(&self.configs_view()[symbol@]),
            r matches Some(c) ==> exists|k: Seq<char>| #[trigger]
                self.configs_view().dom().contains(k) && self.configs_view()[k] == *c,
    {
        proof {
            use_type_invariant(&*self);
        }
        proof {
            use_type_invariant(&self.symbols_config);
            self.symbols_config.lemma_key_seq();
        }
        match self.symbols_config.get(symbol) {
            Some(c) => {
                assert(self.configs_view().dom().contains(symbol@));
                Some(c)
            },
            None => {
                if self.symbols_config.len() == 0 {
                    None
                } else {
                    let (k, c) = self.symbols_config.entry_at(0);
                    assert(self.configs_view().dom().contains(k@));
                    Some(c)
                }
            },
        }
    }

    /// The configured symbols, each once.
    pub fn symbols(&self) -> (r: Vec<String>)
        ensures
            r@.map_values(|s: String| s@).to_set() == self.configs_view().dom(),
            r@.map_values(|s: String| s@).no_duplicates(),
    {
        proof {
            use_type_invariant(&*self);
        }
        proof {
            use_type_invariant(&self.symbols_config);
            self.symbols_config.lemma_key_seq();
        }
        self.symbols_config.names()
    }

    /// The assets that a balance is known for, each once.
    pub fn assets(&self) -> (r: Vec<String>)
        ensures
            r@.map_values(|s: String| s@).to_set() == self.positions_view().dom(),
            r@.map_values(|s: String| s@).no_duplicates(),
    {
        proof {
            use_type_invariant(&*self);
        }
        proof {
            use_type_invariant(&self.positions);
            self.positions.lemma_key_seq();
        }
        self.positions.names()
    }

    /// Applies a multiplier change to `symbol`.
    pub fn apply_mult_change(&mut self, symbol: &str, change: MultChange)
        ensures
            final(self).mult_of(symbol@) == match change {
                MultChange::Increase => stepped_up(old(self).mult_of(symbol@)),
                MultChange::Reset => BASE_MULT_HALVES,
                MultChange::Keep => old(self).mult_of(symbol@),
            },
            final(self).mults_view() == match change {
                MultChange::Increase => old(self).mults_view().insert(
                    symbol@,
                    stepped_up(old(self).mult_of(symbol@)),
                ),
                MultChange::Reset => old(self).mults_view().insert(symbol@, BASE_MULT_HALVES),
                MultChange::Keep => old(self).mults_view(),
            },
            final(self).positions_view() == old(self).positions_view(),
            final(self).prices_view() == old(self).prices_view(),
            final(self).histories() == old(self).histories(),
            final(self).configs_view() == old(self).configs_view(),
    {
        proof {
            use_type_invariant(&*self);
        }
        match change {
            MultChange::Increase => self.increase_mult(symbol),
            MultChange::Reset => self.reset_mult(symbol),
            MultChange::Keep => {},
        }
    }

    /// Decides the signal for `symbol`. `inputs` are the comparisons made on
    /// the symbol's return (see `SignalInputs`); there are some exactly when
    /// a return can be taken. Without them the signal is
    /// `Hold`. The symbol gets an (empty) history if it had
    /// none; a buy or sell steps its multiplier up, a near-flat hold resets it.
    pub fn generate_signal(&mut self, symbol: &str, inputs: Option<SignalInputs>) -> (r: Signal)
        requires
            inputs is Some <==> old(self).return_ready(symbol@),
        ensures
            r == match inputs {
                Some(i) => signal_decision(i).0,
                None => Signal::Hold,
            },
            final(self).mult_of(symbol@) == match inputs {
                Some(i) => match signal_decision(i).1 {
                    MultChange::Increase => stepped_up(old(self).mult_of(symbol@)),
                    MultChange::Reset => BASE_MULT_HALVES,
                    MultChange::Keep => old(self).mult_of(symbol@),
                },
                None => old(self).mult_of(symbol@),
            },
            forall|k: Seq<char>| k != symbol@ ==> final(self).mult_of(k) == old(self).mult_of(k),
            final(self).histories() == if old(self).histories().dom().contains(symbol@) {
                old(self).histories()
            } else {
                old(self).histories().insert(symbol@, Seq::<V>::empty())
            },
            final(self).positions_view() == old(self).positions_view(),
            final(self).prices_view() == old(self).prices_view(),
            final(self).configs_view() == old(self).configs_view(),
    {
        proof {
            use_type_invariant(&*self);
        }
        if self.price_history.get(symbol).is_none() {
            let h: PriceHistory<V> = PriceHistory::new();
            let ghost hv = h@;
            let mut t = SymbolTable::new();
            std::mem::swap(&mut t, &mut self.price_history);
            let ghost before = t@;
            t.insert(<String as StringExecFns>::from_str(symbol), h);
            assert forall|k: Seq<char>| #[trigger] t@.dom().contains(k) implies t@[k].wf() by {
                if k != symbol@ {
                    assert(before.dom().contains(k));
                }
            }
            self.price_history = t;
            assert(self.histories() =~= old(self).histories().insert(symbol@, hv));
        }
        match inputs {
            None => Signal::Hold,
            Some(i) => {
                let (signal, change) = decide_signal(i);
                self.apply_mult_change(symbol, change);
                signal
            },
        }
    }
}

/// Law: whatever the bot has done, every multiplier is at least 1.0 (two
/// half steps), and every history holds at most six closes.
pub proof fn law_bot_invariants<V: Copy>(b: &TradingBot<V>, k: Seq<char>)
    requires
        b.wf(),
    ensures
        b.mult_of(k) >= BASE_MULT_HALVES,
        b.history_of(k).len() <= HISTORY_LEN,
{
    b.lemma_wf();
}

/// Law: a balance written for an asset is what every symbol with that base
/// currency reads back (`set_position("BTC", x)` then `get_position("BTC/USD")`
/// gives `x`); a price written for a symbol is what that symbol reads back.
pub proof fn law_read_after_write<V: Copy>(
    before: &TradingBot<V>,
    after: &TradingBot<V>,
    key: Seq<char>,
    value: V,
    symbol: Seq<char>,
)
    ensures
        after.positions_view() == before.positions_view().insert(key, value)
            && base_currency_of(symbol) == key ==> lookup(
            after.positions_view(),
            base_currency_of(symbol),
        ) == Some(value),
        after.prices_view() == before.prices_view().insert(key, value) ==> lookup(
            after.prices_view(),
            key,
        ) == Some(value),
{
}

/// Law: after a round of candles, each symbol's history holds the last six
/// of its earlier closes followed by the round's closes for it, in order; and
/// no history grows beyond six.
pub proof fn law_round_keeps_last_six<V>(h: Map<Seq<char>, Seq<V>>, cs: Seq<(Seq<char>, V)>, s: Seq<char>)
    requires
        history_in(h, s).len() <= HISTORY_LEN,
    ensures
        history_in(round_histories(h, cs), s) == last_six(history_in(h, s) + closes_of(cs, s)),
        history_in(round_histories(h, cs), s).len() <= HISTORY_LEN,
    decreases cs.len(),
{
    if cs.len() == 0 {
        assert(history_in(h, s) + closes_of(cs, s) =~= history_in(h, s));
    } else {
        law_round_keeps_last_six(h, cs.drop_last(), s);
        let prev = round_histories(h, cs.drop_last());
        let before = history_in(h, s) + closes_of(cs.drop_last(), s);
        if cs.last().0 == s {
            lemma_recorded_last_six(before, cs.last().1);
            assert(before.push(cs.last().1) =~= history_in(h, s) + closes_of(cs, s));
        }
    }
}

/// Law: `n` steps up in a row add `n` half steps (0.5 each), as long as the
/// count stays within `u64`.
pub proof fn law_increases_add_up(h: u64, n: nat)
    requires
        h + n <= u64::MAX,
    ensures
        stepped_up_n(h, n) == h + n,
    decreases n,
{
    if n > 0 {
        law_increases_add_up(h, (n - 1) as nat);
    }
}

/// Law: along any run of the bot in which each step raises the multiplier of
/// `symbol` once (`increase_mult`), the multiplier ends `n` half steps higher.
pub proof fn law_increase_mult_n_times<V: Copy>(bots: Seq<TradingBot<V>>, symbol: Seq<char>)
    requires
        bots.len() >= 1,
        forall|i: int|
            0 <= i < bots.len() - 1 ==> #[trigger] bots[i + 1].mult_of(symbol) == stepped_up(
                bots[i].mult_of(symbol),
            ),
        bots[0].mult_of(symbol) + bots.len() - 1 <= u64::MAX,
    ensures
        bots.last().mult_of(symbol) == bots[0].mult_of(symbol) + bots.len() - 1,
    decreases bots.len(),
{
    if bots.len() > 1 {
        let prefix = bots.drop_last();
        assert forall|i: int| 0 <= i < prefix.len() - 1 implies #[trigger] prefix[i + 1].mult_of(symbol)
            == stepped_up(prefix[i].mult_of(symbol)) by {
            assert(prefix[i + 1] == bots[i + 1]);
            assert(prefix[i] == bots[i]);
        }
        law_increase_mult_n_times(prefix, symbol);
        let j = bots.len() - 2;
        assert(bots[j + 1].mult_of(symbol) == stepped_up(bots[j].mult_of(symbol)));
        assert(bots.last() == bots[j + 1]);
    }
}

} // verus!
