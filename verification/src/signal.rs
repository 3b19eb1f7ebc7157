//! Trading signals: the decision rules that turn price movements into buy,
//! sell or hold, and how signals are shown in the status report.

use vstd::prelude::*;
use crate::parse::{base_currency, base_currency_of};
use crate::text::{chars_of, str_eq};
use crate::trade::OrderSide;

verus! {

/// The recommendation for one symbol.
#[derive(PartialEq, Eq, Structural, Clone, Copy, Debug)]
pub enum Signal {
    Buy,
    Sell,
    /// No action: no rule fired, or fewer than six closes are known.
    Hold,
}

/// What a decision does to the symbol's position multiplier.
#[derive(PartialEq, Eq, Structural, Clone, Copy, Debug)]
pub enum MultChange {
    /// Add one half step (0.5).
    Increase,
    /// Back to 1.0.
    Reset,
    /// Leave it as it is.
    Keep,
}

/// The comparisons that a signal is decided on, made on the symbol's return
/// `r` (in percent), its entry and exit thresholds (each scaled by the
/// multiplier) and its position.
#[derive(PartialEq, Eq, Structural, Clone, Copy, Debug)]
pub struct SignalInputs {
    /// `r < entry_threshold * mult`
    pub below_entry: bool,
    /// `r > exit_threshold * mult`
    pub above_exit: bool,
    /// the position in the base currency is above zero
    pub has_position: bool,
    /// `-0.5 < r < 0.5`
    pub near_flat: bool,
}

/// The rule: buy on a drop below the entry threshold when nothing is held;
/// sell on a rise above the exit threshold when something is held; both step
/// the multiplier up. A return near zero holds and resets the multiplier;
/// anything else holds.
pub open spec fn signal_decision(i: SignalInputs) -> (Signal, MultChange) {
    if i.below_entry && !i.has_position {
        (Signal::Buy, MultChange::Increase)
    } else if i.above_exit && i.has_position {
        (Signal::Sell, MultChange::Increase)
    } else if i.near_flat {
        (Signal::Hold, MultChange::Reset)
    } else {
        (Signal::Hold, MultChange::Keep)
    }
}

/// Decides the signal and the multiplier change for one symbol.
pub fn decide_signal(inputs: SignalInputs) -> (r: (Signal, MultChange))
    ensures
        r == signal_decision(inputs),
{
    if inputs.below_entry && !inputs.has_position {
        (Signal::Buy, MultChange::Increase)
    } else if inputs.above_exit && inputs.has_position {
        (Signal::Sell, MultChange::Increase)
    } else if inputs.near_flat {
        (Signal::Hold, MultChange::Reset)
    } else {
        (Signal::Hold, MultChange::Keep)
    }
}

/// Law: a buy is signalled exactly on a drop below the entry threshold with
/// nothing held, a sell exactly on a rise above the exit threshold while
/// holding; exactly these two step the multiplier up. Otherwise the signal is
/// a hold, which resets the multiplier exactly when the return is near flat
/// (whether or not anything is held) and leaves it alone otherwise.
pub proof fn law_signal_rules(i: SignalInputs)
    ensures
        signal_decision(i).0 == Signal::Buy <==> i.below_entry && !i.has_position,
        signal_decision(i).0 == Signal::Sell ==> i.above_exit && i.has_position,
        signal_decision(i).1 == MultChange::Increase <==> (signal_decision(i).0 == Signal::Buy
            || signal_decision(i).0 == Signal::Sell),
        signal_decision(i).1 == MultChange::Reset ==> signal_decision(i).0 == Signal::Hold
            && i.near_flat,
        signal_decision(i) == (Signal::Buy, MultChange::Increase) <==> i.below_entry
            && !i.has_position,
        signal_decision(i) == (Signal::Sell, MultChange::Increase) <==> i.above_exit
            && i.has_position,
        signal_decision(i) == (Signal::Hold, MultChange::Reset) <==> i.near_flat && !(
        i.below_entry && !i.has_position) && !(i.above_exit && i.has_position),
        signal_decision(i) == (Signal::Hold, MultChange::Keep) <==> !i.near_flat && !(
        i.below_entry && !i.has_position) && !(i.above_exit && i.has_position),
{
}

impl Signal {
    /// The signal's name as the report and the trade step read it.
    pub open spec fn text(self) -> Seq<char> {
        match self {
            Signal::Buy => "BUY"@,
            Signal::Sell => "SELL"@,
            Signal::Hold => "HOLD"@,
        }
    }

    /// The signal's name: `BUY`, `SELL` or `HOLD`.
    pub fn as_str(&self) -> (r: &'static str)
        ensures
            r@ == self.text(),
    {
        match self {
            Signal::Buy => "BUY",
            Signal::Sell => "SELL",
            Signal::Hold => "HOLD",
        }
    }

    /// The mark that stands for the signal in the status report.
    pub open spec fn marker_text(self) -> Seq<char> {
        match self {
            Signal::Buy => "<b>B</b>"@,
            Signal::Sell => "<b>S</b>"@,
            _ => "H"@,
        }
    }

    /// The report's mark: `<b>B</b>` for buy, `<b>S</b>` for sell, `H` otherwise.
    pub fn marker(&self) -> (r: &'static str)
        ensures
            r@ == self.marker_text(),
    {
        match self {
            Signal::Buy => "<b>B</b>",
            Signal::Sell => "<b>S</b>",
            _ => "H",
        }
    }

    /// The order side that a signal asks for, if any.
    pub open spec fn side(self) -> Option<OrderSide> {
        match self {
            Signal::Buy => Some(OrderSide::Buy),
            Signal::Sell => Some(OrderSide::Sell),
            _ => None,
        }
    }

    /// The order side to trade on: buy and sell signals trade, holds do not.
    pub fn trade_side(&self) -> (r: Option<OrderSide>)
        ensures
            r == self.side(),
    {
        match self {
            Signal::Buy => Some(OrderSide::Buy),
            Signal::Sell => Some(OrderSide::Sell),
            _ => None,
        }
    }
}

/// The action of the streaming strategy on one ticker update.
#[derive(PartialEq, Eq, Structural, Clone, Copy, Debug)]
pub enum SimpleAction {
    Buy,
    Sell,
    /// The day's change is near zero: the multiplier goes back to 1.0.
    Flat,
    NoAction,
}

/// The streaming strategy's rule on the day's change `c` (in percent): buy
/// below the scaled entry threshold, else sell above the scaled exit
/// threshold, else flat when `-0.5 < c < 0.5`.
pub open spec fn simple_decision(below_entry: bool, above_exit: bool, near_flat: bool) -> SimpleAction {
    if below_entry {
        SimpleAction::Buy
    } else if above_exit {
        SimpleAction::Sell
    } else if near_flat {
        SimpleAction::Flat
    } else {
        SimpleAction::NoAction
    }
}

/// Decides the streaming strategy's action on one ticker update.
pub fn decide_simple_action(below_entry: bool, above_exit: bool, near_flat: bool) -> (r: SimpleAction)
    ensures
        r == simple_decision(below_entry, above_exit, near_flat),
{
    if below_entry {
        SimpleAction::Buy
    } else if above_exit {
        SimpleAction::Sell
    } else if near_flat {
        SimpleAction::Flat
    } else {
        SimpleAction::NoAction
    }
}

impl SimpleAction {
    /// The multiplier change that goes with the action.
    pub open spec fn mult_change_spec(self) -> MultChange {
        match self {
            SimpleAction::Buy | SimpleAction::Sell => MultChange::Increase,
            SimpleAction::Flat => MultChange::Reset,
            SimpleAction::NoAction => MultChange::Keep,
        }
    }

    /// Buying and selling step the multiplier up; flat resets it.
    pub fn mult_change(&self) -> (r: MultChange)
        ensures
            r == self.mult_change_spec(),
    {
        match self {
            SimpleAction::Buy | SimpleAction::Sell => MultChange::Increase,
            SimpleAction::Flat => MultChange::Reset,
            SimpleAction::NoAction => MultChange::Keep,
        }
    }
}

/// Decimal places that order sizes and prices of `symbol` are rounded to.
pub open spec fn price_decimals_spec(symbol: Seq<char>) -> u32 {
    if symbol == "BTC/USD"@ {
        4
    } else {
        2
    }
}

/// Four decimal places for `BTC/USD`, two for every other symbol.
pub fn price_decimals(symbol: &str) -> (r: u32)
    ensures
        r == price_decimals_spec(symbol@),
{
    if str_eq(symbol, "BTC/USD") {
        4
    } else {
        2
    }
}

/// `s` padded with spaces on the right to four characters.
pub open spec fn pad4(s: Seq<char>) -> Seq<char> {
    if s.len() >= 4 {
        s
    } else {
        s + Seq::new((4 - s.len()) as nat, |i: int| ' ')
    }
}

/// The report's column for a symbol: the first four characters of its base
/// currency, padded with spaces to four.
pub open spec fn report_id_spec(symbol: Seq<char>) -> Seq<char> {
    let base = base_currency_of(symbol);
    pad4(if base.len() > 4 { base.take(4) } else { base })
}

/// The report's column for a symbol (`"BTC/USD"` gives `"BTC "`).
pub fn report_id(symbol: &str) -> (r: String)
    ensures
        r@ == report_id_spec(symbol@),
{
    let base = base_currency(symbol);
    let cs = chars_of(base.as_str());
    let n = if cs.len() > 4 {
        4
    } else {
        cs.len()
    };
    let mut r = crate::text::string_from_range(&cs, 0, n);
    let ghost head = r@;
    assert(head =~= (if base@.len() > 4 { base@.take(4) } else { base@ }));
    let mut k = n;
    while k < 4
        invariant
            n <= k <= 4,
            r@ == head + Seq::new((k - n) as nat, |i: int| ' '),
        decreases 4 - k,
    {
        r.push(' ');
        assert(r@ =~= head + Seq::new((k + 1 - n) as nat, |i: int| ' '));
        k = k + 1;
    }
    assert(r@ =~= report_id_spec(symbol@));
    r
}

/// The symbol names (by characters) of a list of strings.
pub open spec fn names_of(v: Seq<String>) -> Seq<Seq<char>> {
    v.map_values(|s: String| s@)
}

/// The trades a round makes, in the order of `signals`: each symbol whose
/// signal is a buy or a sell and for which a candle was received, with the
/// side of its signal.
pub open spec fn trades_spec(signals: Seq<(Seq<char>, Signal)>, candles: Seq<Seq<char>>) -> Seq<
    (Seq<char>, OrderSide),
>
    decreases signals.len(),
{
    if signals.len() == 0 {
        Seq::empty()
    } else {
        let rest = trades_spec(signals.drop_last(), candles);
        let (s, sig) = signals.last();
        match sig.side() {
            Some(side) => if candles.contains(s) {
                rest.push((s, side))
            } else {
                rest
            },
            None => rest,
        }
    }
}

/// A signal asks for a trade in a round: it is a buy or a sell, and a candle
/// was received for its symbol.
pub open spec fn trade_wanted(p: (Seq<char>, Signal), candles: Seq<Seq<char>>) -> bool {
    p.1.side() is Some && candles.contains(p.0)
}

/// The signals of a round that ask for a trade.
pub open spec fn wanted_in(candles: Seq<Seq<char>>) -> spec_fn((Seq<char>, Signal)) -> bool {
    |p: (Seq<char>, Signal)| trade_wanted(p, candles)
}

/// Law: every buy or sell signal of a symbol that a candle was received for
/// gives a trade of that symbol on the signal's side; every trade comes from
/// such a signal; and there are exactly as many trades as such signals (none
/// is dropped or merged, whatever the sides of the others).
pub proof fn law_trades_follow_signals(signals: Seq<(Seq<char>, Signal)>, candles: Seq<Seq<char>>)
    ensures
        forall|j: int|
            0 <= j < signals.len() && #[trigger] trade_wanted(signals[j], candles) ==> trades_spec(
                signals,
                candles,
            ).contains((signals[j].0, signals[j].1.side().unwrap())),
        forall|t: (Seq<char>, OrderSide)| #[trigger]
            trades_spec(signals, candles).contains(t) ==> exists|j: int|
                0 <= j < signals.len() && #[trigger] trade_wanted(signals[j], candles) && t == (
                signals[j].0,
                signals[j].1.side().unwrap(),
            ),
        trades_spec(signals, candles).len() == signals.filter(wanted_in(candles)).len(),
    decreases signals.len(),
{
    reveal(Seq::filter);
    if signals.len() == 0 {
        assert(signals.filter(wanted_in(candles)).len() == 0);
    } else {
        let sd = signals.drop_last();
        let n = signals.len() - 1;
        law_trades_follow_signals(sd, candles);
        let rest = trades_spec(sd, candles);
        let out = trades_spec(signals, candles);
        let last = signals.last();
        assert(signals.filter(wanted_in(candles)) == if wanted_in(candles)(last) {
            sd.filter(wanted_in(candles)).push(last)
        } else {
            sd.filter(wanted_in(candles))
        });
        assert(trade_wanted(last, candles) ==> out == rest.push((last.0, last.1.side().unwrap())));
        assert(!trade_wanted(last, candles) ==> out == rest);
        assert forall|j: int|
            0 <= j < signals.len() && #[trigger] trade_wanted(signals[j], candles) implies out.contains(
            (signals[j].0, signals[j].1.side().unwrap()),
        ) by {
            let x = (signals[j].0, signals[j].1.side().unwrap());
            if j == n {
                assert(out[out.len() - 1] == x);
            } else {
                assert(sd[j] == signals[j]);
                assert(trade_wanted(sd[j], candles));
                assert(rest.contains(x));
                let k = choose|k: int| 0 <= k < rest.len() && rest[k] == x;
                if trade_wanted(last, candles) {
                    assert(out[k] == x);
                }
            }
        }
        assert forall|t: (Seq<char>, OrderSide)| #[trigger] out.contains(t) implies exists|j: int|
            0 <= j < signals.len() && #[trigger] trade_wanted(signals[j], candles) && t == (
            signals[j].0,
            signals[j].1.side().unwrap(),
        ) by {
            let k = choose|k: int| 0 <= k < out.len() && out[k] == t;
            if trade_wanted(last, candles) && k == out.len() - 1 {
                assert(signals[n] == last);
                assert(trade_wanted(signals[n], candles));
            } else {
                assert(rest[k] == t);
                assert(rest.contains(t));
                let j = choose|j: int|
                    0 <= j < sd.len() && #[trigger] trade_wanted(sd[j], candles) && t == (
                    sd[j].0,
                    sd[j].1.side().unwrap(),
                );
                assert(sd[j] == signals[j]);
                assert(trade_wanted(signals[j], candles));
            }
        }
    }
}

/// `name` is one of `names`.
fn is_listed(names: &Vec<String>, name: &str) -> (r: bool)
    ensures
        r == names_of(names@).contains(name@),
{
    let mut i: usize = 0;
    while i < names.len()
        invariant
            i <= names.len(),
            forall|j: int| 0 <= j < i ==> names@[j]@ != name@,
        decreases names.len() - i,
    {
        if str_eq(names[i].as_str(), name) {
            assert(names_of(names@)[i as int] == name@);
            return true;
        }
        i = i + 1;
    }
    assert forall|j: int| 0 <= j < names_of(names@).len() implies names_of(names@)[j] != name@ by {
        assert(names_of(names@)[j] == names@[j]@);
    }
    false
}

/// The trades to make after deciding `signals`, given the symbols that
/// candles were received for.
pub fn trades_for(signals: &Vec<(String, Signal)>, candle_symbols: &Vec<String>) -> (r: Vec<(String, OrderSide)>)
    ensures
        r@.map_values(|t: (String, OrderSide)| (t.0@, t.1)) == trades_spec(
            signals@.map_values(|t: (String, Signal)| (t.0@, t.1)),
            names_of(candle_symbols@),
        ),
{
    let ghost sv = signals@.map_values(|t: (String, Signal)| (t.0@, t.1));
    let mut r: Vec<(String, OrderSide)> = Vec::new();
    let mut i: usize = 0;
    assert(sv.take(0) =~= Seq::<(Seq<char>, Signal)>::empty());
    while i < signals.len()
        invariant
            i <= signals.len(),
            sv == signals@.map_values(|t: (String, Signal)| (t.0@, t.1)),
            r@.map_values(|t: (String, OrderSide)| (t.0@, t.1)) == trades_spec(
                sv.take(i as int),
                names_of(candle_symbols@),
            ),
        decreases signals.len() - i,
    {
        let ghost before = r@.map_values(|t: (String, OrderSide)| (t.0@, t.1));
        assert(sv.take(i + 1).drop_last() =~= sv.take(i as int));
        assert(sv.take(i + 1).last() == (signals@[i as int].0@, signals@[i as int].1));
        let sig = signals[i].1;
        match sig.trade_side() {
            Some(side) => {
                if is_listed(candle_symbols, signals[i].0.as_str()) {
                    let name = signals[i].0.clone();
                    r.push((name, side));
                    assert(r@.map_values(|t: (String, OrderSide)| (t.0@, t.1)) =~= before.push(
                        (name@, side),
                    ));
                }
            },
            None => {},
        }
        i = i + 1;
    }
    assert(sv.take(signals.len() as int) =~= sv);
    r
}

} // verus!
