//! OHLC (open, high, low, close) candles read from the exchange's market data
//! log text, and the bookkeeping of a collection round.

use vstd::prelude::*;
use vstd::string::StringExecFns;
use crate::parse::{field_i64, field_unquoted, int_field, opt_chars, unquoted_field};
use crate::table::SymbolTable;
use crate::text::{chars_of, contains, contains_exec, find_from, find_from_exec, lemma_find_from, subvec};

verus! {

/// One candle of a trading symbol. `S` holds the texts (symbol, interval
/// start), `F` the prices and the volume (text as read, numbers once parsed).
pub struct OhlcData<S, F> {
    pub symbol: S,
    pub open: F,
    pub high: F,
    pub low: F,
    pub close: F,
    pub vwap: F,
    pub trades: i64,
    pub volume: F,
    pub interval_begin: S,
    pub interval: i64,
}

/// A candle as read from text: texts by their characters, each number as the
/// text found for it (absent when the field was not found).
pub type OhlcText = OhlcData<Seq<char>, Option<Seq<char>>>;

/// A read candle taken by the characters of its strings.
pub open spec fn ohlc_text_view(r: OhlcData<String, Option<String>>) -> OhlcText {
    OhlcData {
        symbol: r.symbol@,
        open: opt_chars(r.open),
        high: opt_chars(r.high),
        low: opt_chars(r.low),
        close: opt_chars(r.close),
        vwap: opt_chars(r.vwap),
        trades: r.trades,
        volume: opt_chars(r.volume),
        interval_begin: r.interval_begin@,
        interval: r.interval,
    }
}

/// The candle that one `Ohlc { symbol: ... }` entry describes; each field's
/// value is taken without the double quotes at its ends. A missing
/// symbol or interval start reads `unknown`, missing trades 0, a missing
/// interval 60.
pub open spec fn ohlc_record(seg: Seq<char>) -> OhlcText {
    OhlcData {
        symbol: match unquoted_field(seg, "symbol:"@, ","@) {
            Some(v) => v,
            None => "unknown"@,
        },
        open: unquoted_field(seg, "open:"@, ","@),
        high: unquoted_field(seg, "high:"@, ","@),
        low: unquoted_field(seg, "low:"@, ","@),
        close: unquoted_field(seg, "close:"@, ","@),
        vwap: unquoted_field(seg, "vwap:"@, ","@),
        trades: match int_field(seg, "trades:"@, ","@) {
            Some(v) => v,
            None => 0,
        },
        volume: unquoted_field(seg, "volume:"@, ","@),
        interval_begin: match unquoted_field(seg, "interval_begin:"@, ","@) {
            Some(v) => v,
            None => "unknown"@,
        },
        interval: match int_field(seg, "interval:"@, seq![' ', '}']) {
            Some(v) => v,
            None => 60,
        },
    }
}

/// The candles of the entries from `pos` on: each entry runs from
/// `Ohlc { symbol: ` to the first ` }` after it; scanning stops at the first
/// entry without an end.
pub open spec fn ohlc_scan(line: Seq<char>, pos: int) -> Seq<OhlcText>
    decreases line.len() - pos,
{
    match find_from(line, "Ohlc { symbol: "@, pos) {
        None => Seq::empty(),
        Some(p) => match find_from(line, seq![' ', '}'], p) {
            None => Seq::empty(),
            Some(e) => {
                proof {
                    lemma_find_from(line, "Ohlc { symbol: "@, pos);
                    lemma_find_from(line, seq![' ', '}'], p);
                }
                seq![ohlc_record(line.subrange(p, e + 2))] + ohlc_scan(line, e + 2)
            },
        },
    }
}

/// What reading a log line gives: nothing unless it holds a market data
/// response with candles, else all its candles, in order.
pub open spec fn ohlc_from_log(line: Seq<char>) -> Option<Seq<OhlcText>> {
    if !contains(line, "Ohlc(MarketDataResponse"@) || ohlc_scan(line, 0).len() == 0 {
        None
    } else {
        Some(ohlc_scan(line, 0))
    }
}

/// The candle that the entry `seg` describes.
fn read_ohlc_entry(seg: &Vec<char>) -> (r: OhlcData<String, Option<String>>)
    ensures
        ohlc_text_view(r) == ohlc_record(seg@),
{
    let symbol = match field_unquoted(seg, "symbol:", ",") {
        Some(v) => v,
        None => <String as StringExecFns>::from_str("unknown"),
    };
    let trades = match field_i64(seg, "trades:", ",") {
        Some(v) => v,
        None => 0,
    };
    let interval_begin = match field_unquoted(seg, "interval_begin:", ",") {
        Some(v) => v,
        None => <String as StringExecFns>::from_str("unknown"),
    };
    let interval = match field_i64(seg, "interval:", " }") {
        Some(v) => v,
        None => 60,
    };
    proof {
        reveal_strlit(" }");
        assert(" }"@ =~= seq![' ', '}']);
    }
    OhlcData {
        symbol,
        open: field_unquoted(seg, "open:", ","),
        high: field_unquoted(seg, "high:", ","),
        low: field_unquoted(seg, "low:", ","),
        close: field_unquoted(seg, "close:", ","),
        vwap: field_unquoted(seg, "vwap:", ","),
        trades,
        volume: field_unquoted(seg, "volume:", ","),
        interval_begin,
        interval,
    }
}

/// Reads the candles out of a market data log line.
pub fn extract_ohlc_data_from_log(log_line: &str) -> (r: Option<Vec<OhlcData<String, Option<String>>>>)
    ensures
        match r {
            Some(v) => ohlc_from_log(log_line@) == Some(v@.map_values(
                |x: OhlcData<String, Option<String>>| ohlc_text_view(x),
            )),
            None => ohlc_from_log(log_line@) is None,
        },
{
    if !contains_exec(log_line, "Ohlc(MarketDataResponse") {
        return None;
    }
    let line = chars_of(log_line);
    let start_key = chars_of("Ohlc { symbol: ");
    let end_key = vec![' ', '}'];
    assert(end_key@ =~= seq![' ', '}']);
    let mut out: Vec<OhlcData<String, Option<String>>> = Vec::new();
    let mut pos: usize = 0;
    loop
        invariant
            pos <= line.len(),
            line@ == log_line@,
            start_key@ == "Ohlc { symbol: "@,
            end_key@ == seq![' ', '}'],
            ohlc_scan(line@, 0) == out@.map_values(
                |x: OhlcData<String, Option<String>>| ohlc_text_view(x),
            ) + ohlc_scan(line@, pos as int),
        ensures
            pos <= line.len(),
            ohlc_scan(line@, 0) == out@.map_values(
                |x: OhlcData<String, Option<String>>| ohlc_text_view(x),
            ),
        decreases line.len() - pos,
    {
        let p = match find_from_exec(&line, &start_key, pos) {
            Some(p) => p,
            None => {
                assert(ohlc_scan(line@, pos as int) =~= Seq::<OhlcText>::empty());
                assert(out@.map_values(|x: OhlcData<String, Option<String>>| ohlc_text_view(x))
                    + Seq::<OhlcText>::empty() =~= out@.map_values(
                    |x: OhlcData<String, Option<String>>| ohlc_text_view(x),
                ));
                break;
            },
        };
        proof {
            lemma_find_from(line@, start_key@, pos as int);
        }
        let e = match find_from_exec(&line, &end_key, p) {
            Some(e) => e,
            None => {
                assert(ohlc_scan(line@, pos as int) =~= Seq::<OhlcText>::empty());
                assert(out@.map_values(|x: OhlcData<String, Option<String>>| ohlc_text_view(x))
                    + Seq::<OhlcText>::empty() =~= out@.map_values(
                    |x: OhlcData<String, Option<String>>| ohlc_text_view(x),
                ));
                break;
            },
        };
        proof {
            lemma_find_from(line@, end_key@, p as int);
        }
        let seg = subvec(&line, p, e + 2);
        let rec = read_ohlc_entry(&seg);
        let ghost before = out@.map_values(|x: OhlcData<String, Option<String>>| ohlc_text_view(x));
        out.push(rec);
        assert(out@.map_values(|x: OhlcData<String, Option<String>>| ohlc_text_view(x)) =~= before.push(
            ohlc_text_view(rec),
        ));
        assert(ohlc_scan(line@, pos as int) == seq![ohlc_record(line@.subrange(p as int, e + 2))]
            + ohlc_scan(line@, e + 2));
        assert(before.push(ohlc_text_view(rec)) + ohlc_scan(line@, e + 2) =~= before + (seq![
            ohlc_record(line@.subrange(p as int, e + 2))] + ohlc_scan(line@, e + 2)));
        pos = e + 2;
    }
    if out.len() == 0 {
        None
    } else {
        Some(out)
    }
}

/// The candles gathered in one collection round, and the symbols heard from.
pub struct OhlcCollector<F> {
    received: SymbolTable<()>,
    all: Vec<OhlcData<String, F>>,
}

impl<F> OhlcCollector<F> {
    /// The symbols that at least one candle was received for.
    pub closed spec fn symbols_seen(&self) -> Set<Seq<char>> {
        self.received@.dom()
    }

    /// Every candle received, in arrival order.
    pub closed spec fn candles(&self) -> Seq<OhlcData<String, F>> {
        self.all@
    }

    /// A round that has received nothing.
    pub fn new() -> (c: Self)
        ensures
            c.symbols_seen() == Set::<Seq<char>>::empty(),
            c.candles() == Seq::<OhlcData<String, F>>::empty(),
    {
        OhlcCollector { received: SymbolTable::new(), all: Vec::new() }
    }

    /// Takes in one candle.
    pub fn add(&mut self, entry: OhlcData<String, F>)
        ensures
            final(self).symbols_seen() == old(self).symbols_seen().insert(entry.symbol@),
            final(self).candles() == old(self).candles().push(entry),
    {
        let key = entry.symbol.clone();
        self.received.insert(key, ());
        self.all.push(entry);
    }

    /// How many distinct symbols were heard from.
    pub fn received_count(&self) -> (n: usize)
        ensures
            n == self.symbols_seen().len(),
    {
        self.received.len()
    }

    /// The round should go on: fewer than `wanted` symbols were heard from.
    pub fn needs_more(&self, wanted: usize) -> (r: bool)
        ensures
            r == (self.symbols_seen().len() < wanted),
    {
        self.received.len() < wanted
    }

    /// The candles received, in arrival order.
    pub fn into_candles(self) -> (v: Vec<OhlcData<String, F>>)
        ensures
            v@ == self.candles(),
    {
        self.all
    }
}

} // verus!
