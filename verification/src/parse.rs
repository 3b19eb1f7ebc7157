//! Reading values out of the exchange's messages as the bot sees them (their
//! debug text): named fields, asset balances and ticker prices. Numbers that
//! are floating point leave this module as the text that denotes them.

use vstd::prelude::*;
use vstd::string::StringExecFns;
use crate::text::{chars_of, contains, contains_exec, find, find_from, find_from_exec, find_value_end_exec, find_value_end_from, lemma_find_from, lemma_find_value_end_from, parse_i64, parse_i64_range, string_from_range, trim, trim_range, unquote, unquote_range};

verus! {

/// The characters of an optional string.
pub open spec fn opt_chars(o: Option<String>) -> Option<Seq<char>> {
    match o {
        Some(s) => Some(s@),
        None => None,
    }
}

/// The base currency of a trading pair: the part before the first `/`, or
/// the whole symbol when it has none (`"BTC/USD"` gives `"BTC"`).
pub open spec fn base_currency_of(symbol: Seq<char>) -> Seq<char> {
    match find(symbol, seq!['/']) {
        Some(i) => symbol.take(i),
        None => symbol,
    }
}

/// The value of the field `field` in `text`: what follows the first
/// occurrence of `field`, up to the first `delim` after it, with white space
/// trimmed at both ends.
pub open spec fn string_field(text: Seq<char>, field: Seq<char>, delim: Seq<char>) -> Option<
    Seq<char>,
> {
    match find(text, field) {
        None => None,
        Some(i) => {
            let start = i + field.len();
            match find_from(text, delim, start) {
                None => None,
                Some(e) => Some(trim(text.subrange(start, e))),
            }
        },
    }
}

/// The field's value with the double quotes at both of its ends removed, as
/// the candle and number readers take it.
pub open spec fn unquoted_field(text: Seq<char>, field: Seq<char>, delim: Seq<char>) -> Option<
    Seq<char>,
> {
    match string_field(text, field, delim) {
        None => None,
        Some(v) => Some(unquote(v)),
    }
}

/// The field's (unquoted) value read as an `i64`.
pub open spec fn int_field(text: Seq<char>, field: Seq<char>, delim: Seq<char>) -> Option<i64> {
    match unquoted_field(text, field, delim) {
        None => None,
        Some(v) => parse_i64(v),
    }
}

/// The text `asset: "<base>"` that introduces an asset's entry in a balance message.
pub open spec fn asset_marker(symbol: Seq<char>) -> Seq<char> {
    "asset: \""@ + base_currency_of(symbol) + seq!['"']
}

/// The balance text of the base currency of `symbol` in a balance message:
/// after the asset's marker, the first `balance: `, up to the next `,` or `}`,
/// trimmed.
pub open spec fn asset_balance_text(message: Seq<char>, symbol: Seq<char>) -> Option<Seq<char>> {
    match find(message, asset_marker(symbol)) {
        None => None,
        Some(a) => match find_from(message, "balance: "@, a) {
            None => None,
            Some(b) => {
                let start = b + "balance: "@.len();
                match find_value_end_from(message, start) {
                    None => None,
                    Some(e) => Some(trim(message.subrange(start, e))),
                }
            },
        },
    }
}

/// The `last` price text for `symbol` in a ticker message: only when the
/// message names the symbol; after the first `last:`, up to the next `,` or
/// `}`, trimmed.
pub open spec fn ticker_price_text(message: Seq<char>, symbol: Seq<char>) -> Option<Seq<char>> {
    if !contains(message, symbol) {
        None
    } else {
        match find(message, "last:"@) {
            None => None,
            Some(l) => {
                let start = l + "last:"@.len();
                match find_value_end_from(message, start) {
                    None => None,
                    Some(e) => Some(trim(message.subrange(start, e))),
                }
            },
        }
    }
}

/// A message carries balances when it mentions `asset:` or `Balance {`.
pub open spec fn is_balance_message_spec(message: Seq<char>) -> bool {
    contains(message, "asset:"@) || contains(message, "Balance {"@)
}

/// Balance updates for the trading symbols, in order: the asset (base
/// currency) and the balance text, for each symbol whose balance is present.
pub open spec fn symbol_balance_updates(message: Seq<char>, symbols: Seq<Seq<char>>) -> Seq<
    (Seq<char>, Seq<char>),
>
    decreases symbols.len(),
{
    if symbols.len() == 0 {
        Seq::empty()
    } else {
        let rest = symbol_balance_updates(message, symbols.drop_last());
        match asset_balance_text(message, symbols.last()) {
            Some(t) => rest.push((base_currency_of(symbols.last()), t)),
            None => rest,
        }
    }
}

/// All balance updates that a balance message gives: USD first, then the
/// trading symbols.
pub open spec fn balance_updates_spec(message: Seq<char>, symbols: Seq<Seq<char>>) -> Seq<
    (Seq<char>, Seq<char>),
> {
    let usd = match asset_balance_text(message, "USD"@) {
        Some(t) => seq![("USD"@, t)],
        None => Seq::empty(),
    };
    usd + symbol_balance_updates(message, symbols)
}

/// The base currency of a trading pair (`"BTC/USD"` gives `"BTC"`).
pub fn base_currency(symbol: &str) -> (r: String)
    ensures
        r@ == base_currency_of(symbol@),
{
    let s = chars_of(symbol);
    let slash = vec!['/'];
    assert(slash@ =~= seq!['/']);
    match find_from_exec(&s, &slash, 0) {
        Some(i) => {
            proof {
                lemma_find_from(s@, slash@, 0);
                assert(s@.take(i as int) =~= s@.subrange(0, i as int));
            }
            string_from_range(&s, 0, i)
        },
        None => {
            assert(s@.subrange(0, s@.len() as int) =~= s@);
            string_from_range(&s, 0, s.len())
        },
    }
}

/// The bounds of the trimmed value of `field` in `text`, if it has one.
fn field_range(text: &Vec<char>, field: &str, delim: &str) -> (r: Option<(usize, usize)>)
    ensures
        match r {
            Some(p) => p.0 <= p.1 <= text.len() && string_field(text@, field@, delim@) == Some(
                text@.subrange(p.0 as int, p.1 as int),
            ),
            None => string_field(text@, field@, delim@) is None,
        },
{
    let f = chars_of(field);
    let d = chars_of(delim);
    match find_from_exec(text, &f, 0) {
        None => None,
        Some(i) => {
            proof {
                lemma_find_from(text@, f@, 0);
            }
            let start = i + f.len();
            match find_from_exec(text, &d, start) {
                None => None,
                Some(e) => {
                    proof {
                        lemma_find_from(text@, d@, start as int);
                    }
                    let (a, b) = trim_range(text, start, e);
                    Some((a, b))
                },
            }
        },
    }
}

/// The value of the field `field_name` in `text`, up to `delimiter`, trimmed.
///
/// `extract_string_field("symbol: \"BTC/USD\", price: 45000", "symbol:", ",")`
/// gives `"\"BTC/USD\""` (the quotes stay).
pub fn extract_string_field(text: &str, field_name: &str, delimiter: &str) -> (r: Option<String>)
    ensures
        opt_chars(r) == string_field(text@, field_name@, delimiter@),
{
    let t = chars_of(text);
    match field_range(&t, field_name, delimiter) {
        Some((a, b)) => Some(string_from_range(&t, a, b)),
        None => None,
    }
}

/// The value of the field `field_name` in `text`, without its quotes, read
/// as an `i64` (`"trades: 1250,"` gives 1250).
pub fn extract_int_field(text: &str, field_name: &str, delimiter: &str) -> (r: Option<i64>)
    ensures
        r == int_field(text@, field_name@, delimiter@),
{
    let t = chars_of(text);
    field_int(&t, field_name, delimiter)
}

/// The bounds of the unquoted value of `field` in `text`, if it has one.
fn unquoted_range(text: &Vec<char>, field: &str, delim: &str) -> (r: Option<(usize, usize)>)
    ensures
        match r {
            Some(p) => p.0 <= p.1 <= text.len() && unquoted_field(text@, field@, delim@) == Some(
                text@.subrange(p.0 as int, p.1 as int),
            ),
            None => unquoted_field(text@, field@, delim@) is None,
        },
{
    match field_range(text, field, delim) {
        Some((a, b)) => Some(unquote_range(text, a, b)),
        None => None,
    }
}

/// `extract_int_field` on text already split into characters.
fn field_int(t: &Vec<char>, field_name: &str, delimiter: &str) -> (r: Option<i64>)
    ensures
        r == int_field(t@, field_name@, delimiter@),
{
    match unquoted_range(t, field_name, delimiter) {
        Some((a, b)) => parse_i64_range(t, a, b),
        None => None,
    }
}

/// The unquoted value of `field_name` in text already split into characters.
pub fn field_unquoted(t: &Vec<char>, field_name: &str, delimiter: &str) -> (r: Option<String>)
    ensures
        opt_chars(r) == unquoted_field(t@, field_name@, delimiter@),
{
    match unquoted_range(t, field_name, delimiter) {
        Some((a, b)) => Some(string_from_range(t, a, b)),
        None => None,
    }
}

/// `extract_int_field` on text already split into characters (public form).
pub fn field_i64(t: &Vec<char>, field_name: &str, delimiter: &str) -> (r: Option<i64>)
    ensures
        r == int_field(t@, field_name@, delimiter@),
{
    field_int(t, field_name, delimiter)
}

/// The text after `start` up to the next `,` or `}`, trimmed.
fn value_text_from(m: &Vec<char>, start: usize) -> (r: Option<String>)
    ensures
        opt_chars(r) == match find_value_end_from(m@, start as int) {
            None => None,
            Some(e) => Some(trim(m@.subrange(start as int, e))),
        },
{
    match find_value_end_exec(m, start) {
        None => None,
        Some(e) => {
            proof {
                lemma_find_value_end_from(m@, start as int);
            }
            let (a, b) = trim_range(m, start, e);
            Some(string_from_range(m, a, b))
        },
    }
}

/// The balance text of the base currency of `symbol` in a balance message.
pub fn extract_asset_balance(message_str: &str, symbol: &str) -> (r: Option<String>)
    ensures
        opt_chars(r) == asset_balance_text(message_str@, symbol@),
{
    let m = chars_of(message_str);
    asset_balance_in(&m, symbol)
}

/// `extract_asset_balance` on a message already split into characters.
fn asset_balance_in(m: &Vec<char>, symbol: &str) -> (r: Option<String>)
    ensures
        opt_chars(r) == asset_balance_text(m@, symbol@),
{
    let base = base_currency(symbol);
    let mut marker = String::new();
    marker.append("asset: \"");
    marker.append(base.as_str());
    marker.push('"');
    assert(marker@ =~= asset_marker(symbol@));
    let marker_chars = chars_of(marker.as_str());
    let balance_key = chars_of("balance: ");
    match find_from_exec(m, &marker_chars, 0) {
        None => None,
        Some(a) => {
            proof {
                lemma_find_from(m@, marker_chars@, 0);
            }
            match find_from_exec(m, &balance_key, a) {
                None => None,
                Some(b) => {
                    proof {
                        lemma_find_from(m@, balance_key@, a as int);
                    }
                    value_text_from(m, b + balance_key.len())
                },
            }
        },
    }
}

/// The `last` price text for `symbol` in a ticker message.
pub fn extract_price_from_ticker_message(message: &str, symbol: &str) -> (r: Option<String>)
    ensures
        opt_chars(r) == ticker_price_text(message@, symbol@),
{
    let m = chars_of(message);
    let s = chars_of(symbol);
    if find_from_exec(&m, &s, 0).is_none() {
        return None;
    }
    let last_key = chars_of("last:");
    match find_from_exec(&m, &last_key, 0) {
        None => None,
        Some(l) => {
            proof {
                lemma_find_from(m@, last_key@, 0);
            }
            value_text_from(&m, l + last_key.len())
        },
    }
}

/// The message carries balances (`asset:` or `Balance {` occurs in it).
pub fn is_balance_message(message: &str) -> (r: bool)
    ensures
        r == is_balance_message_spec(message@),
{
    contains_exec(message, "asset:") || contains_exec(message, "Balance {")
}

/// The message carries a ticker (`Ticker` occurs in it).
pub fn is_ticker_message(message: &str) -> (r: bool)
    ensures
        r == contains(message@, "Ticker"@),
{
    contains_exec(message, "Ticker")
}

/// The balance updates that a balance message gives, USD first, then the
/// base currency of each trading symbol, each with its balance text.
pub fn balance_updates(message: &str, symbols: &Vec<String>) -> (r: Vec<(String, String)>)
    ensures
        r@.map_values(|p: (String, String)| (p.0@, p.1@)) == balance_updates_spec(
            message@,
            symbols@.map_values(|s: String| s@),
        ),
{
    let m = chars_of(message);
    let mut r: Vec<(String, String)> = Vec::new();
    let usd = "USD";
    match asset_balance_in(&m, usd) {
        Some(t) => {
            r.push((<String as StringExecFns>::from_str(usd), t));
        },
        None => {},
    }
    let ghost head = r@.map_values(|p: (String, String)| (p.0@, p.1@));
    assert(head =~= match asset_balance_text(message@, "USD"@) {
        Some(t) => seq![("USD"@, t)],
        None => Seq::empty(),
    });
    let ghost names = symbols@.map_values(|s: String| s@);
    let mut i: usize = 0;
    assert(names.take(0) =~= Seq::<Seq<char>>::empty());
    while i < symbols.len()
        invariant
            i <= symbols.len(),
            m@ == message@,
            names == symbols@.map_values(|s: String| s@),
            r@.map_values(|p: (String, String)| (p.0@, p.1@)) == head + symbol_balance_updates(
                message@,
                names.take(i as int),
            ),
        decreases symbols.len() - i,
    {
        let sym = symbols[i].as_str();
        let ghost before = r@.map_values(|p: (String, String)| (p.0@, p.1@));
        assert(names.take(i + 1).drop_last() =~= names.take(i as int));
        assert(names.take(i + 1).last() == sym@);
        match asset_balance_in(&m, sym) {
            Some(t) => {
                let base = base_currency(sym);
                r.push((base, t));
                assert(r@.map_values(|p: (String, String)| (p.0@, p.1@)) =~= before.push(
                    (base_currency_of(sym@), t@),
                ));
            },
            None => {},
        }
        i = i + 1;
    }
    assert(names.take(symbols.len() as int) =~= names);
    r
}

} // verus!
