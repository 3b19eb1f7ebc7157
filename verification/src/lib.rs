use vstd::prelude::*;

pub mod text;
pub mod table;
pub mod history;
pub mod parse;
pub mod ohlc;
pub mod signal;
pub mod trade;
pub mod bot;
pub mod positions;
pub mod telegram;

verus! {
} // verus!
