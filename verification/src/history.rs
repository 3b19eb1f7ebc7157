//! The rolling window of closing prices from which returns are computed.

use vstd::prelude::*;
use std::collections::VecDeque;

verus! {

/// How many closing prices the window keeps.
pub const HISTORY_LEN: usize = 6;

/// The last (at most) six entries of `xs`: what the window holds after the
/// closes `xs` were recorded, oldest first.
pub open spec fn last_six<T>(xs: Seq<T>) -> Seq<T> {
    if xs.len() <= HISTORY_LEN {
        xs
    } else {
        xs.subrange(xs.len() - HISTORY_LEN, xs.len() as int)
    }
}

/// The window after recording `x` into the window `h`.
pub open spec fn recorded<T>(h: Seq<T>, x: T) -> Seq<T> {
    if h.len() >= HISTORY_LEN {
        h.drop_first().push(x)
    } else {
        h.push(x)
    }
}

/// The closes recorded one after another into an empty window, in order.
pub open spec fn record_all<T>(xs: Seq<T>) -> Seq<T>
    decreases xs.len(),
{
    if xs.len() == 0 {
        Seq::empty()
    } else {
        recorded(record_all(xs.drop_last()), xs.last())
    }
}

/// Recent closing prices of one symbol, oldest first, at most six of them.
pub struct PriceHistory<T> {
    closing_prices: VecDeque<T>,
}

impl<T> PriceHistory<T> {
    /// The closes kept, oldest first.
    pub closed spec fn view(&self) -> Seq<T> {
        self.closing_prices@
    }

    /// At most six closes are kept.
    pub open spec fn wf(&self) -> bool {
        self@.len() <= HISTORY_LEN
    }

    /// An empty history.
    pub fn new() -> (h: Self)
        ensures
            h.wf(),
            h@ == Seq::<T>::empty(),
    {
        PriceHistory { closing_prices: VecDeque::with_capacity(HISTORY_LEN) }
    }

    /// Number of closes kept.
    pub fn len(&self) -> (n: usize)
        ensures
            n == self@.len(),
    {
        self.closing_prices.len()
    }

    /// Records a new close, dropping the oldest one when six are kept already.
    pub fn record_close(&mut self, close: T)
        requires
            old(self).wf(),
        ensures
            final(self).wf(),
            final(self)@ == recorded(old(self)@, close),
    {
        if self.closing_prices.len() >= HISTORY_LEN {
            let _ = self.closing_prices.pop_front();
        }
        self.closing_prices.push_back(close);
    }
}

impl<T: Copy> PriceHistory<T> {
    /// The oldest and the newest close, once six are kept; the return is
    /// `(newest - oldest) / oldest * 100`.
    pub fn return_endpoints(&self) -> (r: Option<(T, T)>)
        ensures
            r is Some <==> self@.len() >= HISTORY_LEN,
            r matches Some(p) ==> p.0 == self@[0] && p.1 == self@.last(),
    {
        let n = self.closing_prices.len();
        if n >= HISTORY_LEN {
            let old_price = self.closing_prices[0];
            let current_price = self.closing_prices[n - 1];
            Some((old_price, current_price))
        } else {
            None
        }
    }
}

/// Law: whatever closes were recorded, the window holds exactly the last six
/// of them (all of them while there are fewer), oldest first.
pub proof fn law_history_keeps_last_six<T>(xs: Seq<T>)
    ensures
        record_all(xs) == last_six(xs),
    decreases xs.len(),
{
    if xs.len() > 0 {
        law_history_keeps_last_six(xs.drop_last());
        let prev = xs.drop_last();
        if prev.len() >= HISTORY_LEN {
            assert(last_six(prev).drop_first().push(xs.last()) =~= last_six(xs));
        } else {
            assert(last_six(prev).push(xs.last()) =~= last_six(xs));
        }
    } else {
        assert(record_all(xs) =~= last_six(xs));
    }
}

/// Law: a return is available exactly once six closes have been recorded,
/// and it is taken between the sixth-newest and the newest close.
pub proof fn law_return_after_six_closes<T>(xs: Seq<T>)
    ensures
        record_all(xs).len() >= HISTORY_LEN <==> xs.len() >= HISTORY_LEN,
        xs.len() >= HISTORY_LEN ==> record_all(xs)[0] == xs[xs.len() - HISTORY_LEN]
            && record_all(xs).last() == xs.last(),
{
    law_history_keeps_last_six(xs);
}

/// Recording into a window that holds the last six of some closes gives the
/// last six of those closes and the new one.
pub proof fn lemma_recorded_last_six<T>(xs: Seq<T>, x: T)
    ensures
        recorded(last_six(xs), x) == last_six(xs.push(x)),
{
    if xs.len() >= HISTORY_LEN {
        assert(last_six(xs).drop_first().push(x) =~= last_six(xs.push(x)));
    } else {
        assert(last_six(xs).push(x) =~= last_six(xs.push(x)));
    }
}

} // verus!
