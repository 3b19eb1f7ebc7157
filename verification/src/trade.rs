//! Placing an order on a signal: whether to trade, how much the buy size is
//! scaled by, and reading the exchange's answer to the order.

use vstd::prelude::*;
use vstd::string::StringExecFns;
use crate::text::{contains, contains_exec, decimal, push_decimal};

verus! {

/// The side of an order.
#[derive(PartialEq, Eq, Structural, Clone, Copy, Debug)]
pub enum OrderSide {
    Buy,
    Sell,
}

/// The comparisons that decide whether an order can be placed.
#[derive(PartialEq, Eq, Structural, Clone, Copy, Debug)]
pub struct TradeConditions {
    /// the cash balance is above the symbol's entry amount
    pub cash_exceeds_entry: bool,
    /// the latest price is above zero
    pub price_positive: bool,
    /// the position in the base currency is above zero
    pub has_position: bool,
}

/// What to do on a signal.
#[derive(PartialEq, Eq, Structural, Clone, Copy, Debug)]
pub enum OrderPlan {
    /// Nothing: no funds to buy, nothing to sell, or no price.
    Skip,
    /// Buy the entry amount's worth (scaled by `buy_size_factor`).
    Buy,
    /// Sell the exit amount's worth, at most the position.
    Sell,
}

/// A buy needs cash above the entry amount and a price; a sell needs a
/// position and a price.
pub open spec fn order_plan(side: OrderSide, c: TradeConditions) -> OrderPlan {
    match side {
        OrderSide::Buy => if c.cash_exceeds_entry && c.price_positive {
            OrderPlan::Buy
        } else {
            OrderPlan::Skip
        },
        OrderSide::Sell => if c.has_position && c.price_positive {
            OrderPlan::Sell
        } else {
            OrderPlan::Skip
        },
    }
}

/// Decides whether and how to trade on a signal.
pub fn plan_order(side: OrderSide, c: TradeConditions) -> (r: OrderPlan)
    ensures
        r == order_plan(side, c),
{
    match side {
        OrderSide::Buy => if c.cash_exceeds_entry && c.price_positive {
            OrderPlan::Buy
        } else {
            OrderPlan::Skip
        },
        OrderSide::Sell => if c.has_position && c.price_positive {
            OrderPlan::Sell
        } else {
            OrderPlan::Skip
        },
    }
}

/// Law: a buy signal is only ever bought on, and is bought on exactly when
/// the cash exceeds the entry amount and the price is positive, whatever is
/// held; a sell signal is only ever sold on, and is sold on exactly when a
/// position is held and the price is positive, whatever the cash.
pub proof fn law_order_plan(c: TradeConditions)
    ensures
        order_plan(OrderSide::Buy, c) != OrderPlan::Sell,
        order_plan(OrderSide::Buy, c) == OrderPlan::Buy <==> c.cash_exceeds_entry && c.price_positive,
        order_plan(OrderSide::Sell, c) != OrderPlan::Buy,
        order_plan(OrderSide::Sell, c) == OrderPlan::Sell <==> c.has_position && c.price_positive,
        order_plan(OrderSide::Sell, c) == order_plan(
            OrderSide::Sell,
            (TradeConditions { cash_exceeds_entry: !c.cash_exceeds_entry, ..c }),
        ),
        order_plan(OrderSide::Buy, c) == order_plan(
            OrderSide::Buy,
            (TradeConditions { has_position: !c.has_position, ..c }),
        ),
{
}

/// Where the symbol's return (in percent) stands against the buy size steps.
#[derive(PartialEq, Eq, Structural, Clone, Copy, Debug)]
pub struct ReturnBands {
    /// `r > -0.20`
    pub above_neg_0_20: bool,
    /// `r > -0.15`
    pub above_neg_0_15: bool,
    /// `r > -0.10`
    pub above_neg_0_10: bool,
}

/// Bands that come from one number: a return above -0.15 is above -0.20,
/// and one above -0.10 is above -0.15.
pub open spec fn bands_consistent(b: ReturnBands) -> bool {
    (b.above_neg_0_15 ==> b.above_neg_0_20) && (b.above_neg_0_10 ==> b.above_neg_0_15)
}

/// The factor a buy size is multiplied by: the steps are tried in the order
/// -0.20 (4x), -0.15 (3x), -0.10 (2x); 1 without a return.
pub open spec fn buy_factor(bands: Option<ReturnBands>) -> u64 {
    match bands {
        None => 1,
        Some(b) => if b.above_neg_0_20 {
            4
        } else if b.above_neg_0_15 {
            3
        } else if b.above_neg_0_10 {
            2
        } else {
            1
        },
    }
}

/// The factor a buy size is multiplied by.
pub fn buy_size_factor(bands: Option<ReturnBands>) -> (r: u64)
    ensures
        r == buy_factor(bands),
{
    match bands {
        None => 1,
        Some(b) => if b.above_neg_0_20 {
            4
        } else if b.above_neg_0_15 {
            3
        } else if b.above_neg_0_10 {
            2
        } else {
            1
        },
    }
}

/// Law: since the steps are tried from the lowest threshold up, a buy is
/// either quadrupled (return above -0.20) or left as it is; the 3x and 2x
/// steps are never reached by bands that come from one return.
pub proof fn law_buy_factor_is_one_or_four(bands: Option<ReturnBands>)
    requires
        bands matches Some(b) ==> bands_consistent(b),
    ensures
        buy_factor(bands) == 1 || buy_factor(bands) == 4,
        bands matches Some(b) ==> (buy_factor(bands) == 4 <==> b.above_neg_0_20),
{
}

/// How the exchange's answer to an order reads.
#[derive(PartialEq, Eq, Structural, Clone, Copy, Debug)]
pub enum OrderResponse {
    /// A heartbeat: ignored.
    Heartbeat,
    /// The answer to this order, rejecting it.
    Rejected,
    /// The answer to this order, accepting it.
    Accepted,
    /// About this order, but neither accepting nor rejecting it.
    Related,
    /// About something else.
    Unrelated,
}

/// The text `req_id": <n>` that marks an answer to request `n`.
pub open spec fn req_id_marker(req_id: u64) -> Seq<char> {
    "req_id\": "@ + decimal(req_id as nat)
}

/// Reads an answer: heartbeats first; an answer is about this order when it
/// carries the request's marker, or names `add_order` and the symbol; it
/// rejects when it says `Order rejected` or `error` (this wins), and accepts
/// when it says `success` or `accepted`.
pub open spec fn order_response(response: Seq<char>, req_id: u64, symbol: Seq<char>) -> OrderResponse {
    if contains(response, "Heartbeat"@) || contains(response, "heartbeat"@) {
        OrderResponse::Heartbeat
    } else if contains(response, req_id_marker(req_id)) || (contains(response, "add_order"@)
        && contains(response, symbol)) {
        if contains(response, "Order rejected"@) || contains(response, "error"@) {
            OrderResponse::Rejected
        } else if contains(response, "success"@) || contains(response, "accepted"@) {
            OrderResponse::Accepted
        } else {
            OrderResponse::Related
        }
    } else {
        OrderResponse::Unrelated
    }
}

/// Classifies an answer received after sending order `req_id` for `symbol`.
pub fn classify_order_response(response: &str, req_id: u64, symbol: &str) -> (r: OrderResponse)
    ensures
        r == order_response(response@, req_id, symbol@),
{
    if contains_exec(response, "Heartbeat") || contains_exec(response, "heartbeat") {
        return OrderResponse::Heartbeat;
    }
    let mut marker = String::new();
    marker.append("req_id\": ");
    push_decimal(&mut marker, req_id);
    assert(marker@ =~= req_id_marker(req_id));
    if contains_exec(response, marker.as_str()) || (contains_exec(response, "add_order")
        && contains_exec(response, symbol)) {
        if contains_exec(response, "Order rejected") || contains_exec(response, "error") {
            OrderResponse::Rejected
        } else if contains_exec(response, "success") || contains_exec(response, "accepted") {
            OrderResponse::Accepted
        } else {
            OrderResponse::Related
        }
    } else {
        OrderResponse::Unrelated
    }
}

/// How waiting for the answer to an order ended.
#[derive(PartialEq, Eq, Structural, Clone, Copy, Debug)]
pub enum OrderOutcome {
    Accepted,
    Rejected,
    /// No accepting or rejecting answer within the attempts.
    NoConfirmation,
}

/// How many answers (or timeouts) are waited for after an order.
pub const ORDER_MAX_ATTEMPTS: u32 = 10;

/// One attempt: an accepting or rejecting answer ends the wait; anything
/// else (a timeout is `None`) uses up the attempt, and the last attempt ends
/// it without confirmation.
pub open spec fn order_wait_step(used: u32, reply: Option<OrderResponse>) -> Option<OrderOutcome> {
    match reply {
        Some(OrderResponse::Rejected) => Some(OrderOutcome::Rejected),
        Some(OrderResponse::Accepted) => Some(OrderOutcome::Accepted),
        _ => if used + 1 >= ORDER_MAX_ATTEMPTS {
            Some(OrderOutcome::NoConfirmation)
        } else {
            None
        },
    }
}

/// The outcome of waiting through `replies` (one per attempt, in order),
/// starting with `used` attempts spent; `None` while it is still open.
pub open spec fn order_wait_run(used: u32, replies: Seq<Option<OrderResponse>>) -> Option<OrderOutcome>
    decreases replies.len(),
{
    if replies.len() == 0 || used >= ORDER_MAX_ATTEMPTS {
        None
    } else {
        match order_wait_step(used, replies[0]) {
            Some(o) => Some(o),
            None => order_wait_run((used + 1) as u32, replies.drop_first()),
        }
    }
}

/// The wait for the answer to one order.
pub struct OrderWait {
    used: u32,
}

impl OrderWait {
    /// Attempts spent.
    pub closed spec fn used(&self) -> u32 {
        self.used
    }

    /// A wait with no attempt spent.
    pub fn new() -> (w: Self)
        ensures
            w.used() == 0,
    {
        OrderWait { used: 0 }
    }

    /// The wait is still open: attempts are left.
    pub fn is_open(&self) -> (r: bool)
        ensures
            r == (self.used() < ORDER_MAX_ATTEMPTS),
    {
        self.used < ORDER_MAX_ATTEMPTS
    }

    /// Takes in the answer of one attempt (`None` for a timeout or a stream
    /// error) and tells whether the wait is over, and how it ended.
    pub fn observe(&mut self, reply: Option<OrderResponse>) -> (r: Option<OrderOutcome>)
        requires
            old(self).used() < ORDER_MAX_ATTEMPTS,
        ensures
            final(self).used() == old(self).used() + 1,
            r == order_wait_step(old(self).used(), reply),
    {
        let used = self.used;
        self.used = used + 1;
        match reply {
            Some(OrderResponse::Rejected) => Some(OrderOutcome::Rejected),
            Some(OrderResponse::Accepted) => Some(OrderOutcome::Accepted),
            _ => if used + 1 >= ORDER_MAX_ATTEMPTS {
                Some(OrderOutcome::NoConfirmation)
            } else {
                None
            },
        }
    }
}

/// Law: the wait for an order always ends within ten attempts, whatever the
/// answers are.
pub proof fn law_order_wait_ends(used: u32, replies: Seq<Option<OrderResponse>>)
    requires
        used < ORDER_MAX_ATTEMPTS,
        replies.len() >= ORDER_MAX_ATTEMPTS - used,
    ensures
        order_wait_run(used, replies) is Some,
    decreases replies.len(),
{
    match order_wait_step(used, replies[0]) {
        Some(o) => {},
        None => {
            law_order_wait_ends((used + 1) as u32, replies.drop_first());
        },
    }
}

/// Law: an answer about the order that reports an error is a rejection, even
/// when it also says `success` or `accepted`.
pub proof fn law_rejection_wins(response: Seq<char>, req_id: u64, symbol: Seq<char>)
    requires
        !contains(response, "Heartbeat"@),
        !contains(response, "heartbeat"@),
        contains(response, req_id_marker(req_id)),
        contains(response, "error"@),
    ensures
        order_response(response, req_id, symbol) == OrderResponse::Rejected,
{
}

} // verus!
