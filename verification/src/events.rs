//! Values shared between the components: what they emit and what is logged.
//! Prices, sizes, returns and scores are fixed-point units; a mid price is in
//! mid units.

use vstd::prelude::*;
use vstd::string::*;

verus! {

/// The outcome a trade buys: `Yes` is the "up" token, `No` the "down" token.
#[derive(Debug, Clone, Copy, PartialEq, Eq, Structural)]
pub enum TradeSide {
    Yes,
    No,
}

/// The label of a side.
pub open spec fn side_text(side: TradeSide) -> Seq<char> {
    match side {
        TradeSide::Yes => "YES"@,
        TradeSide::No => "NO"@,
    }
}

/// The label of a recommendation: that of its side, or "NONE".
pub open spec fn side_label(side: Option<TradeSide>) -> Seq<char> {
    match side {
        Some(s) => side_text(s),
        None => "NONE"@,
    }
}

impl TradeSide {
    /// The other outcome of the same market.
    pub fn opposite(self) -> (other: TradeSide)
        ensures
            other != self,
            other == (match self {
                TradeSide::Yes => TradeSide::No,
                TradeSide::No => TradeSide::Yes,
            }),
    {
        match self {
            TradeSide::Yes => TradeSide::No,
            TradeSide::No => TradeSide::Yes,
        }
    }

    /// "YES" or "NO".
    pub fn as_str(self) -> (s: &'static str)
        ensures
            s@ == side_text(self),
    {
        match self {
            TradeSide::Yes => "YES",
            TradeSide::No => "NO",
        }
    }

    /// "YES" or "NO", owned.
    pub fn to_text(self) -> (s: String)
        ensures
            s@ == side_text(self),
    {
        String::from_str(self.as_str())
    }
}

/// The label of a recommendation.
pub fn side_label_text(side: Option<TradeSide>) -> (s: String)
    ensures
        s@ == side_label(side),
{
    match side {
        Some(s) => s.to_text(),
        None => String::from_str("NONE"),
    }
}

/// The record written once per snapshot tick. A field is absent where its
/// source has no data.
#[derive(Debug, Clone)]
pub struct SnapshotEvent {
    pub t_recv_ms: i64,
    pub binance_mid: Option<i128>,
    pub binance_best_bid: Option<i64>,
    pub binance_best_ask: Option<i64>,
    pub binance_ret_1s: Option<i128>,
    pub binance_ret_3s: Option<i128>,
    pub binance_ret_10s: Option<i128>,
    pub binance_obi_top5: Option<i64>,
    pub binance_std_5m: Option<i128>,
    pub poly_yes_bid: Option<i64>,
    pub poly_yes_ask: Option<i64>,
    pub poly_no_bid: Option<i64>,
    pub poly_no_ask: Option<i64>,
    pub poly_spread_yes: Option<i128>,
    pub poly_spread_no: Option<i128>,
    pub poly_stale_ms: Option<i64>,
    pub poly_target_price: Option<i64>,
    pub poly_remaining_secs: Option<i64>,
    pub signal_side: String,
    pub signal_score: i64,
}

/// One fill of an order.
#[derive(Debug, Clone, Copy, PartialEq, Eq, Structural)]
pub struct FillInfo {
    pub price: i64,
    pub size: i64,
}

/// The record of one order attempt.
#[derive(Debug, Clone)]
pub struct TradeEvent {
    pub t_send_ms: i64,
    pub t_resp_ms: Option<i64>,
    pub client_order_id: String,
    pub side: String,
    pub size: i64,
    pub limit_price: i64,
    pub post_only: bool,
    pub mode: String,
    pub risk_reject_reason: Option<String>,
    pub api_status: Option<String>,
    pub fills: Option<Vec<FillInfo>>,
}

/// A note on the health of a component.
#[derive(Debug, Clone)]
pub struct HealthEvent {
    pub t_recv_ms: i64,
    pub event_type: String,
    pub message: String,
    pub component: String,
}

/// A recommendation, as broadcast.
#[derive(Debug, Clone)]
pub struct SignalEvent {
    pub t_recv_ms: i64,
    pub suggested_side: String,
    pub confidence: i64,
    pub reasons: Vec<String>,
    pub binance_ret_1s: i128,
    pub binance_ret_3s: i128,
    pub poly_lag_ms: i64,
}

/// The top of the reference venue's book, as broadcast.
#[derive(Debug, Clone, Copy, PartialEq, Eq, Structural)]
pub struct BinanceBookUpdate {
    pub best_bid: i64,
    pub best_bid_qty: i64,
    pub best_ask: i64,
    pub best_ask_qty: i64,
    pub mid: i128,
    pub imbalance_top5: i64,
    pub update_id: u64,
    pub t_recv_ms: i64,
}

/// The best quotes of one outcome token, as broadcast.
#[derive(Debug, Clone)]
pub struct PolymarketQuote {
    pub token_id: String,
    pub side: String,
    pub best_bid: Option<i64>,
    pub best_bid_size: Option<i64>,
    pub best_ask: Option<i64>,
    pub best_ask_size: Option<i64>,
    pub t_recv_ms: i64,
}

impl SnapshotEvent {
    /// A record with nothing in it but its time.
    pub fn empty_at(t_recv_ms: i64) -> (e: Self)
        ensures
            e.t_recv_ms == t_recv_ms,
            e.binance_mid is None && e.binance_best_bid is None && e.binance_best_ask is None,
            e.binance_ret_1s is None && e.binance_ret_3s is None && e.binance_ret_10s is None,
            e.binance_obi_top5 is None && e.binance_std_5m is None,
            e.poly_yes_bid is None && e.poly_yes_ask is None && e.poly_no_bid is None
                && e.poly_no_ask is None,
            e.poly_spread_yes is None && e.poly_spread_no is None && e.poly_stale_ms is None,
            e.poly_target_price is None && e.poly_remaining_secs is None,
            e.signal_side@ == side_label(None),
            e.signal_score == 0,
    {
        SnapshotEvent {
            t_recv_ms,
            binance_mid: None,
            binance_best_bid: None,
            binance_best_ask: None,
            binance_ret_1s: None,
            binance_ret_3s: None,
            binance_ret_10s: None,
            binance_obi_top5: None,
            binance_std_5m: None,
            poly_yes_bid: None,
            poly_yes_ask: None,
            poly_no_bid: None,
            poly_no_ask: None,
            poly_spread_yes: None,
            poly_spread_no: None,
            poly_stale_ms: None,
            poly_target_price: None,
            poly_remaining_secs: None,
            signal_side: side_label_text(None),
            signal_score: 0,
        }
    }
}

} // verus!
