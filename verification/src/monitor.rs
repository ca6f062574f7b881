//! The once-per-tick work that joins the components: keeping the target price
//! of the window, and composing the snapshot record.

use crate::events::{side_label, side_label_text, BinanceBookUpdate, SnapshotEvent};
use crate::polymarket::{spread, spread_of, started, rfc3339_instant_ms, PolymarketService, QuoteState};
use crate::signal::SignalState;
use vstd::prelude::*;
use vstd::string::*;

verus! {

/// Remembers for which market the target price was last looked up.
pub struct TargetTracker {
    last_condition_id: String,
}

/// What the tick found out about the target price.
#[derive(Debug, Clone, Copy, PartialEq, Eq, Structural)]
pub struct TargetStep {
    /// The market changed: the event page is to be read for the new target.
    pub scrape: bool,
    /// The oracle price was taken as the target.
    pub took_oracle_price: bool,
}

/// The start of the window of the market tracked, where it is known.
pub open spec fn window_start_ms(service: &PolymarketService) -> Option<int> {
    if service.market().start_time@.len() == 0 {
        None
    } else {
        rfc3339_instant_ms(service.market().start_time@)
    }
}

/// Whether the tick sees a market it has not looked up yet.
pub open spec fn is_new_market(last: Seq<char>, service: &PolymarketService) -> bool {
    service.market().condition_id@.len() > 0 && service.market().condition_id@ != last
}

/// The target price after a tick: a new market starts without one; while
/// there is none, the oracle price is taken once the window has started.
pub open spec fn target_after(
    last: Seq<char>,
    service: &PolymarketService,
    oracle_price: Option<i64>,
    now_ms: i64,
) -> Option<i64> {
    if service.market().condition_id@.len() == 0 {
        service.market().target_price
    } else {
        let kept = if is_new_market(last, service) {
            None
        } else {
            service.market().target_price
        };
        match (kept, oracle_price) {
            (None, Some(p)) => if started(window_start_ms(service), now_ms as int) {
                Some(p)
            } else {
                None
            },
            _ => kept,
        }
    }
}

impl TargetTracker {
    /// The condition id of the market last looked up; empty before the first.
    pub closed spec fn last(&self) -> Seq<char> {
        self.last_condition_id@
    }

    /// A tracker that has looked up no market.
    pub fn new() -> (t: Self)
        ensures
            t.last().len() == 0,
    {
        TargetTracker { last_condition_id: String::new() }
    }

    /// Keeps the target price of the window at `now_ms`. When the market
    /// tracked is one not looked up before, its target is unset and the event
    /// page is to be read. While there is no target, the oracle price, where
    /// there is one, is taken once the window has started.
    pub fn on_tick(
        &mut self,
        service: &mut PolymarketService,
        oracle_price: Option<i64>,
        now_ms: i64,
    ) -> (step: TargetStep)
        ensures
            step.scrape == is_new_market(old(self).last(), old(service)),
            final(self).last() == (if old(service).market().condition_id@.len() > 0 {
                old(service).market().condition_id@
            } else {
                old(self).last()
            }),
            final(service).market().target_price == target_after(
                old(self).last(),
                old(service),
                oracle_price,
                now_ms,
            ),
            final(service).market().same_market(&old(service).market()),
            final(service).quotes() == old(service).quotes(),
            final(service).is_running() == old(service).is_running(),
            step.took_oracle_price == (final(service).market().target_price is Some && (
            is_new_market(old(self).last(), old(service)) || old(service).market().target_price
                is None)),
    {
        let market = service.get_active_market();
        if market.condition_id.as_str().is_empty() {
            return TargetStep { scrape: false, took_oracle_price: false };
        }
        let mut scrape = false;
        if market.condition_id != self.last_condition_id {
            self.last_condition_id = market.condition_id.clone();
            service.clear_target_price();
            scrape = true;
        }
        let mut took = false;
        if !scrape && market.target_price.is_some() {
            return TargetStep { scrape, took_oracle_price: false };
        }
        match oracle_price {
            Some(price) => {
                if service.window_started(now_ms) {
                    took = service.set_target_price(price);
                }
            },
            None => {},
        }
        TargetStep { scrape, took_oracle_price: took }
    }
}

/// Whether a snapshot record is what the sources show at `now_ms`.
pub open spec fn snapshot_of(
    e: &SnapshotEvent,
    now_ms: i64,
    update: Option<BinanceBookUpdate>,
    ret_1s: Option<i128>,
    ret_3s: Option<i128>,
    ret_10s: Option<i128>,
    std_5m: Option<i128>,
    quotes: QuoteState,
    stale_ms: i64,
    target_price: Option<i64>,
    remaining_secs: Option<i64>,
    signal: &SignalState,
) -> bool {
    &&& e.t_recv_ms == now_ms
    &&& e.binance_mid == (match update {
        Some(u) => Some(u.mid),
        None => None,
    })
    &&& e.binance_best_bid == (match update {
        Some(u) => Some(u.best_bid),
        None => None,
    })
    &&& e.binance_best_ask == (match update {
        Some(u) => Some(u.best_ask),
        None => None,
    })
    &&& e.binance_obi_top5 == (match update {
        Some(u) => Some(u.imbalance_top5),
        None => None,
    })
    &&& e.binance_ret_1s == ret_1s
    &&& e.binance_ret_3s == ret_3s
    &&& e.binance_ret_10s == ret_10s
    &&& e.binance_std_5m == std_5m
    &&& e.poly_yes_bid == quotes.yes_bid
    &&& e.poly_yes_ask == quotes.yes_ask
    &&& e.poly_no_bid == quotes.no_bid
    &&& e.poly_no_ask == quotes.no_ask
    &&& (match e.poly_spread_yes {
        Some(v) => spread_of(quotes.yes_bid, quotes.yes_ask) == Some(v as int),
        None => spread_of(quotes.yes_bid, quotes.yes_ask) is None,
    })
    &&& (match e.poly_spread_no {
        Some(v) => spread_of(quotes.no_bid, quotes.no_ask) == Some(v as int),
        None => spread_of(quotes.no_bid, quotes.no_ask) is None,
    })
    &&& e.poly_stale_ms == (if stale_ms == i64::MAX {
        None
    } else {
        Some(stale_ms)
    })
    &&& e.poly_target_price == target_price
    &&& e.poly_remaining_secs == remaining_secs
    &&& e.signal_side@ == side_label(signal.suggested_side)
    &&& e.signal_score == signal.confidence
}

/// Composes the snapshot record of a tick. A staleness of `i64::MAX` means
/// that no quote was ever received and is recorded as absent.
pub fn build_snapshot(
    now_ms: i64,
    update: Option<BinanceBookUpdate>,
    ret_1s: Option<i128>,
    ret_3s: Option<i128>,
    ret_10s: Option<i128>,
    std_5m: Option<i128>,
    quotes: &QuoteState,
    stale_ms: i64,
    target_price: Option<i64>,
    remaining_secs: Option<i64>,
    signal: &SignalState,
) -> (e: SnapshotEvent)
    ensures
        snapshot_of(
            &e,
            now_ms,
            update,
            ret_1s,
            ret_3s,
            ret_10s,
            std_5m,
            *quotes,
            stale_ms,
            target_price,
            remaining_secs,
            signal,
        ),
{
    let (mid, bid, ask, obi) = match update {
        Some(u) => (Some(u.mid), Some(u.best_bid), Some(u.best_ask), Some(u.imbalance_top5)),
        None => (None, None, None, None),
    };
    SnapshotEvent {
        t_recv_ms: now_ms,
        binance_mid: mid,
        binance_best_bid: bid,
        binance_best_ask: ask,
        binance_ret_1s: ret_1s,
        binance_ret_3s: ret_3s,
        binance_ret_10s: ret_10s,
        binance_obi_top5: obi,
        binance_std_5m: std_5m,
        poly_yes_bid: quotes.yes_bid,
        poly_yes_ask: quotes.yes_ask,
        poly_no_bid: quotes.no_bid,
        poly_no_ask: quotes.no_ask,
        poly_spread_yes: spread(quotes.yes_bid, quotes.yes_ask),
        poly_spread_no: spread(quotes.no_bid, quotes.no_ask),
        poly_stale_ms: if stale_ms == i64::MAX {
            None
        } else {
            Some(stale_ms)
        },
        poly_target_price: target_price,
        poly_remaining_secs: remaining_secs,
        signal_side: side_label_text(signal.suggested_side),
        signal_score: signal.confidence,
    }
}

} // verus!
