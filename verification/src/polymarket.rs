//! The prediction market's quote state and the descriptor of its active market.
//!
//! Prices and sizes are fixed-point units, times are milliseconds since the
//! epoch. A `last_update_ms` of zero means that no quote was ever received.

use crate::clob::OrderBookLevel;
use crate::config::PolymarketConfig;
use crate::events::PolymarketQuote;
use crate::fixed::{nearest_fixed_of_text, parse_fixed_nearest};
use crate::json::{member_text, push_member, push_string_array, string_array_text};
use crate::gamma::{slug_text, window_start, GammaClient, MarketTokens};
use crate::stream::StreamAction;
use crate::text::push_int;
use vstd::prelude::*;
use vstd::string::*;

verus! {

/// Time between two checks for a new market, in milliseconds.
pub const MARKET_CHECK_INTERVAL_MS: i64 = 60_000;

/// The best quotes of both outcome tokens.
#[derive(Debug, Clone, Copy, PartialEq, Eq, Structural)]
pub struct QuoteState {
    pub yes_bid: Option<i64>,
    pub yes_bid_size: Option<i64>,
    pub yes_ask: Option<i64>,
    pub yes_ask_size: Option<i64>,
    pub no_bid: Option<i64>,
    pub no_bid_size: Option<i64>,
    pub no_ask: Option<i64>,
    pub no_ask_size: Option<i64>,
    pub last_update_ms: i64,
}

/// The market being tracked. Empty texts where none is known yet.
#[derive(Debug, Clone)]
pub struct ActiveMarket {
    pub up_token_id: String,
    pub down_token_id: String,
    pub condition_id: String,
    pub slug: String,
    pub title: String,
    pub start_time: String,
    pub end_date: String,
    pub target_price: Option<i64>,
}

/// A book snapshot of one token. Bids and asks are sorted ascending by price.
#[derive(Debug, Clone)]
pub struct BookMessage {
    pub asset_id: Option<String>,
    pub market: Option<String>,
    pub bids: Option<Vec<OrderBookLevel>>,
    pub asks: Option<Vec<OrderBookLevel>>,
}

/// One entry of a price-change message.
#[derive(Debug, Clone)]
pub struct PriceChange {
    pub asset_id: String,
    pub price: Option<String>,
    pub side: Option<String>,
    pub best_bid: Option<String>,
    pub best_ask: Option<String>,
}

/// A price-change message.
#[derive(Debug, Clone)]
pub struct PriceChangeMessage {
    pub market: Option<String>,
    pub price_changes: Option<Vec<PriceChange>>,
}

/// The frame that subscribes to both tokens of a market.
#[derive(Debug, Clone)]
pub struct SubscribeMessage {
    pub msg_type: String,
    pub assets_ids: Vec<String>,
}

/// What a message does to one best quote.
#[derive(Debug, Clone, Copy, PartialEq, Eq, Structural)]
pub enum Touch {
    /// Leaves price and size as they are.
    Keep,
    /// Sets the price and leaves the size.
    Price(i64),
    /// Sets the price and the size; the size may be unknown.
    PriceAndSize(i64, Option<i64>),
}

/// What a message does to the quotes of one token.
#[derive(Debug, Clone, Copy, PartialEq, Eq, Structural)]
pub struct QuoteUpdate {
    /// The "up" token if true, the "down" token if false.
    pub up: bool,
    pub bid: Touch,
    pub ask: Touch,
}

/// Price and size of one best quote after a touch.
pub open spec fn touched(price: Option<i64>, size: Option<i64>, t: Touch) -> (Option<i64>, Option<i64>) {
    match t {
        Touch::Keep => (price, size),
        Touch::Price(p) => (Some(p), size),
        Touch::PriceAndSize(p, s) => (Some(p), s),
    }
}

/// The quotes after an update received at `now_ms`.
pub open spec fn after_update(q: QuoteState, u: QuoteUpdate, now_ms: i64) -> QuoteState {
    if u.up {
        QuoteState {
            yes_bid: touched(q.yes_bid, q.yes_bid_size, u.bid).0,
            yes_bid_size: touched(q.yes_bid, q.yes_bid_size, u.bid).1,
            yes_ask: touched(q.yes_ask, q.yes_ask_size, u.ask).0,
            yes_ask_size: touched(q.yes_ask, q.yes_ask_size, u.ask).1,
            last_update_ms: now_ms,
            ..q
        }
    } else {
        QuoteState {
            no_bid: touched(q.no_bid, q.no_bid_size, u.bid).0,
            no_bid_size: touched(q.no_bid, q.no_bid_size, u.bid).1,
            no_ask: touched(q.no_ask, q.no_ask_size, u.ask).0,
            no_ask_size: touched(q.no_ask, q.no_ask_size, u.ask).1,
            last_update_ms: now_ms,
            ..q
        }
    }
}

/// Time since the last quote, in milliseconds, as a number: `i64::MAX` where
/// no quote was ever received, else the difference, kept inside 64 bits.
pub open spec fn staleness(q: QuoteState, now_ms: int) -> int {
    if q.last_update_ms == 0 {
        i64::MAX as int
    } else if now_ms - q.last_update_ms > i64::MAX {
        i64::MAX as int
    } else if now_ms - q.last_update_ms < i64::MIN {
        i64::MIN as int
    } else {
        now_ms - q.last_update_ms
    }
}

/// The difference between ask and bid, where both are known.
pub open spec fn spread_of(bid: Option<i64>, ask: Option<i64>) -> Option<int> {
    match (bid, ask) {
        (Some(b), Some(a)) => Some(a - b),
        _ => None,
    }
}

impl QuoteState {
    /// No quotes, never updated.
    pub fn new() -> (q: Self)
        ensures
            q.yes_bid is None && q.yes_bid_size is None && q.yes_ask is None && q.yes_ask_size
                is None,
            q.no_bid is None && q.no_bid_size is None && q.no_ask is None && q.no_ask_size is None,
            q.last_update_ms == 0,
    {
        QuoteState {
            yes_bid: None,
            yes_bid_size: None,
            yes_ask: None,
            yes_ask_size: None,
            no_bid: None,
            no_bid_size: None,
            no_ask: None,
            no_ask_size: None,
            last_update_ms: 0,
        }
    }

    fn touch(price: Option<i64>, size: Option<i64>, t: Touch) -> (r: (Option<i64>, Option<i64>))
        ensures
            r == touched(price, size, t),
    {
        match t {
            Touch::Keep => (price, size),
            Touch::Price(p) => (Some(p), size),
            Touch::PriceAndSize(p, s) => (Some(p), s),
        }
    }

    /// Takes in an update received at `now_ms`.
    pub fn apply(&mut self, update: &QuoteUpdate, now_ms: i64)
        ensures
            *final(self) == after_update(*old(self), *update, now_ms),
    {
        if update.up {
            let (bid, bid_size) = Self::touch(self.yes_bid, self.yes_bid_size, update.bid);
            let (ask, ask_size) = Self::touch(self.yes_ask, self.yes_ask_size, update.ask);
            self.yes_bid = bid;
            self.yes_bid_size = bid_size;
            self.yes_ask = ask;
            self.yes_ask_size = ask_size;
        } else {
            let (bid, bid_size) = Self::touch(self.no_bid, self.no_bid_size, update.bid);
            let (ask, ask_size) = Self::touch(self.no_ask, self.no_ask_size, update.ask);
            self.no_bid = bid;
            self.no_bid_size = bid_size;
            self.no_ask = ask;
            self.no_ask_size = ask_size;
        }
        self.last_update_ms = now_ms;
    }

    /// Time since the last quote at `now_ms`; `i64::MAX` where none was ever
    /// received.
    pub fn staleness_ms(&self, now_ms: i64) -> (s: i64)
        ensures
            s == staleness(*self, now_ms as int),
    {
        if self.last_update_ms == 0 {
            return i64::MAX;
        }
        let d: i128 = now_ms as i128 - self.last_update_ms as i128;
        if d > i64::MAX as i128 {
            i64::MAX
        } else if d < i64::MIN as i128 {
            i64::MIN
        } else {
            d as i64
        }
    }

    /// Best bid of a token.
    pub fn bid(&self, up: bool) -> (b: Option<i64>)
        ensures
            b == if up {
                self.yes_bid
            } else {
                self.no_bid
            },
    {
        if up {
            self.yes_bid
        } else {
            self.no_bid
        }
    }

    /// Best ask of a token.
    pub fn ask(&self, up: bool) -> (a: Option<i64>)
        ensures
            a == if up {
                self.yes_ask
            } else {
                self.no_ask
            },
    {
        if up {
            self.yes_ask
        } else {
            self.no_ask
        }
    }
}

/// The difference between ask and bid, where both are known.
pub fn spread(bid: Option<i64>, ask: Option<i64>) -> (s: Option<i128>)
    ensures
        s matches Some(v) ==> spread_of(bid, ask) == Some(v as int),
        s is None ==> spread_of(bid, ask) is None,
{
    match (bid, ask) {
        (Some(b), Some(a)) => Some(a as i128 - b as i128),
        _ => None,
    }
}

/// Staleness never goes down while no quote arrives: later means staler.
pub proof fn law_staleness_monotone(q: QuoteState, earlier_ms: int, later_ms: int)
    requires
        earlier_ms <= later_ms,
    ensures
        staleness(q, earlier_ms) <= staleness(q, later_ms),
{
}

/// An update received at `now_ms` makes the quotes fresh as of `now_ms`.
pub proof fn law_update_resets_staleness(q: QuoteState, u: QuoteUpdate, now_ms: i64)
    requires
        now_ms != 0,
    ensures
        staleness(after_update(q, u, now_ms), now_ms as int) == 0,
{
}

/// The target price after the catalog names a market: kept where the market
/// is the one tracked, by its condition id, unset where it is another.
pub open spec fn target_after_refresh(market: &ActiveMarket, tokens: &MarketTokens) -> Option<i64> {
    if tokens.condition_id@ == market.condition_id@ {
        market.target_price
    } else {
        None
    }
}

/// Which token an asset id names: the "up" token, the "down" token, or neither.
pub open spec fn token_of(market: &ActiveMarket, asset_id: Seq<char>) -> Option<bool> {
    if asset_id == market.up_token_id@ {
        Some(true)
    } else if asset_id == market.down_token_id@ {
        Some(false)
    } else {
        None
    }
}

/// What a text does to a best price: sets it where the text is a
/// decimal that fits, else leaves it.
pub open spec fn price_touch(text: Option<String>) -> Touch {
    match text {
        Some(t) => match nearest_fixed_of_text(t@) {
            Some(p) => Touch::Price(p as i64),
            None => Touch::Keep,
        },
        None => Touch::Keep,
    }
}

/// What a book level does to a best quote: sets price and size where its price
/// is a decimal that fits, else leaves both.
pub open spec fn level_touch(level: Option<OrderBookLevel>) -> Touch {
    match level {
        Some(l) => match nearest_fixed_of_text(l.price@) {
            Some(p) => Touch::PriceAndSize(
                p as i64,
                match nearest_fixed_of_text(l.size@) {
                    Some(s) => Some(s as i64),
                    None => None,
                },
            ),
            None => Touch::Keep,
        },
        None => Touch::Keep,
    }
}

/// The best bid of a book message: its last bid.
pub open spec fn best_bid_level(msg: &BookMessage) -> Option<OrderBookLevel> {
    match msg.bids {
        Some(bids) => if bids@.len() > 0 {
            Some(bids@.last())
        } else {
            None
        },
        None => None,
    }
}

/// The best ask of a book message: its first ask.
pub open spec fn best_ask_level(msg: &BookMessage) -> Option<OrderBookLevel> {
    match msg.asks {
        Some(asks) => if asks@.len() > 0 {
            Some(asks@.first())
        } else {
            None
        },
        None => None,
    }
}

/// The update that a price change carries, if it names a token of the market.
pub open spec fn update_of_change(market: &ActiveMarket, change: &PriceChange) -> Option<
    QuoteUpdate,
> {
    match token_of(market, change.asset_id@) {
        Some(up) => Some(
            QuoteUpdate { up, bid: price_touch(change.best_bid), ask: price_touch(change.best_ask) },
        ),
        None => None,
    }
}

/// The update that a book message carries, if it names a token of the market.
pub open spec fn update_of_book(market: &ActiveMarket, msg: &BookMessage) -> Option<QuoteUpdate> {
    match msg.asset_id {
        Some(id) => match token_of(market, id@) {
            Some(up) => Some(
                QuoteUpdate {
                    up,
                    bid: level_touch(best_bid_level(msg)),
                    ask: level_touch(best_ask_level(msg)),
                },
            ),
            None => None,
        },
        None => None,
    }
}

/// The quotes after the entries of a price-change message, taken in order.
pub open spec fn after_changes(
    q: QuoteState,
    market: &ActiveMarket,
    changes: Seq<PriceChange>,
    now_ms: i64,
) -> QuoteState
    decreases changes.len(),
{
    if changes.len() == 0 {
        q
    } else {
        let before = after_changes(q, market, changes.drop_last(), now_ms);
        match update_of_change(market, &changes.last()) {
            Some(u) => after_update(before, u, now_ms),
            None => before,
        }
    }
}

/// The best bid of a token.
pub open spec fn bid_in(q: QuoteState, up: bool) -> Option<i64> {
    if up {
        q.yes_bid
    } else {
        q.no_bid
    }
}

/// The best ask of a token.
pub open spec fn ask_in(q: QuoteState, up: bool) -> Option<i64> {
    if up {
        q.yes_ask
    } else {
        q.no_ask
    }
}

/// What a quote handed out for broadcast holds.
pub struct QuoteView {
    pub token_id: Seq<char>,
    pub up: bool,
    pub best_bid: Option<i64>,
    pub best_ask: Option<i64>,
}

/// The quotes that the entries of a price-change message give, in order: one
/// for each entry that names a token of the market, with the best bid and ask
/// of that token as they stand once the entry is taken in.
pub open spec fn quotes_after(
    q: QuoteState,
    market: &ActiveMarket,
    changes: Seq<PriceChange>,
    now_ms: i64,
) -> Seq<QuoteView>
    decreases changes.len(),
{
    if changes.len() == 0 {
        Seq::empty()
    } else {
        let before = quotes_after(q, market, changes.drop_last(), now_ms);
        match update_of_change(market, &changes.last()) {
            Some(u) => before.push(
                QuoteView {
                    token_id: changes.last().asset_id@,
                    up: u.up,
                    best_bid: bid_in(after_changes(q, market, changes, now_ms), u.up),
                    best_ask: ask_in(after_changes(q, market, changes, now_ms), u.up),
                },
            ),
            None => before,
        }
    }
}

/// Whether a quote holds what it should: the token and its label, the best
/// bid and ask, no sizes, and the time of receipt.
pub open spec fn quote_shows(quote: &PolymarketQuote, v: QuoteView, now_ms: i64) -> bool {
    &&& quote.token_id@ == v.token_id
    &&& quote.side@ == (if v.up {
        "UP"@
    } else {
        "DOWN"@
    })
    &&& quote.best_bid == v.best_bid
    &&& quote.best_ask == v.best_ask
    &&& quote.best_bid_size is None
    &&& quote.best_ask_size is None
    &&& quote.t_recv_ms == now_ms
}

/// Whether the quotes handed out are those that the entries give.
pub open spec fn quotes_show(
    quotes: Seq<PolymarketQuote>,
    views: Seq<QuoteView>,
    now_ms: i64,
) -> bool {
    &&& quotes.len() == views.len()
    &&& forall|i: int| 0 <= i < quotes.len() ==> quote_shows(&#[trigger] quotes[i], views[i], now_ms)
}

/// How many entries of a price-change message name a token of the market.
pub open spec fn relevant_changes(market: &ActiveMarket, changes: Seq<PriceChange>) -> nat
    decreases changes.len(),
{
    if changes.len() == 0 {
        0
    } else {
        relevant_changes(market, changes.drop_last()) + if update_of_change(
            market,
            &changes.last(),
        ) is Some {
            1nat
        } else {
            0nat
        }
    }
}

impl ActiveMarket {
    /// No market.
    pub fn new() -> (m: Self)
        ensures
            m.up_token_id@.len() == 0,
            m.down_token_id@.len() == 0,
            m.condition_id@.len() == 0,
            m.slug@.len() == 0,
            m.title@.len() == 0,
            m.start_time@.len() == 0,
            m.end_date@.len() == 0,
            m.target_price is None,
    {
        ActiveMarket {
            up_token_id: String::new(),
            down_token_id: String::new(),
            condition_id: String::new(),
            slug: String::new(),
            title: String::new(),
            start_time: String::new(),
            end_date: String::new(),
            target_price: None,
        }
    }

    /// The descriptor of a market just discovered: its target price is unset.
    pub fn from_tokens(tokens: &MarketTokens) -> (m: Self)
        ensures
            m.describes(tokens),
            m.target_price is None,
    {
        ActiveMarket {
            up_token_id: tokens.up_token_id.clone(),
            down_token_id: tokens.down_token_id.clone(),
            condition_id: tokens.condition_id.clone(),
            slug: tokens.slug.clone(),
            title: tokens.title.clone(),
            start_time: tokens.start_time.clone(),
            end_date: tokens.end_date.clone(),
            target_price: None,
        }
    }

    /// The descriptor names the market that `tokens` names.
    pub open spec fn describes(&self, tokens: &MarketTokens) -> bool {
        &&& self.up_token_id@ == tokens.up_token_id@
        &&& self.down_token_id@ == tokens.down_token_id@
        &&& self.condition_id@ == tokens.condition_id@
        &&& self.slug@ == tokens.slug@
        &&& self.title@ == tokens.title@
        &&& self.start_time@ == tokens.start_time@
        &&& self.end_date@ == tokens.end_date@
    }

    /// The same market, whatever the target price.
    pub open spec fn same_market(&self, other: &ActiveMarket) -> bool {
        &&& self.up_token_id@ == other.up_token_id@
        &&& self.down_token_id@ == other.down_token_id@
        &&& self.condition_id@ == other.condition_id@
        &&& self.slug@ == other.slug@
        &&& self.title@ == other.title@
        &&& self.start_time@ == other.start_time@
        &&& self.end_date@ == other.end_date@
    }

    /// Which token an asset id names.
    pub fn token(&self, asset_id: &String) -> (t: Option<bool>)
        ensures
            t == token_of(self, asset_id@),
    {
        if *asset_id == self.up_token_id {
            Some(true)
        } else if *asset_id == self.down_token_id {
            Some(false)
        } else {
            None
        }
    }
}

fn read_price(text: &Option<String>) -> (t: Touch)
    ensures
        t == price_touch(*text),
{
    match text {
        Some(s) => match parse_fixed_nearest(s.as_str()) {
            Some(p) => Touch::Price(p),
            None => Touch::Keep,
        },
        None => Touch::Keep,
    }
}

fn read_level(level: &OrderBookLevel) -> (t: Touch)
    ensures
        t == level_touch(Some(*level)),
{
    match parse_fixed_nearest(level.price.as_str()) {
        Some(p) => Touch::PriceAndSize(p, parse_fixed_nearest(level.size.as_str())),
        None => Touch::Keep,
    }
}

/// Reads the update that a price change carries.
pub fn read_price_change(market: &ActiveMarket, change: &PriceChange) -> (u: Option<QuoteUpdate>)
    ensures
        u == update_of_change(market, change),
{
    match market.token(&change.asset_id) {
        Some(up) => Some(
            QuoteUpdate { up, bid: read_price(&change.best_bid), ask: read_price(&change.best_ask) },
        ),
        None => None,
    }
}

/// Reads the update that a book message carries: its best bid is the last of
/// its bids, its best ask the first of its asks.
pub fn read_book_message(market: &ActiveMarket, msg: &BookMessage) -> (u: Option<QuoteUpdate>)
    ensures
        u == update_of_book(market, msg),
{
    let id = match &msg.asset_id {
        Some(id) => id,
        None => {
            return None;
        },
    };
    let up = match market.token(id) {
        Some(up) => up,
        None => {
            return None;
        },
    };
    let bid = match &msg.bids {
        Some(bids) => if bids.len() > 0 {
            read_level(&bids[bids.len() - 1])
        } else {
            Touch::Keep
        },
        None => Touch::Keep,
    };
    let ask = match &msg.asks {
        Some(asks) => if asks.len() > 0 {
            read_level(&asks[0])
        } else {
            Touch::Keep
        },
        None => Touch::Keep,
    };
    Some(QuoteUpdate { up, bid, ask })
}

/// What `chrono` reads from a text as an RFC 3339 instant, in milliseconds
/// since the epoch, or nothing where the text is no such instant.
pub uninterp spec fn rfc3339_instant_ms(text: Seq<char>) -> Option<int>;

/// `DateTime::parse_from_rfc3339` of `chrono`, with the instant taken as
/// `timestamp_millis`. The parse depends on the text alone; its result is
/// named, not described.
#[verifier::external_body]
fn parse_rfc3339_ms(text: &str) -> (r: Option<i64>)
    ensures
        r matches Some(ms) ==> rfc3339_instant_ms(text@) == Some(ms as int),
        r is None ==> rfc3339_instant_ms(text@) is None,
{
    match chrono::DateTime::parse_from_rfc3339(text) {
        Ok(dt) => Some(dt.timestamp_millis()),
        Err(_) => None,
    }
}

/// Whole seconds from `now_ms` until `end_ms`, never below zero.
pub open spec fn seconds_until(end_ms: int, now_ms: int) -> int {
    if end_ms <= now_ms {
        0
    } else {
        (end_ms - now_ms) / 1000
    }
}

/// Whole seconds from `now_ms` until `end_ms`, never below zero.
pub fn remaining_secs(end_ms: i64, now_ms: i64) -> (secs: i64)
    ensures
        secs == seconds_until(end_ms as int, now_ms as int),
        secs >= 0,
{
    if end_ms <= now_ms {
        0
    } else {
        ((end_ms as i128 - now_ms as i128) / 1000) as i64
    }
}

/// Whether a window that starts at `start_ms` (unknown where the start time
/// could not be read) has started at `now_ms`. An unknown start counts as
/// started.
pub open spec fn started(start_ms: Option<int>, now_ms: int) -> bool {
    match start_ms {
        Some(s) => now_ms >= s,
        None => true,
    }
}

/// The prediction-market component: the active market and its quotes.
pub struct PolymarketService {
    config: PolymarketConfig,
    active_market: ActiveMarket,
    quote_state: QuoteState,
    running: bool,
}

/// The answer of a check for a new market.
#[derive(Debug, Clone)]
pub enum MarketCheck {
    /// The catalog names another market.
    Changed(MarketTokens),
    /// The catalog names the market already tracked.
    Same,
    /// The check failed; the market tracked stays.
    Failed,
}

impl PolymarketService {
    /// A service that tracks no market yet.
    pub fn new(config: PolymarketConfig) -> (s: Self)
        ensures
            s.quotes() == QuoteState::new_spec(),
            s.market().target_price is None,
            s.market().condition_id@.len() == 0,
            s.market().up_token_id@.len() == 0,
            s.market().down_token_id@.len() == 0,
            s.market().slug@.len() == 0,
            s.market().end_date@.len() == 0,
            !s.is_running(),
            s.settings() == config,
    {
        PolymarketService {
            config,
            active_market: ActiveMarket::new(),
            quote_state: QuoteState::new(),
            running: false,
        }
    }

    /// The quotes held.
    pub closed spec fn quotes(&self) -> QuoteState {
        self.quote_state
    }

    /// The market tracked.
    pub closed spec fn market(&self) -> ActiveMarket {
        self.active_market
    }

    /// Whether the service has been started and not stopped.
    pub closed spec fn is_running(&self) -> bool {
        self.running
    }

    /// The settings of this service.
    pub closed spec fn settings(&self) -> PolymarketConfig {
        self.config
    }

    /// The settings of this service.
    pub fn config(&self) -> (c: &PolymarketConfig)
        ensures
            *c == self.settings(),
    {
        &self.config
    }

    /// Takes in the market that the catalog names. Where its condition id
    /// is that of the market tracked, the descriptor is brought up to date
    /// and the target price stays; where it is another, the market is
    /// replaced and the target price is unset. The quotes stay.
    pub fn refresh_market_tokens(&mut self, tokens: &MarketTokens)
        ensures
            final(self).market().describes(tokens),
            final(self).market().target_price == target_after_refresh(&old(self).market(), tokens),
            final(self).quotes() == old(self).quotes(),
            final(self).is_running() == old(self).is_running(),
            final(self).settings() == old(self).settings(),
    {
        let kept = if tokens.condition_id == self.active_market.condition_id {
            self.active_market.target_price
        } else {
            None
        };
        let mut market = ActiveMarket::from_tokens(tokens);
        market.target_price = kept;
        self.active_market = market;
    }

    /// Sets the target price unless one is set already. Returns whether it
    /// was set by this call.
    pub fn set_target_price(&mut self, price: i64) -> (set: bool)
        ensures
            set == old(self).market().target_price is None,
            final(self).market().target_price == set_once(old(self).market().target_price, price),
            final(self).market().same_market(&old(self).market()),
            final(self).quotes() == old(self).quotes(),
            final(self).is_running() == old(self).is_running(),
    {
        if self.active_market.target_price.is_none() {
            self.active_market.target_price = Some(price);
            true
        } else {
            false
        }
    }

    /// Sets the target price, whatever it was.
    pub fn force_set_target_price(&mut self, price: i64)
        ensures
            final(self).market().target_price == Some(price),
            final(self).market().same_market(&old(self).market()),
            final(self).quotes() == old(self).quotes(),
            final(self).is_running() == old(self).is_running(),
    {
        self.active_market.target_price = Some(price);
    }

    /// Unsets the target price.
    pub fn clear_target_price(&mut self)
        ensures
            final(self).market().target_price is None,
            final(self).market().same_market(&old(self).market()),
            final(self).quotes() == old(self).quotes(),
            final(self).is_running() == old(self).is_running(),
    {
        self.active_market.target_price = None;
    }

    /// A copy of the market tracked.
    pub fn get_active_market(&self) -> (m: ActiveMarket)
        ensures
            m == self.market(),
    {
        self.active_market.clone_market()
    }

    /// The quotes.
    pub fn get_quote_state(&self) -> (q: QuoteState)
        ensures
            q == self.quotes(),
    {
        self.quote_state
    }

    /// Time since the last quote; `i64::MAX` where none was ever received.
    pub fn get_staleness_ms(&self, now_ms: i64) -> (s: i64)
        ensures
            s == staleness(self.quotes(), now_ms as int),
    {
        self.quote_state.staleness_ms(now_ms)
    }

    /// Seconds until the window ends, never below zero. None where the end of
    /// the window is unknown or cannot be read.
    pub fn get_remaining_secs(&self, now_ms: i64) -> (r: Option<i64>)
        ensures
            r == if self.market().end_date@.len() == 0 {
                None
            } else {
                match rfc3339_instant_ms(self.market().end_date@) {
                    Some(end) => Some(seconds_until(end, now_ms as int) as i64),
                    None => None,
                }
            },
    {
        if self.active_market.end_date.as_str().is_empty() {
            return None;
        }
        match parse_rfc3339_ms(self.active_market.end_date.as_str()) {
            Some(end) => Some(remaining_secs(end, now_ms)),
            None => None,
        }
    }

    /// Whether the window of the market tracked has started at `now_ms`. Where
    /// the start is unknown or cannot be read the window counts as started.
    pub fn window_started(&self, now_ms: i64) -> (b: bool)
        ensures
            b == started(
                if self.market().start_time@.len() == 0 {
                    None
                } else {
                    rfc3339_instant_ms(self.market().start_time@)
                },
                now_ms as int,
            ),
    {
        if self.active_market.start_time.as_str().is_empty() {
            return true;
        }
        match parse_rfc3339_ms(self.active_market.start_time.as_str()) {
            Some(start) => now_ms >= start,
            None => true,
        }
    }

    /// The slug of the event page that shows the target price: that of the
    /// market tracked, else that of the window that holds `now_secs`.
    pub fn price_page_slug(&self, now_secs: i64) -> (slug: String)
        ensures
            slug@ == if self.market().slug@.len() > 0 {
                self.market().slug@
            } else {
                slug_text("btc-updown-15m"@, window_start(now_secs as int))
            },
    {
        if !self.active_market.slug.as_str().is_empty() {
            self.active_market.slug.clone()
        } else {
            let start = GammaClient::window_start_wide(now_secs);
            let mut slug = String::from_str("btc-updown-15m");
            proof {
                reveal_strlit("-");
                assert("-"@ =~= seq!['-']);
            }
            slug.append("-");
            push_int(&mut slug, start);
            slug
        }
    }

    /// Marks the service as running.
    pub fn start(&mut self)
        ensures
            final(self).is_running(),
            final(self).quotes() == old(self).quotes(),
            final(self).market() == old(self).market(),
    {
        self.running = true;
    }

    /// Marks the service as stopped.
    pub fn stop(&mut self)
        ensures
            !final(self).is_running(),
            final(self).quotes() == old(self).quotes(),
            final(self).market() == old(self).market(),
    {
        self.running = false;
    }

    /// Whether the service is running.
    pub fn running(&self) -> (b: bool)
        ensures
            b == self.is_running(),
    {
        self.running
    }

    /// The frame to send after connecting: it subscribes to both tokens, "up"
    /// first. None where a token of the market is unknown: then no connection
    /// is to be made.
    pub fn subscription(&self) -> (frame: Option<SubscribeMessage>)
        ensures
            frame is None <==> self.market().up_token_id@.len() == 0
                || self.market().down_token_id@.len() == 0,
            frame matches Some(f) ==> f.msg_type@ == "subscribe"@ && f.assets_ids@.len() == 2
                && f.assets_ids@[0]@ == self.market().up_token_id@ && f.assets_ids@[1]@
                == self.market().down_token_id@,
    {
        if self.active_market.up_token_id.as_str().is_empty()
            || self.active_market.down_token_id.as_str().is_empty() {
            return None;
        }
        let mut ids: Vec<String> = Vec::new();
        ids.push(self.active_market.up_token_id.clone());
        ids.push(self.active_market.down_token_id.clone());
        Some(SubscribeMessage { msg_type: String::from_str("subscribe"), assets_ids: ids })
    }

    /// Whether it is time to ask the catalog for a new market: more than a
    /// minute has passed since the last check.
    pub fn market_check_due(last_check_ms: i64, now_ms: i64) -> (due: bool)
        ensures
            due == (now_ms - last_check_ms > MARKET_CHECK_INTERVAL_MS),
    {
        now_ms as i128 - last_check_ms as i128 > MARKET_CHECK_INTERVAL_MS as i128
    }

    /// Takes in the answer of a check for a new market. A changed market
    /// replaces the one tracked, with the target price unset, and the
    /// connection is to be left so that it is reopened for the new tokens. A
    /// failed check, or one that names the market tracked, changes nothing.
    pub fn on_market_check(&mut self, check: MarketCheck) -> (action: StreamAction)
        ensures
            final(self).quotes() == old(self).quotes(),
            final(self).is_running() == old(self).is_running(),
            match check {
                MarketCheck::Changed(tokens) => action is Disconnect
                    && final(self).market().describes(&tokens)
                    && final(self).market().target_price == target_after_refresh(
                    &old(self).market(),
                    &tokens,
                ),
                _ => action is Continue && final(self).market() == old(self).market(),
            },
    {
        match check {
            MarketCheck::Changed(tokens) => {
                self.refresh_market_tokens(&tokens);
                StreamAction::Disconnect
            },
            _ => StreamAction::Continue,
        }
    }

    /// Takes in one update.
    pub fn apply_update(&mut self, update: &QuoteUpdate, now_ms: i64)
        ensures
            final(self).quotes() == after_update(old(self).quotes(), *update, now_ms),
            final(self).market() == old(self).market(),
            final(self).is_running() == old(self).is_running(),
    {
        self.quote_state.apply(update, now_ms);
    }

    fn quote_for(&self, change: &PriceChange, up: bool, now_ms: i64) -> (quote: PolymarketQuote)
        ensures
            quote.token_id@ == change.asset_id@,
            quote.side@ == (if up {
                "UP"@
            } else {
                "DOWN"@
            }),
            quote.best_bid == (if up {
                self.quotes().yes_bid
            } else {
                self.quotes().no_bid
            }),
            quote.best_ask == (if up {
                self.quotes().yes_ask
            } else {
                self.quotes().no_ask
            }),
            quote.best_bid_size is None,
            quote.best_ask_size is None,
            quote.t_recv_ms == now_ms,
    {
        PolymarketQuote {
            token_id: change.asset_id.clone(),
            side: if up {
                String::from_str("UP")
            } else {
                String::from_str("DOWN")
            },
            best_bid: self.quote_state.bid(up),
            best_bid_size: None,
            best_ask: self.quote_state.ask(up),
            best_ask_size: None,
            t_recv_ms: now_ms,
        }
    }

    /// Takes in a price-change message. Every entry that names a token of the
    /// market updates that token's best bid and ask; one quote per such entry
    /// is returned for broadcast, in order.
    pub fn process_price_changes(&mut self, msg: &PriceChangeMessage, now_ms: i64) -> (quotes: Vec<
        PolymarketQuote,
    >)
        ensures
            final(self).market() == old(self).market(),
            final(self).is_running() == old(self).is_running(),
            msg.price_changes is None ==> final(self).quotes() == old(self).quotes()
                && quotes@.len() == 0,
            msg.price_changes matches Some(changes) ==> final(self).quotes() == after_changes(
                old(self).quotes(),
                &old(self).market(),
                changes@,
                now_ms,
            ) && quotes@.len() == relevant_changes(&old(self).market(), changes@) && quotes_show(
                quotes@,
                quotes_after(old(self).quotes(), &old(self).market(), changes@, now_ms),
                now_ms,
            ),
    {
        let mut quotes: Vec<PolymarketQuote> = Vec::new();
        let changes = match &msg.price_changes {
            Some(changes) => changes,
            None => {
                return quotes;
            },
        };
        let mut i: usize = 0;
        while i < changes.len()
            invariant
                0 <= i <= changes@.len(),
                self.market() == old(self).market(),
                self.is_running() == old(self).is_running(),
                self.quotes() == after_changes(
                    old(self).quotes(),
                    &old(self).market(),
                    changes@.subrange(0, i as int),
                    now_ms,
                ),
                quotes@.len() == relevant_changes(
                    &old(self).market(),
                    changes@.subrange(0, i as int),
                ),
                quotes_show(
                    quotes@,
                    quotes_after(
                        old(self).quotes(),
                        &old(self).market(),
                        changes@.subrange(0, i as int),
                        now_ms,
                    ),
                    now_ms,
                ),
            decreases changes@.len() - i,
        {
            proof {
                let next = changes@.subrange(0, i + 1);
                assert(next.drop_last() =~= changes@.subrange(0, i as int));
                assert(next.last() == changes@[i as int]);
            }
            match read_price_change(&self.active_market, &changes[i]) {
                Some(update) => {
                    self.quote_state.apply(&update, now_ms);
                    let quote = self.quote_for(&changes[i], update.up, now_ms);
                    quotes.push(quote);
                },
                None => {},
            }
            i = i + 1;
        }
        proof {
            assert(changes@.subrange(0, i as int) =~= changes@);
        }
        quotes
    }

    /// Takes in a book message of one token.
    pub fn process_book_message(&mut self, msg: &BookMessage, now_ms: i64)
        ensures
            final(self).market() == old(self).market(),
            final(self).is_running() == old(self).is_running(),
            final(self).quotes() == match update_of_book(&old(self).market(), msg) {
                Some(u) => after_update(old(self).quotes(), u, now_ms),
                None => old(self).quotes(),
            },
    {
        match read_book_message(&self.active_market, msg) {
            Some(update) => {
                self.quote_state.apply(&update, now_ms);
            },
            None => {},
        }
    }
}

impl QuoteState {
    /// No quotes, never updated.
    pub open spec fn new_spec() -> QuoteState {
        QuoteState {
            yes_bid: None,
            yes_bid_size: None,
            yes_ask: None,
            yes_ask_size: None,
            no_bid: None,
            no_bid_size: None,
            no_ask: None,
            no_ask_size: None,
            last_update_ms: 0,
        }
    }
}

impl ActiveMarket {
    /// A copy of the descriptor.
    pub fn clone_market(&self) -> (m: Self)
        ensures
            m == *self,
    {
        ActiveMarket {
            up_token_id: self.up_token_id.clone(),
            down_token_id: self.down_token_id.clone(),
            condition_id: self.condition_id.clone(),
            slug: self.slug.clone(),
            title: self.title.clone(),
            start_time: self.start_time.clone(),
            end_date: self.end_date.clone(),
            target_price: self.target_price,
        }
    }
}

/// The JSON text of a subscribe frame.
pub open spec fn subscribe_json(frame: &SubscribeMessage) -> Seq<char> {
    seq!['{'] + member_text("type"@, frame.msg_type@) + ",\"assets_ids\":"@ + string_array_text(
        frame.assets_ids.deep_view(),
    ) + seq!['}']
}

impl SubscribeMessage {
    /// The JSON text of the frame.
    pub fn to_json(&self) -> (json: String)
        ensures
            json@ == subscribe_json(self),
    {
        proof {
            reveal_strlit("{");
            reveal_strlit("}");
            assert("{"@ =~= seq!['{']);
            assert("}"@ =~= seq!['}']);
        }
        let mut json = String::from_str("{");
        push_member(&mut json, "type", self.msg_type.as_str());
        json.append(",\"assets_ids\":");
        push_string_array(&mut json, &self.assets_ids);
        json.append("}");
        proof {
            assert(json@ =~= subscribe_json(self));
        }
        json
    }
}

impl Default for QuoteState {
    fn default() -> (q: Self)
        ensures
            q == QuoteState::new_spec(),
    {
        QuoteState::new()
    }
}

impl Default for ActiveMarket {
    fn default() -> (m: Self)
        ensures
            m.up_token_id@.len() == 0,
            m.down_token_id@.len() == 0,
            m.condition_id@.len() == 0,
            m.target_price is None,
    {
        ActiveMarket::new()
    }
}

/// A text frame, read in each of the shapes that the feed sends. A shape is
/// absent where the text cannot be read in it.
#[derive(Debug, Clone)]
pub struct ParsedText {
    pub as_price_change: Option<PriceChangeMessage>,
    pub as_book_list: Option<Vec<BookMessage>>,
    pub as_book: Option<BookMessage>,
}

/// The shape in which a text frame is taken.
#[derive(Debug, Clone, Copy, PartialEq, Eq, Structural)]
pub enum Shape {
    PriceChange,
    BookList,
    Book,
    Unrecognized,
}

/// The shape in which a text frame is taken: a price change where it reads as
/// one and carries changes, else a list of books, else a single book.
pub open spec fn shape_of(text: &ParsedText) -> Shape {
    if text.as_price_change matches Some(msg) && msg.price_changes is Some {
        Shape::PriceChange
    } else if text.as_book_list is Some {
        Shape::BookList
    } else if text.as_book is Some {
        Shape::Book
    } else {
        Shape::Unrecognized
    }
}

/// The quotes after a list of book messages, taken in order.
pub open spec fn after_books(
    q: QuoteState,
    market: &ActiveMarket,
    msgs: Seq<BookMessage>,
    now_ms: i64,
) -> QuoteState
    decreases msgs.len(),
{
    if msgs.len() == 0 {
        q
    } else {
        let before = after_books(q, market, msgs.drop_last(), now_ms);
        match update_of_book(market, &msgs.last()) {
            Some(u) => after_update(before, u, now_ms),
            None => before,
        }
    }
}

/// The quotes after a text frame received at `now_ms`.
pub open spec fn after_text(q: QuoteState, market: &ActiveMarket, text: &ParsedText, now_ms: i64) -> QuoteState {
    match shape_of(text) {
        Shape::PriceChange => after_changes(
            q,
            market,
            text.as_price_change.unwrap().price_changes.unwrap()@,
            now_ms,
        ),
        Shape::BookList => after_books(q, market, text.as_book_list.unwrap()@, now_ms),
        Shape::Book => after_books(q, market, seq![text.as_book.unwrap()], now_ms),
        Shape::Unrecognized => q,
    }
}

impl PolymarketService {
    /// Takes in a text frame received at `now_ms` and returns its shape and
    /// the quotes to broadcast. Only price changes are broadcast.
    pub fn handle_message(&mut self, text: &ParsedText, now_ms: i64) -> (r: (
        Shape,
        Vec<PolymarketQuote>,
    ))
        ensures
            final(self).market() == old(self).market(),
            final(self).is_running() == old(self).is_running(),
            r.0 == shape_of(text),
            final(self).quotes() == after_text(old(self).quotes(), &old(self).market(), text, now_ms),
            r.0 != Shape::PriceChange ==> r.1@.len() == 0,
            r.0 == Shape::PriceChange ==> r.1@.len() == relevant_changes(
                &old(self).market(),
                text.as_price_change.unwrap().price_changes.unwrap()@,
            ) && quotes_show(
                r.1@,
                quotes_after(
                    old(self).quotes(),
                    &old(self).market(),
                    text.as_price_change.unwrap().price_changes.unwrap()@,
                    now_ms,
                ),
                now_ms,
            ),
    {
        match &text.as_price_change {
            Some(msg) => {
                if msg.price_changes.is_some() {
                    let quotes = self.process_price_changes(msg, now_ms);
                    return (Shape::PriceChange, quotes);
                }
            },
            None => {},
        }
        match &text.as_book_list {
            Some(msgs) => {
                let mut i: usize = 0;
                while i < msgs.len()
                    invariant
                        0 <= i <= msgs@.len(),
                        self.market() == old(self).market(),
                        self.is_running() == old(self).is_running(),
                        self.quotes() == after_books(
                            old(self).quotes(),
                            &old(self).market(),
                            msgs@.subrange(0, i as int),
                            now_ms,
                        ),
                    decreases msgs@.len() - i,
                {
                    proof {
                        let next = msgs@.subrange(0, i + 1);
                        assert(next.drop_last() =~= msgs@.subrange(0, i as int));
                        assert(next.last() == msgs@[i as int]);
                    }
                    self.process_book_message(&msgs[i], now_ms);
                    i = i + 1;
                }
                proof {
                    assert(msgs@.subrange(0, i as int) =~= msgs@);
                }
                return (Shape::BookList, Vec::new());
            },
            None => {},
        }
        match &text.as_book {
            Some(msg) => {
                proof {
                    let one = seq![*msg];
                    let q = self.quotes();
                    let market = self.market();
                    assert(one.drop_last() =~= Seq::<BookMessage>::empty());
                    assert(one.last() == *msg);
                    assert(after_books(q, &market, one.drop_last(), now_ms) == q);
                    assert(after_books(q, &market, one, now_ms) == match update_of_book(
                        &market,
                        msg,
                    ) {
                        Some(u) => after_update(q, u, now_ms),
                        None => q,
                    });
                }
                self.process_book_message(msg, now_ms);
                (Shape::Book, Vec::new())
            },
            None => (Shape::Unrecognized, Vec::new()),
        }
    }
}

/// After a market is replaced its target price is unset; once set, the target
/// price stays whatever a later plain set asks for.
pub proof fn law_target_price(target: Option<i64>, first: i64, second: i64)
    ensures
        set_once(set_once(None, first), second) == Some(first),
        target is Some ==> set_once(target, second) == target,
{
}

/// The target price after a plain set: the old one where there was one.
pub open spec fn set_once(target: Option<i64>, price: i64) -> Option<i64> {
    match target {
        Some(p) => Some(p),
        None => Some(price),
    }
}

} // verus!
