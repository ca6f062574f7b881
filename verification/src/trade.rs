//! The trade gate: the operator's trading state, the pre-trade risk policy,
//! and the steps of placing an order.
//!
//! Sizes, prices and spreads are fixed-point units. Only purchases are made;
//! the side chooses the token that is bought.

use crate::clob::{quote, quoted, ClobCredentials, OrderRequest, OrderResponse};
use crate::config::TradingConfig;
use crate::events::{side_text, TradeEvent, TradeSide};
use crate::polymarket::{spread_of, ActiveMarket, QuoteState};
use crate::text::{fixed_text, int_text, padded_text, push_fixed, push_int, push_padded};
use std::collections::VecDeque;
use vstd::prelude::*;
use vstd::string::*;

verus! {

/// Most entries that the action log keeps.
pub const ACTION_LOG_CAP: usize = 100;

/// Smallest order size: one whole.
pub const MIN_SIZE: i64 = 100_000_000;

/// Lowest price cap: 0.01.
pub const MIN_MAX_PRICE: i64 = 1_000_000;

/// Highest price cap: 0.99.
pub const MAX_MAX_PRICE: i64 = 99_000_000;

/// What the operator has set.
#[derive(Debug, Clone, Copy, PartialEq, Eq, Structural)]
pub struct TradingState {
    pub kill_switch_active: bool,
    pub current_size: i64,
    pub max_price_yes: i64,
    pub max_price_no: i64,
}

/// Why the risk policy refuses an order.
#[derive(Debug, Clone, Copy, PartialEq, Eq, Structural)]
pub enum RejectReason {
    /// The kill switch is on.
    KillSwitch,
    /// The size exceeds the configured maximum.
    SizeExceedsMax { size: i64, max_size: i64 },
    /// The quotes are staler than the configured threshold.
    StaleQuote { stale_ms: i64, threshold_ms: u64 },
    /// The limit price exceeds the price cap of the side.
    PriceExceedsMax { limit_price: i64, max_price: i64 },
    /// Ask minus bid of the token exceeds the configured maximum.
    SpreadTooWide { spread: i128, max_spread: i64 },
}

/// The verdict of the risk policy.
#[derive(Debug, Clone, Copy, PartialEq, Eq, Structural)]
pub enum RiskCheckResult {
    Allowed,
    Rejected(RejectReason),
}

/// The price cap of a side.
pub open spec fn max_price_of(state: TradingState, side: TradeSide) -> i64 {
    match side {
        TradeSide::Yes => state.max_price_yes,
        TradeSide::No => state.max_price_no,
    }
}

/// The best bid of the token that a side buys.
pub open spec fn bid_of(quotes: QuoteState, side: TradeSide) -> Option<i64> {
    match side {
        TradeSide::Yes => quotes.yes_bid,
        TradeSide::No => quotes.no_bid,
    }
}

/// The best ask of the token that a side buys.
pub open spec fn ask_of(quotes: QuoteState, side: TradeSide) -> Option<i64> {
    match side {
        TradeSide::Yes => quotes.yes_ask,
        TradeSide::No => quotes.no_ask,
    }
}

/// The limit price of an order: the best ask of the token, capped by the
/// price cap of the side; the cap itself where no ask is known.
pub open spec fn limit_price_of(state: TradingState, quotes: QuoteState, side: TradeSide) -> i64 {
    match ask_of(quotes, side) {
        Some(ask) => if ask < max_price_of(state, side) {
            ask
        } else {
            max_price_of(state, side)
        },
        None => max_price_of(state, side),
    }
}

/// The risk policy: the checks in order, the first failure decides.
pub open spec fn risk_verdict(
    config: TradingConfig,
    state: TradingState,
    quotes: QuoteState,
    stale_ms: i64,
    side: TradeSide,
    size: i64,
    limit_price: i64,
) -> RiskCheckResult {
    if state.kill_switch_active {
        RiskCheckResult::Rejected(RejectReason::KillSwitch)
    } else if size > config.max_size {
        RiskCheckResult::Rejected(RejectReason::SizeExceedsMax { size, max_size: config.max_size })
    } else if stale_ms > config.stale_quote_threshold_ms {
        RiskCheckResult::Rejected(
            RejectReason::StaleQuote { stale_ms, threshold_ms: config.stale_quote_threshold_ms },
        )
    } else if limit_price > max_price_of(state, side) {
        RiskCheckResult::Rejected(
            RejectReason::PriceExceedsMax { limit_price, max_price: max_price_of(state, side) },
        )
    } else {
        match spread_of(bid_of(quotes, side), ask_of(quotes, side)) {
            Some(spread) => if spread > config.max_spread {
                RiskCheckResult::Rejected(
                    RejectReason::SpreadTooWide {
                        spread: spread as i128,
                        max_spread: config.max_spread,
                    },
                )
            } else {
                RiskCheckResult::Allowed
            },
            None => RiskCheckResult::Allowed,
        }
    }
}

/// `v` kept between `lo` and `hi`: first raised to `lo`, then lowered to `hi`.
pub open spec fn raised_then_capped(v: int, lo: int, hi: int) -> int {
    let raised = if v < lo {
        lo
    } else {
        v
    };
    if raised > hi {
        hi
    } else {
        raised
    }
}

/// The size after an adjustment: at least one whole, at most the configured
/// maximum (the maximum wins where it is below one whole).
pub open spec fn adjusted_size(config: TradingConfig, current: i64, delta: i64) -> int {
    raised_then_capped(current + delta, MIN_SIZE as int, config.max_size as int)
}

/// A price cap after an adjustment: kept between 0.01 and 0.99.
pub open spec fn adjusted_max_price(current: i64, delta: i64) -> int {
    raised_then_capped(current + delta, MIN_MAX_PRICE as int, MAX_MAX_PRICE as int)
}

/// The state after the price cap of a side is adjusted.
pub open spec fn with_adjusted_max_price(state: TradingState, side: TradeSide, delta: i64) -> TradingState {
    match side {
        TradeSide::Yes => TradingState {
            max_price_yes: adjusted_max_price(state.max_price_yes, delta) as i64,
            ..state
        },
        TradeSide::No => TradingState {
            max_price_no: adjusted_max_price(state.max_price_no, delta) as i64,
            ..state
        },
    }
}

impl TradingState {
    /// The state at startup: kill switch off, the configured default size and
    /// price caps.
    pub fn new(config: &TradingConfig) -> (s: Self)
        ensures
            !s.kill_switch_active,
            s.current_size == config.default_size,
            s.max_price_yes == config.max_price_yes,
            s.max_price_no == config.max_price_no,
    {
        TradingState {
            kill_switch_active: false,
            current_size: config.default_size,
            max_price_yes: config.max_price_yes,
            max_price_no: config.max_price_no,
        }
    }

    /// The price cap of a side.
    pub fn max_price(&self, side: TradeSide) -> (p: i64)
        ensures
            p == max_price_of(*self, side),
    {
        match side {
            TradeSide::Yes => self.max_price_yes,
            TradeSide::No => self.max_price_no,
        }
    }
}

fn clamp_sum(current: i64, delta: i64, lo: i64, hi: i64) -> (r: i64)
    ensures
        r == raised_then_capped(current + delta, lo as int, hi as int),
{
    let v: i128 = current as i128 + delta as i128;
    let raised: i128 = if v < lo as i128 {
        lo as i128
    } else {
        v
    };
    if raised > hi as i128 {
        hi
    } else {
        raised as i64
    }
}

/// The limit price of an order.
pub fn limit_price(state: &TradingState, quotes: &QuoteState, side: TradeSide) -> (p: i64)
    ensures
        p == limit_price_of(*state, *quotes, side),
{
    let cap = state.max_price(side);
    let ask = match side {
        TradeSide::Yes => quotes.yes_ask,
        TradeSide::No => quotes.no_ask,
    };
    match ask {
        Some(a) => if a < cap {
            a
        } else {
            cap
        },
        None => cap,
    }
}

/// Applies the risk policy to an order of `size` at `limit_price` on `side`,
/// given the quotes and their staleness.
pub fn check_risk(
    config: &TradingConfig,
    state: &TradingState,
    quotes: &QuoteState,
    stale_ms: i64,
    side: TradeSide,
    size: i64,
    limit_price: i64,
) -> (r: RiskCheckResult)
    ensures
        r == risk_verdict(*config, *state, *quotes, stale_ms, side, size, limit_price),
{
    if state.kill_switch_active {
        return RiskCheckResult::Rejected(RejectReason::KillSwitch);
    }
    if size > config.max_size {
        return RiskCheckResult::Rejected(
            RejectReason::SizeExceedsMax { size, max_size: config.max_size },
        );
    }
    if stale_ms >= 0 && (stale_ms as u64) > config.stale_quote_threshold_ms {
        return RiskCheckResult::Rejected(
            RejectReason::StaleQuote { stale_ms, threshold_ms: config.stale_quote_threshold_ms },
        );
    }
    let max_price = state.max_price(side);
    if limit_price > max_price {
        return RiskCheckResult::Rejected(RejectReason::PriceExceedsMax { limit_price, max_price });
    }
    let (bid, ask) = match side {
        TradeSide::Yes => (quotes.yes_bid, quotes.yes_ask),
        TradeSide::No => (quotes.no_bid, quotes.no_ask),
    };
    match (bid, ask) {
        (Some(b), Some(a)) => {
            let spread: i128 = a as i128 - b as i128;
            if spread > config.max_spread as i128 {
                return RiskCheckResult::Rejected(
                    RejectReason::SpreadTooWide { spread, max_spread: config.max_spread },
                );
            }
        },
        _ => {},
    }
    RiskCheckResult::Allowed
}

/// With the kill switch on every order is refused, whatever else holds.
pub proof fn law_kill_switch_rejects(
    config: TradingConfig,
    state: TradingState,
    quotes: QuoteState,
    stale_ms: i64,
    side: TradeSide,
    size: i64,
    limit_price: i64,
)
    requires
        state.kill_switch_active,
    ensures
        risk_verdict(config, state, quotes, stale_ms, side, size, limit_price)
            == RiskCheckResult::Rejected(RejectReason::KillSwitch),
{
}

/// The limit price of an order never exceeds the price cap of its side, so
/// the risk policy never refuses a planned order for its price.
pub proof fn law_limit_price_within_cap(state: TradingState, quotes: QuoteState, side: TradeSide)
    ensures
        limit_price_of(state, quotes, side) <= max_price_of(state, side),
        ask_of(quotes, side) matches Some(ask) ==> limit_price_of(state, quotes, side) <= ask,
{
}

/// The text of a reason.
pub open spec fn reason_text(reason: RejectReason) -> Seq<char> {
    match reason {
        RejectReason::KillSwitch => "Kill switch is active"@,
        RejectReason::SizeExceedsMax { size, max_size } => "Size "@ + fixed_text(size as int, 2)
            + " exceeds max size "@ + fixed_text(max_size as int, 2),
        RejectReason::StaleQuote { stale_ms, threshold_ms } => "Quote stale by "@ + int_text(
            stale_ms as int,
        ) + "ms (threshold "@ + int_text(threshold_ms as int) + "ms)"@,
        RejectReason::PriceExceedsMax { limit_price, max_price } => "Limit price "@ + fixed_text(
            limit_price as int,
            2,
        ) + " exceeds max price "@ + fixed_text(max_price as int, 2),
        RejectReason::SpreadTooWide { spread, max_spread } => "Spread "@ + fixed_text(
            spread as int,
            2,
        ) + " exceeds max spread "@ + fixed_text(max_spread as int, 2),
    }
}

impl RejectReason {
    /// The reason in words, with its numbers.
    pub fn message(&self) -> (text: String)
        ensures
            text@ == reason_text(*self),
    {
        match *self {
            RejectReason::KillSwitch => String::from_str("Kill switch is active"),
            RejectReason::SizeExceedsMax { size, max_size } => {
                let mut t = String::from_str("Size ");
                push_fixed(&mut t, size as i128, 2);
                t.append(" exceeds max size ");
                push_fixed(&mut t, max_size as i128, 2);
                t
            },
            RejectReason::StaleQuote { stale_ms, threshold_ms } => {
                let mut t = String::from_str("Quote stale by ");
                push_int(&mut t, stale_ms as i128);
                t.append("ms (threshold ");
                push_int(&mut t, threshold_ms as i128);
                t.append("ms)");
                t
            },
            RejectReason::PriceExceedsMax { limit_price, max_price } => {
                let mut t = String::from_str("Limit price ");
                push_fixed(&mut t, limit_price as i128, 2);
                t.append(" exceeds max price ");
                push_fixed(&mut t, max_price as i128, 2);
                t
            },
            RejectReason::SpreadTooWide { spread, max_spread } => {
                let mut t = String::from_str("Spread ");
                push_fixed(&mut t, spread, 2);
                t.append(" exceeds max spread ");
                push_fixed(&mut t, max_spread as i128, 2);
                t
            },
        }
    }
}

/// One operator action, for display.
#[derive(Debug, Clone)]
pub struct ActionLogEntry {
    pub timestamp_ms: i64,
    pub description: String,
}

/// Milliseconds in a day.
pub const DAY_MS: i64 = 86_400_000;

/// The second of the UTC day in which an instant falls; the instant is given
/// in milliseconds since the epoch, days are counted without leap seconds.
pub open spec fn second_of_day(timestamp_ms: int) -> int {
    (timestamp_ms % (DAY_MS as int)) / 1000
}

/// The time of day of an instant, in UTC, as `HH:MM:SS`.
pub open spec fn clock_text(timestamp_ms: int) -> Seq<char> {
    let s = second_of_day(timestamp_ms);
    padded_text((s / 3600) as nat, 2) + seq![':'] + padded_text(((s % 3600) / 60) as nat, 2)
        + seq![':'] + padded_text((s % 60) as nat, 2)
}

/// The display line of an entry: the time of day of its timestamp, a bar, the
/// description.
pub open spec fn entry_line(timestamp_ms: int, description: Seq<char>) -> Seq<char> {
    clock_text(timestamp_ms) + " | "@ + description
}

/// The time of day of an instant, in UTC, as `HH:MM:SS`.
pub fn time_of_day(timestamp_ms: i64) -> (text: String)
    ensures
        text@ == clock_text(timestamp_ms as int),
{
    // a whole number of days that lifts every instant above zero
    let shifted: i128 = timestamp_ms as i128 + 106_751_991_168 * 86_400_000;
    let day_ms: i128 = shifted % 86_400_000;
    proof {
        vstd::arithmetic::div_mod::lemma_mod_multiples_vanish(
            106_751_991_168,
            timestamp_ms as int,
            86_400_000,
        );
        assert(day_ms == timestamp_ms as int % 86_400_000);
        reveal_strlit(":");
        assert(":"@ =~= seq![':']);
    }
    let s: i128 = day_ms / 1000;
    let mut text = String::new();
    push_padded(&mut text, (s / 3600) as u128, 2);
    text.append(":");
    push_padded(&mut text, ((s % 3600) / 60) as u128, 2);
    text.append(":");
    push_padded(&mut text, (s % 60) as u128, 2);
    proof {
        assert(text@ =~= clock_text(timestamp_ms as int));
    }
    text
}

impl ActionLogEntry {
    /// An entry made at `timestamp_ms`.
    pub fn at(timestamp_ms: i64, description: String) -> (e: Self)
        ensures
            e.timestamp_ms == timestamp_ms,
            e.description == description,
    {
        ActionLogEntry { timestamp_ms, description }
    }

    /// The display line: `HH:MM:SS | description`.
    pub fn format_short(&self) -> (line: String)
        ensures
            line@ == entry_line(self.timestamp_ms as int, self.description@),
    {
        let mut line = time_of_day(self.timestamp_ms);
        line.append(" | ");
        line.append(self.description.as_str());
        line
    }
}

/// The log after an entry is recorded: the oldest entry leaves where the log
/// is full.
pub open spec fn log_after<T>(log: Seq<T>, entry: T, cap: nat) -> Seq<T> {
    if log.len() >= cap && log.len() > 0 {
        log.drop_first().push(entry)
    } else {
        log.push(entry)
    }
}

/// Whether a log has gained exactly one entry, made at `now_ms` with the
/// given words.
pub open spec fn gained_entry(
    before: Seq<ActionLogEntry>,
    after: Seq<ActionLogEntry>,
    now_ms: i64,
    words: Seq<char>,
) -> bool {
    &&& after.len() > 0
    &&& after == log_after(before, after.last(), ACTION_LOG_CAP as nat)
    &&& after.last().timestamp_ms == now_ms
    &&& after.last().description@ == words
}

/// Whether a log has gained exactly two entries, both made at `now_ms`, with
/// the given words in order.
pub open spec fn gained_two_entries(
    before: Seq<ActionLogEntry>,
    after: Seq<ActionLogEntry>,
    now_ms: i64,
    first_words: Seq<char>,
    second_words: Seq<char>,
) -> bool {
    &&& after.len() > 1
    &&& after == log_after(
        log_after(before, after[after.len() - 2], ACTION_LOG_CAP as nat),
        after.last(),
        ACTION_LOG_CAP as nat,
    )
    &&& after[after.len() - 2].timestamp_ms == now_ms
    &&& after[after.len() - 2].description@ == first_words
    &&& after.last().timestamp_ms == now_ms
    &&& after.last().description@ == second_words
}

/// The label of the mode of a trade.
pub open spec fn mode_text(dry_run: bool) -> Seq<char> {
    if dry_run {
        "dry_run"@
    } else {
        "live"@
    }
}

/// The first twelve chars of a text.
pub open spec fn first_twelve(text: Seq<char>) -> Seq<char> {
    if text.len() <= 12 {
        text
    } else {
        text.subrange(0, 12)
    }
}

/// The line that shows which credentials are loaded.
pub open spec fn credentials_text(creds: Option<ClobCredentials>) -> Seq<char> {
    match creds {
        Some(c) => "ENV: api_key="@ + c.api_key@ + ", secret="@ + first_twelve(c.secret@)
            + "..., passphrase="@ + first_twelve(c.passphrase@) + "..., wallet="@
            + c.wallet_address@,
        None => "ENV: <no credentials loaded>"@,
    }
}

/// The description of an order attempt: side, price with two decimals, size
/// without decimals, and how it ended.
pub open spec fn order_text(side: TradeSide, limit_price: i64, size: i64, outcome: Seq<char>) -> Seq<
    char,
> {
    "Buy "@ + side_text(side) + " @ "@ + fixed_text(limit_price as int, 2) + " size "@ + fixed_text(
        size as int,
        0,
    ) + " → "@ + outcome
}

/// The description of a size adjustment.
pub open spec fn size_text(delta: i64, new_size: i64) -> Seq<char> {
    "Size "@ + (if delta >= 0 {
        "+"@
    } else {
        ""@
    }) + " "@ + fixed_text(delta as int, 2) + " → "@ + fixed_text(new_size as int, 1)
}

/// The description of a price-cap adjustment.
pub open spec fn max_price_text(side: TradeSide, delta: i64, new_price: i64) -> Seq<char> {
    "Max "@ + side_text(side) + " price "@ + (if delta >= 0 {
        "+"@
    } else {
        ""@
    }) + " "@ + fixed_text(delta as int, 2) + " → "@ + fixed_text(new_price as int, 2)
}

/// The description of a kill-switch toggle.
pub open spec fn kill_switch_text(active: bool) -> Seq<char> {
    if active {
        "Kill switch → ON"@
    } else {
        "Kill switch → OFF"@
    }
}

fn first_twelve_of(text: &str) -> (r: &str)
    ensures
        r@ == first_twelve(text@),
{
    if text.unicode_len() <= 12 {
        text
    } else {
        text.substring_char(0, 12)
    }
}

fn describe_order(side: TradeSide, limit_price: i64, size: i64, outcome: &str) -> (text: String)
    ensures
        text@ == order_text(side, limit_price, size, outcome@),
{
    let mut t = String::from_str("Buy ");
    t.append(side.as_str());
    t.append(" @ ");
    push_fixed(&mut t, limit_price as i128, 2);
    t.append(" size ");
    push_fixed(&mut t, size as i128, 0);
    t.append(" → ");
    t.append(outcome);
    t
}

/// The trade gate.
pub struct TradeService {
    config: TradingConfig,
    state: TradingState,
    action_log: VecDeque<ActionLogEntry>,
    dry_run: bool,
    credentials_debug: Option<ClobCredentials>,
}

impl TradeService {
    /// The operator's trading state.
    pub closed spec fn state(&self) -> TradingState {
        self.state
    }

    /// The static limits.
    pub closed spec fn limits(&self) -> TradingConfig {
        self.config
    }

    /// The action log, oldest entry first.
    pub closed spec fn log(&self) -> Seq<ActionLogEntry> {
        self.action_log@
    }

    /// Whether orders are only planned, never sent.
    pub closed spec fn is_dry_run(&self) -> bool {
        self.dry_run
    }

    /// The credentials shown when an order fails.
    pub closed spec fn shown_credentials(&self) -> Option<ClobCredentials> {
        self.credentials_debug
    }

    /// The log never holds more than its cap.
    pub open spec fn wf(&self) -> bool {
        self.log().len() <= ACTION_LOG_CAP
    }

    /// Everything but state and log is as in `other`.
    pub open spec fn same_setup(&self, other: &TradeService) -> bool {
        &&& self.limits() == other.limits()
        &&& self.is_dry_run() == other.is_dry_run()
        &&& self.shown_credentials() == other.shown_credentials()
    }

    /// A trade gate in its startup state, with an empty action log.
    pub fn new(config: TradingConfig, credentials: Option<ClobCredentials>, dry_run: bool) -> (t:
        Self)
        ensures
            t.wf(),
            t.limits() == config,
            t.is_dry_run() == dry_run,
            t.shown_credentials() == credentials,
            t.log().len() == 0,
            !t.state().kill_switch_active,
            t.state().current_size == config.default_size,
            t.state().max_price_yes == config.max_price_yes,
            t.state().max_price_no == config.max_price_no,
    {
        let state = TradingState::new(&config);
        TradeService {
            config,
            state,
            action_log: VecDeque::new(),
            dry_run,
            credentials_debug: credentials,
        }
    }

    /// The line that shows which credentials are loaded.
    pub fn credentials_debug_string(&self) -> (text: String)
        ensures
            text@ == credentials_text(self.shown_credentials()),
    {
        match &self.credentials_debug {
            Some(c) => {
                let mut t = String::from_str("ENV: api_key=");
                t.append(c.api_key.as_str());
                t.append(", secret=");
                t.append(first_twelve_of(c.secret.as_str()));
                t.append("..., passphrase=");
                t.append(first_twelve_of(c.passphrase.as_str()));
                t.append("..., wallet=");
                t.append(c.wallet_address.as_str());
                t
            },
            None => String::from_str("ENV: <no credentials loaded>"),
        }
    }

    /// Appends an entry to the action log; the oldest entry leaves where the
    /// log is full.
    pub fn record_action(&mut self, entry: ActionLogEntry)
        requires
            old(self).wf(),
        ensures
            final(self).wf(),
            final(self).log() == log_after(old(self).log(), entry, ACTION_LOG_CAP as nat),
            final(self).state() == old(self).state(),
            final(self).same_setup(old(self)),
    {
        if self.action_log.len() >= ACTION_LOG_CAP {
            self.action_log.pop_front();
        }
        self.action_log.push_back(entry);
    }

    /// A copy of the action log, oldest entry first.
    pub fn get_action_log(&self) -> (log: Vec<ActionLogEntry>)
        ensures
            log@.len() == self.log().len(),
            forall|i: int|
                0 <= i < log@.len() ==> (#[trigger] log@[i]).timestamp_ms
                    == self.log()[i].timestamp_ms && log@[i].description@
                    == self.log()[i].description@,
    {
        let mut log: Vec<ActionLogEntry> = Vec::new();
        let mut i: usize = 0;
        while i < self.action_log.len()
            invariant
                0 <= i <= self.action_log@.len(),
                log@.len() == i,
                forall|k: int|
                    0 <= k < i ==> (#[trigger] log@[k]).timestamp_ms
                        == self.action_log@[k].timestamp_ms && log@[k].description@
                        == self.action_log@[k].description@,
            decreases self.action_log@.len() - i,
        {
            let e = &self.action_log[i];
            log.push(ActionLogEntry { timestamp_ms: e.timestamp_ms, description: e.description.clone() });
            i = i + 1;
        }
        log
    }

    /// The operator's trading state.
    pub fn get_state(&self) -> (s: TradingState)
        ensures
            s == self.state(),
    {
        self.state
    }

    /// Flips the kill switch and notes it in the action log.
    pub fn toggle_kill_switch(&mut self, now_ms: i64)
        requires
            old(self).wf(),
        ensures
            final(self).wf(),
            final(self).state() == (TradingState {
                kill_switch_active: !old(self).state().kill_switch_active,
                ..old(self).state()
            }),
            final(self).same_setup(old(self)),
            gained_entry(
                old(self).log(),
                final(self).log(),
                now_ms,
                kill_switch_text(!old(self).state().kill_switch_active),
            ),
    {
        self.state.kill_switch_active = !self.state.kill_switch_active;
        let text = if self.state.kill_switch_active {
            String::from_str("Kill switch → ON")
        } else {
            String::from_str("Kill switch → OFF")
        };
        self.record_action(ActionLogEntry::at(now_ms, text));
    }

    /// Sets the kill switch.
    pub fn set_kill_switch(&mut self, active: bool)
        ensures
            final(self).state() == (TradingState {
                kill_switch_active: active,
                ..old(self).state()
            }),
            final(self).same_setup(old(self)),
            final(self).log() == old(self).log(),
    {
        self.state.kill_switch_active = active;
    }

    /// Changes the order size by `delta`, keeping it at least one whole and at
    /// most the configured maximum, and notes it in the action log.
    pub fn adjust_size(&mut self, delta: i64, now_ms: i64)
        requires
            old(self).wf(),
        ensures
            final(self).wf(),
            final(self).state() == (TradingState {
                current_size: adjusted_size(
                    old(self).limits(),
                    old(self).state().current_size,
                    delta,
                ) as i64,
                ..old(self).state()
            }),
            final(self).same_setup(old(self)),
            gained_entry(
                old(self).log(),
                final(self).log(),
                now_ms,
                size_text(delta, final(self).state().current_size),
            ),
    {
        let new_size = clamp_sum(self.state.current_size, delta, MIN_SIZE, self.config.max_size);
        self.state.current_size = new_size;
        let mut t = String::from_str("Size ");
        t.append(
            if delta >= 0 {
                "+"
            } else {
                ""
            },
        );
        t.append(" ");
        push_fixed(&mut t, delta as i128, 2);
        t.append(" → ");
        push_fixed(&mut t, new_size as i128, 1);
        self.record_action(ActionLogEntry::at(now_ms, t));
    }

    /// Changes the price cap of a side by `delta`, keeping it between 0.01 and
    /// 0.99, and notes it in the action log.
    pub fn adjust_max_price(&mut self, side: TradeSide, delta: i64, now_ms: i64)
        requires
            old(self).wf(),
        ensures
            final(self).wf(),
            final(self).state() == with_adjusted_max_price(old(self).state(), side, delta),
            final(self).same_setup(old(self)),
            gained_entry(
                old(self).log(),
                final(self).log(),
                now_ms,
                max_price_text(side, delta, max_price_of(final(self).state(), side)),
            ),
    {
        let new_price = clamp_sum(self.state.max_price(side), delta, MIN_MAX_PRICE, MAX_MAX_PRICE);
        match side {
            TradeSide::Yes => {
                self.state.max_price_yes = new_price;
            },
            TradeSide::No => {
                self.state.max_price_no = new_price;
            },
        }
        let mut t = String::from_str("Max ");
        t.append(side.as_str());
        t.append(" price ");
        t.append(
            if delta >= 0 {
                "+"
            } else {
                ""
            },
        );
        t.append(" ");
        push_fixed(&mut t, delta as i128, 2);
        t.append(" → ");
        push_fixed(&mut t, new_price as i128, 2);
        self.record_action(ActionLogEntry::at(now_ms, t));
    }
}

/// How an order attempt goes on after the risk policy has been applied.
#[derive(Debug, Clone, Copy, PartialEq, Eq, Structural)]
pub enum PlanKind {
    /// The risk policy refuses the order.
    Rejected(RejectReason),
    /// Dry run: the order is noted, not sent.
    DryRun,
    /// Live, but the token to buy is unknown.
    NoActiveMarket,
    /// Live: the order is to be sent.
    Submit,
}

/// An order attempt after planning: its record so far and the request, where
/// one was made up: to be sent, or in a dry run to be shown.
#[derive(Debug, Clone)]
pub enum OrderPlan {
    Rejected { event: TradeEvent, reason: RejectReason },
    DryRun { event: TradeEvent, request: OrderRequest },
    NoActiveMarket { event: TradeEvent },
    Submit { event: TradeEvent, request: OrderRequest },
}

/// How the sending of an order ended.
#[derive(Debug, Clone)]
pub enum SubmitOutcome {
    /// The API answered, accepting or refusing the order.
    Answered(OrderResponse),
    /// No answer that could be read; the text says why.
    Failed(String),
}

/// Why an order attempt ends without an order.
#[derive(Debug, Clone, Copy, PartialEq, Eq, Structural)]
pub enum TradeError {
    Rejected(RejectReason),
    NoActiveMarket,
    SubmitFailed,
}

/// The token that a side buys.
pub open spec fn token_for(market: &ActiveMarket, side: TradeSide) -> Seq<char> {
    match side {
        TradeSide::Yes => market.up_token_id@,
        TradeSide::No => market.down_token_id@,
    }
}

/// How an order attempt goes on: the risk policy first, then the mode, then
/// whether the token is known.
pub open spec fn plan_kind(
    config: TradingConfig,
    state: TradingState,
    dry_run: bool,
    quotes: QuoteState,
    stale_ms: i64,
    market: &ActiveMarket,
    side: TradeSide,
) -> PlanKind {
    match risk_verdict(
        config,
        state,
        quotes,
        stale_ms,
        side,
        state.current_size,
        limit_price_of(state, quotes, side),
    ) {
        RiskCheckResult::Rejected(reason) => PlanKind::Rejected(reason),
        RiskCheckResult::Allowed => if dry_run {
            PlanKind::DryRun
        } else if token_for(market, side).len() == 0 {
            PlanKind::NoActiveMarket
        } else {
            PlanKind::Submit
        },
    }
}

/// The words with which a plan that ends at once is noted in the action log.
pub open spec fn plan_outcome_text(kind: PlanKind) -> Seq<char> {
    match kind {
        PlanKind::Rejected(reason) => "rejected: "@ + reason_text(reason),
        PlanKind::DryRun => "dry_run"@,
        PlanKind::NoActiveMarket => "no active market"@,
        PlanKind::Submit => Seq::empty(),
    }
}

/// The status that a plan that ends at once leaves in the record.
pub open spec fn plan_status_text(kind: PlanKind) -> Option<Seq<char>> {
    match kind {
        PlanKind::DryRun => Some("dry_run_success"@),
        PlanKind::NoActiveMarket => Some("no_active_market"@),
        _ => None,
    }
}

/// The record of an attempt agrees with what was planned.
pub open spec fn event_planned(
    event: &TradeEvent,
    kind: PlanKind,
    state: TradingState,
    dry_run: bool,
    quotes: QuoteState,
    side: TradeSide,
    now_ms: i64,
    client_order_id: Seq<char>,
) -> bool {
    &&& event.t_send_ms == now_ms
    &&& event.t_resp_ms == (if kind == PlanKind::Submit {
        None
    } else {
        Some(now_ms)
    })
    &&& event.client_order_id@ == client_order_id
    &&& event.side@ == side_text(side)
    &&& event.size == state.current_size
    &&& event.limit_price == limit_price_of(state, quotes, side)
    &&& event.post_only
    &&& event.mode@ == mode_text(dry_run)
    &&& match kind {
        PlanKind::Rejected(reason) => event.risk_reject_reason matches Some(t) && t@
            == reason_text(reason),
        _ => event.risk_reject_reason is None,
    }
    &&& match plan_status_text(kind) {
        Some(text) => event.api_status matches Some(t) && t@ == text,
        None => event.api_status is None,
    }
    &&& event.fills is None
}

/// The request for an order: a purchase of the side's token, good till
/// cancelled, price with two decimals, size without decimals.
pub open spec fn request_planned(
    request: &OrderRequest,
    state: TradingState,
    quotes: QuoteState,
    market: &ActiveMarket,
    side: TradeSide,
) -> bool {
    &&& request.token_id@ == token_for(market, side)
    &&& request.price@ == fixed_text(limit_price_of(state, quotes, side) as int, 2)
    &&& request.size@ == fixed_text(state.current_size as int, 0)
    &&& request.side@ == "BUY"@
    &&& request.order_type@ == "GTC"@
    &&& request.expiration is None
}

/// The kind of a plan.
pub open spec fn kind_of(plan: &OrderPlan) -> PlanKind {
    match plan {
        OrderPlan::Rejected { reason, .. } => PlanKind::Rejected(*reason),
        OrderPlan::DryRun { .. } => PlanKind::DryRun,
        OrderPlan::NoActiveMarket { .. } => PlanKind::NoActiveMarket,
        OrderPlan::Submit { .. } => PlanKind::Submit,
    }
}

/// The record of a plan.
pub open spec fn event_of(plan: &OrderPlan) -> TradeEvent {
    match plan {
        OrderPlan::Rejected { event, .. } => *event,
        OrderPlan::DryRun { event, .. } => *event,
        OrderPlan::NoActiveMarket { event } => *event,
        OrderPlan::Submit { event, .. } => *event,
    }
}

/// The parts of an answer that say what went wrong, where it carries no
/// error message: its status, its HTTP status, the start of its body.
pub open spec fn error_parts(resp: &OrderResponse) -> Seq<Seq<char>> {
    (match resp.status {
        Some(s) => seq!["status="@ + s@],
        None => Seq::empty(),
    }) + (match resp.http_status {
        Some(h) => seq!["http="@ + int_text(h as int)],
        None => Seq::empty(),
    }) + (match resp.raw_body {
        Some(b) => seq!["body="@ + quoted(b@)],
        None => Seq::empty(),
    })
}

/// Parts joined by `", "`.
pub open spec fn comma_joined(parts: Seq<Seq<char>>) -> Seq<char>
    decreases parts.len(),
{
    if parts.len() == 0 {
        Seq::empty()
    } else if parts.len() == 1 {
        parts[0]
    } else {
        comma_joined(parts.drop_last()) + ", "@ + parts.last()
    }
}

/// What a refusing answer says: its error message, else its parts, else that
/// nothing is known.
pub open spec fn error_message_of(resp: &OrderResponse) -> Seq<char> {
    match resp.error_msg {
        Some(m) => m@,
        None => if error_parts(resp).len() == 0 {
            "Unknown error (no details in API response)"@
        } else {
            comma_joined(error_parts(resp))
        },
    }
}

/// The status that the sending of an order leaves in the record.
pub open spec fn submit_status_text(outcome: &SubmitOutcome) -> Seq<char> {
    match outcome {
        SubmitOutcome::Answered(resp) => if resp.success {
            "success"@
        } else {
            "error: "@ + error_message_of(resp)
        },
        SubmitOutcome::Failed(error) => "error: "@ + error@,
    }
}

/// Whether the sending of an order ended with the order accepted.
pub open spec fn submit_succeeded(outcome: &SubmitOutcome) -> bool {
    outcome matches SubmitOutcome::Answered(resp) && resp.success
}

/// What a refusing answer says.
pub fn error_message(resp: &OrderResponse) -> (text: String)
    ensures
        text@ == error_message_of(resp),
{
    match &resp.error_msg {
        Some(m) => m.clone(),
        None => {
            let mut text = String::new();
            let mut count: usize = 0;
            let ghost mut parts: Seq<Seq<char>> = Seq::empty();
            match &resp.status {
                Some(s) => {
                    text.append("status=");
                    text.append(s.as_str());
                    count = 1;
                    proof {
                        parts = seq!["status="@ + s@];
                        assert(text@ =~= comma_joined(parts));
                    }
                },
                None => {},
            }
            match resp.http_status {
                Some(h) => {
                    let ghost before = text@;
                    if count > 0 {
                        text.append(", ");
                    }
                    text.append("http=");
                    push_int(&mut text, h as i128);
                    count = count + 1;
                    proof {
                        let part = "http="@ + int_text(h as int);
                        let next = parts.push(part);
                        assert(next.drop_last() =~= parts);
                        assert(text@ =~= comma_joined(next));
                        parts = next;
                    }
                },
                None => {},
            }
            match &resp.raw_body {
                Some(b) => {
                    if count > 0 {
                        text.append(", ");
                    }
                    text.append("body=");
                    text.append(quote(b.as_str()));
                    count = count + 1;
                    proof {
                        let part = "body="@ + quoted(b@);
                        let next = parts.push(part);
                        assert(next.drop_last() =~= parts);
                        assert(text@ =~= comma_joined(next));
                        parts = next;
                    }
                },
                None => {},
            }
            proof {
                assert(parts =~= error_parts(resp));
            }
            if count == 0 {
                String::from_str("Unknown error (no details in API response)")
            } else {
                text
            }
        },
    }
}

impl TradeService {
    /// Plans an order on `side` at `now_ms`: prices it at the best ask capped
    /// by the side's price cap, applies the risk policy, and decides by mode
    /// and market whether it is to be sent. In a dry run the request is made
    /// up all the same, to be shown, not sent. A plan that ends at once is
    /// noted in the action log; one that is to be sent leaves the log as it
    /// is.
    pub fn begin_order(
        &mut self,
        side: TradeSide,
        quotes: &QuoteState,
        stale_ms: i64,
        market: &ActiveMarket,
        now_ms: i64,
        client_order_id: String,
    ) -> (plan: OrderPlan)
        requires
            old(self).wf(),
        ensures
            final(self).wf(),
            final(self).state() == old(self).state(),
            final(self).same_setup(old(self)),
            kind_of(&plan) == plan_kind(
                old(self).limits(),
                old(self).state(),
                old(self).is_dry_run(),
                *quotes,
                stale_ms,
                market,
                side,
            ),
            event_planned(
                &event_of(&plan),
                kind_of(&plan),
                old(self).state(),
                old(self).is_dry_run(),
                *quotes,
                side,
                now_ms,
                client_order_id@,
            ),
            plan matches OrderPlan::Submit { request, .. } ==> request_planned(
                &request,
                old(self).state(),
                *quotes,
                market,
                side,
            ) && final(self).log() == old(self).log(),
            plan matches OrderPlan::DryRun { request, .. } ==> request_planned(
                &request,
                old(self).state(),
                *quotes,
                market,
                side,
            ),
            !(plan is Submit) ==> gained_entry(
                old(self).log(),
                final(self).log(),
                now_ms,
                order_text(
                    side,
                    limit_price_of(old(self).state(), *quotes, side),
                    old(self).state().current_size,
                    plan_outcome_text(kind_of(&plan)),
                ),
            ),
    {
        let size = self.state.current_size;
        let price = limit_price(&self.state, quotes, side);
        let verdict = check_risk(&self.config, &self.state, quotes, stale_ms, side, size, price);
        let mut event = TradeEvent {
            t_send_ms: now_ms,
            t_resp_ms: None,
            client_order_id,
            side: side.to_text(),
            size,
            limit_price: price,
            post_only: true,
            mode: if self.dry_run {
                String::from_str("dry_run")
            } else {
                String::from_str("live")
            },
            risk_reject_reason: None,
            api_status: None,
            fills: None,
        };
        match verdict {
            RiskCheckResult::Rejected(reason) => {
                let words = reason.message();
                let mut outcome = String::from_str("rejected: ");
                outcome.append(words.as_str());
                event.risk_reject_reason = Some(words);
                event.t_resp_ms = Some(now_ms);
                let text = describe_order(side, price, size, outcome.as_str());
                self.record_action(ActionLogEntry::at(now_ms, text));
                return OrderPlan::Rejected { event, reason };
            },
            RiskCheckResult::Allowed => {},
        }
        let token_id = match side {
            TradeSide::Yes => &market.up_token_id,
            TradeSide::No => &market.down_token_id,
        };
        let mut price_text = String::new();
        push_fixed(&mut price_text, price as i128, 2);
        let mut size_text = String::new();
        push_fixed(&mut size_text, size as i128, 0);
        proof {
            assert(price_text@ =~= fixed_text(price as int, 2));
            assert(size_text@ =~= fixed_text(size as int, 0));
        }
        let request = OrderRequest {
            token_id: token_id.clone(),
            price: price_text,
            size: size_text,
            side: String::from_str("BUY"),
            order_type: String::from_str("GTC"),
            expiration: None,
        };
        if self.dry_run {
            event.api_status = Some(String::from_str("dry_run_success"));
            event.t_resp_ms = Some(now_ms);
            let text = describe_order(side, price, size, "dry_run");
            self.record_action(ActionLogEntry::at(now_ms, text));
            return OrderPlan::DryRun { event, request };
        }
        if token_id.as_str().is_empty() {
            event.api_status = Some(String::from_str("no_active_market"));
            event.t_resp_ms = Some(now_ms);
            let text = describe_order(side, price, size, "no active market");
            self.record_action(ActionLogEntry::at(now_ms, text));
            return OrderPlan::NoActiveMarket { event };
        }
        OrderPlan::Submit { event, request }
    }

    /// Takes in how the sending of an order ended, at `now_ms`. The record
    /// gets its response time and status, the action log gets a line, and,
    /// where the order was not accepted, a second line that shows which
    /// credentials are loaded. The record is returned, together with the
    /// error where no answer came; an order that the API answered, accepting
    /// or refusing, is no error.
    pub fn finish_order(
        &mut self,
        event: TradeEvent,
        side: TradeSide,
        outcome: &SubmitOutcome,
        now_ms: i64,
    ) -> (r: (TradeEvent, Option<TradeError>))
        requires
            old(self).wf(),
        ensures
            final(self).wf(),
            final(self).state() == old(self).state(),
            final(self).same_setup(old(self)),
            r.1 == (if outcome is Failed {
                Some(TradeError::SubmitFailed)
            } else {
                None
            }),
            r.0.t_resp_ms == Some(now_ms),
            r.0.api_status matches Some(t) && t@ == submit_status_text(outcome),
            r.0.t_send_ms == event.t_send_ms && r.0.client_order_id == event.client_order_id
                && r.0.side == event.side && r.0.size == event.size && r.0.limit_price
                == event.limit_price && r.0.post_only == event.post_only && r.0.mode == event.mode
                && r.0.risk_reject_reason == event.risk_reject_reason && r.0.fills == event.fills,
            submit_succeeded(outcome) ==> gained_entry(
                old(self).log(),
                final(self).log(),
                now_ms,
                order_text(side, event.limit_price, event.size, "success"@),
            ),
            !submit_succeeded(outcome) ==> gained_two_entries(
                old(self).log(),
                final(self).log(),
                now_ms,
                order_text(side, event.limit_price, event.size, submit_status_text(outcome)),
                credentials_text(old(self).shown_credentials()),
            ),
    {
        let mut event = event;
        let status = match outcome {
            SubmitOutcome::Answered(resp) => if resp.success {
                String::from_str("success")
            } else {
                let mut s = String::from_str("error: ");
                s.append(error_message(resp).as_str());
                s
            },
            SubmitOutcome::Failed(error) => {
                let mut s = String::from_str("error: ");
                s.append(error.as_str());
                s
            },
        };
        let accepted = match outcome {
            SubmitOutcome::Answered(resp) => resp.success,
            SubmitOutcome::Failed(_) => false,
        };
        let text = describe_order(side, event.limit_price, event.size, status.as_str());
        self.record_action(ActionLogEntry::at(now_ms, text));
        if !accepted {
            let shown = self.credentials_debug_string();
            self.record_action(ActionLogEntry::at(now_ms, shown));
        }
        event.t_resp_ms = Some(now_ms);
        event.api_status = Some(status);
        match outcome {
            SubmitOutcome::Answered(_) => (event, None),
            SubmitOutcome::Failed(_) => (event, Some(TradeError::SubmitFailed)),
        }
    }
}

/// What the caller gets from a plan that ends at once: the record of a dry
/// run, an error for a refused order or an unknown token.
pub fn plan_result(plan: OrderPlan) -> (r: Option<Result<TradeEvent, TradeError>>)
    ensures
        match plan {
            OrderPlan::Rejected { reason, .. } => r == Some(
                Err::<TradeEvent, TradeError>(TradeError::Rejected(reason)),
            ),
            OrderPlan::DryRun { event, .. } => r == Some(Ok::<TradeEvent, TradeError>(event)),
            OrderPlan::NoActiveMarket { .. } => r == Some(
                Err::<TradeEvent, TradeError>(TradeError::NoActiveMarket),
            ),
            OrderPlan::Submit { .. } => r is None,
        },
{
    match plan {
        OrderPlan::Rejected { reason, .. } => Some(Err(TradeError::Rejected(reason))),
        OrderPlan::DryRun { event, .. } => Some(Ok(event)),
        OrderPlan::NoActiveMarket { .. } => Some(Err(TradeError::NoActiveMarket)),
        OrderPlan::Submit { .. } => None,
    }
}

} // verus!
