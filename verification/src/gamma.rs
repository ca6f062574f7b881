//! Discovery of the active short-horizon market in the venue's catalog.
//!
//! A window lasts fifteen minutes; the market of a window is found under a slug
//! made of a prefix and the window's start in epoch seconds.

use crate::text::{int_text, push_int};
use vstd::prelude::*;
use vstd::string::*;

verus! {

/// Length of a window, in seconds.
pub const FIFTEEN_MINUTES_SECS: i64 = 900;

/// How many windows are tried in one search: the current one, the next one
/// and the one before.
pub const WINDOW_ATTEMPTS: usize = 3;

/// An event reference inside a catalog record.
#[derive(Debug, Clone)]
pub struct GammaEventInfo {
    pub id: String,
    pub start_time: Option<String>,
}

/// A catalog record of one market, as far as the monitor reads it.
#[derive(Debug, Clone)]
pub struct GammaMarket {
    pub id: String,
    pub question: String,
    pub condition_id: String,
    pub slug: String,
    pub end_date: String,
    pub active: bool,
    pub closed: bool,
    pub outcomes: Option<String>,
    pub outcome_prices: Option<String>,
    pub clob_token_ids: Option<String>,
    pub accepting_orders: Option<bool>,
    pub events: Option<Vec<GammaEventInfo>>,
    pub event_start_time: Option<String>,
}

/// A catalog record of an event with its markets.
#[derive(Debug, Clone)]
pub struct GammaEvent {
    pub id: String,
    pub ticker: String,
    pub slug: String,
    pub title: String,
    pub active: bool,
    pub closed: bool,
    pub markets: Vec<GammaMarket>,
}

/// What the monitor needs to know of the active market.
#[derive(Debug, Clone)]
pub struct MarketTokens {
    pub up_token_id: String,
    pub down_token_id: String,
    pub condition_id: String,
    pub market_id: String,
    pub slug: String,
    pub title: String,
    pub start_time: String,
    pub end_date: String,
}

/// Why a catalog record yields no market.
#[derive(Debug, Clone, Copy, PartialEq, Eq, Structural)]
pub enum GammaError {
    /// The record has no token-id field.
    MissingTokenIds,
    /// The token-id field is no JSON array of strings.
    BadTokenIds,
    /// The token-id array has fewer than two entries.
    TooFewTokenIds,
    /// None of the windows tried has a market that accepts orders.
    NoActiveMarket,
}

/// Start of the window that holds `now_secs`: `now_secs` rounded down to a
/// multiple of the window length.
pub open spec fn window_start(now_secs: int) -> int {
    (now_secs / 900) * 900
}

/// The start of the window tried at each attempt: current, next, previous.
pub open spec fn attempt_start(now_secs: int, attempt: int) -> int {
    if attempt == 0 {
        window_start(now_secs)
    } else if attempt == 1 {
        window_start(now_secs) + 900
    } else {
        window_start(now_secs) - 900
    }
}

/// The slug of the window that starts at `start`: prefix, a hyphen, the start.
pub open spec fn slug_text(prefix: Seq<char>, start: int) -> Seq<char> {
    prefix + seq!['-'] + int_text(start)
}

/// Whether a record is a market that can be traded now.
pub open spec fn tradable(market: &GammaMarket) -> bool {
    market.accepting_orders == Some(true) && !market.closed
}

/// The start time of a record: its own, else that of its first event, else
/// its end date.
pub open spec fn start_time_of(market: &GammaMarket) -> Seq<char> {
    match market.event_start_time {
        Some(t) => t@,
        None => match market.events {
            Some(events) => if events@.len() > 0 {
                match events@[0].start_time {
                    Some(t) => t@,
                    None => market.end_date@,
                }
            } else {
                market.end_date@
            },
            None => market.end_date@,
        },
    }
}

/// What `serde_json` reads from a text as a JSON array of strings, or nothing
/// where the text is no such array.
pub uninterp spec fn string_array_of_json(text: Seq<char>) -> Option<Seq<Seq<char>>>;

/// `serde_json::from_str::<Vec<String>>`. The parse depends on the text alone;
/// its result is named, not described.
#[verifier::external_body]
fn parse_string_array(text: &str) -> (r: Option<Vec<String>>)
    ensures
        r matches Some(v) ==> string_array_of_json(text@) == Some(v.deep_view()),
        r is None ==> string_array_of_json(text@) is None,
{
    match serde_json::from_str::<Vec<String>>(text) {
        Ok(v) => Some(v),
        Err(_) => None,
    }
}

/// The error, if any, with which a list of token ids is refused.
pub open spec fn token_ids_error(ids: Option<Seq<Seq<char>>>) -> Option<GammaError> {
    match ids {
        None => Some(GammaError::BadTokenIds),
        Some(v) => if v.len() < 2 {
            Some(GammaError::TooFewTokenIds)
        } else {
            None
        },
    }
}

/// The market that a record and its token ids give.
pub open spec fn tokens_match(tokens: &MarketTokens, market: &GammaMarket, ids: Seq<Seq<char>>) -> bool {
    &&& tokens.up_token_id@ == ids[0]
    &&& tokens.down_token_id@ == ids[1]
    &&& tokens.condition_id@ == market.condition_id@
    &&& tokens.market_id@ == market.id@
    &&& tokens.slug@ == market.slug@
    &&& tokens.title@ == market.question@
    &&& tokens.start_time@ == start_time_of(market)
    &&& tokens.end_date@ == market.end_date@
}

/// `r` is what a record's token ids give: the market where the field holds a
/// JSON array of at least two strings, else the error that says what is wrong.
pub open spec fn reads_as(market: &GammaMarket, r: Result<MarketTokens, GammaError>) -> bool {
    match market.clob_token_ids {
        None => r == Err::<MarketTokens, GammaError>(GammaError::MissingTokenIds),
        Some(text) => match r {
            Ok(tokens) => string_array_of_json(text@) matches Some(ids) && ids.len() >= 2
                && tokens_match(&tokens, market, ids),
            Err(e) => token_ids_error(string_array_of_json(text@)) == Some(e),
        },
    }
}

/// The catalog client: the slug prefix of the markets it looks for.
pub struct GammaClient {
    coin_slug_prefix: String,
}

impl GammaClient {
    /// The client for the fifteen-minute BTC markets. The event id is not used.
    pub fn new(_btc_15m_event_id: String) -> (client: Self)
        ensures
            client.prefix() == "btc-updown-15m"@,
    {
        GammaClient { coin_slug_prefix: String::from_str("btc-updown-15m") }
    }

    /// The slug prefix.
    pub closed spec fn prefix(&self) -> Seq<char> {
        self.coin_slug_prefix@
    }

    /// Start of the window that holds `now_secs`, for every time that fits 64
    /// bits.
    pub fn window_start_wide(now_secs: i64) -> (start: i128)
        ensures
            start == window_start(now_secs as int),
            start % 900 == 0,
            now_secs - 900 < start <= now_secs,
    {
        // a whole number of windows that lifts every time above zero
        let shifted: i128 = now_secs as i128 + 10_248_191_152_060_863 * 900;
        let into_window: i128 = shifted % 900;
        proof {
            vstd::arithmetic::div_mod::lemma_mod_multiples_vanish(
                10_248_191_152_060_863,
                now_secs as int,
                900,
            );
            vstd::arithmetic::div_mod::lemma_fundamental_div_mod(now_secs as int, 900);
            let q = now_secs as int / 900;
            assert(900 * q == q * 900) by (nonlinear_arith);
            assert((q * 900) % 900 == 0) by (nonlinear_arith);
        }
        now_secs as i128 - into_window
    }

    /// Start of the window that holds `now_secs`. The few times at the very
    /// bottom of the 64-bit range, whose window starts below it, are left
    /// out.
    pub fn get_current_window_timestamp(now_secs: i64) -> (start: i64)
        requires
            window_start(now_secs as int) >= i64::MIN,
        ensures
            start == window_start(now_secs as int),
            start % 900 == 0,
    {
        Self::window_start_wide(now_secs) as i64
    }

    /// The slug to ask the catalog for at the given attempt (0, 1 or 2), or
    /// None where the attempts are used up or the window lies outside the
    /// range of timestamps.
    pub fn slug_for_attempt(&self, now_secs: i64, attempt: usize) -> (slug: Option<String>)
        ensures
            slug matches Some(s) ==> attempt < WINDOW_ATTEMPTS && s@ == slug_text(
                self.prefix(),
                attempt_start(now_secs as int, attempt as int),
            ),
            slug is None <==> attempt >= WINDOW_ATTEMPTS || attempt_start(
                now_secs as int,
                attempt as int,
            ) > i64::MAX || attempt_start(now_secs as int, attempt as int) < i64::MIN,
    {
        if attempt >= WINDOW_ATTEMPTS {
            return None;
        }
        let current = Self::window_start_wide(now_secs);
        let wide: i128 = if attempt == 0 {
            current
        } else if attempt == 1 {
            current + 900
        } else {
            current - 900
        };
        let start = if wide < i64::MIN as i128 || wide > i64::MAX as i128 {
            None
        } else {
            Some(wide as i64)
        };
        match start {
            None => None,
            Some(ts) => {
                let mut slug = self.coin_slug_prefix.clone();
                proof {
                    reveal_strlit("-");
                    assert("-"@ =~= seq!['-']);
                }
                slug.append("-");
                push_int(&mut slug, ts as i128);
                Some(slug)
            },
        }
    }

    /// Whether the record found at an attempt ends the search.
    pub fn is_tradable(market: &GammaMarket) -> (b: bool)
        ensures
            b == tradable(market),
    {
        match market.accepting_orders {
            Some(true) => !market.closed,
            _ => false,
        }
    }

    /// Builds the market from a record and the token ids read from it.
    pub fn tokens_from_ids(market: &GammaMarket, ids: &Vec<String>) -> (r: Result<
        MarketTokens,
        GammaError,
    >)
        ensures
            r matches Ok(tokens) ==> ids@.len() >= 2 && tokens_match(
                &tokens,
                market,
                ids.deep_view(),
            ),
            r matches Err(e) ==> e == GammaError::TooFewTokenIds && ids@.len() < 2,
    {
        if ids.len() < 2 {
            return Err(GammaError::TooFewTokenIds);
        }
        let start_time = match &market.event_start_time {
            Some(t) => t.clone(),
            None => match &market.events {
                Some(events) => if events.len() > 0 {
                    match &events[0].start_time {
                        Some(t) => t.clone(),
                        None => market.end_date.clone(),
                    }
                } else {
                    market.end_date.clone()
                },
                None => market.end_date.clone(),
            },
        };
        proof {
            assert(ids.deep_view()[0] == ids@[0]@);
            assert(ids.deep_view()[1] == ids@[1]@);
        }
        Ok(
            MarketTokens {
                up_token_id: ids[0].clone(),
                down_token_id: ids[1].clone(),
                condition_id: market.condition_id.clone(),
                market_id: market.id.clone(),
                slug: market.slug.clone(),
                title: market.question.clone(),
                start_time,
                end_date: market.end_date.clone(),
            },
        )
    }

    /// Reads the two outcome tokens of a record: the first id is "up", the
    /// second "down".
    pub fn parse_market_tokens(&self, market: &GammaMarket) -> (r: Result<MarketTokens, GammaError>)
        ensures
            reads_as(market, r),
    {
        match &market.clob_token_ids {
            None => Err(GammaError::MissingTokenIds),
            Some(text) => match parse_string_array(text.as_str()) {
                None => Err(GammaError::BadTokenIds),
                Some(ids) => {
                    proof {
                        assert(ids.deep_view().len() == ids@.len());
                    }
                    Self::tokens_from_ids(market, &ids)
                },
            },
        }
    }

    /// Whether the market found differs from the one tracked: the new market
    /// where the condition id changed, nothing where it is the same.
    pub fn check_for_new_market(current_condition_id: &str, found: MarketTokens) -> (r: Option<
        MarketTokens,
    >)
        ensures
            found.condition_id@ == current_condition_id@ ==> r is None,
            found.condition_id@ != current_condition_id@ ==> r == Some(found),
    {
        if str_equal(found.condition_id.as_str(), current_condition_id) {
            None
        } else {
            Some(found)
        }
    }
}

/// What the catalog answered for one slug.
#[derive(Debug, Clone)]
pub enum Lookup {
    /// A record was found.
    Found(GammaMarket),
    /// The catalog has no such market.
    NotFound,
    /// The request failed.
    Failed,
}

/// The next move of a search for the active market.
#[derive(Debug)]
pub enum SearchStep {
    /// Ask the catalog for `slug`; it is attempt number `attempt`.
    Fetch { attempt: usize, slug: String },
    /// The search is over.
    Done(Result<MarketTokens, GammaError>),
}

/// The first attempt at or after `from` whose window start is a timestamp.
pub open spec fn next_attempt(now_secs: int, from: int) -> Option<int>
    decreases 3 - from,
{
    if from >= 3 || from < 0 {
        None
    } else if i64::MIN <= attempt_start(now_secs, from) <= i64::MAX {
        Some(from)
    } else {
        next_attempt(now_secs, from + 1)
    }
}

/// Whether a record found ends the search.
pub open spec fn ends_search(lookup: &Lookup) -> bool {
    lookup matches Lookup::Found(market) && tradable(&market)
}

impl GammaClient {
    /// The fetch to make next, starting at attempt `from`, or the end of the
    /// search without a market.
    pub fn search_from(&self, now_secs: i64, from: usize) -> (step: SearchStep)
        ensures
            match next_attempt(now_secs as int, from as int) {
                Some(a) => step matches SearchStep::Fetch { attempt, slug } && attempt == a
                    && slug@ == slug_text(self.prefix(), attempt_start(now_secs as int, a)),
                None => step matches SearchStep::Done(r) && r == Err::<MarketTokens, GammaError>(
                    GammaError::NoActiveMarket,
                ),
            },
    {
        let mut attempt = from;
        while attempt < WINDOW_ATTEMPTS
            invariant
                from <= attempt,
                next_attempt(now_secs as int, from as int) == next_attempt(
                    now_secs as int,
                    attempt as int,
                ),
            decreases WINDOW_ATTEMPTS - attempt,
        {
            match self.slug_for_attempt(now_secs, attempt) {
                Some(slug) => {
                    return SearchStep::Fetch { attempt, slug };
                },
                None => {
                    attempt = attempt + 1;
                },
            }
        }
        SearchStep::Done(Err(GammaError::NoActiveMarket))
    }

    /// First move of a search: the current window.
    pub fn start_search(&self, now_secs: i64) -> (step: SearchStep)
        ensures
            match next_attempt(now_secs as int, 0) {
                Some(a) => step matches SearchStep::Fetch { attempt, slug } && attempt == a
                    && slug@ == slug_text(self.prefix(), attempt_start(now_secs as int, a)),
                None => step matches SearchStep::Done(r) && r == Err::<MarketTokens, GammaError>(
                    GammaError::NoActiveMarket,
                ),
            },
    {
        self.search_from(now_secs, 0)
    }

    /// The move after the catalog answered attempt `attempt`. A record that
    /// accepts orders and is not closed ends the search with what its token
    /// ids give; anything else moves on to the next window, and after the last
    /// window the search ends without a market.
    pub fn continue_search(&self, now_secs: i64, attempt: usize, lookup: Lookup) -> (step:
        SearchStep)
        requires
            attempt < WINDOW_ATTEMPTS,
        ensures
            ends_search(&lookup) ==> (lookup matches Lookup::Found(market) && (
            step matches SearchStep::Done(r) && reads_as(&market, r))),
            !ends_search(&lookup) ==> match next_attempt(now_secs as int, attempt + 1) {
                Some(a) => step matches SearchStep::Fetch { attempt: next, slug } && next == a
                    && slug@ == slug_text(self.prefix(), attempt_start(now_secs as int, a)),
                None => step matches SearchStep::Done(r) && r == Err::<MarketTokens, GammaError>(
                    GammaError::NoActiveMarket,
                ),
            },
    {
        match lookup {
            Lookup::Found(market) => {
                if Self::is_tradable(&market) {
                    SearchStep::Done(self.parse_market_tokens(&market))
                } else {
                    self.search_from(now_secs, attempt + 1)
                }
            },
            _ => self.search_from(now_secs, attempt + 1),
        }
    }
}

/// The address at which the catalog shows the market of a slug.
pub open spec fn market_url_text(slug: Seq<char>) -> Seq<char> {
    "https://gamma-api.polymarket.com/markets/slug/"@ + slug
}

/// The address at which the catalog shows the market of a slug.
pub fn market_url(slug: &str) -> (url: String)
    ensures
        url@ == market_url_text(slug@),
{
    let mut url = String::from_str("https://gamma-api.polymarket.com/markets/slug/");
    url.append(slug);
    url
}

/// Whether two texts are the same.
pub fn str_equal(a: &str, b: &str) -> (same: bool)
    ensures
        same == (a@ == b@),
{
    let x = String::from_str(a);
    let y = String::from_str(b);
    x == y
}

} // verus!
