//! The spot-book component: the book of the reference venue, the history of
//! its mid price, and the steps of one synchronization session.
//!
//! A session opens the stream, loads a snapshot, and then takes in diffs in
//! arrival order. A diff that the snapshot already covers is passed over; a
//! diff that does not continue the book ends the session with the book
//! blanked, so that the next session starts from a fresh snapshot.

use crate::book::{
    after_diff, after_snapshot, blank, diff_applied, diff_of_text, diff_repeated, imbalance_of, levels_of_text,
    mid_of, state_wf, text_error, BookError, BookState, DepthDiff, DepthSnapshot, DiffView, OrderBook,
    ParsedDiff, Sequencing,
};
use crate::config::BinanceConfig;
use crate::events::BinanceBookUpdate;
use crate::history::{
    after_record, history_wf, returns_of, is_std_dev, spread_fits, window, MidHistory, MidSample,
};
use crate::text::{int_text, push_int};
use vstd::prelude::*;
use vstd::string::*;

verus! {

/// Depth of the imbalance that the component reports.
pub const IMBALANCE_DEPTH: u32 = 5;

/// What a session does after a diff.
#[derive(Debug, Clone, Copy, PartialEq, Eq, Structural)]
pub enum BookAction {
    /// Nothing to tell: the diff was passed over.
    Continue,
    /// The book moved on: broadcast the update, where there is one.
    Emit(Option<BinanceBookUpdate>),
    /// The book is out of sequence: end the session and start anew.
    Resync,
}

/// The top of a book at `now_ms`, where the book is loaded and has both sides.
pub open spec fn update_of(s: BookState, now_ms: i64) -> Option<BinanceBookUpdate> {
    if s.initialized && s.bids.len() > 0 && s.asks.len() > 0 {
        Some(
            BinanceBookUpdate {
                best_bid: s.bids.last().price,
                best_bid_qty: s.bids.last().qty,
                best_ask: s.asks.first().price,
                best_ask_qty: s.asks.first().qty,
                mid: ((s.bids.last().price + s.asks.first().price) * 5) as i128,
                imbalance_top5: imbalance_of(s, 5) as i64,
                update_id: s.last_update_id as u64,
                t_recv_ms: now_ms,
            },
        )
    } else {
        None
    }
}

/// The history after the mid of a book is recorded at `now_ms`; unchanged
/// where the book has no mid.
pub open spec fn history_after(h: Seq<MidSample>, s: BookState, now_ms: i64) -> Seq<MidSample> {
    match mid_of(s) {
        Some(m) => after_record(h, now_ms, m as i128),
        None => h,
    }
}

/// Whether a diff holds nothing that the snapshot of the session lacks.
pub open spec fn covered_by_snapshot(snapshot_id: Option<u64>, diff: DiffView) -> bool {
    snapshot_id matches Some(u) && diff.final_update_id <= u
}

/// Whether a session passes a diff over: the snapshot covers it, or the book
/// holds all of it already.
pub open spec fn passed_over(s: BookState, snapshot_id: Option<u64>, diff: DiffView) -> bool {
    covered_by_snapshot(snapshot_id, diff) || diff_repeated(s, diff)
}

/// The book after a session takes in a diff: unchanged where the diff is
/// passed over, moved on where it is applied, blank where it does not
/// continue the book.
pub open spec fn book_after(s: BookState, snapshot_id: Option<u64>, diff: DiffView) -> BookState {
    if passed_over(s, snapshot_id, diff) {
        s
    } else if diff_applied(s, diff) {
        after_diff(s, diff)
    } else {
        blank()
    }
}

/// What a session does after a diff: nothing where the diff is passed over;
/// where it is applied, the update is handed out; otherwise the session
/// starts anew.
pub open spec fn action_after(s: BookState, snapshot_id: Option<u64>, diff: DiffView, now_ms: i64) -> BookAction {
    if passed_over(s, snapshot_id, diff) {
        BookAction::Continue
    } else if diff_applied(s, diff) {
        BookAction::Emit(update_of(after_diff(s, diff), now_ms))
    } else {
        BookAction::Resync
    }
}

/// The address of the snapshot endpoint: `rest_url?symbol=SYMBOL&limit=N`.
pub open spec fn snapshot_url_text(config: &BinanceConfig) -> Seq<char> {
    config.rest_url@ + "?symbol="@ + config.symbol@ + "&limit="@ + int_text(
        config.snapshot_limit as int,
    )
}

/// The spot-book component.
pub struct BinanceBookService {
    config: BinanceConfig,
    book: OrderBook,
    mid_history: MidHistory,
    snapshot_id: Option<u64>,
    running: bool,
}

impl BinanceBookService {
    /// The book.
    pub closed spec fn book(&self) -> BookState {
        self.book@
    }

    /// The mid-price history, oldest sample first.
    pub closed spec fn history(&self) -> Seq<MidSample> {
        self.mid_history@
    }

    /// The last update id of the snapshot that the session loaded.
    pub closed spec fn session_snapshot(&self) -> Option<u64> {
        self.snapshot_id
    }

    /// Whether the component has been started and not stopped.
    pub closed spec fn is_running(&self) -> bool {
        self.running
    }

    /// The settings.
    pub closed spec fn settings(&self) -> BinanceConfig {
        self.config
    }

    /// Book and history are well formed.
    pub open spec fn wf(&self) -> bool {
        state_wf(self.book()) && history_wf(self.history())
    }

    /// A component with a blank book and an empty history.
    pub fn new(config: BinanceConfig) -> (s: Self)
        ensures
            s.wf(),
            s.book() == blank(),
            s.history().len() == 0,
            s.session_snapshot() is None,
            !s.is_running(),
            s.settings() == config,
    {
        BinanceBookService {
            config,
            book: OrderBook::new(),
            mid_history: MidHistory::new(),
            snapshot_id: None,
            running: false,
        }
    }

    /// Marks the component as running.
    pub fn start(&mut self)
        ensures
            final(self).is_running(),
            final(self).book() == old(self).book(),
            final(self).history() == old(self).history(),
            final(self).session_snapshot() == old(self).session_snapshot(),
    {
        self.running = true;
    }

    /// Marks the component as stopped.
    pub fn stop(&mut self)
        ensures
            !final(self).is_running(),
            final(self).book() == old(self).book(),
            final(self).history() == old(self).history(),
            final(self).session_snapshot() == old(self).session_snapshot(),
    {
        self.running = false;
    }

    /// Whether the component is running.
    pub fn running(&self) -> (b: bool)
        ensures
            b == self.is_running(),
    {
        self.running
    }

    /// The address to fetch the snapshot from.
    pub fn snapshot_url(&self) -> (url: String)
        ensures
            url@ == snapshot_url_text(&self.settings()),
    {
        let mut url = self.config.rest_url.clone();
        url.append("?symbol=");
        url.append(self.config.symbol.as_str());
        url.append("&limit=");
        push_int(&mut url, self.config.snapshot_limit as i128);
        url
    }

    /// The top of the book at `now_ms`; None until a snapshot is loaded and
    /// while a side is empty.
    pub fn get_current_update(&self, now_ms: i64) -> (u: Option<BinanceBookUpdate>)
        requires
            self.wf(),
        ensures
            u == update_of(self.book(), now_ms),
    {
        if !self.book.initialized() {
            return None;
        }
        let bid = match self.book.best_bid() {
            Some(l) => l,
            None => {
                return None;
            },
        };
        let ask = match self.book.best_ask() {
            Some(l) => l,
            None => {
                return None;
            },
        };
        let mid = match self.book.mid() {
            Some(m) => m,
            None => {
                return None;
            },
        };
        let imbalance = self.book.imbalance_top_n(IMBALANCE_DEPTH);
        Some(
            BinanceBookUpdate {
                best_bid: bid.price,
                best_bid_qty: bid.qty,
                best_ask: ask.price,
                best_ask_qty: ask.qty,
                mid,
                imbalance_top5: imbalance,
                update_id: self.book.last_update_id(),
                t_recv_ms: now_ms,
            },
        )
    }

    /// The return over the last `lookback_ms` milliseconds before `now_ms`.
    pub fn get_returns(&self, lookback_ms: i64, now_ms: i64) -> (r: Option<i128>)
        requires
            self.wf(),
        ensures
            r matches Some(v) ==> returns_of(self.history(), now_ms - lookback_ms) == Some(
                v as int,
            ),
            r is None ==> returns_of(self.history(), now_ms - lookback_ms) is None,
    {
        self.mid_history.return_over(lookback_ms, now_ms)
    }

    /// The standard deviation of the mids of the last `lookback_ms`
    /// milliseconds before `now_ms`.
    pub fn get_std_dev(&self, lookback_ms: i64, now_ms: i64) -> (r: Option<i128>)
        requires
            self.wf(),
        ensures
            r matches Some(v) ==> window(self.history(), now_ms - lookback_ms).len() >= 2
                && is_std_dev(v as int, window(self.history(), now_ms - lookback_ms)),
            r is None ==> window(self.history(), now_ms - lookback_ms).len() < 2 || !spread_fits(
                window(self.history(), now_ms - lookback_ms),
            ),
    {
        self.mid_history.std_dev(lookback_ms, now_ms)
    }

    /// The mid price of the book.
    pub fn get_mid_price(&self) -> (m: Option<i128>)
        ensures
            m matches Some(v) ==> mid_of(self.book()) == Some(v as int),
            m is None ==> mid_of(self.book()) is None,
    {
        self.book.mid()
    }

    /// Records the mid of the book at `now_ms`, where it has one.
    pub fn record_mid(&mut self, now_ms: i64)
        requires
            old(self).wf(),
        ensures
            final(self).wf(),
            final(self).book() == old(self).book(),
            final(self).history() == history_after(old(self).history(), old(self).book(), now_ms),
            final(self).session_snapshot() == old(self).session_snapshot(),
            final(self).is_running() == old(self).is_running(),
            final(self).settings() == old(self).settings(),
    {
        match self.book.mid() {
            Some(m) => {
                self.mid_history.record(now_ms, m);
            },
            None => {},
        }
    }

    /// Starts a session with a snapshot. On an error the component is left as
    /// it was and the session is over; otherwise the book is what the
    /// snapshot gives, and the result says whether it is usable.
    pub fn on_snapshot(&mut self, snapshot: &DepthSnapshot) -> (r: Result<bool, BookError>)
        requires
            old(self).wf(),
        ensures
            final(self).wf(),
            final(self).history() == old(self).history(),
            final(self).is_running() == old(self).is_running(),
            final(self).settings() == old(self).settings(),
            r is Ok <==> text_error(snapshot.bids@, snapshot.asks@) is None,
            r matches Err(e) ==> text_error(snapshot.bids@, snapshot.asks@) == Some(e) && final(self).book() == old(self).book() && final(self).session_snapshot() == old(self).session_snapshot(),
            r matches Ok(loaded) ==> loaded == final(self).book().initialized && final(self).book() == after_snapshot(
                snapshot.last_update_id as int,
                levels_of_text(snapshot.bids@).unwrap(),
                levels_of_text(snapshot.asks@).unwrap(),
            ) && final(self).session_snapshot() == Some(snapshot.last_update_id),
    {
        match self.book.apply_snapshot(snapshot) {
            Ok(loaded) => {
                self.snapshot_id = Some(snapshot.last_update_id);
                Ok(loaded)
            },
            Err(e) => Err(e),
        }
    }

    /// Takes in a diff whose numbers are read, at `now_ms`. A diff that the
    /// snapshot covers, or that the book holds already, is passed over:
    /// nothing changes and nothing is handed out. A diff that is applied
    /// moves the book on, records the mid and hands out the update. Any other
    /// diff blanks the book and asks for a new session.
    pub fn on_parsed_diff(&mut self, diff: &ParsedDiff, now_ms: i64) -> (action: BookAction)
        requires
            old(self).wf(),
        ensures
            final(self).wf(),
            final(self).book() == book_after(old(self).book(), old(self).session_snapshot(), diff@),
            action == action_after(
                old(self).book(),
                old(self).session_snapshot(),
                diff@,
                now_ms,
            ),
            final(self).history() == (if action is Emit {
                history_after(old(self).history(), final(self).book(), now_ms)
            } else {
                old(self).history()
            }),
            final(self).session_snapshot() == old(self).session_snapshot(),
            final(self).is_running() == old(self).is_running(),
            final(self).settings() == old(self).settings(),
    {
        match self.snapshot_id {
            Some(u) => {
                if diff.final_update_id <= u {
                    return BookAction::Continue;
                }
            },
            None => {},
        }
        if !self.book.initialized() {
            self.book.reset();
            return BookAction::Resync;
        }
        match self.book.classify(diff) {
            Sequencing::AlreadyApplied => BookAction::Continue,
            Sequencing::Gap => {
                self.book.reset();
                BookAction::Resync
            },
            Sequencing::InOrder => {
                if self.book.apply_parsed_diff(diff) {
                    self.record_mid(now_ms);
                    BookAction::Emit(self.get_current_update(now_ms))
                } else {
                    self.book.reset();
                    BookAction::Resync
                }
            },
        }
    }

    /// Takes in a diff as the venue sent it, at `now_ms`. A diff whose numbers
    /// cannot be read is dropped: nothing changes and the session goes on.
    pub fn on_diff(&mut self, diff: &DepthDiff, now_ms: i64) -> (r: Result<BookAction, BookError>)
        requires
            old(self).wf(),
        ensures
            final(self).wf(),
            final(self).session_snapshot() == old(self).session_snapshot(),
            final(self).is_running() == old(self).is_running(),
            final(self).settings() == old(self).settings(),
            r is Ok <==> text_error(diff.bids@, diff.asks@) is None,
            r matches Err(e) ==> text_error(diff.bids@, diff.asks@) == Some(e) && final(self).book()
                == old(self).book() && final(self).history() == old(self).history(),
            r matches Ok(action) ==> final(self).book() == book_after(
                old(self).book(),
                old(self).session_snapshot(),
                diff_of_text(diff),
            ) && action == action_after(
                old(self).book(),
                old(self).session_snapshot(),
                diff_of_text(diff),
                now_ms,
            ) && final(self).history() == (if action is Emit {
                history_after(old(self).history(), final(self).book(), now_ms)
            } else {
                old(self).history()
            }),
    {
        match crate::book::parse_diff(diff) {
            Err(e) => Err(e),
            Ok(parsed) => Ok(self.on_parsed_diff(&parsed, now_ms)),
        }
    }

    /// Ends a session: the book is blanked, so that nothing of this session
    /// is shown once the connection is gone. The history stays.
    pub fn end_session(&mut self)
        requires
            old(self).wf(),
        ensures
            final(self).wf(),
            final(self).book() == blank(),
            final(self).session_snapshot() is None,
            final(self).history() == old(self).history(),
            final(self).is_running() == old(self).is_running(),
            final(self).settings() == old(self).settings(),
    {
        self.book.reset();
        self.snapshot_id = None;
    }
}

} // verus!
