//! The reconstructed order book of the reference venue.
//!
//! A book is rebuilt from one depth snapshot and then kept current by depth
//! diffs, each of which carries the range of update ids it covers. Prices and
//! quantities are fixed-point units; a mid price is a count of units of 10^-9,
//! one decimal place more, so that half of an odd sum is exact.

use crate::fixed::{fixed_of_text, parse_fixed};
use crate::levels::{
    depth, highest_sum, lemma_side_determined, lemma_with_level_qty,
    lemma_with_levels_idempotent, lemma_with_levels_qty, lemma_with_levels_wf, lowest_sum, qty_after,
    qty_at, side_wf, sum_qty, with_level, with_levels, BookSide, Level,
};
use vstd::prelude::*;

verus! {

/// One mid-price whole, in mid units.
pub const MID_UNIT: i128 = 1_000_000_000;

/// A depth snapshot as the venue sends it: decimal text for each price and size.
#[derive(Debug, Clone)]
pub struct DepthSnapshot {
    pub last_update_id: u64,
    pub bids: Vec<(String, String)>,
    pub asks: Vec<(String, String)>,
}

/// A depth diff as the venue sends it. `prev_final_update_id` is present only
/// on the venue's futures feed.
#[derive(Debug, Clone)]
pub struct DepthDiff {
    pub event_type: String,
    pub event_time: u64,
    pub symbol: String,
    pub first_update_id: u64,
    pub final_update_id: u64,
    pub prev_final_update_id: Option<u64>,
    pub bids: Vec<(String, String)>,
    pub asks: Vec<(String, String)>,
}

/// A depth snapshot with its numbers read.
#[derive(Debug, Clone)]
pub struct ParsedSnapshot {
    pub last_update_id: u64,
    pub bids: Vec<Level>,
    pub asks: Vec<Level>,
}

/// A depth diff with its numbers read.
#[derive(Debug, Clone)]
pub struct ParsedDiff {
    pub first_update_id: u64,
    pub final_update_id: u64,
    pub prev_final_update_id: Option<u64>,
    pub bids: Vec<Level>,
    pub asks: Vec<Level>,
}

/// The content of a diff: its id range and its updates in order.
pub struct DiffView {
    pub first_update_id: int,
    pub final_update_id: int,
    pub prev_final_update_id: Option<int>,
    pub bids: Seq<Level>,
    pub asks: Seq<Level>,
}

impl View for ParsedDiff {
    type V = DiffView;

    open spec fn view(&self) -> DiffView {
        DiffView {
            first_update_id: self.first_update_id as int,
            final_update_id: self.final_update_id as int,
            prev_final_update_id: match self.prev_final_update_id {
                Some(pu) => Some(pu as int),
                None => None,
            },
            bids: self.bids@,
            asks: self.asks@,
        }
    }
}

/// Why a message could not be read.
#[derive(Debug, Clone, Copy, PartialEq, Eq, Structural)]
pub enum BookError {
    /// A price or size among the bids is no fixed-point number.
    BadBidLevel,
    /// The bids are fine; a price or size among the asks is no fixed-point number.
    BadAskLevel,
}

/// The level that a pair of texts denotes.
pub open spec fn level_of_text(price: Seq<char>, qty: Seq<char>) -> Option<Level> {
    match (fixed_of_text(price), fixed_of_text(qty)) {
        (Some(p), Some(q)) => Some(Level { price: p as i64, qty: q as i64 }),
        _ => None,
    }
}

/// The levels that a list of text pairs denotes, if every pair denotes one.
pub open spec fn levels_of_text(raw: Seq<(String, String)>) -> Option<Seq<Level>>
    decreases raw.len(),
{
    if raw.len() == 0 {
        Some(Seq::empty())
    } else {
        match (
            levels_of_text(raw.drop_last()),
            level_of_text(raw.last().0@, raw.last().1@),
        ) {
            (Some(s), Some(l)) => Some(s.push(l)),
            _ => None,
        }
    }
}

/// Reads a list of `(price, size)` texts.
pub fn parse_levels(raw: &Vec<(String, String)>) -> (r: Option<Vec<Level>>)
    ensures
        r matches Some(v) ==> levels_of_text(raw@) == Some(v@),
        r is None ==> levels_of_text(raw@) is None,
{
    let mut out: Vec<Level> = Vec::new();
    let mut i: usize = 0;
    while i < raw.len()
        invariant
            0 <= i <= raw@.len(),
            levels_of_text(raw@.subrange(0, i as int)) == Some(out@),
        decreases raw@.len() - i,
    {
        let ghost prefix = raw@.subrange(0, i + 1);
        proof {
            assert(prefix.drop_last() =~= raw@.subrange(0, i as int));
            assert(prefix.last() == raw@[i as int]);
        }
        let price = parse_fixed(raw[i].0.as_str());
        let qty = parse_fixed(raw[i].1.as_str());
        match (price, qty) {
            (Some(p), Some(q)) => {
                out.push(Level { price: p, qty: q });
            },
            _ => {
                proof {
                    lemma_levels_of_text_prefix(raw@, i + 1);
                }
                return None;
            },
        }
        i = i + 1;
    }
    proof {
        assert(raw@.subrange(0, i as int) =~= raw@);
    }
    Some(out)
}

/// A list with an unreadable prefix is unreadable.
proof fn lemma_levels_of_text_prefix(raw: Seq<(String, String)>, n: int)
    requires
        0 <= n <= raw.len(),
        levels_of_text(raw.subrange(0, n)) is None,
    ensures
        levels_of_text(raw) is None,
    decreases raw.len(),
{
    if n < raw.len() {
        assert(raw.drop_last().subrange(0, n) =~= raw.subrange(0, n));
        lemma_levels_of_text_prefix(raw.drop_last(), n);
    } else {
        assert(raw.subrange(0, n) =~= raw);
    }
}

/// The same snapshot with its numbers read.
pub open spec fn snapshot_reads_as(snapshot: &DepthSnapshot, parsed: &ParsedSnapshot) -> bool {
    &&& parsed.last_update_id == snapshot.last_update_id
    &&& levels_of_text(snapshot.bids@) == Some(parsed.bids@)
    &&& levels_of_text(snapshot.asks@) == Some(parsed.asks@)
}

/// The content of a diff whose numbers can all be read.
pub open spec fn diff_of_text(diff: &DepthDiff) -> DiffView {
    DiffView {
        first_update_id: diff.first_update_id as int,
        final_update_id: diff.final_update_id as int,
        prev_final_update_id: match diff.prev_final_update_id {
            Some(pu) => Some(pu as int),
            None => None,
        },
        bids: levels_of_text(diff.bids@).unwrap(),
        asks: levels_of_text(diff.asks@).unwrap(),
    }
}

/// The error, if any, with which a pair of level lists is refused.
pub open spec fn text_error(bids: Seq<(String, String)>, asks: Seq<(String, String)>) -> Option<
    BookError,
> {
    if levels_of_text(bids) is None {
        Some(BookError::BadBidLevel)
    } else if levels_of_text(asks) is None {
        Some(BookError::BadAskLevel)
    } else {
        None
    }
}

/// Reads the numbers of a snapshot.
pub fn parse_snapshot(snapshot: &DepthSnapshot) -> (r: Result<ParsedSnapshot, BookError>)
    ensures
        r matches Ok(parsed) ==> snapshot_reads_as(snapshot, &parsed),
        r matches Err(e) ==> text_error(snapshot.bids@, snapshot.asks@) == Some(e),
        r is Ok <==> text_error(snapshot.bids@, snapshot.asks@) is None,
{
    match parse_levels(&snapshot.bids) {
        None => Err(BookError::BadBidLevel),
        Some(bids) => match parse_levels(&snapshot.asks) {
            None => Err(BookError::BadAskLevel),
            Some(asks) => Ok(ParsedSnapshot { last_update_id: snapshot.last_update_id, bids, asks }),
        },
    }
}

/// Reads the numbers of a diff.
pub fn parse_diff(diff: &DepthDiff) -> (r: Result<ParsedDiff, BookError>)
    ensures
        r matches Ok(parsed) ==> parsed@ == diff_of_text(diff),
        r matches Err(e) ==> text_error(diff.bids@, diff.asks@) == Some(e),
        r is Ok <==> text_error(diff.bids@, diff.asks@) is None,
{
    match parse_levels(&diff.bids) {
        None => Err(BookError::BadBidLevel),
        Some(bids) => match parse_levels(&diff.asks) {
            None => Err(BookError::BadAskLevel),
            Some(asks) => Ok(
                ParsedDiff {
                    first_update_id: diff.first_update_id,
                    final_update_id: diff.final_update_id,
                    prev_final_update_id: diff.prev_final_update_id,
                    bids,
                    asks,
                },
            ),
        },
    }
}

/// The abstract state of a book.
pub struct BookState {
    /// Bid levels, ascending by price: the best bid is the last.
    pub bids: Seq<Level>,
    /// Ask levels, ascending by price: the best ask is the first.
    pub asks: Seq<Level>,
    pub last_update_id: int,
    pub initialized: bool,
    /// Whether a diff has been applied since the snapshot was loaded.
    pub synced: bool,
}

/// The highest bid is below the lowest ask, where both exist.
pub open spec fn uncrossed(bids: Seq<Level>, asks: Seq<Level>) -> bool {
    bids.len() > 0 && asks.len() > 0 ==> bids.last().price < asks.first().price
}

/// The state of a book that holds nothing.
pub open spec fn blank() -> BookState {
    BookState {
        bids: Seq::empty(),
        asks: Seq::empty(),
        last_update_id: 0,
        initialized: false,
        synced: false,
    }
}

/// What a state may be: both sides well formed, not crossed, and blank until
/// a snapshot is loaded.
pub open spec fn state_wf(s: BookState) -> bool {
    &&& side_wf(s.bids)
    &&& side_wf(s.asks)
    &&& uncrossed(s.bids, s.asks)
    &&& 0 <= s.last_update_id <= u64::MAX
    &&& !s.initialized ==> s == blank()
}

/// The state that a snapshot gives, whatever the book held before. A crossed
/// snapshot gives a blank book.
pub open spec fn after_snapshot(last_update_id: int, bids: Seq<Level>, asks: Seq<Level>) -> BookState {
    let b = with_levels(Seq::empty(), bids);
    let a = with_levels(Seq::empty(), asks);
    if uncrossed(b, a) {
        BookState { bids: b, asks: a, last_update_id, initialized: true, synced: false }
    } else {
        blank()
    }
}

/// How a diff's update ids stand to the last update applied.
#[derive(Debug, Clone, Copy, PartialEq, Eq, Structural)]
pub enum Sequencing {
    /// The diff continues the book: it is to be applied.
    InOrder,
    /// Everything in the diff was applied before: it is to be skipped.
    AlreadyApplied,
    /// Updates are missing between the book and the diff: the book must be
    /// rebuilt.
    Gap,
}

/// The rule for a diff judged by its range: the range must reach `last + 1`
/// and not start beyond it.
pub open spec fn range_sequencing(last: int, first: int, final_id: int) -> Sequencing {
    if first > last + 1 {
        Sequencing::Gap
    } else if final_id < last + 1 {
        Sequencing::AlreadyApplied
    } else {
        Sequencing::InOrder
    }
}

/// The sequencing rule. The first diff after a snapshot is judged by its
/// range. A later diff that carries a previous final id holds nothing new
/// where it ends at or before the last update applied, and otherwise must
/// name that update; one that carries none is judged by its range.
pub open spec fn sequencing(
    last: int,
    synced: bool,
    first: int,
    final_id: int,
    prev: Option<int>,
) -> Sequencing {
    match prev {
        Some(pu) => if !synced {
            range_sequencing(last, first, final_id)
        } else if final_id <= last {
            Sequencing::AlreadyApplied
        } else if pu != last {
            Sequencing::Gap
        } else {
            Sequencing::InOrder
        },
        None => range_sequencing(last, first, final_id),
    }
}

/// The state after a diff arrives.
///
/// A blank book stays blank. A diff in order is applied level by level; if
/// that would cross the book, the book is blanked instead. A diff already
/// applied, or out of sequence, leaves the state as it is.
pub open spec fn after_diff(s: BookState, diff: DiffView) -> BookState {
    if !s.initialized {
        s
    } else if diff_sequencing(s, diff) != Sequencing::InOrder {
        s
    } else {
        let b = with_levels(s.bids, diff.bids);
        let a = with_levels(s.asks, diff.asks);
        if uncrossed(b, a) {
            BookState {
                bids: b,
                asks: a,
                last_update_id: diff.final_update_id,
                initialized: true,
                synced: true,
            }
        } else {
            blank()
        }
    }
}

/// How a diff stands to a state.
pub open spec fn diff_sequencing(s: BookState, diff: DiffView) -> Sequencing {
    sequencing(
        s.last_update_id,
        s.synced,
        diff.first_update_id,
        diff.final_update_id,
        diff.prev_final_update_id,
    )
}

/// Whether a diff leaves the book usable: it was applied, or had been applied
/// before. Otherwise the book must be rebuilt from a fresh snapshot.
pub open spec fn diff_accepted(s: BookState, diff: DiffView) -> bool {
    &&& s.initialized
    &&& diff_sequencing(s, diff) != Sequencing::Gap
    &&& after_diff(s, diff).initialized
}

/// Whether a diff is applied: the book is loaded, the diff is in order, and
/// applying it does not cross the book.
pub open spec fn diff_applied(s: BookState, diff: DiffView) -> bool {
    &&& s.initialized
    &&& diff_sequencing(s, diff) == Sequencing::InOrder
    &&& after_diff(s, diff).initialized
}

/// Whether a diff is passed over because the book holds all of it already.
pub open spec fn diff_repeated(s: BookState, diff: DiffView) -> bool {
    s.initialized && diff_sequencing(s, diff) == Sequencing::AlreadyApplied
}

/// The mid price of a state, in mid units, where both sides have a level.
pub open spec fn mid_of(s: BookState) -> Option<int> {
    if s.bids.len() > 0 && s.asks.len() > 0 {
        Some((s.bids.last().price + s.asks.first().price) * 5)
    } else {
        None
    }
}

/// `n / d` rounded toward zero, for `d > 0`.
pub open spec fn div_toward_zero(n: int, d: int) -> int {
    if n >= 0 {
        n / d
    } else {
        -((-n) / d)
    }
}

/// The top-`n` imbalance of a state, in fixed-point units rounded toward zero:
/// `(B - A) / (B + A)` over the total bid size `B` of the `n` highest bids and
/// the total ask size `A` of the `n` lowest asks; zero where both are zero.
pub open spec fn imbalance_of(s: BookState, n: int) -> int {
    let b = highest_sum(s.bids, n);
    let a = lowest_sum(s.asks, n);
    if b + a == 0 {
        0
    } else {
        div_toward_zero((b - a) * 100_000_000, b + a)
    }
}

/// The order book: two sides, the id of the last update applied, whether a
/// snapshot has been loaded, and whether a diff has been applied since.
pub struct OrderBook {
    bids: BookSide,
    asks: BookSide,
    last_update_id: u64,
    initialized: bool,
    synced: bool,
}

impl View for OrderBook {
    type V = BookState;

    closed spec fn view(&self) -> BookState {
        BookState {
            bids: self.bids@,
            asks: self.asks@,
            last_update_id: self.last_update_id as int,
            initialized: self.initialized,
            synced: self.synced,
        }
    }
}

impl OrderBook {
    /// The book's invariant: see `state_wf`.
    pub open spec fn wf(&self) -> bool {
        state_wf(self@)
    }

    /// A blank book.
    pub fn new() -> (book: Self)
        ensures
            book@ == blank(),
            book.wf(),
    {
        OrderBook {
            bids: BookSide::new(),
            asks: BookSide::new(),
            last_update_id: 0,
            initialized: false,
            synced: false,
        }
    }

    /// Whether a snapshot has been loaded.
    pub fn initialized(&self) -> (b: bool)
        ensures
            b == self@.initialized,
    {
        self.initialized
    }

    /// The id of the last update applied.
    pub fn last_update_id(&self) -> (id: u64)
        ensures
            id == self@.last_update_id,
    {
        self.last_update_id
    }

    /// Forgets everything: the book is blank again.
    pub fn reset(&mut self)
        ensures
            final(self)@ == blank(),
            final(self).wf(),
    {
        self.bids = BookSide::new();
        self.asks = BookSide::new();
        self.last_update_id = 0;
        self.initialized = false;
        self.synced = false;
    }

    fn is_crossed(bids: &BookSide, asks: &BookSide) -> (crossed: bool)
        ensures
            crossed == !uncrossed(bids@, asks@),
    {
        match (bids.highest(), asks.lowest()) {
            (Some(b), Some(a)) => b.price >= a.price,
            _ => false,
        }
    }

    fn apply_levels(side: &mut BookSide, updates: &Vec<Level>)
        requires
            old(side).wf(),
        ensures
            final(side).wf(),
            final(side)@ == with_levels(old(side)@, updates@),
    {
        let mut i: usize = 0;
        while i < updates.len()
            invariant
                0 <= i <= updates@.len(),
                side.wf(),
                side@ == with_levels(old(side)@, updates@.subrange(0, i as int)),
            decreases updates@.len() - i,
        {
            proof {
                let next = updates@.subrange(0, i + 1);
                assert(next.drop_last() =~= updates@.subrange(0, i as int));
                assert(next.last() == updates@[i as int]);
            }
            side.set_level(updates[i]);
            i = i + 1;
        }
        proof {
            assert(updates@.subrange(0, i as int) =~= updates@);
        }
    }

    /// Replaces the book by a snapshot. Returns whether the book is usable
    /// afterwards: a crossed snapshot leaves it blank.
    pub fn load_snapshot(&mut self, snapshot: &ParsedSnapshot) -> (loaded: bool)
        ensures
            final(self)@ == after_snapshot(
                snapshot.last_update_id as int,
                snapshot.bids@,
                snapshot.asks@,
            ),
            final(self).wf(),
            loaded == final(self)@.initialized,
    {
        let mut bids = BookSide::new();
        let mut asks = BookSide::new();
        Self::apply_levels(&mut bids, &snapshot.bids);
        Self::apply_levels(&mut asks, &snapshot.asks);
        if Self::is_crossed(&bids, &asks) {
            self.reset();
            false
        } else {
            self.bids = bids;
            self.asks = asks;
            self.last_update_id = snapshot.last_update_id;
            self.initialized = true;
            self.synced = false;
            true
        }
    }

    /// Where a diff stands in the sequence of updates.
    pub fn classify(&self, diff: &ParsedDiff) -> (seq: Sequencing)
        ensures
            seq == diff_sequencing(self@, diff@),
    {
        let last = self.last_update_id;
        let by_range = if diff.first_update_id > last && diff.first_update_id - 1 > last {
            Sequencing::Gap
        } else if diff.final_update_id <= last {
            Sequencing::AlreadyApplied
        } else {
            Sequencing::InOrder
        };
        match diff.prev_final_update_id {
            Some(pu) => {
                if !self.synced {
                    by_range
                } else if diff.final_update_id <= last {
                    Sequencing::AlreadyApplied
                } else if pu != last {
                    Sequencing::Gap
                } else {
                    Sequencing::InOrder
                }
            },
            None => by_range,
        }
    }

    /// Takes in one diff. Returns `true` where the book is usable afterwards
    /// (the diff was applied, or had been applied before) and `false` where it
    /// must be rebuilt from a fresh snapshot.
    pub fn apply_parsed_diff(&mut self, diff: &ParsedDiff) -> (accepted: bool)
        requires
            old(self).wf(),
        ensures
            final(self)@ == after_diff(old(self)@, diff@),
            final(self).wf(),
            accepted == diff_accepted(old(self)@, diff@),
    {
        if !self.initialized {
            return false;
        }
        match self.classify(diff) {
            Sequencing::Gap => false,
            Sequencing::AlreadyApplied => true,
            Sequencing::InOrder => {
                Self::apply_levels(&mut self.bids, &diff.bids);
                Self::apply_levels(&mut self.asks, &diff.asks);
                if Self::is_crossed(&self.bids, &self.asks) {
                    self.reset();
                    false
                } else {
                    self.last_update_id = diff.final_update_id;
                    self.synced = true;
                    true
                }
            },
        }
    }

    /// Reads a snapshot and replaces the book by it. On an error the book is
    /// left as it was.
    pub fn apply_snapshot(&mut self, snapshot: &DepthSnapshot) -> (r: Result<bool, BookError>)
        requires
            old(self).wf(),
        ensures
            final(self).wf(),
            r is Ok <==> text_error(snapshot.bids@, snapshot.asks@) is None,
            r matches Err(e) ==> text_error(snapshot.bids@, snapshot.asks@) == Some(e)
                && final(self)@ == old(self)@,
            r matches Ok(loaded) ==> loaded == final(self)@.initialized && final(self)@
                == after_snapshot(
                snapshot.last_update_id as int,
                levels_of_text(snapshot.bids@).unwrap(),
                levels_of_text(snapshot.asks@).unwrap(),
            ),
    {
        match parse_snapshot(snapshot) {
            Err(e) => Err(e),
            Ok(parsed) => Ok(self.load_snapshot(&parsed)),
        }
    }

    /// Reads a diff and takes it in. On an error the book is left as it was.
    pub fn apply_diff(&mut self, diff: &DepthDiff) -> (r: Result<bool, BookError>)
        requires
            old(self).wf(),
        ensures
            final(self).wf(),
            r is Ok <==> text_error(diff.bids@, diff.asks@) is None,
            r matches Err(e) ==> text_error(diff.bids@, diff.asks@) == Some(e) && final(self)@
                == old(self)@,
            r matches Ok(accepted) ==> final(self)@ == after_diff(old(self)@, diff_of_text(diff))
                && accepted == diff_accepted(old(self)@, diff_of_text(diff)),
    {
        match parse_diff(diff) {
            Err(e) => Err(e),
            Ok(parsed) => {
                let accepted = self.apply_parsed_diff(&parsed);
                Ok(accepted)
            },
        }
    }

    /// The bid levels, ascending by price.
    pub fn bid_levels(&self) -> (v: Vec<Level>)
        ensures
            v@ == self@.bids,
    {
        self.bids.to_vec()
    }

    /// The ask levels, ascending by price.
    pub fn ask_levels(&self) -> (v: Vec<Level>)
        ensures
            v@ == self@.asks,
    {
        self.asks.to_vec()
    }

    /// The highest bid.
    pub fn best_bid(&self) -> (l: Option<Level>)
        ensures
            self@.bids.len() == 0 ==> l is None,
            self@.bids.len() > 0 ==> l == Some(self@.bids.last()),
    {
        self.bids.highest()
    }

    /// The lowest ask.
    pub fn best_ask(&self) -> (l: Option<Level>)
        ensures
            self@.asks.len() == 0 ==> l is None,
            self@.asks.len() > 0 ==> l == Some(self@.asks.first()),
    {
        self.asks.lowest()
    }

    /// The mid price, in mid units: half the sum of best bid and best ask.
    pub fn mid(&self) -> (m: Option<i128>)
        ensures
            m matches Some(v) ==> mid_of(self@) == Some(v as int),
            m is None ==> mid_of(self@) is None,
    {
        match (self.best_bid(), self.best_ask()) {
            (Some(b), Some(a)) => Some((b.price as i128 + a.price as i128) * 5),
            _ => None,
        }
    }

    /// The top-`n` imbalance, in fixed-point units.
    pub fn imbalance_top_n(&self, n: u32) -> (r: i64)
        requires
            self.wf(),
        ensures
            r == imbalance_of(self@, n as int),
            -100_000_000 <= r <= 100_000_000,
    {
        let b = self.bids.sum_highest(n as usize);
        let a = self.asks.sum_lowest(n as usize);
        proof {
            lemma_sum_bound(
                self.bids@.subrange(
                    self.bids@.len() - depth(n as int, self.bids@.len() as int),
                    self.bids@.len() as int,
                ),
            );
            lemma_sum_bound(self.asks@.subrange(0, depth(n as int, self.asks@.len() as int)));
        }
        let total = b + a;
        if total == 0 {
            return 0;
        }
        let num = (b - a) * 100_000_000;
        let q = num / total;
        proof {
            lemma_imbalance_range(b as int, a as int);
            if num < 0 {
                // Rust's division already rounds toward zero
                assert(q == -((-num) / total as int));
            }
        }
        q as i64
    }
}

/// A sum of quantities is at most the largest quantity times their number.
pub proof fn lemma_sum_bound(s: Seq<Level>)
    requires
        forall|i: int| 0 <= i < s.len() ==> s[i].qty > 0,
    ensures
        0 <= sum_qty(s) <= s.len() * i64::MAX,
        s.len() > 0 ==> sum_qty(s) > 0,
    decreases s.len(),
{
    if s.len() > 0 {
        lemma_sum_bound(s.drop_last());
        assert(s.len() * i64::MAX == (s.len() - 1) * i64::MAX + i64::MAX) by (nonlinear_arith);
    }
}

/// The quotient `(b - a) * 10^8 / (b + a)` lies between minus one and one whole.
pub proof fn lemma_imbalance_range(b: int, a: int)
    requires
        b >= 0,
        a >= 0,
        b + a > 0,
    ensures
        -100_000_000 <= div_toward_zero((b - a) * 100_000_000, b + a) <= 100_000_000,
        b == a ==> div_toward_zero((b - a) * 100_000_000, b + a) == 0,
{
    let t = b + a;
    let n = (b - a) * 100_000_000;
    if n >= 0 {
        assert(n <= 100_000_000 * t) by (nonlinear_arith)
            requires
                n == (b - a) * 100_000_000,
                t == b + a,
                a >= 0,
        ;
        vstd::arithmetic::div_mod::lemma_div_is_ordered(n, 100_000_000 * t, t);
        vstd::arithmetic::div_mod::lemma_div_multiples_vanish(100_000_000, t);
        vstd::arithmetic::div_mod::lemma_div_pos_is_pos(n, t);
    } else {
        assert(-n <= 100_000_000 * t) by (nonlinear_arith)
            requires
                n == (b - a) * 100_000_000,
                t == b + a,
                b >= 0,
        ;
        vstd::arithmetic::div_mod::lemma_div_is_ordered(-n, 100_000_000 * t, t);
        vstd::arithmetic::div_mod::lemma_div_multiples_vanish(100_000_000, t);
        vstd::arithmetic::div_mod::lemma_div_pos_is_pos(-n, t);
    }
}

/// The state after a run of diffs, taken in order.
pub open spec fn after_diffs(s: BookState, diffs: Seq<DiffView>) -> BookState
    decreases diffs.len(),
{
    if diffs.len() == 0 {
        s
    } else {
        after_diff(after_diffs(s, diffs.drop_last()), diffs.last())
    }
}

/// A diff whose ids are ids: inside the 64-bit range.
pub open spec fn diff_ids_valid(d: DiffView) -> bool {
    &&& 0 <= d.first_update_id <= u64::MAX
    &&& 0 <= d.final_update_id <= u64::MAX
    &&& d.prev_final_update_id matches Some(pu) ==> 0 <= pu <= u64::MAX
}

/// A snapshot always gives a well-formed book, so never a crossed one.
pub proof fn law_snapshot_gives_uncrossed_book(last_update_id: int, bids: Seq<Level>, asks: Seq<Level>)
    requires
        0 <= last_update_id <= u64::MAX,
    ensures
        state_wf(after_snapshot(last_update_id, bids, asks)),
        uncrossed(
            after_snapshot(last_update_id, bids, asks).bids,
            after_snapshot(last_update_id, bids, asks).asks,
        ),
{
    lemma_with_levels_wf(Seq::empty(), bids);
    lemma_with_levels_wf(Seq::empty(), asks);
}

/// Whatever diff arrives, a well-formed book stays well formed: its highest
/// bid stays below its lowest ask.
pub proof fn law_diff_keeps_book_uncrossed(s: BookState, d: DiffView)
    requires
        state_wf(s),
        diff_ids_valid(d),
    ensures
        state_wf(after_diff(s, d)),
        uncrossed(after_diff(s, d).bids, after_diff(s, d).asks),
{
    lemma_with_levels_wf(s.bids, d.bids);
    lemma_with_levels_wf(s.asks, d.asks);
}

/// After any run of diffs the book is uncrossed.
pub proof fn law_diffs_keep_book_uncrossed(s: BookState, diffs: Seq<DiffView>)
    requires
        state_wf(s),
        forall|i: int| 0 <= i < diffs.len() ==> diff_ids_valid(#[trigger] diffs[i]),
    ensures
        state_wf(after_diffs(s, diffs)),
        uncrossed(after_diffs(s, diffs).bids, after_diffs(s, diffs).asks),
    decreases diffs.len(),
{
    if diffs.len() > 0 {
        assert forall|i: int| 0 <= i < diffs.drop_last().len() implies diff_ids_valid(
            #[trigger] diffs.drop_last()[i],
        ) by {
            assert(diffs.drop_last()[i] == diffs[i]);
        }
        law_diffs_keep_book_uncrossed(s, diffs.drop_last());
        law_diff_keeps_book_uncrossed(after_diffs(s, diffs.drop_last()), diffs.last());
    }
}

/// A diff that is applied leaves its final update id as the book's last one,
/// which is beyond the one before; a diff that is passed over leaves the last
/// update id as it was.
pub proof fn law_applied_diff_sets_update_id(s: BookState, d: DiffView)
    requires
        state_wf(s),
        diff_accepted(s, d),
    ensures
        diff_applied(s, d) ==> after_diff(s, d).last_update_id == d.final_update_id
            && d.final_update_id > s.last_update_id,
        diff_repeated(s, d) ==> after_diff(s, d) == s,
        diff_applied(s, d) || diff_repeated(s, d),
{
}

/// Taking in the same diff a second time changes nothing, and a diff that
/// was applied is passed over the second time as already applied.
pub proof fn law_diff_twice_is_once(s: BookState, d: DiffView)
    requires
        state_wf(s),
    ensures
        after_diff(after_diff(s, d), d) == after_diff(s, d),
        diff_applied(s, d) ==> diff_repeated(after_diff(s, d), d),
{
    let once = after_diff(s, d);
    if s.initialized && diff_sequencing(s, d) == Sequencing::InOrder && once.initialized {
        if diff_sequencing(once, d) == Sequencing::InOrder {
            lemma_with_levels_idempotent(s.bids, d.bids);
            lemma_with_levels_idempotent(s.asks, d.asks);
        }
    }
}

/// Listing the levels of a side and applying them to an empty side gives the
/// side back.
pub proof fn lemma_side_rebuilds(side: Seq<Level>)
    requires
        side_wf(side),
    ensures
        with_levels(Seq::empty(), side) == side,
{
    let rebuilt = with_levels(Seq::empty(), side);
    lemma_with_levels_wf(Seq::empty(), side);
    assert forall|p: int| qty_at(rebuilt, p) == qty_at(side, p) by {
        lemma_with_levels_qty(Seq::empty(), side, p);
        lemma_qty_after_of_side(side, p);
    }
    lemma_side_determined(rebuilt, side);
}

proof fn lemma_qty_after_of_side(side: Seq<Level>, p: int)
    requires
        forall|i: int| 0 <= i < side.len() ==> side[i].qty > 0,
    ensures
        qty_after(0, side, p) == qty_at(side, p),
    decreases side.len(),
{
    if side.len() > 0 {
        assert forall|i: int| 0 <= i < side.drop_last().len() implies side.drop_last()[i].qty
            > 0 by {
            assert(side.drop_last()[i] == side[i]);
        }
        lemma_qty_after_of_side(side.drop_last(), p);
    }
}

/// A book rebuilt from a snapshot of another book holds what that book
/// holds, and a diff that both apply leaves them equal: reconnecting loses
/// nothing.
pub proof fn law_resync_gives_same_book(uninterrupted: BookState, d: DiffView)
    requires
        state_wf(uninterrupted),
        uninterrupted.initialized,
    ensures
        ({
            let rebuilt = after_snapshot(
                uninterrupted.last_update_id,
                uninterrupted.bids,
                uninterrupted.asks,
            );
            &&& rebuilt.initialized
            &&& rebuilt.bids == uninterrupted.bids
            &&& rebuilt.asks == uninterrupted.asks
            &&& rebuilt.last_update_id == uninterrupted.last_update_id
            &&& diff_sequencing(uninterrupted, d) == Sequencing::InOrder && diff_sequencing(
                rebuilt,
                d,
            ) == Sequencing::InOrder ==> after_diff(rebuilt, d) == after_diff(uninterrupted, d)
        }),
{
    lemma_side_rebuilds(uninterrupted.bids);
    lemma_side_rebuilds(uninterrupted.asks);
}

/// The first diff after a snapshot with last update id `u`, with or without
/// a previous final id: one that starts at `u + 1` is in order, one that
/// starts at `u + 2` is a gap, one that ends at `u` holds nothing new.
pub proof fn law_first_diff_boundaries(u: int, final_id: int, prev: Option<int>)
    ensures
        final_id >= u + 1 ==> sequencing(u, false, u + 1, final_id, prev) == Sequencing::InOrder,
        sequencing(u, false, u + 2, final_id, prev) == Sequencing::Gap,
        sequencing(u, false, u, u, prev) == Sequencing::AlreadyApplied,
{
}

/// An update with quantity zero removes the level at its price and leaves
/// every other price as it was.
pub proof fn law_zero_quantity_removes(side: Seq<Level>, price: i64)
    requires
        side_wf(side),
    ensures
        forall|i: int|
            0 <= i < with_level(side, Level { price, qty: 0 }).len() ==> (#[trigger] with_level(
                side,
                Level { price, qty: 0 },
            )[i]).price != price,
        forall|p: int|
            p != price ==> #[trigger] qty_at(with_level(side, Level { price, qty: 0 }), p)
                == qty_at(side, p),
{
    let l = Level { price, qty: 0 };
    let r = with_level(side, l);
    crate::levels::lemma_with_level_wf(side, l);
    lemma_with_level_qty(side, l, price as int);
    assert forall|i: int| 0 <= i < r.len() implies (#[trigger] r[i]).price != price by {
        if r[i].price == price {
            crate::levels::lemma_qty_at_index(r, i);
        }
    }
    assert forall|p: int| p != price implies #[trigger] qty_at(r, p) == qty_at(side, p) by {
        lemma_with_level_qty(side, l, p);
    }
}

/// The imbalance lies between minus one and one whole; it is zero where both
/// sums are equal, and zero where both are zero.
pub proof fn law_imbalance_range(s: BookState, n: nat)
    requires
        state_wf(s),
    ensures
        -100_000_000 <= imbalance_of(s, n as int) <= 100_000_000,
        highest_sum(s.bids, n as int) == lowest_sum(s.asks, n as int) ==> imbalance_of(s, n as int)
            == 0,
        highest_sum(s.bids, n as int) + lowest_sum(s.asks, n as int) == 0 ==> imbalance_of(
            s,
            n as int,
        ) == 0,
{
    let b = highest_sum(s.bids, n as int);
    let a = lowest_sum(s.asks, n as int);
    let nb = depth(n as int, s.bids.len() as int);
    let na = depth(n as int, s.asks.len() as int);
    lemma_sum_bound(s.bids.subrange(s.bids.len() - nb, s.bids.len() as int));
    lemma_sum_bound(s.asks.subrange(0, na));
    if b + a != 0 {
        lemma_imbalance_range(b, a);
    }
}

} // verus!
