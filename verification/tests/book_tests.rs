use polymarket_monitor::book::{
    BookError, DepthDiff, DepthSnapshot, OrderBook, ParsedDiff, ParsedSnapshot, Sequencing,
};
use polymarket_monitor::levels::{BookSide, Level};

const UNIT: i64 = 100_000_000;

fn pairs(levels: &[(&str, &str)]) -> Vec<(String, String)> {
    levels.iter().map(|(p, q)| (p.to_string(), q.to_string())).collect()
}

fn snapshot(id: u64, bids: &[(&str, &str)], asks: &[(&str, &str)]) -> DepthSnapshot {
    DepthSnapshot { last_update_id: id, bids: pairs(bids), asks: pairs(asks) }
}

fn diff(
    first: u64,
    last: u64,
    prev: Option<u64>,
    bids: &[(&str, &str)],
    asks: &[(&str, &str)],
) -> DepthDiff {
    DepthDiff {
        event_type: "depthUpdate".to_string(),
        event_time: 0,
        symbol: "BTCUSD".to_string(),
        first_update_id: first,
        final_update_id: last,
        prev_final_update_id: prev,
        bids: pairs(bids),
        asks: pairs(asks),
    }
}

fn level(price: i64, qty: i64) -> Level {
    Level { price: price * UNIT, qty }
}

fn loaded_book() -> OrderBook {
    let mut book = OrderBook::new();
    let snap = snapshot(100, &[("100", "1"), ("99", "2")], &[("101", "1.5"), ("102", "2.5")]);
    assert_eq!(book.apply_snapshot(&snap), Ok(true));
    book
}

#[test]
fn test_order_book_operations() {
    let mut book = OrderBook::new();

    let snapshot = DepthSnapshot {
        last_update_id: 100,
        bids: vec![
            ("100.0".to_string(), "1.0".to_string()),
            ("99.0".to_string(), "2.0".to_string()),
        ],
        asks: vec![
            ("101.0".to_string(), "1.5".to_string()),
            ("102.0".to_string(), "2.5".to_string()),
        ],
    };

    book.apply_snapshot(&snapshot).unwrap();
    assert!(book.initialized());

    let bid = book.best_bid().unwrap();
    let ask = book.best_ask().unwrap();
    assert_eq!(bid.price, 100 * UNIT);
    assert_eq!(ask.price, 101 * UNIT);

    let mid = book.mid().unwrap();
    assert_eq!(mid, 100_500_000_000); // 100.5 in mid units
}

#[test]
fn test_imbalance_calculation() {
    let mut book = OrderBook::new();

    let snapshot = DepthSnapshot {
        last_update_id: 100,
        bids: vec![
            ("100.0".to_string(), "10.0".to_string()),
            ("99.0".to_string(), "10.0".to_string()),
        ],
        asks: vec![
            ("101.0".to_string(), "5.0".to_string()),
            ("102.0".to_string(), "5.0".to_string()),
        ],
    };

    book.apply_snapshot(&snapshot).unwrap();

    let imbalance = book.imbalance_top_n(2);
    // (20 - 10) / 30 = 0.333...
    assert!((imbalance - 33_300_000).abs() < 1_000_000);
    assert_eq!(imbalance, 33_333_333);
}

#[test]
fn snapshot_then_diff() {
    let mut book = loaded_book();
    let d = diff(101, 101, None, &[("100", "0")], &[]);
    assert_eq!(book.apply_diff(&d), Ok(true));
    assert_eq!(book.best_bid().unwrap().price, 99 * UNIT);
    assert_eq!(book.best_ask().unwrap().price, 101 * UNIT);
    assert_eq!(book.mid(), Some(100_000_000_000));
    assert_eq!(book.imbalance_top_n(2), -33_333_333);
    assert_eq!(book.last_update_id(), 101);
}

#[test]
fn new_book_is_blank() {
    let book = OrderBook::new();
    assert!(!book.initialized());
    assert_eq!(book.last_update_id(), 0);
    assert_eq!(book.best_bid(), None);
    assert_eq!(book.best_ask(), None);
    assert_eq!(book.mid(), None);
    assert_eq!(book.imbalance_top_n(5), 0);
}

#[test]
fn diff_before_snapshot_asks_for_resync() {
    let mut book = OrderBook::new();
    let d = diff(1, 2, None, &[("100", "1")], &[]);
    assert_eq!(book.apply_diff(&d), Ok(false));
    assert!(!book.initialized());
    assert!(book.bid_levels().is_empty());
}

#[test]
fn sequence_gap_triggers_resync_and_leaks_nothing() {
    let mut book = loaded_book();
    let d = diff(103, 105, None, &[("100.5", "7")], &[("100.7", "3")]);
    assert_eq!(book.apply_diff(&d), Ok(false));
    // the diff left no trace
    assert_eq!(book.bid_levels(), vec![level(99, 2 * UNIT), level(100, UNIT)]);
    assert_eq!(book.last_update_id(), 100);
    // the session then starts over from a fresh snapshot
    let fresh = snapshot(200, &[("98", "1")], &[("103", "1")]);
    assert_eq!(book.apply_snapshot(&fresh), Ok(true));
    assert_eq!(book.bid_levels(), vec![level(98, UNIT)]);
    assert_eq!(book.ask_levels(), vec![level(103, UNIT)]);
    assert_eq!(book.last_update_id(), 200);
}

#[test]
fn first_diff_boundaries() {
    // F = U + 1 is accepted
    let mut book = loaded_book();
    assert_eq!(book.apply_diff(&diff(101, 102, None, &[("99.5", "1")], &[])), Ok(true));
    assert_eq!(book.last_update_id(), 102);
    // F = U + 2 is a gap
    let mut book = loaded_book();
    assert_eq!(book.apply_diff(&diff(102, 103, None, &[("99.5", "1")], &[])), Ok(false));
    assert_eq!(book.last_update_id(), 100);
    // L = U holds nothing new: accepted, nothing changes
    let mut book = loaded_book();
    assert_eq!(book.apply_diff(&diff(98, 100, None, &[("99.5", "1")], &[])), Ok(true));
    assert_eq!(book.last_update_id(), 100);
    assert_eq!(book.best_bid().unwrap().price, 100 * UNIT);
    // F below U + 1 and L beyond it is in order
    let mut book = loaded_book();
    assert_eq!(book.apply_diff(&diff(99, 104, None, &[("99.5", "1")], &[])), Ok(true));
    assert_eq!(book.last_update_id(), 104);
}

#[test]
fn classify_follows_the_sequencing_rule() {
    let parsed = |first, last, prev| ParsedDiff {
        first_update_id: first,
        final_update_id: last,
        prev_final_update_id: prev,
        bids: vec![],
        asks: vec![],
    };
    // the first diff after a snapshot is judged by its range, whatever it carries
    let book = loaded_book();
    assert_eq!(book.classify(&parsed(101, 101, None)), Sequencing::InOrder);
    assert_eq!(book.classify(&parsed(102, 110, None)), Sequencing::Gap);
    assert_eq!(book.classify(&parsed(90, 100, None)), Sequencing::AlreadyApplied);
    assert_eq!(book.classify(&parsed(0, 120, Some(100))), Sequencing::InOrder);
    assert_eq!(book.classify(&parsed(0, 120, Some(99))), Sequencing::InOrder);
    assert_eq!(book.classify(&parsed(102, 120, Some(100))), Sequencing::Gap);
    assert_eq!(book.classify(&parsed(0, 99, Some(100))), Sequencing::AlreadyApplied);
    assert_eq!(book.classify(&parsed(u64::MAX, u64::MAX, None)), Sequencing::Gap);
    // once a diff is applied, one that ends at or before the last update is
    // already in the book; a later one must name the last update
    let mut book = loaded_book();
    assert!(book.apply_parsed_diff(&parsed(101, 105, Some(97))));
    assert_eq!(book.classify(&parsed(0, 120, Some(105))), Sequencing::InOrder);
    assert_eq!(book.classify(&parsed(106, 120, Some(104))), Sequencing::Gap);
    assert_eq!(book.classify(&parsed(106, 120, Some(106))), Sequencing::Gap);
    assert_eq!(book.classify(&parsed(0, 104, Some(105))), Sequencing::AlreadyApplied);
    assert_eq!(book.classify(&parsed(0, 105, Some(105))), Sequencing::AlreadyApplied);
    assert_eq!(book.classify(&parsed(101, 105, Some(97))), Sequencing::AlreadyApplied);
    assert_eq!(book.classify(&parsed(0, 106, Some(105))), Sequencing::InOrder);
    // without one the range decides
    assert_eq!(book.classify(&parsed(106, 120, None)), Sequencing::InOrder);
    assert_eq!(book.classify(&parsed(107, 120, None)), Sequencing::Gap);
    assert_eq!(book.classify(&parsed(100, 105, None)), Sequencing::AlreadyApplied);
}

#[test]
fn futures_feed_sequence_uses_previous_final_id() {
    let mut book = loaded_book();
    // first retained diff: its range holds the snapshot's next id
    assert_eq!(book.apply_diff(&diff(99, 104, Some(98), &[("99.5", "1")], &[])), Ok(true));
    assert_eq!(book.last_update_id(), 104);
    // the next one continues it
    assert_eq!(book.apply_diff(&diff(105, 108, Some(104), &[("99.6", "1")], &[])), Ok(true));
    assert_eq!(book.last_update_id(), 108);
    // one that names another update does not
    assert_eq!(book.apply_diff(&diff(109, 110, Some(107), &[("99.7", "1")], &[])), Ok(false));
    assert_eq!(book.last_update_id(), 108);
    assert_eq!(book.best_bid().unwrap().price, 100 * UNIT);
    // a fresh snapshot starts over with the range rule
    let snap = snapshot(300, &[("98", "1")], &[("103", "1")]);
    assert_eq!(book.apply_snapshot(&snap), Ok(true));
    assert_eq!(book.apply_diff(&diff(301, 302, Some(7), &[("98.5", "1")], &[])), Ok(true));
}

#[test]
fn same_futures_diff_twice_is_the_same_as_once() {
    let d = diff(101, 105, Some(100), &[("100", "0"), ("98", "3")], &[("101", "2")]);
    let mut once = loaded_book();
    assert_eq!(once.apply_diff(&d), Ok(true));
    let mut twice = loaded_book();
    assert_eq!(twice.apply_diff(&d), Ok(true));
    // the second time the book holds it already: passed over, nothing changes
    assert_eq!(twice.apply_diff(&d), Ok(true));
    assert_eq!(once.bid_levels(), twice.bid_levels());
    assert_eq!(once.ask_levels(), twice.ask_levels());
    assert_eq!(once.last_update_id(), twice.last_update_id());
    assert_eq!(twice.last_update_id(), 105);
    // so is one that names its own final id, whatever levels it carries
    let d = diff(106, 106, Some(106), &[("97", "1")], &[]);
    let mut book = loaded_book();
    assert_eq!(book.apply_diff(&diff(101, 106, None, &[], &[])), Ok(true));
    let levels = book.bid_levels();
    assert_eq!(book.apply_diff(&d), Ok(true));
    assert_eq!(book.bid_levels(), levels);
    assert_eq!(book.last_update_id(), 106);
    // and an older one that would have crossed the book
    let old = diff(102, 103, Some(101), &[("150", "1")], &[]);
    assert_eq!(book.apply_diff(&old), Ok(true));
    assert!(book.initialized());
    assert_eq!(book.bid_levels(), levels);
    assert_eq!(book.last_update_id(), 106);
}

#[test]
fn zero_quantity_removes_the_level() {
    let mut book = loaded_book();
    assert_eq!(book.apply_diff(&diff(101, 101, None, &[("99", "0")], &[("102", "0.000")])), Ok(true));
    assert_eq!(book.bid_levels(), vec![level(100, UNIT)]);
    assert_eq!(book.ask_levels(), vec![level(101, 150_000_000)]);
    // removing what is not there changes nothing
    assert_eq!(book.apply_diff(&diff(102, 102, None, &[("42", "0")], &[])), Ok(true));
    assert_eq!(book.bid_levels(), vec![level(100, UNIT)]);
}

#[test]
fn diff_overwrites_and_inserts_levels() {
    let mut book = loaded_book();
    let d = diff(101, 103, None, &[("100", "4"), ("99.5", "0.25")], &[("101", "9"), ("101.5", "1")]);
    assert_eq!(book.apply_diff(&d), Ok(true));
    assert_eq!(
        book.bid_levels(),
        vec![
            level(99, 2 * UNIT),
            Level { price: 9_950_000_000, qty: 25_000_000 },
            level(100, 4 * UNIT)
        ]
    );
    assert_eq!(
        book.ask_levels(),
        vec![
            level(101, 9 * UNIT),
            Level { price: 10_150_000_000, qty: UNIT },
            level(102, 250_000_000)
        ]
    );
}

#[test]
fn last_update_of_a_price_wins_within_a_diff() {
    let mut book = loaded_book();
    let d = diff(101, 101, None, &[("98", "1"), ("98", "0"), ("97", "1"), ("97", "3")], &[]);
    assert_eq!(book.apply_diff(&d), Ok(true));
    assert_eq!(
        book.bid_levels(),
        vec![level(97, 3 * UNIT), level(99, 2 * UNIT), level(100, UNIT)]
    );
}

#[test]
fn same_diff_twice_is_the_same_as_once() {
    let d = diff(101, 105, None, &[("100", "0"), ("98", "3")], &[("101", "2")]);
    let mut once = loaded_book();
    assert_eq!(once.apply_diff(&d), Ok(true));
    let mut twice = loaded_book();
    assert_eq!(twice.apply_diff(&d), Ok(true));
    assert_eq!(twice.apply_diff(&d), Ok(true));
    assert_eq!(once.bid_levels(), twice.bid_levels());
    assert_eq!(once.ask_levels(), twice.ask_levels());
    assert_eq!(once.last_update_id(), twice.last_update_id());
    assert_eq!(twice.last_update_id(), 105);
}

#[test]
fn rebuilt_book_equals_uninterrupted_book() {
    let d1 = diff(101, 101, None, &[("100", "0"), ("98", "3")], &[("101", "2")]);
    let d2 = diff(102, 104, None, &[("99.5", "1")], &[("100.5", "0.5")]);
    let mut uninterrupted = loaded_book();
    assert_eq!(uninterrupted.apply_diff(&d1), Ok(true));
    // a fresh snapshot of the venue's book after the first diff
    let mut rebuilt = OrderBook::new();
    let snap = ParsedSnapshot {
        last_update_id: uninterrupted.last_update_id(),
        bids: uninterrupted.bid_levels(),
        asks: uninterrupted.ask_levels(),
    };
    assert!(rebuilt.load_snapshot(&snap));
    assert_eq!(rebuilt.bid_levels(), uninterrupted.bid_levels());
    assert_eq!(rebuilt.ask_levels(), uninterrupted.ask_levels());
    assert_eq!(uninterrupted.apply_diff(&d2), Ok(true));
    assert_eq!(rebuilt.apply_diff(&d2), Ok(true));
    assert_eq!(rebuilt.bid_levels(), uninterrupted.bid_levels());
    assert_eq!(rebuilt.ask_levels(), uninterrupted.ask_levels());
    assert_eq!(rebuilt.last_update_id(), uninterrupted.last_update_id());
}

#[test]
fn snapshot_replaces_whatever_was_there() {
    let mut book = loaded_book();
    let snap = snapshot(7, &[("10", "1")], &[("11", "1")]);
    assert_eq!(book.apply_snapshot(&snap), Ok(true));
    assert_eq!(book.bid_levels(), vec![level(10, UNIT)]);
    assert_eq!(book.ask_levels(), vec![level(11, UNIT)]);
    assert_eq!(book.last_update_id(), 7);
}

#[test]
fn crossing_diff_blanks_the_book() {
    let mut book = loaded_book();
    let d = diff(101, 101, None, &[("101", "1")], &[]);
    assert_eq!(book.apply_diff(&d), Ok(false));
    assert!(!book.initialized());
    assert_eq!(book.best_bid(), None);
    assert_eq!(book.best_ask(), None);
    assert_eq!(book.last_update_id(), 0);
}

#[test]
fn crossed_snapshot_is_not_loaded() {
    let mut book = OrderBook::new();
    let snap = snapshot(5, &[("101", "1")], &[("100", "1")]);
    assert_eq!(book.apply_snapshot(&snap), Ok(false));
    assert!(!book.initialized());
    assert!(book.bid_levels().is_empty());
}

#[test]
fn book_stays_uncrossed_over_a_run_of_diffs() {
    let mut book = loaded_book();
    let diffs = vec![
        diff(101, 101, None, &[("100.5", "1")], &[]),
        diff(102, 102, None, &[], &[("100.75", "1")]),
        diff(103, 103, None, &[("100.6", "2"), ("100.5", "0")], &[("101", "0")]),
    ];
    for d in &diffs {
        assert_eq!(book.apply_diff(d), Ok(true));
        let bid = book.best_bid().unwrap();
        let ask = book.best_ask().unwrap();
        assert!(bid.price < ask.price);
    }
    assert_eq!(book.last_update_id(), 103);
}

#[test]
fn unreadable_numbers_drop_the_message() {
    let mut book = loaded_book();
    let d = diff(101, 101, None, &[("99", "3"), ("abc", "1")], &[]);
    assert_eq!(book.apply_diff(&d), Err(BookError::BadBidLevel));
    // nothing of the message was applied
    assert_eq!(book.bid_levels(), vec![level(99, 2 * UNIT), level(100, UNIT)]);
    assert_eq!(book.last_update_id(), 100);
    let d = diff(101, 101, None, &[("99", "3")], &[("101", "x")]);
    assert_eq!(book.apply_diff(&d), Err(BookError::BadAskLevel));
    assert_eq!(book.bid_levels(), vec![level(99, 2 * UNIT), level(100, UNIT)]);
    let snap = snapshot(9, &[("1", "")], &[]);
    assert_eq!(book.apply_snapshot(&snap), Err(BookError::BadBidLevel));
    assert_eq!(book.last_update_id(), 100);
}

#[test]
fn numbers_finer_than_a_unit_are_refused_not_rounded() {
    let mut book = loaded_book();
    let d = diff(101, 101, None, &[("99.000000001", "1")], &[]);
    assert_eq!(book.apply_diff(&d), Err(BookError::BadBidLevel));
    let d = diff(101, 101, None, &[("99.000000010", "1")], &[]);
    assert_eq!(book.apply_diff(&d), Ok(true));
    assert_eq!(book.best_bid().unwrap().price, 10_000_000_000);
}

#[test]
fn non_positive_quantities_are_never_stored() {
    let mut book = OrderBook::new();
    let snap = snapshot(1, &[("100", "0"), ("99", "-1"), ("98", "2")], &[("101", "1")]);
    assert_eq!(book.apply_snapshot(&snap), Ok(true));
    assert_eq!(book.bid_levels(), vec![level(98, 2 * UNIT)]);
    assert_eq!(book.apply_diff(&diff(2, 2, None, &[("98", "-5")], &[])), Ok(true));
    assert!(book.bid_levels().is_empty());
}

#[test]
fn imbalance_is_zero_for_equal_sums_and_within_one() {
    let mut book = OrderBook::new();
    let snap = snapshot(1, &[("99", "3"), ("98", "1")], &[("101", "2"), ("102", "2")]);
    assert_eq!(book.apply_snapshot(&snap), Ok(true));
    assert_eq!(book.imbalance_top_n(2), 0);
    assert_eq!(book.imbalance_top_n(1), 20_000_000); // (3 - 2) / 5
    assert_eq!(book.imbalance_top_n(0), 0);
    let snap = snapshot(2, &[("99", "3")], &[]);
    assert_eq!(book.apply_snapshot(&snap), Ok(true));
    assert_eq!(book.imbalance_top_n(5), 100_000_000);
    let snap = snapshot(3, &[], &[("101", "0.5")]);
    assert_eq!(book.apply_snapshot(&snap), Ok(true));
    assert_eq!(book.imbalance_top_n(5), -100_000_000);
}

#[test]
fn imbalance_counts_only_the_top_levels() {
    let mut book = OrderBook::new();
    let snap = snapshot(
        1,
        &[("99", "1"), ("98", "1"), ("97", "1"), ("96", "1"), ("95", "1"), ("94", "100")],
        &[("101", "1"), ("102", "1"), ("103", "1"), ("104", "1"), ("105", "1"), ("106", "50")],
    );
    assert_eq!(book.apply_snapshot(&snap), Ok(true));
    assert_eq!(book.imbalance_top_n(5), 0);
    assert_eq!(book.imbalance_top_n(6), 31_250_000); // (105 - 55) / 160
}

#[test]
fn mid_of_an_odd_sum_is_exact() {
    let mut book = OrderBook::new();
    let snap = snapshot(1, &[("0.00000001", "1")], &[("0.00000002", "1")]);
    assert_eq!(book.apply_snapshot(&snap), Ok(true));
    assert_eq!(book.mid(), Some(15));
}

#[test]
fn reset_forgets_everything() {
    let mut book = loaded_book();
    book.reset();
    assert!(!book.initialized());
    assert_eq!(book.last_update_id(), 0);
    assert!(book.ask_levels().is_empty());
}

#[test]
fn side_keeps_levels_ascending() {
    let mut side = BookSide::new();
    for (p, q) in [(5, 1), (1, 1), (3, 2), (4, 0), (3, 7), (2, 1), (1, 0)] {
        side.set_level(Level { price: p, qty: q });
    }
    assert_eq!(
        side.to_vec(),
        vec![
            Level { price: 2, qty: 1 },
            Level { price: 3, qty: 7 },
            Level { price: 5, qty: 1 }
        ]
    );
    assert_eq!(side.len(), 3);
    assert_eq!(side.lowest(), Some(Level { price: 2, qty: 1 }));
    assert_eq!(side.highest(), Some(Level { price: 5, qty: 1 }));
    assert_eq!(side.sum_lowest(2), 8);
    assert_eq!(side.sum_highest(2), 8);
    assert_eq!(side.sum_highest(1), 1);
    assert_eq!(side.sum_lowest(9), 9);
}

#[test]
fn side_orders_prices_as_integers() {
    let mut side = BookSide::new();
    assert_eq!(side.lowest(), None);
    assert_eq!(side.highest(), None);
    assert_eq!(side.len(), 0);
    assert_eq!(side.sum_lowest(3), 0);
    assert_eq!(side.sum_highest(3), 0);
    assert!(side.to_vec().is_empty());
    for (p, q) in [(10, 4), (-3, 1), (i64::MAX, 2), (0, 8), (i64::MIN, 16), (-3, 32)] {
        side.set_level(Level { price: p, qty: q });
    }
    assert_eq!(
        side.to_vec(),
        vec![
            Level { price: i64::MIN, qty: 16 },
            Level { price: -3, qty: 32 },
            Level { price: 0, qty: 8 },
            Level { price: 10, qty: 4 },
            Level { price: i64::MAX, qty: 2 }
        ]
    );
    assert_eq!(side.lowest(), Some(Level { price: i64::MIN, qty: 16 }));
    assert_eq!(side.highest(), Some(Level { price: i64::MAX, qty: 2 }));
    assert_eq!(side.sum_lowest(0), 0);
    assert_eq!(side.sum_lowest(1), 16);
    assert_eq!(side.sum_lowest(3), 56);
    assert_eq!(side.sum_lowest(5), 62);
    assert_eq!(side.sum_highest(0), 0);
    assert_eq!(side.sum_highest(1), 2);
    assert_eq!(side.sum_highest(3), 14);
    assert_eq!(side.sum_highest(usize::MAX), 62);
    // a quantity that is not positive takes the level away
    side.set_level(Level { price: i64::MAX, qty: -5 });
    side.set_level(Level { price: i64::MIN, qty: 0 });
    side.set_level(Level { price: 7, qty: 0 });
    assert_eq!(side.len(), 3);
    assert_eq!(side.lowest(), Some(Level { price: -3, qty: 32 }));
    assert_eq!(side.highest(), Some(Level { price: 10, qty: 4 }));
}
