use polymarket_monitor::config::PolymarketConfig;
use polymarket_monitor::events::{BinanceBookUpdate, TradeSide};
use polymarket_monitor::gamma::MarketTokens;
use polymarket_monitor::monitor::{build_snapshot, TargetStep, TargetTracker};
use polymarket_monitor::polymarket::{PolymarketService, QuoteState};
use polymarket_monitor::signal::{evaluate, SignalConfig, SignalState};

// 2026-02-01T17:15:00Z
const START_MS: i64 = 1_769_966_100_000;

fn service() -> PolymarketService {
    PolymarketService::new(PolymarketConfig {
        ws_url: String::new(),
        rest_url: String::new(),
        gamma_url: String::new(),
        btc_15m_event_id: String::new(),
        api_key: String::new(),
        api_secret: String::new(),
        passphrase: String::new(),
        wallet_address: String::new(),
        yes_token_id: String::new(),
        no_token_id: String::new(),
        condition_id: String::new(),
    })
}

fn tokens(condition: &str) -> MarketTokens {
    MarketTokens {
        up_token_id: "UP".to_string(),
        down_token_id: "DOWN".to_string(),
        condition_id: condition.to_string(),
        market_id: "m".to_string(),
        slug: "slug".to_string(),
        title: "title".to_string(),
        start_time: "2026-02-01T17:15:00Z".to_string(),
        end_date: "2026-02-01T17:30:00Z".to_string(),
    }
}

#[test]
fn no_market_no_target() {
    let mut tracker = TargetTracker::new();
    let mut s = service();
    let step = tracker.on_tick(&mut s, Some(5), START_MS);
    assert_eq!(step, TargetStep { scrape: false, took_oracle_price: false });
    assert_eq!(s.get_active_market().target_price, None);
}

#[test]
fn new_market_is_scraped_once_and_takes_the_oracle_price_after_its_start() {
    let mut tracker = TargetTracker::new();
    let mut s = service();
    s.refresh_market_tokens(&tokens("c1"));
    // before the window starts the oracle price is not taken
    let step = tracker.on_tick(&mut s, Some(7_700_000_000_000), START_MS - 1);
    assert_eq!(step, TargetStep { scrape: true, took_oracle_price: false });
    assert_eq!(s.get_active_market().target_price, None);
    // without an oracle price nothing is taken
    let step = tracker.on_tick(&mut s, None, START_MS + 1);
    assert_eq!(step, TargetStep { scrape: false, took_oracle_price: false });
    let step = tracker.on_tick(&mut s, Some(7_700_000_000_000), START_MS);
    assert_eq!(step, TargetStep { scrape: false, took_oracle_price: true });
    assert_eq!(s.get_active_market().target_price, Some(7_700_000_000_000));
    // once set it stays
    let step = tracker.on_tick(&mut s, Some(1), START_MS + 5_000);
    assert_eq!(step, TargetStep { scrape: false, took_oracle_price: false });
    assert_eq!(s.get_active_market().target_price, Some(7_700_000_000_000));
    // the page's price, when it arrives, overrides
    s.force_set_target_price(7_749_031_000_000);
    tracker.on_tick(&mut s, Some(1), START_MS + 6_000);
    assert_eq!(s.get_active_market().target_price, Some(7_749_031_000_000));
}

#[test]
fn market_change_unsets_the_target() {
    let mut tracker = TargetTracker::new();
    let mut s = service();
    s.refresh_market_tokens(&tokens("c1"));
    tracker.on_tick(&mut s, Some(10), START_MS);
    assert_eq!(s.get_active_market().target_price, Some(10));
    s.refresh_market_tokens(&tokens("c2"));
    s.force_set_target_price(11);
    let step = tracker.on_tick(&mut s, None, START_MS);
    assert_eq!(step, TargetStep { scrape: true, took_oracle_price: false });
    assert_eq!(s.get_active_market().target_price, None);
    assert_eq!(s.get_active_market().condition_id, "c2");
}

#[test]
fn snapshot_record_joins_the_sources() {
    let update = BinanceBookUpdate {
        best_bid: 99,
        best_bid_qty: 2,
        best_ask: 101,
        best_ask_qty: 1,
        mid: 1000,
        imbalance_top5: -5,
        update_id: 7,
        t_recv_ms: 1,
    };
    let quotes = QuoteState {
        yes_bid: Some(50),
        yes_bid_size: None,
        yes_ask: Some(53),
        yes_ask_size: None,
        no_bid: None,
        no_bid_size: None,
        no_ask: Some(48),
        no_ask_size: None,
        last_update_ms: 900,
    };
    let config = SignalConfig {
        binance_return_threshold_1s: 100_000,
        binance_return_threshold_3s: 200_000,
        poly_lag_threshold_ms: 500,
        min_confidence: 50_000_000,
    };
    let signal = evaluate(&config, -150_000, 0, 700);
    let e = build_snapshot(
        1_000,
        Some(update),
        Some(1),
        None,
        Some(3),
        Some(4),
        &quotes,
        100,
        Some(77),
        Some(12),
        &signal,
    );
    assert_eq!(e.t_recv_ms, 1_000);
    assert_eq!(e.binance_mid, Some(1000));
    assert_eq!(e.binance_best_bid, Some(99));
    assert_eq!(e.binance_best_ask, Some(101));
    assert_eq!(e.binance_obi_top5, Some(-5));
    assert_eq!((e.binance_ret_1s, e.binance_ret_3s, e.binance_ret_10s), (Some(1), None, Some(3)));
    assert_eq!(e.binance_std_5m, Some(4));
    assert_eq!((e.poly_yes_bid, e.poly_yes_ask, e.poly_no_bid, e.poly_no_ask), (Some(50), Some(53), None, Some(48)));
    assert_eq!(e.poly_spread_yes, Some(3));
    assert_eq!(e.poly_spread_no, None);
    assert_eq!(e.poly_stale_ms, Some(100));
    assert_eq!(e.poly_target_price, Some(77));
    assert_eq!(e.poly_remaining_secs, Some(12));
    assert_eq!(e.signal_side, "NO");
    assert_eq!(e.signal_score, 50_000_000);
    assert_eq!(signal.suggested_side, Some(TradeSide::No));
    // nothing known yet
    let e = build_snapshot(
        5,
        None,
        None,
        None,
        None,
        None,
        &QuoteState::default(),
        i64::MAX,
        None,
        None,
        &SignalState::default(),
    );
    assert_eq!(e.binance_mid, None);
    assert_eq!(e.poly_stale_ms, None);
    assert_eq!(e.signal_side, "NONE");
    assert_eq!(e.signal_score, 0);
}
