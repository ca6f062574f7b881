use polymarket_monitor::events::TradeSide;
use polymarket_monitor::signal::{
    evaluate, SignalConfig, SignalReason, SignalService, SignalState, CONFIRM_SCORE, MOVE_SCORE,
};

fn make_signal_config() -> SignalConfig {
    SignalConfig {
        binance_return_threshold_1s: 100_000, // 0.001
        binance_return_threshold_3s: 200_000, // 0.002
        poly_lag_threshold_ms: 500,
        min_confidence: 50_000_000, // 0.5
    }
}

#[test]
fn test_signal_state_default() {
    let state = SignalState::default();
    assert!(state.suggested_side.is_none());
    assert_eq!(state.confidence, 0);
    assert!(state.reasons.is_empty());
}

#[test]
fn test_signal_service_creation() {
    let signal = SignalService::new(make_signal_config());

    let state = signal.get_signal_state();
    assert!(state.suggested_side.is_none());
}

#[test]
fn test_compute_signal_no_data() {
    let mut signal = SignalService::new(make_signal_config());

    // With no data, should return no signal
    let (state, event) = signal.compute_signal(None, None, i64::MAX, 1_000);
    assert!(state.suggested_side.is_none());
    assert_eq!(state.confidence, 0);
    assert!(event.is_none());
}

#[test]
fn signal_fires_on_aligned_move() {
    let state = evaluate(&make_signal_config(), 150_000, 250_000, 700);
    assert_eq!(state.suggested_side, Some(TradeSide::Yes));
    assert_eq!(state.confidence, 80_000_000);
    assert_eq!(
        state.reasons,
        vec![
            SignalReason::UpMove { ret_1s: 150_000, lag_ms: 700 },
            SignalReason::UpConfirmed { ret_3s: 250_000 }
        ]
    );
    assert_eq!(state.binance_ret_1s, 150_000);
    assert_eq!(state.binance_ret_3s, 250_000);
    assert_eq!(state.poly_lag_ms, 700);
}

#[test]
fn signal_suppressed_without_lag() {
    let state = evaluate(&make_signal_config(), 150_000, 250_000, 100);
    assert_eq!(state.suggested_side, None);
    assert_eq!(state.confidence, 0);
    assert!(state.reasons.is_empty());
}

#[test]
fn signal_points_down_on_a_fall() {
    let state = evaluate(&make_signal_config(), -150_000, -250_000, 501);
    assert_eq!(state.suggested_side, Some(TradeSide::No));
    assert_eq!(state.confidence, MOVE_SCORE + CONFIRM_SCORE);
    assert_eq!(
        state.reasons,
        vec![
            SignalReason::DownMove { ret_1s: -150_000, lag_ms: 501 },
            SignalReason::DownConfirmed { ret_3s: -250_000 }
        ]
    );
}

#[test]
fn unconfirmed_move_scores_one_half() {
    let state = evaluate(&make_signal_config(), 150_000, 100_000, 700);
    assert_eq!(state.suggested_side, Some(TradeSide::Yes));
    assert_eq!(state.confidence, 50_000_000);
    // a confirmation in the other direction adds nothing
    let state = evaluate(&make_signal_config(), 150_000, -900_000, 700);
    assert_eq!(state.suggested_side, Some(TradeSide::Yes));
    assert_eq!(state.confidence, 50_000_000);
    assert_eq!(state.reasons.len(), 1);
}

#[test]
fn thresholds_must_be_exceeded() {
    let config = make_signal_config();
    assert_eq!(evaluate(&config, 100_000, 900_000, 700).suggested_side, None);
    assert_eq!(evaluate(&config, 100_001, 0, 500).suggested_side, None);
    assert_eq!(evaluate(&config, 100_001, 0, 501).suggested_side, Some(TradeSide::Yes));
    assert_eq!(evaluate(&config, -100_000, 0, 501).suggested_side, None);
    assert_eq!(evaluate(&config, 100_001, 200_000, 501).confidence, 50_000_000);
    assert_eq!(evaluate(&config, 100_001, 200_001, 501).confidence, 80_000_000);
    // three-second move alone gives nothing
    assert_eq!(evaluate(&config, 0, 900_000, 9_000).suggested_side, None);
}

#[test]
fn score_below_minimum_clears_the_recommendation() {
    let mut config = make_signal_config();
    config.min_confidence = 60_000_000;
    let state = evaluate(&config, 150_000, 0, 700);
    assert_eq!(state.suggested_side, None);
    assert_eq!(state.confidence, 0);
    assert!(state.reasons.is_empty());
    let state = evaluate(&config, 150_000, 250_000, 700);
    assert_eq!(state.suggested_side, Some(TradeSide::Yes));
    assert_eq!(state.confidence, 80_000_000);
}

#[test]
fn confidence_law_on_a_grid() {
    let returns = [-300_000i128, -150_000, -100_000, 0, 100_000, 150_000, 300_000];
    let lags = [0i64, 500, 501, 10_000, i64::MAX, -5];
    for min_confidence in [0i64, 50_000_000, 60_000_000, 80_000_000, 90_000_000, -1] {
        let mut config = make_signal_config();
        config.min_confidence = min_confidence;
        for r1 in returns {
            for r3 in returns {
                for lag in lags {
                    let state = evaluate(&config, r1, r3, lag);
                    if state.suggested_side.is_some() {
                        assert!(state.confidence >= min_confidence);
                    } else {
                        assert_eq!(state.confidence, 0);
                    }
                    if lag <= 500 {
                        assert_eq!(state.suggested_side, None);
                    }
                }
            }
        }
    }
}

#[test]
fn never_updated_market_counts_as_lagging() {
    let state = evaluate(&make_signal_config(), 150_000, 0, i64::MAX);
    assert_eq!(state.suggested_side, Some(TradeSide::Yes));
}

#[test]
fn service_remembers_and_emits() {
    let mut signal = SignalService::new(make_signal_config());
    let (state, event) = signal.compute_signal(Some(150_000), Some(250_000), 700, 42);
    assert_eq!(state.suggested_side, Some(TradeSide::Yes));
    let event = event.unwrap();
    assert_eq!(event.t_recv_ms, 42);
    assert_eq!(event.suggested_side, "YES");
    assert_eq!(event.confidence, 80_000_000);
    assert_eq!(
        event.reasons,
        vec![
            "BTC up 0.1500% in 1s, Poly lag 700ms".to_string(),
            "3s uptrend confirms: 0.2500%".to_string()
        ]
    );
    let kept = signal.get_signal_state();
    assert_eq!(kept.suggested_side, Some(TradeSide::Yes));
    assert_eq!(kept.confidence, 80_000_000);
    // a recomputation without a side is remembered silently
    let (state, event) = signal.compute_signal(Some(150_000), Some(250_000), 100, 43);
    assert_eq!(state.suggested_side, None);
    assert!(event.is_none());
    assert_eq!(signal.get_signal_state().suggested_side, None);
    assert_eq!(signal.get_signal_state().confidence, 0);
}

#[test]
fn signal_reasons_in_words() {
    let r = SignalReason::DownMove { ret_1s: -123_456, lag_ms: 1_234 };
    assert_eq!(r.describe(), "BTC down 0.1235% in 1s, Poly lag 1234ms");
    let r = SignalReason::DownConfirmed { ret_3s: -200_049 };
    assert_eq!(r.describe(), "3s downtrend confirms: 0.2000%");
    let r = SignalReason::UpConfirmed { ret_3s: 100_000_000 };
    assert_eq!(r.describe(), "3s uptrend confirms: 100.0000%");
    let r = SignalReason::UpMove { ret_1s: 50, lag_ms: i64::MAX };
    assert_eq!(r.describe(), "BTC up 0.0001% in 1s, Poly lag 9223372036854775807ms");
}
