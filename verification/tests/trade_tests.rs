use polymarket_monitor::clob::{ClobCredentials, OrderResponse};
use polymarket_monitor::commands::{apply_command, command_for_key, Followup, TuiCommand};
use polymarket_monitor::config::TradingConfig;
use polymarket_monitor::events::TradeSide;
use polymarket_monitor::polymarket::{ActiveMarket, QuoteState};
use polymarket_monitor::trade::{
    check_risk, error_message, limit_price, plan_result, time_of_day, ActionLogEntry, OrderPlan,
    RejectReason, RiskCheckResult, SubmitOutcome, TradeError, TradeService, TradingState, DAY_MS,
};

const UNIT: i64 = 100_000_000;

fn make_test_config() -> TradingConfig {
    TradingConfig {
        default_size: 10 * UNIT,
        max_size: 100 * UNIT,
        max_price_yes: 95_000_000,
        max_price_no: 95_000_000,
        max_spread: 10_000_000,
        stale_quote_threshold_ms: 5000,
    }
}

fn fresh_quotes() -> QuoteState {
    QuoteState {
        yes_bid: Some(60_000_000),
        yes_bid_size: None,
        yes_ask: Some(65_000_000),
        yes_ask_size: None,
        no_bid: Some(33_000_000),
        no_bid_size: None,
        no_ask: Some(36_000_000),
        no_ask_size: None,
        last_update_ms: 1_000,
    }
}

fn market() -> ActiveMarket {
    ActiveMarket {
        up_token_id: "up-token".to_string(),
        down_token_id: "down-token".to_string(),
        condition_id: "cond".to_string(),
        slug: "btc-updown-15m-1769961600".to_string(),
        title: "BTC up or down".to_string(),
        start_time: "2026-02-01T17:15:00Z".to_string(),
        end_date: "2026-02-01T17:30:00Z".to_string(),
        target_price: None,
    }
}

fn creds() -> ClobCredentials {
    ClobCredentials {
        api_key: "key-0001".to_string(),
        secret: "0123456789abcdefghij".to_string(),
        passphrase: "pass".to_string(),
        wallet_address: "0xabc".to_string(),
    }
}

#[test]
fn test_trading_state_new() {
    let config = make_test_config();

    let state = TradingState::new(&config);
    assert!(!state.kill_switch_active);
    assert_eq!(state.current_size, 10 * UNIT);
    assert_eq!(state.max_price_yes, 95_000_000);
}

#[test]
fn test_kill_switch_toggle() {
    let mut trade = TradeService::new(make_test_config(), None, true);

    assert!(!trade.get_state().kill_switch_active);
    trade.toggle_kill_switch(1);
    assert!(trade.get_state().kill_switch_active);
    trade.toggle_kill_switch(2);
    assert!(!trade.get_state().kill_switch_active);
}

#[test]
fn test_size_adjustment() {
    let mut trade = TradeService::new(make_test_config(), None, true);

    assert_eq!(trade.get_state().current_size, 10 * UNIT);
    trade.adjust_size(5 * UNIT, 1);
    assert_eq!(trade.get_state().current_size, 15 * UNIT);
    trade.adjust_size(-20 * UNIT, 2); // Should clamp to 1.0
    assert_eq!(trade.get_state().current_size, UNIT);
    trade.adjust_size(200 * UNIT, 3); // Should clamp to max_size (100.0)
    assert_eq!(trade.get_state().current_size, 100 * UNIT);
}

#[test]
fn test_max_price_adjustment() {
    let mut trade = TradeService::new(make_test_config(), None, true);

    assert!((trade.get_state().max_price_yes - 95_000_000).abs() < 100_000);
    trade.adjust_max_price(TradeSide::Yes, -5_000_000, 1);
    assert!((trade.get_state().max_price_yes - 90_000_000).abs() < 100_000);
    trade.adjust_max_price(TradeSide::Yes, 20_000_000, 2); // Should clamp to 0.99
    assert!((trade.get_state().max_price_yes - 99_000_000).abs() < 100_000);
    trade.adjust_max_price(TradeSide::Yes, -UNIT, 3); // Should clamp to 0.01
    assert!((trade.get_state().max_price_yes - 1_000_000).abs() < 100_000);
    assert_eq!(trade.get_state().max_price_yes, 1_000_000);
    assert_eq!(trade.get_state().max_price_no, 95_000_000);
}

#[test]
fn adjustments_do_not_overflow() {
    let mut trade = TradeService::new(make_test_config(), None, true);
    trade.adjust_size(i64::MAX, 1);
    assert_eq!(trade.get_state().current_size, 100 * UNIT);
    trade.adjust_size(i64::MIN, 2);
    assert_eq!(trade.get_state().current_size, UNIT);
    trade.adjust_max_price(TradeSide::No, i64::MAX, 3);
    assert_eq!(trade.get_state().max_price_no, 99_000_000);
    trade.adjust_max_price(TradeSide::No, i64::MIN, 4);
    assert_eq!(trade.get_state().max_price_no, 1_000_000);
}

#[test]
fn size_cap_below_one_whole_wins() {
    let mut config = make_test_config();
    config.max_size = UNIT / 2;
    let mut trade = TradeService::new(config, None, true);
    trade.adjust_size(0, 1);
    assert_eq!(trade.get_state().current_size, UNIT / 2);
}

#[test]
fn set_kill_switch_leaves_no_note() {
    let mut trade = TradeService::new(make_test_config(), None, true);
    trade.set_kill_switch(true);
    assert!(trade.get_state().kill_switch_active);
    assert!(trade.get_action_log().is_empty());
}

#[test]
fn actions_are_noted_in_words() {
    let mut trade = TradeService::new(make_test_config(), None, true);
    trade.toggle_kill_switch(10);
    trade.adjust_size(5 * UNIT, 11);
    trade.adjust_size(-5 * UNIT, 12);
    trade.adjust_max_price(TradeSide::Yes, -1_000_000, 13);
    trade.adjust_max_price(TradeSide::No, 1_000_000, 14);
    trade.toggle_kill_switch(15);
    let log: Vec<(i64, String)> =
        trade.get_action_log().into_iter().map(|e| (e.timestamp_ms, e.description)).collect();
    assert_eq!(
        log,
        vec![
            (10, "Kill switch → ON".to_string()),
            (11, "Size + 5.00 → 15.0".to_string()),
            (12, "Size  -5.00 → 10.0".to_string()),
            (13, "Max YES price  -0.01 → 0.94".to_string()),
            (14, "Max NO price + 0.01 → 0.96".to_string()),
            (15, "Kill switch → OFF".to_string()),
        ]
    );
}

#[test]
fn action_log_keeps_the_last_hundred() {
    let mut trade = TradeService::new(make_test_config(), None, true);
    for i in 0..250 {
        trade.record_action(ActionLogEntry::at(i, format!("action {}", i)));
    }
    let log = trade.get_action_log();
    assert_eq!(log.len(), 100);
    assert_eq!(log[0].timestamp_ms, 150);
    assert_eq!(log[0].description, "action 150");
    assert_eq!(log[99].timestamp_ms, 249);
}

#[test]
fn action_entry_shows_time_of_day() {
    let e = ActionLogEntry::at(1_700_000_000_123, "Kill switch → ON".to_string());
    assert_eq!(e.format_short(), "22:13:20 | Kill switch → ON");
    let e = ActionLogEntry::at(0, "x".to_string());
    assert_eq!(e.format_short(), "00:00:00 | x");
    let e = ActionLogEntry::at(86_399_999, "late".to_string());
    assert_eq!(e.format_short(), "23:59:59 | late");
    let e = ActionLogEntry::at(-1, "before".to_string());
    assert_eq!(e.format_short(), "23:59:59 | before");
    let e = ActionLogEntry::at(i64::MAX, "far".to_string());
    assert_eq!(e.format_short(), "07:12:55 | far");
    let e = ActionLogEntry::at(i64::MIN, "".to_string());
    assert_eq!(e.format_short(), "16:47:04 | ");
}

#[test]
fn time_of_day_counts_whole_seconds_of_the_day() {
    assert_eq!(time_of_day(0), "00:00:00");
    assert_eq!(time_of_day(999), "00:00:00");
    assert_eq!(time_of_day(1_000), "00:00:01");
    assert_eq!(time_of_day(3_661_000), "01:01:01");
    assert_eq!(time_of_day(43_200_000), "12:00:00");
    assert_eq!(time_of_day(DAY_MS), "00:00:00");
    assert_eq!(time_of_day(DAY_MS - 1), "23:59:59");
    assert_eq!(time_of_day(-DAY_MS - 1_000), "23:59:59");
    assert_eq!(time_of_day(1_769_966_100_000), "17:15:00");
}

#[test]
fn limit_price_is_the_ask_capped() {
    let state = TradingState::new(&make_test_config());
    let mut quotes = fresh_quotes();
    assert_eq!(limit_price(&state, &quotes, TradeSide::Yes), 65_000_000);
    assert_eq!(limit_price(&state, &quotes, TradeSide::No), 36_000_000);
    quotes.yes_ask = Some(97_000_000);
    assert_eq!(limit_price(&state, &quotes, TradeSide::Yes), 95_000_000);
    quotes.yes_ask = None;
    assert_eq!(limit_price(&state, &quotes, TradeSide::Yes), 95_000_000);
    quotes.no_ask = Some(95_000_000);
    assert_eq!(limit_price(&state, &quotes, TradeSide::No), 95_000_000);
}

#[test]
fn risk_reject_on_stale_quote() {
    let config = make_test_config();
    let state = TradingState::new(&config);
    let r = check_risk(&config, &state, &fresh_quotes(), 6000, TradeSide::Yes, 10 * UNIT, 65_000_000);
    assert_eq!(
        r,
        RiskCheckResult::Rejected(RejectReason::StaleQuote { stale_ms: 6000, threshold_ms: 5000 })
    );
    match r {
        RiskCheckResult::Rejected(reason) => {
            let text = reason.message();
            assert_eq!(text, "Quote stale by 6000ms (threshold 5000ms)");
            assert!(text.contains("stale"));
        }
        RiskCheckResult::Allowed => panic!("a stale quote must be refused"),
    }
    // exactly at the threshold the quote is fresh enough
    let r = check_risk(&config, &state, &fresh_quotes(), 5000, TradeSide::Yes, 10 * UNIT, 65_000_000);
    assert_eq!(r, RiskCheckResult::Allowed);
    // never updated
    let r = check_risk(&config, &state, &fresh_quotes(), i64::MAX, TradeSide::Yes, UNIT, 1);
    assert!(matches!(r, RiskCheckResult::Rejected(RejectReason::StaleQuote { .. })));
}

#[test]
fn kill_switch_rejects_whatever_else_holds() {
    let config = make_test_config();
    let mut state = TradingState::new(&config);
    state.kill_switch_active = true;
    let kill = RiskCheckResult::Rejected(RejectReason::KillSwitch);
    assert_eq!(check_risk(&config, &state, &fresh_quotes(), 0, TradeSide::Yes, UNIT, 1), kill);
    assert_eq!(
        check_risk(&config, &state, &QuoteState::default(), i64::MAX, TradeSide::No, i64::MAX, i64::MAX),
        kill
    );
    assert_eq!(
        check_risk(&config, &state, &fresh_quotes(), -1, TradeSide::No, i64::MIN, i64::MIN),
        kill
    );
    assert_eq!(RejectReason::KillSwitch.message(), "Kill switch is active");
}

#[test]
fn risk_checks_are_applied_in_order() {
    let config = make_test_config();
    let state = TradingState::new(&config);
    let mut wide = fresh_quotes();
    wide.yes_bid = Some(10_000_000);
    // size, staleness, price and spread all fail: size is named
    let r = check_risk(&config, &state, &wide, 9_000, TradeSide::Yes, 101 * UNIT, 96_000_000);
    assert_eq!(
        r,
        RiskCheckResult::Rejected(RejectReason::SizeExceedsMax {
            size: 101 * UNIT,
            max_size: 100 * UNIT
        })
    );
    // staleness, price and spread fail: staleness is named
    let r = check_risk(&config, &state, &wide, 9_000, TradeSide::Yes, 100 * UNIT, 96_000_000);
    assert!(matches!(r, RiskCheckResult::Rejected(RejectReason::StaleQuote { .. })));
    // price and spread fail: price is named
    let r = check_risk(&config, &state, &wide, 10, TradeSide::Yes, 100 * UNIT, 96_000_000);
    assert_eq!(
        r,
        RiskCheckResult::Rejected(RejectReason::PriceExceedsMax {
            limit_price: 96_000_000,
            max_price: 95_000_000
        })
    );
    // only the spread fails
    let r = check_risk(&config, &state, &wide, 10, TradeSide::Yes, 100 * UNIT, 95_000_000);
    assert_eq!(
        r,
        RiskCheckResult::Rejected(RejectReason::SpreadTooWide {
            spread: 55_000_000,
            max_spread: 10_000_000
        })
    );
    // the other side has its own quotes
    let r = check_risk(&config, &state, &wide, 10, TradeSide::No, 100 * UNIT, 95_000_000);
    assert_eq!(r, RiskCheckResult::Allowed);
}

#[test]
fn spread_is_checked_only_with_both_quotes() {
    let config = make_test_config();
    let state = TradingState::new(&config);
    let mut quotes = fresh_quotes();
    quotes.yes_bid = None;
    quotes.yes_ask = Some(90_000_000);
    let r = check_risk(&config, &state, &quotes, 10, TradeSide::Yes, UNIT, 90_000_000);
    assert_eq!(r, RiskCheckResult::Allowed);
    // a spread exactly at the maximum passes
    quotes.yes_bid = Some(80_000_000);
    let r = check_risk(&config, &state, &quotes, 10, TradeSide::Yes, UNIT, 90_000_000);
    assert_eq!(r, RiskCheckResult::Allowed);
    quotes.yes_bid = Some(79_999_999);
    let r = check_risk(&config, &state, &quotes, 10, TradeSide::Yes, UNIT, 90_000_000);
    assert!(matches!(r, RiskCheckResult::Rejected(RejectReason::SpreadTooWide { .. })));
}

#[test]
fn reject_reasons_in_words() {
    let r = RejectReason::SizeExceedsMax { size: 150 * UNIT, max_size: 100 * UNIT };
    assert_eq!(r.message(), "Size 150.00 exceeds max size 100.00");
    let r = RejectReason::PriceExceedsMax { limit_price: 97_000_000, max_price: 95_000_000 };
    assert_eq!(r.message(), "Limit price 0.97 exceeds max price 0.95");
    let r = RejectReason::SpreadTooWide { spread: 12_500_000, max_spread: 10_000_000 };
    assert_eq!(r.message(), "Spread 0.13 exceeds max spread 0.10");
}

#[test]
fn dry_run_order_is_noted_not_sent() {
    let mut trade = TradeService::new(make_test_config(), None, true);
    let plan = trade.begin_order(TradeSide::Yes, &fresh_quotes(), 100, &market(), 5_000, "id-1".to_string());
    let (event, request) = match plan {
        OrderPlan::DryRun { event, request } => (event, request),
        _ => panic!("a dry run was expected"),
    };
    assert_eq!(request.token_id, "up-token");
    assert_eq!(request.price, "0.65");
    assert_eq!(request.size, "10");
    assert_eq!(request.side, "BUY");
    assert_eq!(request.order_type, "GTC");
    assert_eq!(event.t_send_ms, 5_000);
    assert_eq!(event.t_resp_ms, Some(5_000));
    assert_eq!(event.client_order_id, "id-1");
    assert_eq!(event.side, "YES");
    assert_eq!(event.size, 10 * UNIT);
    assert_eq!(event.limit_price, 65_000_000);
    assert!(event.post_only);
    assert_eq!(event.mode, "dry_run");
    assert_eq!(event.risk_reject_reason, None);
    assert_eq!(event.api_status, Some("dry_run_success".to_string()));
    assert!(event.fills.is_none());
    let log = trade.get_action_log();
    assert_eq!(log.len(), 1);
    assert_eq!(log[0].timestamp_ms, 5_000);
    assert_eq!(log[0].description, "Buy YES @ 0.65 size 10 → dry_run");
}

#[test]
fn rejected_order_carries_its_reason() {
    let mut trade = TradeService::new(make_test_config(), None, false);
    let plan = trade.begin_order(TradeSide::No, &fresh_quotes(), 6_000, &market(), 7, "id".to_string());
    match &plan {
        OrderPlan::Rejected { event, reason } => {
            assert_eq!(*reason, RejectReason::StaleQuote { stale_ms: 6_000, threshold_ms: 5000 });
            assert_eq!(
                event.risk_reject_reason,
                Some("Quote stale by 6000ms (threshold 5000ms)".to_string())
            );
            assert_eq!(event.api_status, None);
            assert_eq!(event.t_resp_ms, Some(7));
            assert_eq!(event.mode, "live");
            assert_eq!(event.side, "NO");
            assert_eq!(event.limit_price, 36_000_000);
        }
        _ => panic!("a rejection was expected"),
    }
    assert_eq!(
        trade.get_action_log()[0].description,
        "Buy NO @ 0.36 size 10 → rejected: Quote stale by 6000ms (threshold 5000ms)"
    );
    assert_eq!(
        plan_result(plan).unwrap().unwrap_err(),
        TradeError::Rejected(RejectReason::StaleQuote { stale_ms: 6_000, threshold_ms: 5000 })
    );
}

#[test]
fn kill_switch_stops_orders_in_every_mode() {
    for dry_run in [true, false] {
        let mut trade = TradeService::new(make_test_config(), None, dry_run);
        trade.set_kill_switch(true);
        let plan = trade.begin_order(TradeSide::Yes, &fresh_quotes(), 0, &market(), 1, "id".to_string());
        assert!(matches!(plan, OrderPlan::Rejected { reason: RejectReason::KillSwitch, .. }));
    }
}

#[test]
fn live_order_without_market_is_not_sent() {
    let mut trade = TradeService::new(make_test_config(), None, false);
    let mut m = market();
    m.down_token_id = String::new();
    let plan = trade.begin_order(TradeSide::No, &fresh_quotes(), 100, &m, 9, "id".to_string());
    match &plan {
        OrderPlan::NoActiveMarket { event } => {
            assert_eq!(event.api_status, Some("no_active_market".to_string()));
            assert_eq!(event.t_resp_ms, Some(9));
        }
        _ => panic!("no market was expected"),
    }
    assert_eq!(trade.get_action_log()[0].description, "Buy NO @ 0.36 size 10 → no active market");
    assert_eq!(plan_result(plan).unwrap().unwrap_err(), TradeError::NoActiveMarket);
    // the other token is known
    let plan = trade.begin_order(TradeSide::Yes, &fresh_quotes(), 100, &m, 9, "id".to_string());
    assert!(matches!(plan, OrderPlan::Submit { .. }));
}

#[test]
fn live_order_is_a_purchase_of_the_sides_token() {
    let mut trade = TradeService::new(make_test_config(), Some(creds()), false);
    trade.adjust_size(5 * UNIT / 2, 1); // 12.5
    let mut quotes = fresh_quotes();
    quotes.no_ask = Some(36_500_000);
    let plan = trade.begin_order(TradeSide::No, &quotes, 100, &market(), 77, "abc".to_string());
    let (event, request) = match plan {
        OrderPlan::Submit { event, request } => (event, request),
        _ => panic!("an order was expected"),
    };
    assert_eq!(request.token_id, "down-token");
    assert_eq!(request.price, "0.37");
    assert_eq!(request.size, "13");
    assert_eq!(request.side, "BUY");
    assert_eq!(request.order_type, "GTC");
    assert_eq!(request.expiration, None);
    assert_eq!(event.t_send_ms, 77);
    assert_eq!(event.t_resp_ms, None);
    assert_eq!(event.api_status, None);
    assert_eq!(event.limit_price, 36_500_000);
    assert_eq!(event.size, 1_250_000_000);
    assert!(event.post_only);
    // only the size adjustment is in the log so far
    assert_eq!(trade.get_action_log().len(), 1);

    let accepted = OrderResponse {
        order_id: Some("o-1".to_string()),
        status: Some("live".to_string()),
        error_msg: None,
        success: true,
        http_status: Some(200),
        raw_body: Some("{}".to_string()),
    };
    let (done, error) =
        trade.finish_order(event, TradeSide::No, &SubmitOutcome::Answered(accepted), 99);
    assert_eq!(error, None);
    assert_eq!(done.t_resp_ms, Some(99));
    assert_eq!(done.api_status, Some("success".to_string()));
    assert_eq!(done.client_order_id, "abc");
    let log = trade.get_action_log();
    assert_eq!(log.len(), 2);
    assert_eq!(log[1].timestamp_ms, 99);
    assert_eq!(log[1].description, "Buy NO @ 0.37 size 13 → success");
}

#[test]
fn refused_order_is_noted_with_the_credentials() {
    let mut trade = TradeService::new(make_test_config(), Some(creds()), false);
    let plan = trade.begin_order(TradeSide::Yes, &fresh_quotes(), 100, &market(), 1, "id".to_string());
    let event = match plan {
        OrderPlan::Submit { event, .. } => event,
        _ => panic!("an order was expected"),
    };
    let refused = OrderResponse {
        order_id: None,
        status: None,
        error_msg: Some("not enough balance".to_string()),
        success: false,
        http_status: Some(400),
        raw_body: Some("{\"errorMsg\":\"not enough balance\"}".to_string()),
    };
    let (done, error) =
        trade.finish_order(event, TradeSide::Yes, &SubmitOutcome::Answered(refused), 2);
    assert_eq!(error, None);
    assert_eq!(done.api_status, Some("error: not enough balance".to_string()));
    let log: Vec<String> = trade.get_action_log().into_iter().map(|e| e.description).collect();
    assert_eq!(
        log,
        vec![
            "Buy YES @ 0.65 size 10 → error: not enough balance".to_string(),
            "ENV: api_key=key-0001, secret=0123456789ab..., passphrase=pass..., wallet=0xabc"
                .to_string(),
        ]
    );
}

#[test]
fn failed_submission_is_an_error() {
    let mut trade = TradeService::new(make_test_config(), None, false);
    let plan = trade.begin_order(TradeSide::Yes, &fresh_quotes(), 100, &market(), 1, "id".to_string());
    let event = match plan {
        OrderPlan::Submit { event, .. } => event,
        _ => panic!("an order was expected"),
    };
    let (done, error) = trade.finish_order(
        event,
        TradeSide::Yes,
        &SubmitOutcome::Failed("connection refused".to_string()),
        2,
    );
    assert_eq!(error, Some(TradeError::SubmitFailed));
    assert_eq!(done.api_status, Some("error: connection refused".to_string()));
    assert_eq!(done.t_resp_ms, Some(2));
    let log: Vec<String> = trade.get_action_log().into_iter().map(|e| e.description).collect();
    assert_eq!(
        log,
        vec![
            "Buy YES @ 0.65 size 10 → error: connection refused".to_string(),
            "ENV: <no credentials loaded>".to_string(),
        ]
    );
    assert_eq!(trade.credentials_debug_string(), "ENV: <no credentials loaded>");
}

#[test]
fn error_message_is_built_from_what_the_answer_has() {
    let mut resp = OrderResponse {
        order_id: None,
        status: None,
        error_msg: None,
        success: false,
        http_status: None,
        raw_body: None,
    };
    assert_eq!(error_message(&resp), "Unknown error (no details in API response)");
    resp.http_status = Some(503);
    assert_eq!(error_message(&resp), "http=503");
    resp.raw_body = Some("x".repeat(250));
    assert_eq!(error_message(&resp), format!("http=503, body={}", "x".repeat(200)));
    resp.status = Some("unmatched".to_string());
    assert_eq!(
        error_message(&resp),
        format!("status=unmatched, http=503, body={}", "x".repeat(200))
    );
    resp.http_status = None;
    resp.raw_body = Some("ü".repeat(3));
    assert_eq!(error_message(&resp), "status=unmatched, body=üüü");
    resp.error_msg = Some("plain".to_string());
    assert_eq!(error_message(&resp), "plain");
}

#[test]
fn keys_give_commands() {
    assert_eq!(command_for_key('y', false), Some(TuiCommand::BuyYes));
    assert_eq!(command_for_key('n', false), Some(TuiCommand::BuyNo));
    assert_eq!(command_for_key('k', false), Some(TuiCommand::ToggleKillSwitch));
    assert_eq!(command_for_key('+', false), Some(TuiCommand::IncrementSize));
    assert_eq!(command_for_key('=', false), Some(TuiCommand::IncrementSize));
    assert_eq!(command_for_key('-', false), Some(TuiCommand::DecrementSize));
    assert_eq!(command_for_key('_', false), Some(TuiCommand::DecrementSize));
    assert_eq!(command_for_key('[', false), Some(TuiCommand::DecrementMaxPriceYes));
    assert_eq!(command_for_key(']', false), Some(TuiCommand::IncrementMaxPriceYes));
    assert_eq!(command_for_key('{', false), Some(TuiCommand::DecrementMaxPriceNo));
    assert_eq!(command_for_key('}', false), Some(TuiCommand::IncrementMaxPriceNo));
    assert_eq!(command_for_key('q', false), Some(TuiCommand::Quit));
    assert_eq!(command_for_key('c', true), Some(TuiCommand::Quit));
    assert_eq!(command_for_key('c', false), None);
    assert_eq!(command_for_key('y', true), Some(TuiCommand::BuyYes));
    assert_eq!(command_for_key('x', false), None);
}

#[test]
fn commands_adjust_the_trade_gate() {
    let mut trade = TradeService::new(make_test_config(), None, true);
    assert_eq!(apply_command(&mut trade, TuiCommand::IncrementSize, 1), Followup::Nothing);
    assert_eq!(trade.get_state().current_size, 15 * UNIT);
    assert_eq!(apply_command(&mut trade, TuiCommand::DecrementSize, 2), Followup::Nothing);
    assert_eq!(apply_command(&mut trade, TuiCommand::DecrementSize, 3), Followup::Nothing);
    assert_eq!(trade.get_state().current_size, 5 * UNIT);
    apply_command(&mut trade, TuiCommand::DecrementMaxPriceYes, 4);
    apply_command(&mut trade, TuiCommand::IncrementMaxPriceNo, 5);
    assert_eq!(trade.get_state().max_price_yes, 94_000_000);
    assert_eq!(trade.get_state().max_price_no, 96_000_000);
    apply_command(&mut trade, TuiCommand::IncrementMaxPriceYes, 6);
    apply_command(&mut trade, TuiCommand::DecrementMaxPriceNo, 7);
    assert_eq!(trade.get_state().max_price_yes, 95_000_000);
    assert_eq!(trade.get_state().max_price_no, 95_000_000);
    apply_command(&mut trade, TuiCommand::ToggleKillSwitch, 8);
    assert!(trade.get_state().kill_switch_active);
    assert_eq!(trade.get_action_log().len(), 8);
    // orders and quitting are handed back
    assert_eq!(apply_command(&mut trade, TuiCommand::BuyYes, 9), Followup::Order(TradeSide::Yes));
    assert_eq!(apply_command(&mut trade, TuiCommand::BuyNo, 9), Followup::Order(TradeSide::No));
    assert_eq!(apply_command(&mut trade, TuiCommand::Quit, 9), Followup::Quit);
    assert_eq!(trade.get_action_log().len(), 8);
}
