use polymarket_monitor::config::PolymarketConfig;
use polymarket_monitor::clob::{
    api_base, cancel_body, midpoint_of, quote, read_order_response, sign_with_key,
    status_is_success, AuthDiagnostic, AuthStage, ClobClient, ClobCredentials, ClobError,
    MidpointResponse, OrderRequest, OrderResponse, StepOutcome,
};

const SECRET: &str = "dGVzdC1zZWNyZXQta2V5LTAxMjM0NTY3ODlhYg==";

fn creds(secret: &str) -> ClobCredentials {
    ClobCredentials {
        api_key: "api-key-1".to_string(),
        secret: secret.to_string(),
        passphrase: "phrase".to_string(),
        wallet_address: "0xWALLET".to_string(),
    }
}

fn order() -> OrderRequest {
    OrderRequest {
        token_id: "123456".to_string(),
        price: "0.65".to_string(),
        size: "10".to_string(),
        side: "BUY".to_string(),
        order_type: "GTC".to_string(),
        expiration: None,
    }
}

#[test]
fn test_order_serialization() {
    let order = OrderRequest {
        token_id: "123456".to_string(),
        price: "0.65".to_string(),
        size: "10".to_string(),
        side: "BUY".to_string(),
        order_type: "GTC".to_string(),
        expiration: None,
    };

    let json = order.to_json();
    assert!(json.contains("tokenId"));
    assert!(json.contains("\"price\":\"0.65\""));
}

#[test]
fn order_body_is_exact() {
    assert_eq!(
        order().to_json(),
        "{\"tokenId\":\"123456\",\"price\":\"0.65\",\"size\":\"10\",\"side\":\"BUY\",\"type\":\"GTC\"}"
    );
    let mut o = order();
    o.expiration = Some("1700000000".to_string());
    o.token_id = "a\"b\\c".to_string();
    assert_eq!(
        o.to_json(),
        "{\"tokenId\":\"a\\\"b\\\\c\",\"price\":\"0.65\",\"size\":\"10\",\"side\":\"BUY\",\"type\":\"GTC\",\"expiration\":\"1700000000\"}"
    );
    let parsed: serde_json::Value = serde_json::from_str(&o.to_json()).unwrap();
    assert_eq!(parsed["tokenId"], "a\"b\\c");
    assert_eq!(cancel_body("o-77"), "{\"orderID\":\"o-77\"}");
}

#[test]
fn hmac_signature_matches_fixture() {
    let client = ClobClient::new(Some(creds(SECRET)));
    let sig = client.sign_request("1700000000", "GET", "/api-keys", "").unwrap();
    assert_eq!(sig, "kWd3to815AdftcQMLBPBmGvZ7AroMp14O_KDq4D-mgw=");
    let body = order().to_json();
    let sig = client.sign_request("1700000000", "POST", "/order", &body).unwrap();
    assert_eq!(sig, "_bbxs-yHMS1gAvdYeZoa3b2gjX1q2cv015G2fIHX4ow=");
}

#[test]
fn secret_is_decoded_with_the_url_safe_alphabet() {
    let client = ClobClient::new(Some(creds("-__-Pj8AEIM=")));
    let sig = client.sign_request("1", "GET", "/api-keys", "").unwrap();
    assert_eq!(sig, "KtY7NJ4wRlf8znId_SvJf85Wk6Nra-1QjyPEJOuKGwU=");
    // the same key given directly
    let key = vec![0xfb, 0xff, 0xfe, 0x3e, 0x3f, 0x00, 0x10, 0x83];
    assert_eq!(sign_with_key(&key, "1GET/api-keys"), "KtY7NJ4wRlf8znId_SvJf85Wk6Nra-1QjyPEJOuKGwU=");
    // the standard alphabet is not accepted
    let client = ClobClient::new(Some(creds("+//+Pj8AEIM=")));
    assert_eq!(client.sign_request("1", "GET", "/api-keys", ""), Err(ClobError::BadSecret));
}

#[test]
fn signing_needs_credentials() {
    let client = ClobClient::new(None);
    assert!(!client.has_credentials());
    assert_eq!(client.sign_request("1", "GET", "/x", ""), Err(ClobError::NoCredentials));
    assert_eq!(client.add_auth_headers(1, "GET", "/x", "").unwrap_err(), ClobError::NoCredentials);
    assert_eq!(client.place_order(&order(), 1).unwrap_err(), ClobError::NoCredentials);
    assert_eq!(client.cancel_order("o", 1).unwrap_err(), ClobError::NoCredentials);
    assert_eq!(client.get_open_orders(1).unwrap_err(), ClobError::NoCredentials);
    let client = ClobClient::new(Some(creds("not base64!")));
    assert!(client.has_credentials());
    assert_eq!(client.add_auth_headers(1, "GET", "/x", "").unwrap_err(), ClobError::BadSecret);
}

#[test]
fn auth_headers_carry_timestamp_and_signature() {
    let client = ClobClient::new(Some(creds(SECRET)));
    let h = client.add_auth_headers(1_700_000_000, "GET", "/api-keys", "").unwrap();
    assert_eq!(h.address, "0xWALLET");
    assert_eq!(h.api_key, "api-key-1");
    assert_eq!(h.passphrase, "phrase");
    assert_eq!(h.timestamp, "1700000000");
    assert_eq!(h.signature, "kWd3to815AdftcQMLBPBmGvZ7AroMp14O_KDq4D-mgw=");
}

#[test]
fn requests_are_signed_over_their_body() {
    let client = ClobClient::new(Some(creds(SECRET)));
    let req = client.place_order(&order(), 1_700_000_000).unwrap();
    assert_eq!(req.method, "POST");
    assert_eq!(req.path, "/order");
    assert_eq!(req.body, order().to_json());
    assert_eq!(req.headers.signature, "_bbxs-yHMS1gAvdYeZoa3b2gjX1q2cv015G2fIHX4ow=");
    let req = client.cancel_order("o-1", 5).unwrap();
    assert_eq!(req.method, "DELETE");
    assert_eq!(req.body, "{\"orderID\":\"o-1\"}");
    assert_eq!(
        req.headers.signature,
        client.sign_request("5", "DELETE", "/order", "{\"orderID\":\"o-1\"}").unwrap()
    );
    let req = client.get_open_orders(1_700_000_000).unwrap();
    assert_eq!(req.method, "GET");
    assert_eq!(req.path, "/orders");
    assert_eq!(req.body, "");
    assert_eq!(ClobClient::get_order_book("77"), "/book?token_id=77");
    assert_eq!(ClobClient::get_midpoint("77"), "/midpoint?token_id=77");
    assert_eq!(api_base(), "https://clob.polymarket.com");
}

fn answered(status: u16, body: &str) -> StepOutcome {
    StepOutcome::Answered { status, body: body.to_string() }
}

#[test]
fn auth_diagnostic_passes_with_accepted_credentials() {
    let client = ClobClient::new(Some(creds(SECRET)));
    let mut diag = AuthDiagnostic::new();
    assert_eq!(diag.current_stage(), AuthStage::Connectivity);
    let req = client.check_auth(&diag, 1_700_000_000).unwrap().unwrap();
    assert_eq!(req.path, "/time");
    assert!(req.headers.is_none());
    diag.record(&answered(200, "1700000000"));
    assert_eq!(diag.current_stage(), AuthStage::ApiKeys);
    let req = client.check_auth(&diag, 1_700_000_000).unwrap().unwrap();
    assert_eq!(req.path, "/api-keys");
    assert_eq!(req.headers.unwrap().signature, "kWd3to815AdftcQMLBPBmGvZ7AroMp14O_KDq4D-mgw=");
    diag.record(&answered(200, "{\"apiKeys\":[]}"));
    let req = client.check_auth(&diag, 1_700_000_000).unwrap().unwrap();
    assert_eq!(req.path, "/orders");
    assert!(req.headers.is_some());
    diag.record(&answered(404, "nothing here"));
    assert_eq!(diag.current_stage(), AuthStage::Done);
    assert!(client.check_auth(&diag, 1_700_000_000).unwrap().is_none());
    assert_eq!(
        diag.verdict(),
        Ok("connectivity: OK (200) | L2 auth: OK (200) | GET /orders: FAILED HTTP 404 - nothing here"
            .to_string())
    );
}

#[test]
fn auth_diagnostic_fails_with_refused_credentials() {
    let mut diag = AuthDiagnostic::new();
    diag.record(&StepOutcome::Failed { error: "timed out".to_string() });
    diag.record(&answered(401, &"x".repeat(300)));
    diag.record(&answered(200, "[]"));
    assert_eq!(diag.verdict(), Err(ClobError::AuthFailed));
    assert_eq!(
        diag.summary(),
        format!(
            "connectivity: FAILED (timed out) | L2 auth: FAILED HTTP 401 - {} | GET /orders: OK (200)",
            "x".repeat(200)
        )
    );
    let mut diag = AuthDiagnostic::new();
    diag.record(&answered(500, "down"));
    diag.record(&StepOutcome::Failed { error: "reset".to_string() });
    assert_eq!(diag.verdict(), Err(ClobError::AuthFailed));
    assert_eq!(diag.summary(), "connectivity: OK (500) | L2 auth: FAILED (reset)");
    assert_eq!(AuthDiagnostic::new().summary(), "");
    assert_eq!(AuthDiagnostic::new().verdict(), Ok(String::new()));
}

#[test]
fn refused_credentials_end_live_trading() {
    // accepted: the session runs in the mode asked for
    let mut diag = AuthDiagnostic::new();
    diag.record(&answered(200, "1700000000"));
    diag.record(&answered(200, "{}"));
    diag.record(&answered(500, "orders down"));
    assert!(!diag.session_dry_run(false));
    assert!(diag.session_dry_run(true));
    // refused: no live trading, whatever was asked for
    let mut diag = AuthDiagnostic::new();
    diag.record(&answered(200, "1700000000"));
    diag.record(&answered(401, "Unauthorized"));
    assert!(diag.session_dry_run(false));
    diag.record(&answered(200, "[]"));
    assert!(diag.session_dry_run(false));
    assert!(diag.session_dry_run(true));
    // a failure of the open endpoint alone refuses nothing
    let mut diag = AuthDiagnostic::new();
    diag.record(&StepOutcome::Failed { error: "timed out".to_string() });
    assert!(!diag.session_dry_run(false));
    assert!(!AuthDiagnostic::new().session_dry_run(false));
}

#[test]
fn auth_diagnostic_needs_credentials() {
    let diag = AuthDiagnostic::new();
    assert_eq!(ClobClient::new(None).check_auth(&diag, 1).unwrap_err(), ClobError::NoCredentials);
    let client = ClobClient::new(Some(creds("???")));
    let mut diag = AuthDiagnostic::new();
    assert!(client.check_auth(&diag, 1).unwrap().is_some());
    diag.record(&answered(200, ""));
    assert_eq!(client.check_auth(&diag, 1).unwrap_err(), ClobError::BadSecret);
}

#[test]
fn order_answers_are_read_with_status_and_body() {
    let parsed = OrderResponse {
        order_id: Some("o1".to_string()),
        status: Some("live".to_string()),
        error_msg: None,
        success: true,
        http_status: None,
        raw_body: None,
    };
    let r = read_order_response(200, "{...}".to_string(), Some(parsed.clone())).unwrap();
    assert_eq!(r.http_status, Some(200));
    assert_eq!(r.raw_body, Some("{...}".to_string()));
    assert_eq!(r.order_id, Some("o1".to_string()));
    assert!(r.success);
    // a refusal that can be read is an answer, not an error
    let mut refused = parsed;
    refused.success = false;
    refused.error_msg = Some("no".to_string());
    let r = read_order_response(400, "b".to_string(), Some(refused)).unwrap();
    assert_eq!(r.http_status, Some(400));
    assert_eq!(r.error_msg, Some("no".to_string()));
    assert_eq!(read_order_response(400, "b".to_string(), None).unwrap_err(), ClobError::RequestFailed);
    assert_eq!(read_order_response(200, "b".to_string(), None).unwrap_err(), ClobError::BadResponse);
}

#[test]
fn success_statuses() {
    assert!(!status_is_success(199));
    assert!(status_is_success(200));
    assert!(status_is_success(299));
    assert!(!status_is_success(300));
    assert!(!status_is_success(404));
}

#[test]
fn midpoint_and_quotes() {
    assert_eq!(midpoint_of(&MidpointResponse { mid: Some("0.515".to_string()) }), Some(51_500_000));
    assert_eq!(midpoint_of(&MidpointResponse { mid: Some("half".to_string()) }), None);
    assert_eq!(midpoint_of(&MidpointResponse { mid: None }), None);
    assert_eq!(quote("short"), "short");
    let long = "é".repeat(201);
    assert_eq!(quote(&long), "é".repeat(200));
}

#[test]
fn credentials_need_all_four_settings() {
    let mut config = PolymarketConfig {
        ws_url: String::new(),
        rest_url: String::new(),
        gamma_url: String::new(),
        btc_15m_event_id: String::new(),
        api_key: "k".to_string(),
        api_secret: "s".to_string(),
        passphrase: "p".to_string(),
        wallet_address: "w".to_string(),
        yes_token_id: String::new(),
        no_token_id: String::new(),
        condition_id: String::new(),
    };
    let c = ClobCredentials::from_config(&config).unwrap();
    assert_eq!((c.api_key.as_str(), c.secret.as_str()), ("k", "s"));
    assert_eq!((c.passphrase.as_str(), c.wallet_address.as_str()), ("p", "w"));
    config.passphrase = String::new();
    assert!(ClobCredentials::from_config(&config).is_none());
}

#[test]
fn headers_have_their_names() {
    let client = ClobClient::new(Some(creds(SECRET)));
    let h = client.add_auth_headers(1_700_000_000, "GET", "/api-keys", "").unwrap();
    let pairs = h.pairs();
    let names: Vec<&str> = pairs.iter().map(|(n, _)| *n).collect();
    assert_eq!(
        names,
        vec!["POLY_ADDRESS", "POLY_API_KEY", "POLY_PASSPHRASE", "POLY_TIMESTAMP", "POLY_SIGNATURE"]
    );
    let values: Vec<&str> = pairs.iter().map(|(_, v)| v.as_str()).collect();
    assert_eq!(
        values,
        vec![
            "0xWALLET",
            "api-key-1",
            "phrase",
            "1700000000",
            "kWd3to815AdftcQMLBPBmGvZ7AroMp14O_KDq4D-mgw="
        ]
    );
}
