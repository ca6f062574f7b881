//! The order API of the prediction market: request signing, the startup
//! diagnostic of the credentials, and the reading of answers.
//!
//! A request is authenticated by five headers. The signature is the URL-safe
//! base64 text of the HMAC-SHA256 of `timestamp + method + path + body` under
//! the key that the API secret decodes to.

use crate::config::{has_credentials, PolymarketConfig};
use crate::fixed::{nearest_fixed_of_text, parse_fixed_nearest};
use crate::json::{member_text, push_member};
use crate::text::{int_text, push_int};
use base64::engine::general_purpose::URL_SAFE;
use base64::Engine;
use hmac::{Hmac, Mac};
use sha2::Sha256;
use vstd::prelude::*;
use vstd::string::*;

verus! {

/// Longest piece of an answer's body that a diagnostic line quotes, in chars.
pub const QUOTE_LIMIT: usize = 200;

/// The credentials of an API key.
#[derive(Debug, Clone)]
pub struct ClobCredentials {
    pub api_key: String,
    pub secret: String,
    pub passphrase: String,
    pub wallet_address: String,
}

/// An order as the API takes it: price and size are decimal text.
#[derive(Debug, Clone)]
pub struct OrderRequest {
    pub token_id: String,
    pub price: String,
    pub size: String,
    pub side: String,
    pub order_type: String,
    pub expiration: Option<String>,
}

/// The API's answer to an order, with the HTTP status and the raw body added.
#[derive(Debug, Clone)]
pub struct OrderResponse {
    pub order_id: Option<String>,
    pub status: Option<String>,
    pub error_msg: Option<String>,
    pub success: bool,
    pub http_status: Option<u16>,
    pub raw_body: Option<String>,
}

/// One level of a book.
#[derive(Debug, Clone)]
pub struct OrderBookLevel {
    pub price: String,
    pub size: String,
}

/// The book of one token, as the API returns it.
#[derive(Debug, Clone)]
pub struct OrderBookResponse {
    pub market: Option<String>,
    pub asset_id: Option<String>,
    pub bids: Option<Vec<OrderBookLevel>>,
    pub asks: Option<Vec<OrderBookLevel>>,
}

/// The midpoint of one token, as the API returns it.
#[derive(Debug, Clone)]
pub struct MidpointResponse {
    pub mid: Option<String>,
}

/// The five headers of an authenticated request.
#[derive(Debug, Clone)]
pub struct AuthHeaders {
    /// `POLY_ADDRESS`
    pub address: String,
    /// `POLY_API_KEY`
    pub api_key: String,
    /// `POLY_PASSPHRASE`
    pub passphrase: String,
    /// `POLY_TIMESTAMP`
    pub timestamp: String,
    /// `POLY_SIGNATURE`
    pub signature: String,
}

/// Why the client cannot do what was asked.
#[derive(Debug, Clone, Copy, PartialEq, Eq, Structural)]
pub enum ClobError {
    /// No credentials are configured.
    NoCredentials,
    /// The API secret is no URL-safe base64 text.
    BadSecret,
    /// The API refused the request and its answer could not be read.
    RequestFailed,
    /// The API accepted the request and its answer could not be read.
    BadResponse,
    /// The diagnostic found that the credentials are not accepted.
    AuthFailed,
}

/// What `base64`'s URL-safe engine (with padding) decodes a text to, or
/// nothing where it rejects the text.
pub uninterp spec fn base64url_decoding(text: Seq<char>) -> Option<Seq<u8>>;

/// The text that `base64`'s URL-safe engine (with padding) encodes bytes to.
pub uninterp spec fn base64url_encoding(bytes: Seq<u8>) -> Seq<char>;

/// The HMAC-SHA256 of a message under a key.
pub uninterp spec fn hmac_sha256_of(key: Seq<u8>, message: Seq<u8>) -> Seq<u8>;

/// `Engine::decode` of `base64` on the `URL_SAFE` engine. The result depends
/// on the text alone; it is named, not described.
#[verifier::external_body]
fn base64url_decode(text: &str) -> (r: Option<Vec<u8>>)
    ensures
        r matches Some(v) ==> base64url_decoding(text@) == Some(v@),
        r is None ==> base64url_decoding(text@) is None,
{
    match URL_SAFE.decode(text) {
        Ok(v) => Some(v),
        Err(_) => None,
    }
}

/// `Engine::encode` of `base64` on the `URL_SAFE` engine. The result depends
/// on the bytes alone; it is named, not described. The input is kept short of
/// the length at which the encoder's size computation overflows.
#[verifier::external_body]
fn base64url_encode(bytes: &Vec<u8>) -> (text: String)
    requires
        bytes@.len() <= 0x1000_0000,
    ensures
        text@ == base64url_encoding(bytes@),
{
    URL_SAFE.encode(bytes)
}

/// `Hmac<Sha256>` of the `hmac` and `sha2` crates: keyed with
/// `new_from_slice` (which accepts a key of any length), fed with `update`,
/// read with `finalize`. The result depends on key and message alone and is
/// named; it is 32 bytes long, the output size of SHA-256.
#[verifier::external_body]
fn hmac_sha256(key: &Vec<u8>, message: &[u8]) -> (mac: Vec<u8>)
    ensures
        mac@ == hmac_sha256_of(key@, message@),
        mac@.len() == 32,
{
    match Hmac::<Sha256>::new_from_slice(key) {
        Ok(mut m) => {
            m.update(message);
            m.finalize().into_bytes().to_vec()
        },
        Err(_) => Vec::new(),
    }
}

/// The text that is signed: timestamp, method, path and body, joined.
pub open spec fn signed_text(
    timestamp: Seq<char>,
    method: Seq<char>,
    path: Seq<char>,
    body: Seq<char>,
) -> Seq<char> {
    timestamp + method + path + body
}

/// The signature of a message under the key that a secret decodes to.
pub open spec fn signature_with_key(key: Seq<u8>, message: Seq<char>) -> Seq<char> {
    base64url_encoding(hmac_sha256_of(key, vstd::utf8::encode_utf8(message)))
}

/// The signature of a request under a secret, where the secret decodes.
pub open spec fn signature_of(secret: Seq<char>, message: Seq<char>) -> Option<Seq<char>> {
    match base64url_decoding(secret) {
        Some(key) => Some(signature_with_key(key, message)),
        None => None,
    }
}

/// Whether an HTTP status is a success: 200 to 299.
pub open spec fn is_success(status: u16) -> bool {
    200 <= status < 300
}

/// Whether an HTTP status is a success.
pub fn status_is_success(status: u16) -> (b: bool)
    ensures
        b == is_success(status),
{
    200 <= status && status < 300
}

/// Signs a message with a key: the URL-safe base64 text of its HMAC-SHA256.
pub fn sign_with_key(key: &Vec<u8>, message: &str) -> (signature: String)
    ensures
        signature@ == signature_with_key(key@, message@),
{
    let mac = hmac_sha256(key, message.as_bytes());
    base64url_encode(&mac)
}

/// The order-API client: the credentials it signs with.
pub struct ClobClient {
    credentials: Option<ClobCredentials>,
}

impl ClobClient {
    /// A client with the given credentials, or without any.
    pub fn new(credentials: Option<ClobCredentials>) -> (c: Self)
        ensures
            c.credentials() == credentials,
    {
        ClobClient { credentials }
    }

    /// The credentials of this client.
    pub closed spec fn credentials(&self) -> Option<ClobCredentials> {
        self.credentials
    }

    /// Whether credentials are configured.
    pub fn has_credentials(&self) -> (b: bool)
        ensures
            b == self.credentials() is Some,
    {
        self.credentials.is_some()
    }

    /// The signature of a request made at `timestamp`.
    pub fn sign_request(&self, timestamp: &str, method: &str, path: &str, body: &str) -> (r:
        Result<String, ClobError>)
        ensures
            self.credentials() is None ==> r == Err::<String, ClobError>(ClobError::NoCredentials),
            self.credentials() matches Some(creds) ==> match r {
                Ok(signature) => signature_of(
                    creds.secret@,
                    signed_text(timestamp@, method@, path@, body@),
                ) == Some(signature@),
                Err(e) => e == ClobError::BadSecret && signature_of(
                    creds.secret@,
                    signed_text(timestamp@, method@, path@, body@),
                ) is None,
            },
    {
        let creds = match &self.credentials {
            Some(c) => c,
            None => {
                return Err(ClobError::NoCredentials);
            },
        };
        let mut message = String::from_str(timestamp);
        message.append(method);
        message.append(path);
        message.append(body);
        match base64url_decode(creds.secret.as_str()) {
            None => Err(ClobError::BadSecret),
            Some(key) => Ok(sign_with_key(&key, message.as_str())),
        }
    }

    /// The headers of a request made at `now_secs` seconds since the epoch.
    pub fn add_auth_headers(&self, now_secs: i64, method: &str, path: &str, body: &str) -> (r:
        Result<AuthHeaders, ClobError>)
        ensures
            self.credentials() is None ==> (r matches Err(e) && e == ClobError::NoCredentials),
            self.credentials() matches Some(creds) ==> match r {
                Ok(h) => h.address@ == creds.wallet_address@ && h.api_key@ == creds.api_key@
                    && h.passphrase@ == creds.passphrase@ && h.timestamp@ == int_text(
                    now_secs as int,
                ) && signature_of(
                    creds.secret@,
                    signed_text(int_text(now_secs as int), method@, path@, body@),
                ) == Some(h.signature@),
                Err(e) => e == ClobError::BadSecret && base64url_decoding(creds.secret@) is None,
            },
    {
        let creds = match &self.credentials {
            Some(c) => c,
            None => {
                return Err(ClobError::NoCredentials);
            },
        };
        let mut timestamp = String::new();
        push_int(&mut timestamp, now_secs as i128);
        proof {
            assert(timestamp@ =~= int_text(now_secs as int));
        }
        let signature = match self.sign_request(timestamp.as_str(), method, path, body) {
            Ok(s) => s,
            Err(e) => {
                return Err(e);
            },
        };
        Ok(
            AuthHeaders {
                address: creds.wallet_address.clone(),
                api_key: creds.api_key.clone(),
                passphrase: creds.passphrase.clone(),
                timestamp,
                signature,
            },
        )
    }
}

/// Reads the API's answer to an order: an answer that can be read is returned
/// with status and body added, whether the API accepted the order or not; one
/// that cannot is an error.
pub fn read_order_response(status: u16, body: String, parsed: Option<OrderResponse>) -> (r: Result<
    OrderResponse,
    ClobError,
>)
    ensures
        parsed matches Some(p) ==> (r matches Ok(resp) && resp.http_status == Some(status)
            && resp.raw_body == Some(body) && resp.order_id == p.order_id && resp.status
            == p.status && resp.error_msg == p.error_msg && resp.success == p.success),
        parsed is None ==> (r matches Err(e) && e == (if is_success(status) {
            ClobError::BadResponse
        } else {
            ClobError::RequestFailed
        })),
{
    match parsed {
        Some(p) => Ok(
            OrderResponse {
                order_id: p.order_id,
                status: p.status,
                error_msg: p.error_msg,
                success: p.success,
                http_status: Some(status),
                raw_body: Some(body),
            },
        ),
        None => if status_is_success(status) {
            Err(ClobError::BadResponse)
        } else {
            Err(ClobError::RequestFailed)
        },
    }
}

/// The midpoint that an answer carries, where it is a decimal that fits.
pub fn midpoint_of(resp: &MidpointResponse) -> (mid: Option<i64>)
    ensures
        mid == match resp.mid {
            Some(text) => match nearest_fixed_of_text(text@) {
                Some(v) => Some(v as i64),
                None => None,
            },
            None => None,
        },
{
    match &resp.mid {
        Some(text) => parse_fixed_nearest(text.as_str()),
        None => None,
    }
}

/// The steps of the startup diagnostic, in order.
#[derive(Debug, Clone, Copy, PartialEq, Eq, Structural)]
pub enum AuthStage {
    /// An open endpoint: is the API reachable?
    Connectivity,
    /// An authenticated endpoint: are the credentials accepted?
    ApiKeys,
    /// A second authenticated endpoint.
    Orders,
    /// Nothing is left to ask.
    Done,
}

/// How one request of the diagnostic ended.
#[derive(Debug, Clone)]
pub enum StepOutcome {
    /// The API answered.
    Answered { status: u16, body: String },
    /// No answer came.
    Failed { error: String },
}

/// A request of the diagnostic: a GET on `path`, with headers where the
/// endpoint is authenticated.
#[derive(Debug, Clone)]
pub struct AuthRequest {
    pub path: String,
    pub headers: Option<AuthHeaders>,
}

/// The diagnostic in progress: the step to make next and what the steps made
/// so far have shown.
pub struct AuthDiagnostic {
    stage: AuthStage,
    lines: Vec<String>,
    l2_failed: bool,
}

/// The stage after a stage.
pub open spec fn next_stage(stage: AuthStage) -> AuthStage {
    match stage {
        AuthStage::Connectivity => AuthStage::ApiKeys,
        AuthStage::ApiKeys => AuthStage::Orders,
        AuthStage::Orders => AuthStage::Done,
        AuthStage::Done => AuthStage::Done,
    }
}

/// The path that a stage asks for.
pub open spec fn stage_path(stage: AuthStage) -> Seq<char> {
    match stage {
        AuthStage::Connectivity => "/time"@,
        AuthStage::ApiKeys => "/api-keys"@,
        AuthStage::Orders => "/orders"@,
        AuthStage::Done => Seq::empty(),
    }
}

/// The label of a stage in the summary.
pub open spec fn stage_label(stage: AuthStage) -> Seq<char> {
    match stage {
        AuthStage::Connectivity => "connectivity"@,
        AuthStage::ApiKeys => "L2 auth"@,
        AuthStage::Orders => "GET /orders"@,
        AuthStage::Done => Seq::empty(),
    }
}

/// The first `QUOTE_LIMIT` chars of a body.
pub open spec fn quoted(body: Seq<char>) -> Seq<char> {
    if body.len() <= QUOTE_LIMIT {
        body
    } else {
        body.subrange(0, QUOTE_LIMIT as int)
    }
}

/// Whether an outcome counts as a pass of its stage: any answer passes the
/// connectivity stage, only a success status passes the others.
pub open spec fn step_passed(stage: AuthStage, outcome: &StepOutcome) -> bool {
    match outcome {
        StepOutcome::Answered { status, .. } => stage == AuthStage::Connectivity || is_success(
            *status,
        ),
        StepOutcome::Failed { .. } => false,
    }
}

/// The summary line of a step.
pub open spec fn step_line(stage: AuthStage, outcome: &StepOutcome) -> Seq<char> {
    match outcome {
        StepOutcome::Answered { status, body } => if step_passed(stage, outcome) {
            stage_label(stage) + ": OK ("@ + int_text(*status as int) + ")"@
        } else {
            stage_label(stage) + ": FAILED HTTP "@ + int_text(*status as int) + " - "@ + quoted(
                body@,
            )
        },
        StepOutcome::Failed { error } => stage_label(stage) + ": FAILED ("@ + error@ + ")"@,
    }
}

/// Lines joined by `" | "`.
pub open spec fn joined(lines: Seq<Seq<char>>) -> Seq<char>
    decreases lines.len(),
{
    if lines.len() == 0 {
        Seq::empty()
    } else if lines.len() == 1 {
        lines[0]
    } else {
        joined(lines.drop_last()) + " | "@ + lines.last()
    }
}

/// The first `QUOTE_LIMIT` chars of a text.
pub fn quote(body: &str) -> (q: &str)
    ensures
        q@ == quoted(body@),
{
    let n = body.unicode_len();
    if n <= QUOTE_LIMIT {
        body
    } else {
        body.substring_char(0, QUOTE_LIMIT)
    }
}

impl AuthDiagnostic {
    /// The stage to make next.
    pub closed spec fn stage(&self) -> AuthStage {
        self.stage
    }

    /// The summary lines so far.
    pub closed spec fn lines(&self) -> Seq<Seq<char>> {
        self.lines.deep_view()
    }

    /// Whether the credentials were refused.
    pub closed spec fn l2_failed(&self) -> bool {
        self.l2_failed
    }

    /// A diagnostic that has not begun.
    pub fn new() -> (d: Self)
        ensures
            d.stage() == AuthStage::Connectivity,
            d.lines().len() == 0,
            !d.l2_failed(),
    {
        let d = AuthDiagnostic { stage: AuthStage::Connectivity, lines: Vec::new(), l2_failed: false };
        proof {
            assert(d.lines.deep_view() =~= Seq::<Seq<char>>::empty());
        }
        d
    }

    /// The stage to make next.
    pub fn current_stage(&self) -> (s: AuthStage)
        ensures
            s == self.stage(),
    {
        self.stage
    }

    /// Takes in how the request of the current stage ended and moves to the
    /// next stage. The credentials count as refused where the request for the
    /// API keys did not end in a success status.
    pub fn record(&mut self, outcome: &StepOutcome)
        requires
            old(self).stage() != AuthStage::Done,
        ensures
            final(self).stage() == next_stage(old(self).stage()),
            final(self).lines() == old(self).lines().push(step_line(old(self).stage(), outcome)),
            final(self).l2_failed() == (old(self).l2_failed() || (old(self).stage()
                == AuthStage::ApiKeys && !step_passed(AuthStage::ApiKeys, outcome))),
    {
        let stage = self.stage;
        let mut line = String::from_str(
            match stage {
                AuthStage::Connectivity => "connectivity",
                AuthStage::ApiKeys => "L2 auth",
                _ => "GET /orders",
            },
        );
        let passed = match outcome {
            StepOutcome::Answered { status, body } => {
                let ok = match stage {
                    AuthStage::Connectivity => true,
                    _ => status_is_success(*status),
                };
                if ok {
                    line.append(": OK (");
                    push_int(&mut line, *status as i128);
                    line.append(")");
                } else {
                    line.append(": FAILED HTTP ");
                    push_int(&mut line, *status as i128);
                    line.append(" - ");
                    line.append(quote(body.as_str()));
                }
                ok
            },
            StepOutcome::Failed { error } => {
                line.append(": FAILED (");
                line.append(error.as_str());
                line.append(")");
                false
            },
        };
        proof {
            assert(line@ =~= step_line(stage, outcome));
        }
        if !passed {
            match stage {
                AuthStage::ApiKeys => {
                    self.l2_failed = true;
                },
                _ => {},
            }
        }
        let ghost before = self.lines.deep_view();
        self.lines.push(line);
        proof {
            assert(self.lines.deep_view() =~= before.push(line@));
        }
        self.stage = match stage {
            AuthStage::Connectivity => AuthStage::ApiKeys,
            AuthStage::ApiKeys => AuthStage::Orders,
            _ => AuthStage::Done,
        };
    }

    /// The summary: the lines of the steps made, joined by `" | "`.
    pub fn summary(&self) -> (text: String)
        ensures
            text@ == joined(self.lines()),
    {
        let mut text = String::new();
        let mut i: usize = 0;
        proof {
            assert(self.lines.deep_view().subrange(0, 0) =~= Seq::<Seq<char>>::empty());
        }
        while i < self.lines.len()
            invariant
                0 <= i <= self.lines@.len(),
                self.lines.deep_view().len() == self.lines@.len(),
                text@ == joined(self.lines.deep_view().subrange(0, i as int)),
            decreases self.lines@.len() - i,
        {
            let ghost prefix = self.lines.deep_view().subrange(0, i as int);
            let ghost next = self.lines.deep_view().subrange(0, i + 1);
            proof {
                assert(next.drop_last() =~= prefix);
                assert(next.last() == self.lines@[i as int]@);
            }
            if i > 0 {
                text.append(" | ");
            }
            text.append(self.lines[i].as_str());
            proof {
                if i == 0 {
                    assert(text@ =~= next[0]);
                }
            }
            i = i + 1;
        }
        proof {
            assert(self.lines.deep_view().subrange(0, i as int) =~= self.lines.deep_view());
        }
        text
    }

    /// The verdict of a finished diagnostic: the summary where the credentials
    /// were accepted, an error where they were refused.
    pub fn verdict(&self) -> (r: Result<String, ClobError>)
        ensures
            self.l2_failed() ==> r == Err::<String, ClobError>(ClobError::AuthFailed),
            !self.l2_failed() ==> (r matches Ok(text) && text@ == joined(self.lines())),
    {
        if self.l2_failed {
            Err(ClobError::AuthFailed)
        } else {
            Ok(self.summary())
        }
    }

    /// Whether the session runs without sending orders: where that was asked
    /// for, and where the credentials were refused, which ends live trading
    /// for the session.
    pub fn session_dry_run(&self, requested: bool) -> (dry_run: bool)
        ensures
            dry_run == (requested || self.l2_failed()),
    {
        requested || self.l2_failed
    }
}

impl ClobClient {
    /// The request that the diagnostic makes next, or None where it is
    /// finished. Without credentials there is no diagnostic; a secret that
    /// does not decode ends it at the first authenticated step.
    pub fn check_auth(&self, diag: &AuthDiagnostic, now_secs: i64) -> (r: Result<
        Option<AuthRequest>,
        ClobError,
    >)
        ensures
            self.credentials() is None ==> (r matches Err(e) && e == ClobError::NoCredentials),
            self.credentials() matches Some(creds) ==> match diag.stage() {
                AuthStage::Done => r matches Ok(None),
                AuthStage::Connectivity => r matches Ok(Some(req)) && req.path@ == stage_path(
                    AuthStage::Connectivity,
                ) && req.headers is None,
                stage => match r {
                    Ok(Some(req)) => req.path@ == stage_path(stage) && (req.headers matches Some(
                        h,
                    ) && h.timestamp@ == int_text(now_secs as int) && signature_of(
                        creds.secret@,
                        signed_text(int_text(now_secs as int), "GET"@, stage_path(stage), ""@),
                    ) == Some(h.signature@) && h.address@ == creds.wallet_address@ && h.api_key@
                        == creds.api_key@ && h.passphrase@ == creds.passphrase@),
                    Ok(None) => false,
                    Err(e) => e == ClobError::BadSecret && base64url_decoding(creds.secret@)
                        is None,
                },
            },
    {
        if self.credentials.is_none() {
            return Err(ClobError::NoCredentials);
        }
        let path = match diag.stage {
            AuthStage::Done => {
                return Ok(None);
            },
            AuthStage::Connectivity => {
                return Ok(Some(AuthRequest { path: String::from_str("/time"), headers: None }));
            },
            AuthStage::ApiKeys => "/api-keys",
            AuthStage::Orders => "/orders",
        };
        match self.add_auth_headers(now_secs, "GET", path, "") {
            Ok(headers) => Ok(Some(AuthRequest { path: String::from_str(path), headers: Some(headers) })),
            Err(e) => Err(e),
        }
    }
}

/// The JSON body of an order: its members in order, the expiration only
/// where there is one.
pub open spec fn order_json(order: &OrderRequest) -> Seq<char> {
    seq!['{'] + member_text("tokenId"@, order.token_id@) + seq![','] + member_text(
        "price"@,
        order.price@,
    ) + seq![','] + member_text("size"@, order.size@) + seq![','] + member_text(
        "side"@,
        order.side@,
    ) + seq![','] + member_text("type"@, order.order_type@) + (match order.expiration {
        Some(e) => seq![','] + member_text("expiration"@, e@),
        None => Seq::empty(),
    }) + seq!['}']
}

/// The JSON body that cancels an order.
pub open spec fn cancel_json(order_id: Seq<char>) -> Seq<char> {
    seq!['{'] + member_text("orderID"@, order_id) + seq!['}']
}

impl OrderRequest {
    /// The JSON body of the order.
    pub fn to_json(&self) -> (json: String)
        ensures
            json@ == order_json(self),
    {
        proof {
            reveal_strlit("{");
            reveal_strlit("}");
            reveal_strlit(",");
            assert("{"@ =~= seq!['{']);
            assert("}"@ =~= seq!['}']);
            assert(","@ =~= seq![',']);
        }
        let mut json = String::from_str("{");
        push_member(&mut json, "tokenId", self.token_id.as_str());
        json.append(",");
        push_member(&mut json, "price", self.price.as_str());
        json.append(",");
        push_member(&mut json, "size", self.size.as_str());
        json.append(",");
        push_member(&mut json, "side", self.side.as_str());
        json.append(",");
        push_member(&mut json, "type", self.order_type.as_str());
        match &self.expiration {
            Some(e) => {
                json.append(",");
                push_member(&mut json, "expiration", e.as_str());
            },
            None => {},
        }
        json.append("}");
        proof {
            assert(json@ =~= order_json(self));
        }
        json
    }
}

/// The JSON body that cancels an order.
pub fn cancel_body(order_id: &str) -> (json: String)
    ensures
        json@ == cancel_json(order_id@),
{
    proof {
        reveal_strlit("{");
        reveal_strlit("}");
        assert("{"@ =~= seq!['{']);
        assert("}"@ =~= seq!['}']);
    }
    let mut json = String::from_str("{");
    push_member(&mut json, "orderID", order_id);
    json.append("}");
    proof {
        assert(json@ =~= cancel_json(order_id@));
    }
    json
}

/// An authenticated request, ready to be sent.
#[derive(Debug, Clone)]
pub struct SignedRequest {
    pub method: String,
    pub path: String,
    pub body: String,
    pub headers: AuthHeaders,
}

/// A request is signed by the credentials for the time given.
pub open spec fn signed_by(
    req: &SignedRequest,
    creds: &ClobCredentials,
    now_secs: i64,
    method: Seq<char>,
    path: Seq<char>,
    body: Seq<char>,
) -> bool {
    &&& req.method@ == method
    &&& req.path@ == path
    &&& req.body@ == body
    &&& req.headers.address@ == creds.wallet_address@
    &&& req.headers.api_key@ == creds.api_key@
    &&& req.headers.passphrase@ == creds.passphrase@
    &&& req.headers.timestamp@ == int_text(now_secs as int)
    &&& signature_of(creds.secret@, signed_text(int_text(now_secs as int), method, path, body))
        == Some(req.headers.signature@)
}

/// What asking for a signed request gives: the request where credentials are
/// configured and the secret decodes, else the error that says which fails.
pub open spec fn signing_result(
    r: Result<SignedRequest, ClobError>,
    creds: Option<ClobCredentials>,
    now_secs: i64,
    method: Seq<char>,
    path: Seq<char>,
    body: Seq<char>,
) -> bool {
    match creds {
        None => r matches Err(e) && e == ClobError::NoCredentials,
        Some(c) => match r {
            Ok(req) => signed_by(&req, &c, now_secs, method, path, body),
            Err(e) => e == ClobError::BadSecret && base64url_decoding(c.secret@) is None,
        },
    }
}

impl ClobClient {
    /// A signed request.
    pub fn signed_request(&self, now_secs: i64, method: &str, path: &str, body: String) -> (r:
        Result<SignedRequest, ClobError>)
        ensures
            signing_result(r, self.credentials(), now_secs, method@, path@, body@),
    {
        match self.add_auth_headers(now_secs, method, path, body.as_str()) {
            Ok(headers) => Ok(
                SignedRequest {
                    method: String::from_str(method),
                    path: String::from_str(path),
                    body,
                    headers,
                },
            ),
            Err(e) => Err(e),
        }
    }

    /// The request that places an order: a POST on `/order` with the order as
    /// its body.
    pub fn place_order(&self, order: &OrderRequest, now_secs: i64) -> (r: Result<
        SignedRequest,
        ClobError,
    >)
        ensures
            signing_result(
                r,
                self.credentials(),
                now_secs,
                "POST"@,
                "/order"@,
                order_json(order),
            ),
    {
        self.signed_request(now_secs, "POST", "/order", order.to_json())
    }

    /// The request that cancels an order: a DELETE on `/order` that names it.
    pub fn cancel_order(&self, order_id: &str, now_secs: i64) -> (r: Result<
        SignedRequest,
        ClobError,
    >)
        ensures
            signing_result(
                r,
                self.credentials(),
                now_secs,
                "DELETE"@,
                "/order"@,
                cancel_json(order_id@),
            ),
    {
        self.signed_request(now_secs, "DELETE", "/order", cancel_body(order_id))
    }

    /// The request that lists the open orders: a GET on `/orders`.
    pub fn get_open_orders(&self, now_secs: i64) -> (r: Result<SignedRequest, ClobError>)
        ensures
            signing_result(r, self.credentials(), now_secs, "GET"@, "/orders"@, ""@),
    {
        self.signed_request(now_secs, "GET", "/orders", String::from_str(""))
    }

    /// The path that asks for the book of a token.
    pub fn get_order_book(token_id: &str) -> (path: String)
        ensures
            path@ == "/book?token_id="@ + token_id@,
    {
        let mut path = String::from_str("/book?token_id=");
        path.append(token_id);
        path
    }

    /// The path that asks for the midpoint of a token.
    pub fn get_midpoint(token_id: &str) -> (path: String)
        ensures
            path@ == "/midpoint?token_id="@ + token_id@,
    {
        let mut path = String::from_str("/midpoint?token_id=");
        path.append(token_id);
        path
    }
}

impl ClobCredentials {
    /// The credentials that the settings carry: all four or none.
    pub fn from_config(config: &PolymarketConfig) -> (c: Option<Self>)
        ensures
            c is Some <==> has_credentials(config),
            c matches Some(creds) ==> creds.api_key@ == config.api_key@ && creds.secret@
                == config.api_secret@ && creds.passphrase@ == config.passphrase@
                && creds.wallet_address@ == config.wallet_address@,
    {
        if config.api_key.as_str().is_empty() || config.api_secret.as_str().is_empty()
            || config.passphrase.as_str().is_empty() || config.wallet_address.as_str().is_empty() {
            None
        } else {
            Some(
                ClobCredentials {
                    api_key: config.api_key.clone(),
                    secret: config.api_secret.clone(),
                    passphrase: config.passphrase.clone(),
                    wallet_address: config.wallet_address.clone(),
                },
            )
        }
    }
}

/// The names of the five headers, in the order address, key, passphrase,
/// timestamp, signature.
pub open spec fn header_names() -> Seq<Seq<char>> {
    seq![
        "POLY_ADDRESS"@,
        "POLY_API_KEY"@,
        "POLY_PASSPHRASE"@,
        "POLY_TIMESTAMP"@,
        "POLY_SIGNATURE"@,
    ]
}

impl AuthHeaders {
    /// The headers as pairs of name and value.
    pub fn pairs(&self) -> (pairs: Vec<(&'static str, String)>)
        ensures
            pairs@.len() == 5,
            forall|i: int| 0 <= i < 5 ==> (#[trigger] pairs@[i]).0@ == header_names()[i],
            pairs@[0].1@ == self.address@,
            pairs@[1].1@ == self.api_key@,
            pairs@[2].1@ == self.passphrase@,
            pairs@[3].1@ == self.timestamp@,
            pairs@[4].1@ == self.signature@,
    {
        let mut pairs: Vec<(&'static str, String)> = Vec::new();
        pairs.push(("POLY_ADDRESS", self.address.clone()));
        pairs.push(("POLY_API_KEY", self.api_key.clone()));
        pairs.push(("POLY_PASSPHRASE", self.passphrase.clone()));
        pairs.push(("POLY_TIMESTAMP", self.timestamp.clone()));
        pairs.push(("POLY_SIGNATURE", self.signature.clone()));
        pairs
    }
}

/// The address of the order API.
pub fn api_base() -> (url: &'static str)
    ensures
        url@ == "https://clob.polymarket.com"@,
{
    "https://clob.polymarket.com"
}

} // verus!
