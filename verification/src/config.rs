//! Settings of the monitor. Amounts, prices and thresholds are fixed-point
//! units; durations are milliseconds.

use crate::signal::SignalConfig;
use vstd::prelude::*;

verus! {

/// Settings that apply to the whole program.
#[derive(Debug, Clone)]
pub struct GeneralConfig {
    pub dry_run: bool,
    pub snapshot_rate_hz: u32,
}

/// Where the reference venue's book is read from.
#[derive(Debug, Clone)]
pub struct BinanceConfig {
    pub ws_url: String,
    pub rest_url: String,
    pub symbol: String,
    pub snapshot_limit: u32,
}

/// Where the prediction market is read from, and the credentials for trading.
#[derive(Debug, Clone)]
pub struct PolymarketConfig {
    pub ws_url: String,
    pub rest_url: String,
    pub gamma_url: String,
    pub btc_15m_event_id: String,
    pub api_key: String,
    pub api_secret: String,
    pub passphrase: String,
    pub wallet_address: String,
    pub yes_token_id: String,
    pub no_token_id: String,
    pub condition_id: String,
}

/// Static limits of the trade gate.
#[derive(Debug, Clone, Copy, PartialEq, Eq, Structural)]
pub struct TradingConfig {
    pub default_size: i64,
    pub max_size: i64,
    pub max_price_yes: i64,
    pub max_price_no: i64,
    pub max_spread: i64,
    pub stale_quote_threshold_ms: u64,
}

/// Where event logs go.
#[derive(Debug, Clone)]
pub struct LoggingConfig {
    pub log_dir: String,
    pub rotation: String,
}

/// All settings.
#[derive(Debug, Clone)]
pub struct Config {
    pub general: GeneralConfig,
    pub binance: BinanceConfig,
    pub polymarket: PolymarketConfig,
    pub trading: TradingConfig,
    pub signal: SignalConfig,
    pub logging: LoggingConfig,
}

/// The interval between two snapshot records, in milliseconds, for a rate in
/// records per second; a rate of zero counts as one.
pub open spec fn snapshot_interval(rate_hz: int) -> int {
    if rate_hz <= 1 {
        1000
    } else {
        1000int / rate_hz
    }
}

/// The interval between two snapshot records.
pub fn snapshot_interval_ms(rate_hz: u32) -> (ms: u64)
    ensures
        ms == snapshot_interval(rate_hz as int),
        ms <= 1000,
{
    let rate: u64 = if rate_hz < 1 {
        1
    } else {
        rate_hz as u64
    };
    1000 / rate
}

/// Whether all four credentials are present.
pub open spec fn has_credentials(config: &PolymarketConfig) -> bool {
    &&& config.api_key@.len() > 0
    &&& config.api_secret@.len() > 0
    &&& config.passphrase@.len() > 0
    &&& config.wallet_address@.len() > 0
}

} // verus!
