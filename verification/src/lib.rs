//! Market-data and signal core of a monitor for short-horizon prediction
//! markets on BTC/USD.
//!
//! The crate keeps the order book of a reference venue in step with its
//! snapshot-and-diff feed, tracks the quotes of the prediction market's active
//! window, derives returns and their spread from the book's mid price, turns a
//! fast move against stale quotes into a recommendation, and guards and signs
//! the orders that an operator places. It does no I/O: callers hand in what
//! arrived and when, and carry out what the crate hands back.
//!
//! Numbers are fixed-point throughout (see [`fixed`]); every public function
//! states what it returns over the models defined beside it.

pub mod binance;
pub mod book;
pub mod chainlink;
pub mod clob;
pub mod commands;
pub mod config;
pub mod events;
pub mod fixed;
pub mod gamma;
pub mod history;
pub mod json;
pub mod levels;
pub mod log_buffer;
pub mod monitor;
pub mod polymarket;
pub mod price_scraper;
pub mod signal;
pub mod stream;
pub mod text;
pub mod trade;
