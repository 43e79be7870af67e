//! Verified core of the A-share research assistant: symbol mapping, trading
//! calendar, alert engine, hit statistics and text processing.

pub mod text;
pub mod calendar;
pub mod session;
pub mod monitor;
pub mod cninfo;
pub mod symbol;
pub mod backtest;
pub mod markers;
pub mod models;
pub mod strategy;
pub mod factor;
pub mod kline;
pub mod sentiment;
pub mod screener;
pub mod user_store;
pub mod capital;
pub mod paths;
pub mod market;
pub mod lexicon;
pub mod notices;
pub mod replies;
pub mod scoring;
pub mod quotes;
pub mod predictor;
pub mod analysis;
