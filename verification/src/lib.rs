//! A backtesting engine: it replays daily price series through a trading
//! strategy and returns the balance and the trades that the strategy would
//! have made.
//!
//! The engine computes in fixed-point numbers, so that a run is the same on
//! every machine, and every function of it carries a contract that Verus
//! proves.
//!
//! - `fixed`: fixed-point arithmetic, division and square root.
//! - `dates`: calendar days as day numbers.
//! - `types`: instruments, candles and the values that strategies read.
//! - `stats`: the signal engine, with what holds of it in `stats_lemmas` and
//!   `regression_lemmas`.
//! - `window`: looking a day up in a price history.
//! - `trading`: the decision engine with its two strategies.
//! - `portfolio`: the ledger, with what holds of it in `portfolio_lemmas`.
//! - `simulator`: the driver that steps the clock through the date range,
//!   and `unwind`, which closes what is open at the end; what holds of whole
//!   runs is in `simulator_lemmas` and `run_lemmas`.
//! - `report`: the figures of a finished run.

pub mod fixed;
pub mod dates;
pub mod types;
pub mod stats;
pub mod stats_lemmas;
pub mod regression_lemmas;
pub mod window;
pub mod trading;
pub mod portfolio;
pub mod portfolio_lemmas;
pub mod unwind;
pub mod simulator;
pub mod simulator_lemmas;
pub mod run_lemmas;
pub mod report;
