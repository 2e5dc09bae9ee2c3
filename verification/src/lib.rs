//! Synthetic histories of concurrent transactions, for testing what a
//! database promises about isolation.
//!
//! A history is the work of several sessions, each a sequence of
//! transactions, each of those a sequence of reads and writes of numbered
//! variables. [`generate_single_history`] generates one history from
//! [`HistoryParams`], and [`generate_mult_histories`] a batch of them, each
//! with a record of how and when it was made.
//!
//! The values written follow one rule, kept by [`ValueAssigner`]: the fresh
//! values of a variable count up from one through the whole run, and every
//! other write repeats a value that the variable was given before. What this
//! means for a run is stated in [`model`] and [`params`] and proved in
//! [`laws`].
//!
//! Random numbers come from the `rand` crate and the time from `chrono`; the
//! few functions that call them, in [`random`] and [`clock`], are believed,
//! not proved.

pub mod assigner;
pub mod builder;
pub mod clock;
pub mod event;
pub mod generator;
pub mod laws;
pub mod model;
pub mod params;
pub mod random;
pub mod ratio;
pub mod record;
pub mod sampler;

pub use assigner::ValueAssigner;
pub use builder::TransactionBuilder;
pub use clock::Timestamp;
pub use event::{Event, Session, Transaction, TransactionView};
pub use generator::{generate_mult_histories, generate_session, generate_single_history};
pub use params::{GenerationError, HistoryParams, SizeRange};
pub use ratio::Ratio;
pub use record::{HistParams, HistParamsView, History, HistoryView};
pub use sampler::{SamplerError, VariableSampler};
