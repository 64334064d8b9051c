//! A recorder of mempool changes.
//!
//! Every quarter-minute the recorder samples the pool of unconfirmed
//! transactions of a node and writes down what entered and what left it
//! since the sample before; when the chain has grown by a block it writes
//! down the whole pool instead. This crate holds the logic of that recorder
//! and none of its input or output:
//!
//! - [`scheduler`] decides when a tick is due;
//! - [`mempool`] holds a sample of the pool, keyed by the identifiers of
//!   [`txid`], and [`pairs`] the mathematics of such samples;
//! - [`record`] computes the delta between two samples, a table of the rows
//!   of [`delta`];
//! - [`output`] names the file of a tick, in the directory of the day that
//!   [`calendar`] gives;
//! - [`recorder`] sequences the ticks, as a state machine that a driver
//!   feeds with events.

pub mod calendar;
pub mod delta;
pub mod mempool;
pub mod output;
pub mod pairs;
pub mod record;
pub mod recorder;
pub mod scheduler;
mod sort;
pub mod txid;
