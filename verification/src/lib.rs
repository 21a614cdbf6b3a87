//! A live relay for a growing sequence of small records: a bounded-retention
//! ring store with a monotonic write index, a broadcast wake signal, and a
//! per-consumer tailing session that backfills from the oldest retained
//! record and then follows new ones.

pub mod buffer;
pub mod codec;
pub mod session;
pub mod signal;

use vstd::prelude::*;

verus! {

/// Construction-time settings for a relay service: the chart options and
/// styling handed to the page layer, and the retention capacity of the
/// numeric and text stores.
#[derive(Clone)]
pub struct Config {
    pub plot: String,
    pub css: String,
    pub n_data: usize,
    pub n_text: usize,
}

} // verus!
