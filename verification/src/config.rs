use vstd::prelude::*;

verus! {

/// The fixed parameters of one engine instance. They are chosen at
/// construction and never change for the instance's lifetime.
///
/// `tck_fs` is the clock period in femtoseconds, `bus_bits` the data-bus
/// width in bits, `burst_length` the number of beats per transfer,
/// `queue_depth` how many operations may be pending at once, and
/// `latency` how many ticks pass between an operation's acceptance and
/// its completion.
#[derive(Clone, Copy, PartialEq, Eq, Structural, Debug)]
pub struct Config {
    pub tck_fs: u64,
    pub bus_bits: usize,
    pub burst_length: usize,
    pub queue_depth: usize,
    pub latency: u64,
}

impl Config {
    /// A configuration the engine accepts: an operation takes at least
    /// one tick to complete, so a completion can never be delivered
    /// during the very call that submitted it.
    pub open spec fn wf(self) -> bool {
        self.latency >= 1
    }
}

/// Why the engine rejected a configuration.
#[derive(Clone, Copy, PartialEq, Eq, Structural, Debug)]
pub enum ConfigError {
    /// The configuration asked for completions in zero ticks.
    ZeroLatency,
}

} // verus!
