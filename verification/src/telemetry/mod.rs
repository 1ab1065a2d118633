//! Pure Linux telemetry parsers and rate calculators, plus the latest-value
//! store the sampler publishes into. Nothing here reads files or clocks: the
//! kernel text and the elapsed time are handed in.
pub mod cpu;
pub mod disk;
pub mod memory;
pub mod network;
pub mod runtime;
