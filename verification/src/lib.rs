//! Base-station relay library: the fixed-width telemetry codec, command
//! address routing, the set-once shutdown signal, and the per-iteration
//! decision logic of the two relay workers.

pub mod bits;
pub mod relay;
pub mod router;
pub mod shutdown;
pub mod status;
