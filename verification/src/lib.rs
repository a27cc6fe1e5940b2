//! Verification of proxy-pool candidates: a validated candidate model, the
//! protocol handshake framing and response decisions, a first-success race
//! coordinator, a retry wrapper, and a bounded-concurrency scheduler, all with
//! proved contracts. Network transport and the command line live outside the
//! library and hand it plain values.

pub mod model;
pub mod parse;
pub mod probe;
pub mod race;
pub mod request;
pub mod sched;
pub mod text;
