//! Verified core of a serverless cold-start benchmarker.
//!
//! The library models the two control loops that make the benchmark reliable
//! against an eventually-consistent cloud control plane — the iteration
//! driver, which forces one fresh execution environment per iteration and
//! waits for the platform to report the function ready, and the query poller,
//! which submits one analytical query over the collected logs and polls it to
//! completion — together with the pure reduction of raw query rows into typed
//! percentile statistics.
//!
//! Both loops are expressed as event-driven state machines: every transition
//! is a verified step from a state and an observed event to the next state
//! and the action the caller must perform (a network call, a fixed one-second
//! sleep, or termination). The unverified binary around the library performs
//! the actions against the real services and feeds the responses back.

use vstd::prelude::*;

pub mod analyzer;
pub mod env;
pub mod error;
pub mod invoker;
pub mod numeric;
pub mod readiness;
pub mod stats;
pub mod text;

pub use analyzer::LambdaAnalyzer;
pub use analyzer::PollerAction;
pub use analyzer::PollerEvent;
pub use analyzer::PollerPhase;
pub use analyzer::QueryRequest;
pub use analyzer::QueryStatus;
pub use env::EnvMap;
pub use error::RunError;
pub use invoker::DriverAction;
pub use invoker::DriverEvent;
pub use invoker::DriverPhase;
pub use invoker::LambdaInvoker;
pub use numeric::Decimal;
pub use readiness::ActivationState;
pub use readiness::FunctionConfig;
pub use readiness::Readiness;
pub use readiness::UpdateOutcome;
pub use stats::ParseError;
pub use stats::ResultField;
pub use stats::Stats;

verus! {

} // verus!
