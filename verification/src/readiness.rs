//! Function readiness: the view derived on every poll of the target's
//! configuration from two independent platform signals — the activation
//! state of the execution environment and the outcome of the most recent
//! configuration update.

use vstd::prelude::*;
use crate::env::EnvMap;

verus! {

/// One fetched snapshot of the target's configuration: its environment
/// mapping and the two readiness signals, each absent when the platform
/// did not report it.
pub struct FunctionConfig {
    pub env: EnvMap,
    pub state: Option<ActivationState>,
    pub last_update: Option<UpdateOutcome>,
}

/// The mathematical content of a [`FunctionConfig`].
pub ghost struct ConfigView {
    pub env: Map<Seq<char>, Seq<char>>,
    pub state: Option<ActivationState>,
    pub last_update: Option<UpdateOutcome>,
}

impl View for FunctionConfig {
    type V = ConfigView;

    open spec fn view(&self) -> ConfigView {
        ConfigView { env: self.env@, state: self.state, last_update: self.last_update }
    }
}

/// Whether the platform reports the execution environment as provisioned.
/// Every reported state other than active is collapsed into `NotActive`:
/// the driver never distinguishes among them.
#[derive(Clone, Copy, Debug, PartialEq, Eq, Structural)]
pub enum ActivationState {
    Active,
    NotActive,
}

/// Outcome of the most recent configuration update as reported by the
/// platform. `Unrecognized` stands for any value outside the modeled set;
/// observing it is an unrecoverable platform anomaly.
#[derive(Clone, Copy, Debug, PartialEq, Eq, Structural)]
pub enum UpdateOutcome {
    Successful,
    Failed,
    InProgress,
    Unrecognized,
}

/// Classification of one configuration poll.
#[derive(Clone, Copy, Debug, PartialEq, Eq, Structural)]
pub enum Readiness {
    /// The environment is active and the last update succeeded: invoke now.
    Ready,
    /// Transient: poll again after the fixed delay.
    NotReady,
    /// Unrecoverable platform state: abort the whole run.
    Fatal,
}

/// What one readiness poll concludes from the two signals.
///
/// A reported non-active environment is never ready, whatever the update
/// outcome says. Otherwise the last update decides: success is ready; a
/// failed or still-running update merely causes another poll (failure is
/// deliberately not distinguished from in-progress here, reproducing the
/// observed behavior); an unrecognized outcome is fatal; an absent outcome
/// means the platform has not caught up yet, so poll again.
pub open spec fn spec_classify(
    state: Option<ActivationState>,
    last_update: Option<UpdateOutcome>,
) -> Readiness {
    if state == Some(ActivationState::NotActive) {
        Readiness::NotReady
    } else {
        match last_update {
            Some(UpdateOutcome::Successful) => Readiness::Ready,
            Some(UpdateOutcome::Failed) => Readiness::NotReady,
            Some(UpdateOutcome::InProgress) => Readiness::NotReady,
            Some(UpdateOutcome::Unrecognized) => Readiness::Fatal,
            None => Readiness::NotReady,
        }
    }
}

/// Executable readiness classification; see [`spec_classify`].
pub fn classify(state: Option<ActivationState>, last_update: Option<UpdateOutcome>) -> (r:
    Readiness)
    ensures
        r == spec_classify(state, last_update),
{
    if let Some(s) = state {
        if !matches!(s, ActivationState::Active) {
            return Readiness::NotReady;
        }
    }
    match last_update {
        Some(UpdateOutcome::Successful) => Readiness::Ready,
        Some(UpdateOutcome::Failed) => Readiness::NotReady,
        Some(UpdateOutcome::InProgress) => Readiness::NotReady,
        Some(UpdateOutcome::Unrecognized) => Readiness::Fatal,
        None => Readiness::NotReady,
    }
}

} // verus!
