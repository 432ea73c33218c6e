//! The experiment event log vocabulary.
//!
//! A run is a deterministic log of a scripted experiment. Everything a run
//! does is expressed as an [`ExperimentEvent`] appended to the event log;
//! metrics, blast radius and the oracle report are projections over that
//! log, so there is a single source of truth.
use vstd::prelude::*;

use crate::fault::Fault;
use crate::time::Duration;

verus! {

/// How a correctness check was classified.
#[derive(Clone, Copy, Debug, PartialEq, Eq, Structural)]
pub enum CheckKind {
    Predicate,
    Invariant,
}

/// Classification of a fault by the concrete layer it targets.
#[derive(Clone, Copy, Debug, PartialEq, Eq, Structural)]
pub enum FaultClass {
    Pause,
    Kill,
    Deprive,
}

impl FaultClass {
    /// The class of a fault.
    pub open spec fn of(fault: Fault) -> FaultClass {
        match fault {
            Fault::Pause => FaultClass::Pause,
            Fault::Kill => FaultClass::Kill,
            Fault::Deprive(_) => FaultClass::Deprive,
        }
    }
}

impl From<Fault> for FaultClass {
    fn from(fault: Fault) -> (c: FaultClass) {
        match fault {
            Fault::Pause => FaultClass::Pause,
            Fault::Kill => FaultClass::Kill,
            Fault::Deprive(_) => FaultClass::Deprive,
        }
    }
}

impl vstd::std_specs::convert::FromSpecImpl<Fault> for FaultClass {
    open spec fn obeys_from_spec() -> bool {
        true
    }

    open spec fn from_spec(v: Fault) -> FaultClass {
        FaultClass::of(v)
    }
}

/// One observed fact about the experiment run.
#[allow(inconsistent_fields)]
pub enum ExperimentEvent {
    /// A config was registered.
    ConfigRegistered,
    /// A scenario (the main script body) started.
    ScenarioStarted,
    /// A scenario completed successfully.
    ScenarioCompleted,
    /// A subject was hosted.
    SubjectHosted,
    /// A subject was torn down.
    SubjectTornDown,
    /// A new engine state was enumerated during a scenario.
    StateEnumerated { unique: bool },
    /// A new interleaving was enumerated during a scenario.
    InterleavingEnumerated { unique: bool },
    /// A fault was applied.
    FaultApplied { fault: Fault },
    /// A subject's faults were cleared.
    FaultCleared,
    /// A subject was recovered (or failed to recover) after a fault.
    Recovery { took: Duration, ok: bool },
    /// Blast radius: how many targets of a class were affected out of total.
    BlastAffected { class: &'static str, affected: u64, total: u64 },
    /// A correctness check ran. Failure detail is carried inline so the
    /// report can be rebuilt purely from the log.
    CheckRun {
        kind: CheckKind,
        name: String,
        passed: bool,
        /// Human-readable failure reason, present when the check did not pass.
        error: Option<String>,
        /// Fault the check was about, when applicable (predicates).
        fault: Option<String>,
        /// Subject the check was about, when applicable (predicates).
        subject: Option<String>,
        /// Fault round the check was about, when applicable (predicates).
        round: Option<usize>,
    },
}

/// A copy of an optional string.
pub fn clone_opt_string(s: &Option<String>) -> (r: Option<String>)
    ensures
        r == *s,
{
    match s {
        Some(x) => Some(x.clone()),
        None => None,
    }
}

impl Clone for ExperimentEvent {
    fn clone(&self) -> (r: ExperimentEvent)
        ensures
            r == *self,
    {
        match self {
            ExperimentEvent::ConfigRegistered => ExperimentEvent::ConfigRegistered,
            ExperimentEvent::ScenarioStarted => ExperimentEvent::ScenarioStarted,
            ExperimentEvent::ScenarioCompleted => ExperimentEvent::ScenarioCompleted,
            ExperimentEvent::SubjectHosted => ExperimentEvent::SubjectHosted,
            ExperimentEvent::SubjectTornDown => ExperimentEvent::SubjectTornDown,
            ExperimentEvent::StateEnumerated { unique } => ExperimentEvent::StateEnumerated {
                unique: *unique,
            },
            ExperimentEvent::InterleavingEnumerated { unique } => {
                ExperimentEvent::InterleavingEnumerated { unique: *unique }
            },
            ExperimentEvent::FaultApplied { fault } => ExperimentEvent::FaultApplied {
                fault: *fault,
            },
            ExperimentEvent::FaultCleared => ExperimentEvent::FaultCleared,
            ExperimentEvent::Recovery { took, ok } => ExperimentEvent::Recovery {
                took: *took,
                ok: *ok,
            },
            ExperimentEvent::BlastAffected { class, affected, total } => {
                ExperimentEvent::BlastAffected { class: *class, affected: *affected, total: *total }
            },
            ExperimentEvent::CheckRun { kind, name, passed, error, fault, subject, round } => {
                ExperimentEvent::CheckRun {
                    kind: *kind,
                    name: name.clone(),
                    passed: *passed,
                    error: clone_opt_string(error),
                    fault: clone_opt_string(fault),
                    subject: clone_opt_string(subject),
                    round: *round,
                }
            },
        }
    }
}

} // verus!
