//! Deterministic simulation testing for containerised services: the
//! verified core of the harness.
//!
//! The domain model (faults, tiers, configs, subjects, the experiment event
//! vocabulary), the projections over the event log (metrics, blast radius,
//! oracle reports), the registries behind the engine, the per-subject
//! bookkeeping of the Docker substrate (virtual clocks, virtual disks,
//! proxied links) and the decision steps of the use cases live here, each
//! with a contract. Everything that talks to Docker, Lua, the file system or
//! the network lives in the application around this crate.
use vstd::prelude::*;

pub mod components;
pub mod config;
pub mod docker;
pub mod event;
pub mod fault;
pub mod keyed;
pub mod log;
pub mod oracle;
pub mod pg;
pub mod random;
pub mod rng;
pub mod state;
pub mod subject;
pub mod text;
pub mod time;
pub mod usecases;
pub mod workload;

verus! {

} // verus!
