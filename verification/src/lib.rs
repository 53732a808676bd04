//! A fixed-timestep simulation kernel: a phase-scheduled executor that drives
//! user jobs and a pluggable integrator through discrete steps, an event
//! detector that filters sign crossings of a scalar error function, a
//! Runge-Kutta-4 coefficient table, and a recorder that assembles sampled
//! values into delimited text.
//!
//! The kernel's decisions are all discrete: which job runs next, when the
//! integrator advances the state, when a step commits, whether a sign change
//! qualifies as an event, and when a root refinement gives up. Those
//! decisions live here, fully specified and verified. The floating-point
//! arithmetic they steer (stage evaluation, false-position estimates, value
//! formatting) is supplied by the host around this crate, which hands back
//! plain values: signs, counts, formatted fields.

pub mod event;
pub mod executor;
pub mod integrator;
pub mod recorder;

pub use event::CrossingDetector;
pub use event::CrossingMode;
pub use event::RefineStatus;
pub use event::Refinement;
pub use event::Sign;
pub use executor::Action;
pub use executor::Config;
pub use executor::Execution;
pub use executor::Phase;
pub use executor::Scheduler;
pub use recorder::Recorder;
