//! A dry run of the solver: what it would do, step by step.

use crate::backends::BackendChoice;
use crate::plan::SolverStatePlan;
use crate::reals::Real;
use vstd::prelude::*;

verus! {

/// A dry run.
#[derive(Debug)]
pub struct SolverRunnerDryRun {
    pub planned_steps: Option<usize>,
    pub preview_steps: usize,
    pub max_steps: usize,
    pub stage_count: usize,
    pub preview_write_events: usize,
    pub truncated: bool,
    pub state: SolverStatePlan,
    pub runtime: SolverRunnerRuntime,
    pub warnings: Vec<String>,
    pub events: Vec<SolverRunnerDryRunEvent>,
}

/// The devices of the runner.
#[derive(Debug)]
pub struct SolverRunnerRuntime {
    pub cpu: SolverRunnerCpu,
    pub gpu: SolverRunnerGpu,
    pub warnings: Vec<String>,
}

/// The processors of the runner.
#[derive(Debug)]
pub struct SolverRunnerCpu {
    pub requested: bool,
    pub handle: String,
    pub linear_solvers_available: bool,
    pub kernels_available: bool,
    pub threads: String,
}

/// The graphics processors of the runner.
#[derive(Debug)]
pub struct SolverRunnerGpu {
    pub requested: bool,
    pub handle: String,
    pub linear_solvers_available: bool,
    pub kernels_available: bool,
    pub backend: String,
    pub devices: Vec<String>,
    pub precision: String,
}

/// Where a step would run.
#[derive(Debug)]
pub struct SolverRunnerDispatch {
    pub target: String,
    pub handle: String,
    pub executable: bool,
    pub status: String,
}

/// An event of a dry run.
#[derive(Debug)]
pub enum SolverRunnerDryRunEvent {
    StepStart { step: usize, time: Option<Real> },
    Stage {
        step: usize,
        section: String,
        stage: String,
        choice: BackendChoice,
        source: String,
        dispatch: SolverRunnerDispatch,
    },
    Write { step: usize, time: Option<Real> },
}

} // verus!
