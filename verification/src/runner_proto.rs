//! The runner side of the stdio protocol: what a runner is asked to do
//! and what it reports back.
//!
//! Plugin-specific JSON payloads (task parameters, job results) are
//! carried as their JSON text: this crate frames and checks the protocol,
//! the process boundary turns text into values.

use vstd::prelude::*;

verus! {

/// A request from the host to a runner.
pub enum GilbertRunnerRequest {
    /// Run the job at this path with these parameters (each one a JSON
    /// value, carried as text).
    RunTask { job: String, params: Vec<String> },
}

/// A runner's report to the host.
pub enum RunnerResponse {
    StartingJob { stages: Vec<String> },
    StartingStage { stage: String },
    FinishedStage { stage: String },
    JobStdout { msg: String },
    JobStderr { msg: String },
    FinishedJob,
}

/// What finishing one stage of a job yields: either the job goes on, or
/// it is done with a result (a JSON value, carried as text).
pub enum StageResult {
    FinishedStage,
    FinishedJob(String),
}

} // verus!
