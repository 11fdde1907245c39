//! Tasks of a distributed job.
use vstd::prelude::*;
use std::sync::Arc;
use crate::plan::ExecutionPlan;
use crate::text::owned;

verus! {

/// A plan to run, and where in a job it stands.
#[derive(Debug)]
pub struct Task {
    pub job_uuid: String,
    pub stage_id: i32,
    pub task_id: i32,
    pub partition_id: i32,
    pub plan: Arc<ExecutionPlan>,
}

impl Task {
    /// A task of the given parts.
    pub fn new(
        job_uuid: &str,
        stage_id: i32,
        task_id: i32,
        partition_id: i32,
        plan: Arc<ExecutionPlan>,
    ) -> (r: Self)
        ensures
            r.job_uuid@ == job_uuid@,
            r.stage_id == stage_id,
            r.task_id == task_id,
            r.partition_id == partition_id,
            r.plan == plan,
    {
        Task { job_uuid: owned(job_uuid), stage_id, task_id, partition_id, plan }
    }
}

} // verus!
