//! Where a partition of a shuffle is kept.
use vstd::prelude::*;
use crate::text::owned;

verus! {

/// Where a partition of a shuffle is kept.
#[derive(Debug)]
pub struct ShuffleLocation {
    pub job_uuid: String,
    pub stage_id: i32,
    pub partition_id: i32,
    pub executor_id: String,
    pub executor_host: String,
    pub executor_port: i32,
}

/// The mathematical value of a shuffle location.
pub struct ShuffleLocationModel {
    pub job_uuid: Seq<char>,
    pub stage_id: i32,
    pub partition_id: i32,
    pub executor_id: Seq<char>,
    pub executor_host: Seq<char>,
    pub executor_port: i32,
}

impl View for ShuffleLocation {
    type V = ShuffleLocationModel;

    open spec fn view(&self) -> ShuffleLocationModel {
        ShuffleLocationModel {
            job_uuid: self.job_uuid@,
            stage_id: self.stage_id,
            partition_id: self.partition_id,
            executor_id: self.executor_id@,
            executor_host: self.executor_host@,
            executor_port: self.executor_port,
        }
    }
}

/// The values of some locations.
pub open spec fn locations(list: Seq<ShuffleLocation>) -> Seq<ShuffleLocationModel> {
    Seq::new(list.len(), |i: int| list[i]@)
}

impl ShuffleLocation {
    /// A location of the given parts.
    pub fn new(
        job_uuid: &str,
        stage_id: i32,
        partition_id: i32,
        executor_id: &str,
        executor_host: &str,
        executor_port: i32,
    ) -> (r: Self)
        ensures
            r@ == (ShuffleLocationModel {
                job_uuid: job_uuid@,
                stage_id,
                partition_id,
                executor_id: executor_id@,
                executor_host: executor_host@,
                executor_port,
            }),
    {
        ShuffleLocation {
            job_uuid: owned(job_uuid),
            stage_id,
            partition_id,
            executor_id: owned(executor_id),
            executor_host: owned(executor_host),
            executor_port,
        }
    }
}

impl Clone for ShuffleLocation {
    fn clone(&self) -> (r: Self)
        ensures
            r@ == self@,
    {
        ShuffleLocation {
            job_uuid: self.job_uuid.clone(),
            stage_id: self.stage_id,
            partition_id: self.partition_id,
            executor_id: self.executor_id.clone(),
            executor_host: self.executor_host.clone(),
            executor_port: self.executor_port,
        }
    }
}

} // verus!
