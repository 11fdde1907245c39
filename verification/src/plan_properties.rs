//! What is known of the output of a plan before it runs.
use vstd::prelude::*;
use crate::partitioning::{Partitioning, PartitioningModel};

verus! {

/// What is known of the output of a plan before it runs.
#[derive(Debug)]
pub struct PlanProperties {
    pub output_partitioning: Partitioning,
}

impl View for PlanProperties {
    type V = PartitioningModel;

    open spec fn view(&self) -> PartitioningModel {
        self.output_partitioning@
    }
}

impl Clone for PlanProperties {
    fn clone(&self) -> (r: Self)
        ensures
            r@ == self@,
    {
        PlanProperties { output_partitioning: self.output_partitioning.clone() }
    }
}

impl PlanProperties {
    /// Properties with the given output partitioning.
    pub fn new(output_partitioning: Partitioning) -> (r: Self)
        ensures
            r.output_partitioning == output_partitioning,
    {
        PlanProperties { output_partitioning }
    }

    /// A single output partition of which nothing else is known.
    pub fn single_partition_unknown() -> (r: Self)
        ensures
            r.output_partitioning == Partitioning::UnknownPartitioning(1),
    {
        Self::new(Partitioning::UnknownPartitioning(1))
    }

    /// The number of output partitions.
    pub fn partition_count(&self) -> (r: usize)
        ensures
            r == self@.count(),
    {
        self.output_partitioning.partition_count()
    }
}

} // verus!
