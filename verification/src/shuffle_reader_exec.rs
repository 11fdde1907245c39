//! The operator that reads the partitions of a shuffle.
use vstd::prelude::*;
use std::sync::Arc;
use crate::display::{DisplayAs, DisplayFormatType};
use crate::error::{Fault, FdapQueryError};
use crate::partitioning::Partitioning;
use crate::plan::{check_partition, no_children, ExecutionPlan};
use crate::plan_properties::PlanProperties;
use crate::schema::Schema;
use crate::shuffle_location::{ShuffleLocation, ShuffleLocationModel};
use crate::task_context::TaskContext;
use crate::text::{owned, push_decimal, same_text};
use crate::{plan, schema, shuffle_location, text};

verus! {

/// Reads the partitions of a shuffle, one after the other.
#[derive(Debug)]
pub struct ShuffleReaderExec {
    pub shuffle_schema: Schema,
    pub shuffle_locations: Vec<ShuffleLocation>,
    pub properties: PlanProperties,
}

/// One partition of a shuffle that is to be read.
#[derive(Debug)]
pub struct ShuffleRead {
    pub job_uuid: String,
    pub stage_id: i32,
    pub partition_id: i32,
}

/// The first executor other than `executor_id` that holds a location.
pub open spec fn first_remote(locations: Seq<ShuffleLocationModel>, executor_id: Seq<char>) -> Option<
    Seq<char>,
>
    decreases locations.len(),
{
    if locations.len() == 0 {
        None
    } else if locations[0].executor_id != executor_id {
        Some(locations[0].executor_id)
    } else {
        first_remote(locations.drop_first(), executor_id)
    }
}

/// The error of a location that another executor holds.
pub open spec fn remote_fault(holder: Seq<char>, executor_id: Seq<char>) -> Fault {
    Fault::NotImplemented(
        "ShuffleReaderExec: remote shuffle reads require an Arrow Flight client. Location belongs to executor '"@
            + holder + "' but this executor is '"@ + executor_id
            + "'. Remote reads need a Flight client field on RuntimeEnv."@,
    )
}

/// An executor can read what it wrote itself: where it holds every location, none
/// is remote.
pub proof fn own_locations_are_not_remote(
    locations: Seq<ShuffleLocationModel>,
    executor_id: Seq<char>,
)
    ensures
        first_remote(locations, executor_id) is None <==> forall|i: int|
            0 <= i < locations.len() ==> (#[trigger] locations[i]).executor_id == executor_id,
    decreases locations.len(),
{
    if locations.len() > 0 {
        let rest = locations.drop_first();
        own_locations_are_not_remote(rest, executor_id);
        assert(forall|i: int| 0 <= i < rest.len() ==> (#[trigger] rest[i]) == locations[i + 1]);
        if forall|i: int| 0 <= i < rest.len() ==> (#[trigger] rest[i]).executor_id == executor_id {
            assert forall|i: int| 1 <= i < locations.len() implies (
            #[trigger] locations[i]).executor_id == executor_id by {
                assert(rest[i - 1] == locations[i]);
            }
        }
    }
}

impl ShuffleReaderExec {
    /// Reads the given partitions.
    pub fn new(shuffle_schema: Schema, shuffle_locations: Vec<ShuffleLocation>) -> (r: Self)
        ensures
            r == (ShuffleReaderExec {
                shuffle_schema,
                shuffle_locations,
                properties: PlanProperties {
                    output_partitioning: Partitioning::UnknownPartitioning(1),
                },
            }),
    {
        let properties = PlanProperties::single_partition_unknown();
        ShuffleReaderExec { shuffle_schema, shuffle_locations, properties }
    }

    /// Starts reading: gives the partitions to read, in order. All of them must
    /// be held by this executor.
    pub fn execute(&self, partition: usize, ctx: &TaskContext) -> (r: Result<
        Vec<ShuffleRead>,
        FdapQueryError,
    >)
        ensures
            ({
                let locations = shuffle_location::locations(self.shuffle_locations@);
                match r {
                    Ok(reads) => partition == 0 && first_remote(locations, ctx.executor_id@) is None
                        && reads@.len() == locations.len() && forall|i: int|
                        0 <= i < reads@.len() ==> (#[trigger] reads@[i]).job_uuid@
                            == locations[i].job_uuid && reads@[i].stage_id == locations[i].stage_id
                            && reads@[i].partition_id == locations[i].partition_id,
                    Err(e) => if partition != 0 {
                        e@ == plan::no_such_partition("ShuffleReaderExec"@, partition)
                    } else {
                        first_remote(locations, ctx.executor_id@) matches Some(holder) && e@
                            == remote_fault(holder, ctx.executor_id@)
                    },
                }
            }),
    {
        if let Err(e) = check_partition("ShuffleReaderExec", partition) {
            return Err(e);
        }
        let ghost locations = shuffle_location::locations(self.shuffle_locations@);
        let mut i: usize = 0;
        assert(locations.skip(0) == locations);
        while i < self.shuffle_locations.len()
            invariant
                partition == 0,
                locations == shuffle_location::locations(self.shuffle_locations@),
                i <= self.shuffle_locations.len(),
                first_remote(locations, ctx.executor_id@) == first_remote(
                    locations.skip(i as int),
                    ctx.executor_id@,
                ),
            decreases self.shuffle_locations.len() - i,
        {
            let location = &self.shuffle_locations[i];
            assert(locations.skip(i as int)[0] == location@);
            assert(locations.skip(i as int).drop_first() == locations.skip(i + 1));
            if !same_text(&location.executor_id, &ctx.executor_id) {
                let mut m: String = owned(
                    "ShuffleReaderExec: remote shuffle reads require an Arrow Flight client. Location belongs to executor '",
                );
                m.append(location.executor_id.as_str());
                m.append("' but this executor is '");
                m.append(ctx.executor_id.as_str());
                m.append("'. Remote reads need a Flight client field on RuntimeEnv.");
                return Err(FdapQueryError::NotImplemented(m));
            }
            i += 1;
        }
        assert(locations.skip(i as int).len() == 0);
        let mut reads: Vec<ShuffleRead> = Vec::new();
        let mut k: usize = 0;
        while k < self.shuffle_locations.len()
            invariant
                locations == shuffle_location::locations(self.shuffle_locations@),
                k <= self.shuffle_locations.len(),
                reads.len() == k,
                forall|i: int|
                    0 <= i < k ==> (#[trigger] reads@[i]).job_uuid@ == locations[i].job_uuid
                        && reads@[i].stage_id == locations[i].stage_id && reads@[i].partition_id
                        == locations[i].partition_id,
            decreases self.shuffle_locations.len() - k,
        {
            let location = &self.shuffle_locations[k];
            reads.push(
                ShuffleRead {
                    job_uuid: location.job_uuid.clone(),
                    stage_id: location.stage_id,
                    partition_id: location.partition_id,
                },
            );
            k += 1;
        }
        Ok(reads)
    }

    /// The operator itself, which takes no children.
    pub fn with_new_children(self, children: Vec<Arc<ExecutionPlan>>) -> (r: Result<
        Self,
        FdapQueryError,
    >)
        ensures
            match r {
                Ok(same) => children@.len() == 0 && same == self,
                Err(e) => children@.len() != 0 && e@ == plan::not_a_leaf(
                    "ShuffleReaderExec"@,
                    children@.len(),
                ),
            },
    {
        match no_children("ShuffleReaderExec", &children) {
            Ok(_) => Ok(self),
            Err(e) => Err(e),
        }
    }
}

impl DisplayAs for ShuffleReaderExec {
    open spec fn displayable(&self) -> bool {
        true
    }

    open spec fn rendered(&self, t: DisplayFormatType) -> Seq<char> {
        "ShuffleReaderExec: schema="@ + schema::schema_debug(self.shuffle_schema@) + ", locations="@
            + text::decimal(self.shuffle_locations@.len())
    }

    fn fmt_as(&self, t: DisplayFormatType) -> (r: String) {
        let mut out: String = owned("ShuffleReaderExec: schema=");
        out.append(self.shuffle_schema.debug_string().as_str());
        out.append(", locations=");
        push_decimal(&mut out, self.shuffle_locations.len() as u128);
        out
    }
}

} // verus!
