//! The operator that scans a table.
use vstd::prelude::*;
use std::sync::Arc;
use crate::display::{DisplayAs, DisplayFormatType};
use crate::error::{Fault, FdapQueryError};
use crate::partitioning::Partitioning;
use crate::plan::{check_partition, no_children, ExecutionPlan};
use crate::plan_properties::PlanProperties;
use crate::schema::{Field, FieldModel, Schema};
use crate::text::{owned, push_quoted_list};
use crate::{plan, schema, text};

verus! {

/// Scans some columns of a table.
#[derive(Debug)]
pub struct ScanExec {
    /// The columns to scan; none given means all.
    pub projection: Vec<String>,
    /// The schema of the scanned columns.
    pub schema: Schema,
    pub properties: PlanProperties,
}

/// The first name that no field has.
pub open spec fn first_unknown(source: Seq<FieldModel>, names: Seq<Seq<char>>) -> Option<Seq<char>>
    decreases names.len(),
{
    if names.len() == 0 {
        None
    } else if schema::field_position(source, names[0]) is None {
        Some(names[0])
    } else {
        first_unknown(source, names.drop_first())
    }
}

/// The fields with the given names, in the order of the names.
pub open spec fn fields_named(source: Seq<FieldModel>, names: Seq<Seq<char>>) -> Seq<FieldModel> {
    Seq::new(
        names.len(),
        |i: int| source[schema::field_position(source, names[i]).unwrap()],
    )
}

/// The fields with the given names, or all where no name is given.
pub open spec fn scanned_schema(source: Seq<FieldModel>, names: Seq<Seq<char>>) -> Seq<
    FieldModel,
> {
    if names.len() == 0 {
        source
    } else {
        fields_named(source, names)
    }
}

impl ScanExec {
    /// Scans the named columns of a table with the given schema.
    pub fn new(source_schema: Schema, projection: Vec<String>) -> (r: Result<Self, FdapQueryError>)
        ensures
            match r {
                Ok(scan) => first_unknown(source_schema@, text::views(projection@)) is None
                    && scan.projection == projection && scan.schema@ == scanned_schema(
                    source_schema@,
                    text::views(projection@),
                ) && scan.properties.output_partitioning == Partitioning::UnknownPartitioning(1),
                Err(e) => first_unknown(source_schema@, text::views(projection@)) matches Some(name)
                    && e@ == Fault::SchemaError(
                    "ScanExec: projection column '"@ + name + "' not in source schema"@,
                ),
            },
    {
        let ghost names = text::views(projection@);
        let properties = PlanProperties::single_partition_unknown();
        if projection.is_empty() {
            assert(names.len() == 0);
            return Ok(ScanExec { projection, schema: source_schema, properties });
        }
        let mut fields: Vec<Field> = Vec::new();
        let mut i: usize = 0;
        assert(names.skip(0) == names);
        while i < projection.len()
            invariant
                names == text::views(projection@),
                i <= projection.len(),
                first_unknown(source_schema@, names) == first_unknown(
                    source_schema@,
                    names.skip(i as int),
                ),
                fields.len() == i,
                forall|j: int|
                    0 <= j < i ==> (#[trigger] fields@[j])@ == fields_named(source_schema@, names)[j],
            decreases projection.len() - i,
        {
            assert(names.skip(i as int)[0] == projection@[i as int]@);
            assert(names.skip(i as int).drop_first() == names.skip(i + 1));
            match source_schema.index_of(projection[i].as_str()) {
                Some(at) => {
                    fields.push(source_schema.fields[at].clone());
                },
                None => {
                    let mut m: String = owned("ScanExec: projection column '");
                    m.append(projection[i].as_str());
                    m.append("' not in source schema");
                    return Err(FdapQueryError::SchemaError(m));
                },
            }
            i += 1;
        }
        assert(names.skip(i as int).len() == 0);
        let schema = Schema::new(fields);
        assert(schema@ == fields_named(source_schema@, names));
        Ok(ScanExec { projection, schema, properties })
    }

    /// Starts scanning: gives the schema of the output.
    pub fn execute(&self, partition: usize) -> (r: Result<Schema, FdapQueryError>)
        ensures
            match r {
                Ok(schema) => partition == 0 && schema@ == self.schema@,
                Err(e) => partition != 0 && e@ == plan::no_such_partition("ScanExec"@, partition),
            },
    {
        match check_partition("ScanExec", partition) {
            Ok(_) => Ok(self.schema.clone()),
            Err(e) => Err(e),
        }
    }

    /// The operator itself, which takes no children.
    pub fn with_new_children(self, children: Vec<Arc<ExecutionPlan>>) -> (r: Result<
        Self,
        FdapQueryError,
    >)
        ensures
            match r {
                Ok(same) => children@.len() == 0 && same == self,
                Err(e) => children@.len() != 0 && e@ == plan::not_a_leaf(
                    "ScanExec"@,
                    children@.len(),
                ),
            },
    {
        match no_children("ScanExec", &children) {
            Ok(_) => Ok(self),
            Err(e) => Err(e),
        }
    }
}

impl DisplayAs for ScanExec {
    open spec fn displayable(&self) -> bool {
        true
    }

    open spec fn rendered(&self, t: DisplayFormatType) -> Seq<char> {
        "ScanExec: schema="@ + schema::schema_debug(self.schema@) + ", projection="@
            + text::quoted_list(text::views(self.projection@))
    }

    fn fmt_as(&self, t: DisplayFormatType) -> (r: String) {
        let mut out: String = owned("ScanExec: schema=");
        out.append(self.schema.debug_string().as_str());
        out.append(", projection=");
        push_quoted_list(&mut out, &self.projection);
        out
    }
}

} // verus!
