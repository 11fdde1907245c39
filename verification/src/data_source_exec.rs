//! The operator that reads files.
use vstd::prelude::*;
use std::sync::Arc;
use crate::display::{DisplayAs, DisplayFormatType};
use crate::error::FdapQueryError;
use crate::partitioning::Partitioning;
use crate::plan::{no_children, ExecutionPlan};
use crate::plan_properties::PlanProperties;
use crate::schema::{Field, FieldModel, Schema};
use crate::text::owned;
use crate::{batch, plan};

verus! {

/// A file of comma-separated values.
#[derive(Debug)]
pub struct CsvDataSourceConfig {
    pub filename: String,
    /// The schema of the file, before any projection.
    pub full_schema: Schema,
    /// The columns to read; nothing given means all.
    pub projection: Option<Vec<usize>>,
    pub has_headers: bool,
    pub batch_size: usize,
    pub delimiter: u8,
}

/// A Parquet file.
#[derive(Debug)]
pub struct ParquetDataSourceConfig {
    pub filename: String,
    /// The schema of the file, before any projection.
    pub full_schema: Schema,
    /// The columns to read; nothing given means all.
    pub projection: Option<Vec<usize>>,
}

/// A file and how to read it.
#[derive(Debug)]
pub enum DataSource {
    Csv(CsvDataSourceConfig),
    Parquet(ParquetDataSourceConfig),
}

/// The fields of the projected columns.
pub open spec fn projected_schema(full: Seq<FieldModel>, projection: Option<Vec<usize>>) -> Seq<
    FieldModel,
> {
    match projection {
        Some(indices) => batch::projected(full, indices@),
        None => full,
    }
}

/// Every projected column exists.
pub open spec fn valid_projection(full: Seq<FieldModel>, projection: Option<Vec<usize>>) -> bool {
    match projection {
        Some(indices) => forall|i: int|
            0 <= i < indices@.len() ==> (#[trigger] indices@[i]) < full.len(),
        None => true,
    }
}

/// The fields of the projected columns.
fn project_schema(full: &Schema, projection: &Option<Vec<usize>>) -> (r: Schema)
    requires
        valid_projection(full@, *projection),
    ensures
        r@ == projected_schema(full@, *projection),
{
    match projection {
        Some(indices) => {
            let mut fields: Vec<Field> = Vec::new();
            let mut i: usize = 0;
            while i < indices.len()
                invariant
                    forall|i: int|
                        0 <= i < indices@.len() ==> (#[trigger] indices@[i]) < full@.len(),
                    i <= indices.len(),
                    fields.len() == i,
                    forall|j: int|
                        0 <= j < i ==> (#[trigger] fields@[j])@ == full@[indices@[j] as int],
                decreases indices.len() - i,
            {
                let at: usize = indices[i];
                fields.push(full.fields[at].clone());
                i += 1;
            }
            let r = Schema::new(fields);
            assert(r@ == batch::projected(full@, indices@));
            r
        },
        None => full.clone(),
    }
}

impl DataSource {
    /// The path of the file.
    pub open spec fn spec_filename(self) -> Seq<char> {
        match self {
            DataSource::Csv(c) => c.filename@,
            DataSource::Parquet(c) => c.filename@,
        }
    }

    /// The schema of the file, before any projection.
    pub open spec fn spec_full_schema(self) -> Seq<FieldModel> {
        match self {
            DataSource::Csv(c) => c.full_schema@,
            DataSource::Parquet(c) => c.full_schema@,
        }
    }

    /// The columns to read.
    pub open spec fn spec_projection(self) -> Option<Vec<usize>> {
        match self {
            DataSource::Csv(c) => c.projection,
            DataSource::Parquet(c) => c.projection,
        }
    }

    /// The format of the file.
    pub open spec fn spec_format(self) -> Seq<char> {
        match self {
            DataSource::Csv(_) => "csv"@,
            DataSource::Parquet(_) => "parquet"@,
        }
    }

    /// Every projected column exists.
    pub open spec fn wf(self) -> bool {
        valid_projection(self.spec_full_schema(), self.spec_projection())
    }

    /// The path of the file.
    pub fn filename(&self) -> (r: &String)
        ensures
            r@ == self.spec_filename(),
    {
        match self {
            DataSource::Csv(c) => &c.filename,
            DataSource::Parquet(c) => &c.filename,
        }
    }

    /// The schema of the file, before any projection.
    pub fn full_schema(&self) -> (r: &Schema)
        ensures
            r@ == self.spec_full_schema(),
    {
        match self {
            DataSource::Csv(c) => &c.full_schema,
            DataSource::Parquet(c) => &c.full_schema,
        }
    }

    /// The columns to read.
    pub fn projection(&self) -> (r: &Option<Vec<usize>>)
        ensures
            *r == self.spec_projection(),
    {
        match self {
            DataSource::Csv(c) => &c.projection,
            DataSource::Parquet(c) => &c.projection,
        }
    }

    /// The format of the file.
    pub fn format_name(&self) -> (r: &'static str)
        ensures
            r@ == self.spec_format(),
    {
        match self {
            DataSource::Csv(_) => "csv",
            DataSource::Parquet(_) => "parquet",
        }
    }
}

/// Reads a file.
#[derive(Debug)]
pub struct DataSourceExec {
    pub source: DataSource,
    /// The schema of the columns that are read.
    pub schema: Schema,
    pub properties: PlanProperties,
}

impl DataSourceExec {
    /// Reads the projected columns of a file.
    pub fn new(source: DataSource) -> (r: Self)
        requires
            source.wf(),
        ensures
            r.source == source,
            r.schema@ == projected_schema(source.spec_full_schema(), source.spec_projection()),
            r.properties.output_partitioning == Partitioning::UnknownPartitioning(1),
    {
        let schema = project_schema(source.full_schema(), source.projection());
        let properties = PlanProperties::single_partition_unknown();
        DataSourceExec { source, schema, properties }
    }

    /// The file and how it is read.
    pub fn source(&self) -> (r: &DataSource)
        ensures
            *r == self.source,
    {
        &self.source
    }

    /// The operator itself, which takes no children.
    pub fn with_new_children(self, children: Vec<Arc<ExecutionPlan>>) -> (r: Result<
        Self,
        FdapQueryError,
    >)
        ensures
            match r {
                Ok(same) => children@.len() == 0 && same == self,
                Err(e) => children@.len() != 0 && e@ == plan::not_a_leaf(
                    "DataSourceExec"@,
                    children@.len(),
                ),
            },
    {
        match no_children("DataSourceExec", &children) {
            Ok(_) => Ok(self),
            Err(e) => Err(e),
        }
    }
}

impl DisplayAs for DataSourceExec {
    open spec fn displayable(&self) -> bool {
        true
    }

    open spec fn rendered(&self, t: DisplayFormatType) -> Seq<char> {
        match t {
            DisplayFormatType::TreeRender => "file="@ + self.source.spec_filename() + "\nformat="@
                + self.source.spec_format(),
            _ => "DataSourceExec: file="@ + self.source.spec_filename() + ", format="@
                + self.source.spec_format(),
        }
    }

    fn fmt_as(&self, t: DisplayFormatType) -> (r: String) {
        match t {
            DisplayFormatType::TreeRender => {
                let mut out: String = owned("file=");
                out.append(self.source.filename().as_str());
                out.append("\nformat=");
                out.append(self.source.format_name());
                out
            },
            _ => {
                let mut out: String = owned("DataSourceExec: file=");
                out.append(self.source.filename().as_str());
                out.append(", format=");
                out.append(self.source.format_name());
                out
            },
        }
    }
}

} // verus!
