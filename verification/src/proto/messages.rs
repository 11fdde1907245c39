//! The messages that plans are sent as.
//!
//! A message holds what may be absent as an option; an enumeration may hold a
//! number without a name.
use vstd::prelude::*;

verus! {

/// The type of a column.
#[derive(Clone, Copy, Debug, PartialEq, Eq, Structural)]
pub enum ArrowType {
    Bool,
    Uint8,
    Int8,
    Uint16,
    Int16,
    Uint32,
    Int32,
    Uint64,
    Int64,
    Float,
    Double,
    Utf8,
    Date32,
    /// A number that is no type of a column here.
    Other(i32),
}

/// An aggregate function.
#[derive(Clone, Copy, Debug, PartialEq, Eq, Structural)]
pub enum AggregateFunctionTag {
    Min,
    Max,
    Sum,
    Avg,
    Count,
    CountDistinct,
    /// A number that is no function here.
    Other(i32),
}

/// The mode of an aggregation.
#[derive(Clone, Copy, Debug, PartialEq, Eq, Structural)]
pub enum AggregateModeTag {
    Complete,
    Partial,
    Final,
    /// A number that is no mode here.
    Other(i32),
}

/// How a join pairs rows.
#[derive(Clone, Copy, Debug, PartialEq, Eq, Structural)]
pub enum JoinTypeTag {
    Inner,
    Left,
    Right,
}

/// A field of a schema.
#[derive(Debug)]
pub struct FieldMessage {
    pub name: String,
    pub arrow_type: ArrowType,
    pub nullable: bool,
}

/// The mathematical value of a field message.
pub struct FieldMessageModel {
    pub name: Seq<char>,
    pub arrow_type: ArrowType,
    pub nullable: bool,
}

impl View for FieldMessage {
    type V = FieldMessageModel;

    open spec fn view(&self) -> FieldMessageModel {
        FieldMessageModel {
            name: self.name@,
            arrow_type: self.arrow_type,
            nullable: self.nullable,
        }
    }
}

/// A schema.
#[derive(Debug)]
pub struct SchemaMessage {
    pub columns: Vec<FieldMessage>,
}

impl View for SchemaMessage {
    type V = Seq<FieldMessageModel>;

    open spec fn view(&self) -> Seq<FieldMessageModel> {
        Seq::new(self.columns@.len(), |i: int| self.columns@[i]@)
    }
}

/// Where a partition of a shuffle is kept.
#[derive(Debug)]
pub struct ShuffleLocationMessage {
    pub job_uuid: String,
    pub stage_id: i32,
    pub partition_id: i32,
    pub executor_id: String,
    pub executor_host: String,
    pub executor_port: i32,
}

impl View for ShuffleLocationMessage {
    type V = crate::shuffle_location::ShuffleLocationModel;

    open spec fn view(&self) -> crate::shuffle_location::ShuffleLocationModel {
        crate::shuffle_location::ShuffleLocationModel {
            job_uuid: self.job_uuid@,
            stage_id: self.stage_id,
            partition_id: self.partition_id,
            executor_id: self.executor_id@,
            executor_host: self.executor_host@,
            executor_port: self.executor_port,
        }
    }
}

/// The values of some location messages.
pub open spec fn location_messages(list: Seq<ShuffleLocationMessage>) -> Seq<
    crate::shuffle_location::ShuffleLocationModel,
> {
    Seq::new(list.len(), |i: int| list[i]@)
}

/// A physical expression.
#[derive(Debug)]
pub struct PhysicalExprNode {
    pub expr_type: Option<PhysicalExprType>,
}

/// What a physical expression is.
#[derive(Debug)]
pub enum PhysicalExprType {
    Column { name: String, index: u32 },
    LiteralLong(i64),
    /// A number by its bits.
    LiteralDouble(u64),
    LiteralString(String),
    LiteralDate(i32),
    BinaryExpr {
        l: Option<Box<PhysicalExprNode>>,
        r: Option<Box<PhysicalExprNode>>,
        op: String,
    },
    CastExpr { expr: Option<Box<PhysicalExprNode>>, arrow_type: ArrowType },
}

/// The mathematical value of a physical expression message.
pub enum PhysicalExprModel {
    Unset,
    Column { name: Seq<char>, index: u32 },
    LiteralLong(i64),
    LiteralDouble(u64),
    LiteralString(Seq<char>),
    LiteralDate(i32),
    BinaryExpr {
        l: Option<Box<PhysicalExprModel>>,
        r: Option<Box<PhysicalExprModel>>,
        op: Seq<char>,
    },
    CastExpr { expr: Option<Box<PhysicalExprModel>>, arrow_type: ArrowType },
}

/// The value of an expression message that may be absent.
pub open spec fn opt_expr(node: Option<Box<PhysicalExprNode>>) -> Option<Box<PhysicalExprModel>>
    decreases node,
{
    match node {
        Some(n) => Some(Box::new(n.model())),
        None => None,
    }
}

impl PhysicalExprNode {
    /// The value of the message.
    pub open spec fn model(self) -> PhysicalExprModel
        decreases self,
    {
        match self.expr_type {
            None => PhysicalExprModel::Unset,
            Some(PhysicalExprType::Column { name, index }) => PhysicalExprModel::Column {
                name: name@,
                index,
            },
            Some(PhysicalExprType::LiteralLong(n)) => PhysicalExprModel::LiteralLong(n),
            Some(PhysicalExprType::LiteralDouble(n)) => PhysicalExprModel::LiteralDouble(n),
            Some(PhysicalExprType::LiteralString(s)) => PhysicalExprModel::LiteralString(s@),
            Some(PhysicalExprType::LiteralDate(d)) => PhysicalExprModel::LiteralDate(d),
            Some(PhysicalExprType::BinaryExpr { l, r, op }) => PhysicalExprModel::BinaryExpr {
                l: opt_expr(l),
                r: opt_expr(r),
                op: op@,
            },
            Some(PhysicalExprType::CastExpr { expr, arrow_type }) => PhysicalExprModel::CastExpr {
                expr: opt_expr(expr),
                arrow_type,
            },
        }
    }
}

impl View for PhysicalExprNode {
    type V = PhysicalExprModel;

    open spec fn view(&self) -> PhysicalExprModel {
        self.model()
    }
}

/// The values of some expression messages.
pub open spec fn expr_models(list: Seq<PhysicalExprNode>) -> Seq<PhysicalExprModel> {
    Seq::new(list.len(), |i: int| list[i]@)
}

/// An aggregate.
#[derive(Debug)]
pub struct PhysicalAggregateExprNode {
    pub aggr_function: AggregateFunctionTag,
    pub input_expr: Option<PhysicalExprNode>,
}

/// The mathematical value of an aggregate message.
pub struct PhysicalAggregateModel {
    pub aggr_function: AggregateFunctionTag,
    pub input_expr: Option<PhysicalExprModel>,
}

impl View for PhysicalAggregateExprNode {
    type V = PhysicalAggregateModel;

    open spec fn view(&self) -> PhysicalAggregateModel {
        PhysicalAggregateModel {
            aggr_function: self.aggr_function,
            input_expr: match self.input_expr {
                Some(e) => Some(e@),
                None => None,
            },
        }
    }
}

/// The values of some aggregate messages.
pub open spec fn aggregate_models(list: Seq<PhysicalAggregateExprNode>) -> Seq<
    PhysicalAggregateModel,
> {
    Seq::new(list.len(), |i: int| list[i]@)
}

/// A physical plan.
#[derive(Debug)]
pub struct PhysicalPlanNode {
    pub plan_type: Option<PhysicalPlanType>,
}

/// What a physical plan is.
#[allow(inconsistent_fields)]
#[derive(Debug)]
pub enum PhysicalPlanType {
    Scan {
        path: String,
        schema: Option<SchemaMessage>,
        projection: Vec<String>,
        file_format: String,
    },
    Projection {
        input: Option<Box<PhysicalPlanNode>>,
        schema: Option<SchemaMessage>,
        expr: Vec<PhysicalExprNode>,
    },
    Selection { input: Option<Box<PhysicalPlanNode>>, expr: Option<PhysicalExprNode> },
    HashAggregate {
        input: Option<Box<PhysicalPlanNode>>,
        group_expr: Vec<PhysicalExprNode>,
        aggregate_expr: Vec<PhysicalAggregateExprNode>,
        schema: Option<SchemaMessage>,
        mode: AggregateModeTag,
    },
    ShuffleWriter {
        input: Option<Box<PhysicalPlanNode>>,
        partition_expr: Vec<PhysicalExprNode>,
        job_uuid: String,
        stage_id: i32,
        partition_count: i32,
    },
    ShuffleReader {
        schema: Option<SchemaMessage>,
        shuffle_locations: Vec<ShuffleLocationMessage>,
    },
}

/// The mathematical value of a physical plan message.
#[allow(inconsistent_fields)]
pub enum PhysicalPlanModel {
    Unset,
    Scan {
        path: Seq<char>,
        schema: Option<Seq<FieldMessageModel>>,
        projection: Seq<Seq<char>>,
        file_format: Seq<char>,
    },
    Projection {
        input: Option<Box<PhysicalPlanModel>>,
        schema: Option<Seq<FieldMessageModel>>,
        expr: Seq<PhysicalExprModel>,
    },
    Selection { input: Option<Box<PhysicalPlanModel>>, expr: Option<PhysicalExprModel> },
    HashAggregate {
        input: Option<Box<PhysicalPlanModel>>,
        group_expr: Seq<PhysicalExprModel>,
        aggregate_expr: Seq<PhysicalAggregateModel>,
        schema: Option<Seq<FieldMessageModel>>,
        mode: AggregateModeTag,
    },
    ShuffleWriter {
        input: Option<Box<PhysicalPlanModel>>,
        partition_expr: Seq<PhysicalExprModel>,
        job_uuid: Seq<char>,
        stage_id: i32,
        partition_count: i32,
    },
    ShuffleReader {
        schema: Option<Seq<FieldMessageModel>>,
        shuffle_locations: Seq<crate::shuffle_location::ShuffleLocationModel>,
    },
}

/// The value of a plan message that may be absent.
pub open spec fn opt_plan(node: Option<Box<PhysicalPlanNode>>) -> Option<Box<PhysicalPlanModel>>
    decreases node,
{
    match node {
        Some(n) => Some(Box::new(n.model())),
        None => None,
    }
}

/// The value of a schema message that may be absent.
pub open spec fn opt_schema(schema: Option<SchemaMessage>) -> Option<Seq<FieldMessageModel>> {
    match schema {
        Some(s) => Some(s@),
        None => None,
    }
}

impl PhysicalPlanNode {
    /// The value of the message.
    pub open spec fn model(self) -> PhysicalPlanModel
        decreases self,
    {
        match self.plan_type {
            None => PhysicalPlanModel::Unset,
            Some(PhysicalPlanType::Scan { path, schema, projection, file_format }) =>
                PhysicalPlanModel::Scan {
                    path: path@,
                    schema: opt_schema(schema),
                    projection: crate::text::views(projection@),
                    file_format: file_format@,
                },
            Some(PhysicalPlanType::Projection { input, schema, expr }) =>
                PhysicalPlanModel::Projection {
                    input: opt_plan(input),
                    schema: opt_schema(schema),
                    expr: expr_models(expr@),
                },
            Some(PhysicalPlanType::Selection { input, expr }) => PhysicalPlanModel::Selection {
                input: opt_plan(input),
                expr: match expr {
                    Some(e) => Some(e@),
                    None => None,
                },
            },
            Some(
                PhysicalPlanType::HashAggregate { input, group_expr, aggregate_expr, schema, mode },
            ) => PhysicalPlanModel::HashAggregate {
                input: opt_plan(input),
                group_expr: expr_models(group_expr@),
                aggregate_expr: aggregate_models(aggregate_expr@),
                schema: opt_schema(schema),
                mode,
            },
            Some(
                PhysicalPlanType::ShuffleWriter {
                    input,
                    partition_expr,
                    job_uuid,
                    stage_id,
                    partition_count,
                },
            ) => PhysicalPlanModel::ShuffleWriter {
                input: opt_plan(input),
                partition_expr: expr_models(partition_expr@),
                job_uuid: job_uuid@,
                stage_id,
                partition_count,
            },
            Some(PhysicalPlanType::ShuffleReader { schema, shuffle_locations }) =>
                PhysicalPlanModel::ShuffleReader {
                    schema: opt_schema(schema),
                    shuffle_locations: location_messages(shuffle_locations@),
                },
        }
    }
}

impl View for PhysicalPlanNode {
    type V = PhysicalPlanModel;

    open spec fn view(&self) -> PhysicalPlanModel {
        self.model()
    }
}

/// A task: a plan and where in a job it stands.
#[derive(Debug)]
pub struct TaskInfo {
    pub job_uuid: String,
    pub stage_id: i32,
    pub task_id: i32,
    pub partition_id: i32,
    pub plan: Option<PhysicalPlanNode>,
}

/// A logical expression.
#[derive(Debug)]
pub struct LogicalExprNode {
    pub expr_type: Option<LogicalExprType>,
}

/// What a logical expression is.
#[derive(Debug)]
pub enum LogicalExprType {
    ColumnName(String),
    LiteralString(String),
    LiteralInt8(i32),
    LiteralInt16(i32),
    LiteralInt32(i32),
    LiteralInt64(i64),
    LiteralUint8(u32),
    LiteralUint16(u32),
    LiteralUint32(u32),
    LiteralUint64(u64),
    /// A number by its bits.
    LiteralF32(u32),
    /// A number by its bits.
    LiteralF64(u64),
    LiteralDate(i32),
    Alias { expr: Option<Box<LogicalExprNode>>, alias: String },
    BinaryExpr { l: Option<Box<LogicalExprNode>>, r: Option<Box<LogicalExprNode>>, op: String },
    AggregateExpr { aggr_function: AggregateFunctionTag, expr: Option<Box<LogicalExprNode>> },
    IsNullExpr,
    IsNotNullExpr,
    NotExpr,
}

/// The mathematical value of a logical expression message.
pub enum LogicalExprModel {
    Unset,
    ColumnName(Seq<char>),
    LiteralString(Seq<char>),
    LiteralInt8(i32),
    LiteralInt16(i32),
    LiteralInt32(i32),
    LiteralInt64(i64),
    LiteralUint8(u32),
    LiteralUint16(u32),
    LiteralUint32(u32),
    LiteralUint64(u64),
    LiteralF32(u32),
    LiteralF64(u64),
    LiteralDate(i32),
    Alias { expr: Option<Box<LogicalExprModel>>, alias: Seq<char> },
    BinaryExpr {
        l: Option<Box<LogicalExprModel>>,
        r: Option<Box<LogicalExprModel>>,
        op: Seq<char>,
    },
    AggregateExpr { aggr_function: AggregateFunctionTag, expr: Option<Box<LogicalExprModel>> },
    IsNullExpr,
    IsNotNullExpr,
    NotExpr,
}

/// The value of a logical expression message that may be absent.
pub open spec fn opt_logical_expr(node: Option<Box<LogicalExprNode>>) -> Option<
    Box<LogicalExprModel>,
>
    decreases node,
{
    match node {
        Some(n) => Some(Box::new(n.model())),
        None => None,
    }
}

impl LogicalExprNode {
    /// The value of the message.
    pub open spec fn model(self) -> LogicalExprModel
        decreases self,
    {
        match self.expr_type {
            None => LogicalExprModel::Unset,
            Some(LogicalExprType::ColumnName(s)) => LogicalExprModel::ColumnName(s@),
            Some(LogicalExprType::LiteralString(s)) => LogicalExprModel::LiteralString(s@),
            Some(LogicalExprType::LiteralInt8(n)) => LogicalExprModel::LiteralInt8(n),
            Some(LogicalExprType::LiteralInt16(n)) => LogicalExprModel::LiteralInt16(n),
            Some(LogicalExprType::LiteralInt32(n)) => LogicalExprModel::LiteralInt32(n),
            Some(LogicalExprType::LiteralInt64(n)) => LogicalExprModel::LiteralInt64(n),
            Some(LogicalExprType::LiteralUint8(n)) => LogicalExprModel::LiteralUint8(n),
            Some(LogicalExprType::LiteralUint16(n)) => LogicalExprModel::LiteralUint16(n),
            Some(LogicalExprType::LiteralUint32(n)) => LogicalExprModel::LiteralUint32(n),
            Some(LogicalExprType::LiteralUint64(n)) => LogicalExprModel::LiteralUint64(n),
            Some(LogicalExprType::LiteralF32(n)) => LogicalExprModel::LiteralF32(n),
            Some(LogicalExprType::LiteralF64(n)) => LogicalExprModel::LiteralF64(n),
            Some(LogicalExprType::LiteralDate(d)) => LogicalExprModel::LiteralDate(d),
            Some(LogicalExprType::Alias { expr, alias }) => LogicalExprModel::Alias {
                expr: opt_logical_expr(expr),
                alias: alias@,
            },
            Some(LogicalExprType::BinaryExpr { l, r, op }) => LogicalExprModel::BinaryExpr {
                l: opt_logical_expr(l),
                r: opt_logical_expr(r),
                op: op@,
            },
            Some(LogicalExprType::AggregateExpr { aggr_function, expr }) =>
                LogicalExprModel::AggregateExpr { aggr_function, expr: opt_logical_expr(expr) },
            Some(LogicalExprType::IsNullExpr) => LogicalExprModel::IsNullExpr,
            Some(LogicalExprType::IsNotNullExpr) => LogicalExprModel::IsNotNullExpr,
            Some(LogicalExprType::NotExpr) => LogicalExprModel::NotExpr,
        }
    }
}

impl View for LogicalExprNode {
    type V = LogicalExprModel;

    open spec fn view(&self) -> LogicalExprModel {
        self.model()
    }
}

/// The values of some logical expression messages.
pub open spec fn logical_expr_models(list: Seq<LogicalExprNode>) -> Seq<LogicalExprModel> {
    Seq::new(list.len(), |i: int| list[i]@)
}

/// A scan of a file of comma-separated values.
#[derive(Debug)]
pub struct CsvTableScanNode {
    pub path: String,
    pub projection: Option<Vec<String>>,
    pub has_header: bool,
}

/// A scan of a Parquet file.
#[derive(Debug)]
pub struct ParquetTableScanNode {
    pub path: String,
    pub projection: Option<Vec<String>>,
}

/// A filter.
#[derive(Debug)]
pub struct FilterNode {
    pub expr: Option<LogicalExprNode>,
}

/// A projection.
#[derive(Debug)]
pub struct ProjectionNode {
    pub expr: Vec<LogicalExprNode>,
}

/// A limit.
#[derive(Debug)]
pub struct LimitNode {
    pub limit: u32,
}

/// An aggregation.
#[derive(Debug)]
pub struct AggregateNode {
    pub group_expr: Vec<LogicalExprNode>,
    pub aggr_expr: Vec<LogicalExprNode>,
}

/// A join.
#[derive(Debug)]
pub struct JoinNode {
    pub left: Option<Box<LogicalPlanNode>>,
    pub right: Option<Box<LogicalPlanNode>>,
    pub join_type: JoinTypeTag,
    pub left_join_column: Vec<String>,
    pub right_join_column: Vec<String>,
}

/// A logical plan: the one part that is set says what it is.
#[derive(Debug)]
pub struct LogicalPlanNode {
    pub input: Option<Box<LogicalPlanNode>>,
    pub csv_scan: Option<CsvTableScanNode>,
    pub parquet_scan: Option<ParquetTableScanNode>,
    pub selection: Option<FilterNode>,
    pub projection: Option<ProjectionNode>,
    pub limit: Option<LimitNode>,
    pub aggregate: Option<AggregateNode>,
    pub join: Option<Box<JoinNode>>,
}

impl LogicalPlanNode {
    /// A message with nothing set.
    pub fn empty() -> (r: Self)
        ensures
            r == (LogicalPlanNode {
                input: None,
                csv_scan: None,
                parquet_scan: None,
                selection: None,
                projection: None,
                limit: None,
                aggregate: None,
                join: None,
            }),
    {
        LogicalPlanNode {
            input: None,
            csv_scan: None,
            parquet_scan: None,
            selection: None,
            projection: None,
            limit: None,
            aggregate: None,
            join: None,
        }
    }
}

/// A request to an executor.
#[derive(Debug)]
pub struct ActionMessage {
    pub query: Option<LogicalPlanNode>,
}

} // verus!
