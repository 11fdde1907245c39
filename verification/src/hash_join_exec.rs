//! The hash join operator.
use vstd::prelude::*;
use std::collections::HashSet;
use std::sync::Arc;
use crate::display::{DisplayAs, DisplayFormatType};
use crate::error::{Fault, FdapQueryError};
use crate::expr::{Expr, PhysicalExpr};
use crate::hash_join_stream::{HashJoinStream, JoinPhase};
use crate::join_table::{JoinHashTable, JoinType};
use crate::partitioning::Partitioning;
use crate::plan::{check_partition, ExecutionPlan};
use crate::plan_properties::PlanProperties;
use crate::schema::{FieldModel, Schema};
use crate::text::{owned, push_decimal, push_joined};
use crate::{expr, join_table, plan, text};

verus! {

/// How the inputs of a join are partitioned.
#[derive(Clone, Copy, Debug, PartialEq, Eq, Structural)]
pub enum PartitionMode {
    /// Both inputs are partitioned by the join keys.
    Partitioned,
    /// The left input is collected into one partition.
    CollectLeft,
    /// The choice is left open.
    Auto,
}

impl PartitionMode {
    /// The name of the mode.
    pub open spec fn spec_name(self) -> Seq<char> {
        match self {
            PartitionMode::Partitioned => "Partitioned"@,
            PartitionMode::CollectLeft => "CollectLeft"@,
            PartitionMode::Auto => "Auto"@,
        }
    }

    /// The name of the mode.
    pub fn name(&self) -> (r: &'static str)
        ensures
            r@ == self.spec_name(),
    {
        match self {
            PartitionMode::Partitioned => "Partitioned",
            PartitionMode::CollectLeft => "CollectLeft",
            PartitionMode::Auto => "Auto",
        }
    }

    /// The mode that a join runs in: an open choice becomes `Partitioned`.
    pub open spec fn settled(self) -> PartitionMode {
        match self {
            PartitionMode::Auto => PartitionMode::Partitioned,
            _ => self,
        }
    }
}

/// The input that a column of a join comes from.
#[derive(Clone, Copy, Debug, PartialEq, Eq, Structural)]
pub enum JoinSide {
    Left,
    Right,
    /// Neither input.
    Neither,
}

/// Whether nulls in join keys equal each other.
#[derive(Clone, Copy, Debug, PartialEq, Eq, Structural)]
pub enum NullEquality {
    NullEqualsNothing,
    NullEqualsNull,
}

/// Where a column of a join comes from.
#[derive(Clone, Copy, Debug, PartialEq, Eq, Structural)]
pub struct ColumnIndex {
    /// The position of the column in its input.
    pub index: usize,
    /// The input that holds the column.
    pub side: JoinSide,
}

/// A condition on joined rows beyond the equality of keys.
#[derive(Debug)]
pub struct JoinFilter {
    pub expression: PhysicalExpr,
    pub column_indices: Vec<ColumnIndex>,
    pub schema: Schema,
}

impl JoinFilter {
    /// A filter of the given parts.
    pub fn new(
        expression: PhysicalExpr,
        column_indices: Vec<ColumnIndex>,
        schema: Schema,
    ) -> (r: Self)
        ensures
            r == (JoinFilter { expression, column_indices, schema }),
    {
        JoinFilter { expression, column_indices, schema }
    }

    /// The condition.
    pub fn expression(&self) -> (r: &PhysicalExpr)
        ensures
            *r == self.expression,
    {
        &self.expression
    }

    /// Where the columns that the condition reads come from.
    pub fn column_indices(&self) -> (r: &[ColumnIndex])
        ensures
            r@ == self.column_indices@,
    {
        self.column_indices.as_slice()
    }

    /// The schema that the condition reads.
    pub fn schema(&self) -> (r: &Schema)
        ensures
            *r == self.schema,
    {
        &self.schema
    }
}

/// The pairs of expressions whose equality joins two rows.
pub type JoinOn = Vec<(PhysicalExpr, PhysicalExpr)>;

/// A borrowed [`JoinOn`].
pub type JoinOnRef<'a> = &'a [(PhysicalExpr, PhysicalExpr)];

/// Joins two inputs on the equality of keys, by hashing one of them.
#[derive(Debug)]
pub struct HashJoinExec {
    pub left: Arc<ExecutionPlan>,
    pub right: Arc<ExecutionPlan>,
    pub on: JoinOn,
    pub filter: Option<JoinFilter>,
    pub join_type: JoinType,
    pub join_schema: Schema,
    pub mode: PartitionMode,
    pub projection: Option<Vec<usize>>,
    pub column_indices: Vec<ColumnIndex>,
    pub null_equality: NullEquality,
    pub null_aware: bool,
    /// The columns of the right input that the output leaves out.
    pub right_columns_to_exclude: HashSet<usize>,
    pub properties: PlanProperties,
}

/// The join keys, by their mathematical values.
pub open spec fn key_pairs(on: Seq<(PhysicalExpr, PhysicalExpr)>) -> Seq<(Expr, Expr)> {
    Seq::new(on.len(), |i: int| (on[i].0@, on[i].1@))
}

/// The pairs of a join, each as text.
pub open spec fn pair_texts(on: Seq<(Expr, Expr)>, between: Seq<char>) -> Seq<Seq<char>> {
    Seq::new(
        on.len(),
        |i: int| "("@ + expr::expr_text(on[i].0) + between + expr::expr_text(on[i].1) + ")"@,
    )
}

/// The projected columns, each by its name and position.
pub open spec fn projection_texts(schema: Seq<FieldModel>, projection: Seq<usize>) -> Seq<
    Seq<char>,
> {
    Seq::new(
        projection.len(),
        |i: int| expr::column_text(schema[projection[i] as int].name, projection[i] as nat),
    )
}

/// Whether a join type can be executed.
pub open spec fn executable(join_type: JoinType) -> bool {
    join_type == JoinType::Inner || join_type == JoinType::Left || join_type == JoinType::Right
}

/// The error of a join key that is no column.
pub open spec fn key_fault(side: Seq<char>, key: Expr) -> Fault {
    Fault::Internal(
        "HashJoinExec: "@ + side + " join key must be a Column expression, got: "@
            + expr::expr_text(key),
    )
}

/// The error of the first join key that is no column, if there is one; of a
/// pair the left key comes first.
pub open spec fn keys_fault(on: Seq<(Expr, Expr)>) -> Option<Fault>
    decreases on.len(),
{
    if on.len() == 0 {
        None
    } else if !(on[0].0 is Column) {
        Some(key_fault("left"@, on[0].0))
    } else if !(on[0].1 is Column) {
        Some(key_fault("right"@, on[0].1))
    } else {
        keys_fault(on.drop_first())
    }
}

/// The column positions of the left keys.
pub open spec fn left_positions(on: Seq<(Expr, Expr)>) -> Seq<usize> {
    Seq::new(on.len(), |i: int| on[i].0->Column_index)
}

/// The column positions of the right keys.
pub open spec fn right_positions(on: Seq<(Expr, Expr)>) -> Seq<usize> {
    Seq::new(on.len(), |i: int| on[i].1->Column_index)
}

/// The error of a join type that cannot be executed.
pub open spec fn join_type_fault(join_type: JoinType) -> Fault {
    Fault::Internal(
        "HashJoinExec: JoinType::"@ + join_type.spec_name()
            + " is not yet implemented; supported variants are Inner, Left, Right"@,
    )
}

/// The column position of a join key.
pub fn on_index(expr: &PhysicalExpr, side: &str) -> (r: Result<usize, FdapQueryError>)
    ensures
        match r {
            Ok(i) => expr@ is Column && i == expr@->Column_index,
            Err(e) => !(expr@ is Column) && e@ == key_fault(side@, expr@),
        },
{
    match expr {
        PhysicalExpr::Column { name: _, index } => Ok(*index),
        other => {
            let mut m: String = owned("HashJoinExec: ");
            m.append(side);
            m.append(" join key must be a Column expression, got: ");
            m.append(other.to_string().as_str());
            Err(FdapQueryError::Internal(m))
        },
    }
}

/// `HashSet::clone`: a set of the same elements.
#[verifier::external_body]
fn copy_set(set: &HashSet<usize>) -> (r: HashSet<usize>)
    ensures
        r@ == set@,
{
    set.clone()
}

/// The pairs of a join, each as text.
fn pair_strings(on: &JoinOn, between: &str) -> (r: Vec<String>)
    ensures
        text::views(r@) == pair_texts(key_pairs(on@), between@),
{
    let mut r: Vec<String> = Vec::new();
    let mut i: usize = 0;
    while i < on.len()
        invariant
            i <= on.len(),
            r.len() == i,
            forall|j: int|
                0 <= j < i ==> (#[trigger] r@[j])@ == "("@ + expr::expr_text(on@[j].0@) + between@
                    + expr::expr_text(on@[j].1@) + ")"@,
        decreases on.len() - i,
    {
        let mut one: String = owned("(");
        one.append(on[i].0.to_string().as_str());
        one.append(between);
        one.append(on[i].1.to_string().as_str());
        one.append(")");
        r.push(one);
        i += 1;
    }
    assert(text::views(r@) == pair_texts(key_pairs(on@), between@));
    r
}

/// The projected columns, each by its name and position.
fn projection_strings(schema: &Schema, projection: &Vec<usize>) -> (r: Vec<String>)
    requires
        forall|i: int| 0 <= i < projection@.len() ==> (#[trigger] projection@[i]) < schema@.len(),
    ensures
        text::views(r@) == projection_texts(schema@, projection@),
{
    let mut r: Vec<String> = Vec::new();
    let mut i: usize = 0;
    while i < projection.len()
        invariant
            forall|i: int|
                0 <= i < projection@.len() ==> (#[trigger] projection@[i]) < schema@.len(),
            i <= projection.len(),
            r.len() == i,
            forall|j: int|
                0 <= j < i ==> (#[trigger] r@[j])@ == expr::column_text(
                    schema@[projection@[j] as int].name,
                    projection@[j] as nat,
                ),
        decreases projection.len() - i,
    {
        let index: usize = projection[i];
        let mut one: String = schema.fields[index].name.clone();
        one.append("@");
        push_decimal(&mut one, index as u128);
        r.push(one);
        i += 1;
    }
    assert(text::views(r@) == projection_texts(schema@, projection@));
    r
}

impl HashJoinExec {
    /// A join of two inputs. An open partition mode becomes `Partitioned`; the
    /// output schema is that of the left input until another is set, and no
    /// column of the right input is left out.
    pub fn try_new(
        left: Arc<ExecutionPlan>,
        right: Arc<ExecutionPlan>,
        on: JoinOn,
        filter: Option<JoinFilter>,
        join_type: &JoinType,
        projection: Option<Vec<usize>>,
        partition_mode: PartitionMode,
        null_equality: NullEquality,
        null_aware: bool,
    ) -> (r: Result<Self, FdapQueryError>)
        ensures
            r matches Ok(join) && {
                &&& join.left == left
                &&& join.right == right
                &&& join.on == on
                &&& join.filter == filter
                &&& join.join_type == *join_type
                &&& join.join_schema@ == left.spec_schema()
                &&& join.mode == partition_mode.settled()
                &&& join.projection == projection
                &&& join.column_indices@ == Seq::<ColumnIndex>::empty()
                &&& join.null_equality == null_equality
                &&& join.null_aware == null_aware
                &&& join.right_columns_to_exclude@ == Set::<usize>::empty()
                &&& join.properties.output_partitioning == Partitioning::UnknownPartitioning(1)
            },
    {
        let mode = match partition_mode {
            PartitionMode::Auto => PartitionMode::Partitioned,
            other => other,
        };
        let join_schema = left.schema();
        let properties = PlanProperties::single_partition_unknown();
        Ok(
            HashJoinExec {
                left,
                right,
                on,
                filter,
                join_type: *join_type,
                join_schema,
                mode,
                projection,
                column_indices: Vec::new(),
                null_equality,
                null_aware,
                right_columns_to_exclude: HashSet::new(),
                properties,
            },
        )
    }

    /// The same join with another output schema.
    pub fn with_join_schema(self, schema: Schema) -> (r: Self)
        ensures
            r == (HashJoinExec { join_schema: schema, ..self }),
    {
        let mut r = self;
        r.join_schema = schema;
        r
    }

    /// The same join with other column origins.
    pub fn with_column_indices(self, column_indices: Vec<ColumnIndex>) -> (r: Self)
        ensures
            r == (HashJoinExec { column_indices, ..self }),
    {
        let mut r = self;
        r.column_indices = column_indices;
        r
    }

    /// The same join, leaving other columns of the right input out.
    pub fn with_right_columns_to_exclude(self, excluded: HashSet<usize>) -> (r: Self)
        ensures
            r == (HashJoinExec { right_columns_to_exclude: excluded, ..self }),
    {
        let mut r = self;
        r.right_columns_to_exclude = excluded;
        r
    }

    /// The left input.
    pub fn left(&self) -> (r: &Arc<ExecutionPlan>)
        ensures
            *r == self.left,
    {
        &self.left
    }

    /// The right input.
    pub fn right(&self) -> (r: &Arc<ExecutionPlan>)
        ensures
            *r == self.right,
    {
        &self.right
    }

    /// The pairs of join keys.
    pub fn on(&self) -> (r: JoinOnRef<'_>)
        ensures
            r@ == self.on@,
    {
        self.on.as_slice()
    }

    /// The condition beyond the equality of keys.
    pub fn filter(&self) -> (r: Option<&JoinFilter>)
        ensures
            r == match self.filter {
                Some(f) => Some(&f),
                None => None,
            },
    {
        match &self.filter {
            Some(f) => Some(f),
            None => None,
        }
    }

    /// How rows are paired.
    pub fn join_type(&self) -> (r: &JoinType)
        ensures
            *r == self.join_type,
    {
        &self.join_type
    }

    /// The output schema.
    pub fn join_schema(&self) -> (r: &Schema)
        ensures
            *r == self.join_schema,
    {
        &self.join_schema
    }

    /// How the inputs are partitioned.
    pub fn partition_mode(&self) -> (r: &PartitionMode)
        ensures
            *r == self.mode,
    {
        &self.mode
    }

    /// Whether nulls in keys equal each other.
    pub fn null_equality(&self) -> (r: NullEquality)
        ensures
            r == self.null_equality,
    {
        self.null_equality
    }

    /// Where the output columns come from.
    pub fn column_indices(&self) -> (r: &[ColumnIndex])
        ensures
            r@ == self.column_indices@,
    {
        self.column_indices.as_slice()
    }

    /// Whether the output is projected.
    pub fn contains_projection(&self) -> (r: bool)
        ensures
            r == self.projection is Some,
    {
        self.projection.is_some()
    }

    /// The same join over other inputs, left first.
    pub fn with_new_children(self, children: Vec<Arc<ExecutionPlan>>) -> (r: Result<
        Self,
        FdapQueryError,
    >)
        ensures
            match r {
                Ok(join) => children@.len() == 2 && {
                    &&& join.left == children@[0]
                    &&& join.right == children@[1]
                    &&& join.on == self.on
                    &&& join.filter == self.filter
                    &&& join.join_type == self.join_type
                    &&& join.join_schema == self.join_schema
                    &&& join.mode == self.mode.settled()
                    &&& join.projection == self.projection
                    &&& join.column_indices == self.column_indices
                    &&& join.null_equality == self.null_equality
                    &&& join.null_aware == self.null_aware
                    &&& join.right_columns_to_exclude == self.right_columns_to_exclude
                    &&& join.properties.output_partitioning == Partitioning::UnknownPartitioning(1)
                },
                Err(e) => children@.len() != 2 && e@ == Fault::Internal(
                    "HashJoinExec::with_new_children expected 2 children (left, right), got "@
                        + text::decimal(children@.len()),
                ),
            },
    {
        let mut children = children;
        if children.len() != 2 {
            let mut m: String = owned(
                "HashJoinExec::with_new_children expected 2 children (left, right), got ",
            );
            push_decimal(&mut m, children.len() as u128);
            return Err(FdapQueryError::Internal(m));
        }
        let left = children.remove(0);
        let right = children.remove(0);
        match HashJoinExec::try_new(
            left,
            right,
            self.on,
            self.filter,
            &self.join_type,
            self.projection,
            self.mode,
            self.null_equality,
            self.null_aware,
        ) {
            Ok(rebuilt) => {
                let mut rebuilt = rebuilt;
                rebuilt.join_schema = self.join_schema;
                rebuilt.column_indices = self.column_indices;
                rebuilt.right_columns_to_exclude = self.right_columns_to_exclude;
                Ok(rebuilt)
            },
            Err(e) => Err(e),
        }
    }

    /// The error of executing a partition, if there is one: a partition other
    /// than the first, a join type that cannot be executed, or a key that is
    /// no column.
    pub open spec fn refusal(&self, partition: usize) -> Option<Fault> {
        if partition != 0 {
            Some(plan::no_such_partition("HashJoinExec"@, partition))
        } else if !executable(self.join_type) {
            Some(join_type_fault(self.join_type))
        } else {
            keys_fault(key_pairs(self.on@))
        }
    }

    /// Starts joining: the right input is read first.
    pub fn execute(&self, partition: usize) -> (r: Result<HashJoinStream, FdapQueryError>)
        ensures
            match r {
                Ok(stream) => self.refusal(partition) is None && {
                    &&& stream.join_type == self.join_type
                    &&& stream.null_equality == self.null_equality
                    &&& stream.left_keys@ == left_positions(key_pairs(self.on@))
                    &&& stream.right_keys@ == right_positions(key_pairs(self.on@))
                    &&& stream.excluded@ == self.right_columns_to_exclude@
                    &&& stream.left_width == self.left.spec_schema().len()
                    &&& stream.right_width == self.right.spec_schema().len()
                    &&& stream.schema@ == self.join_schema@
                    &&& stream.table.wf()
                    &&& stream.table@ == Seq::<join_table::Bucket>::empty()
                    &&& stream.phase == JoinPhase::Build
                },
                Err(e) => self.refusal(partition) == Some(e@),
            },
    {
        if let Err(e) = check_partition("HashJoinExec", partition) {
            return Err(e);
        }
        match self.join_type {
            JoinType::Inner | JoinType::Left | JoinType::Right => {},
            other => {
                let mut m: String = owned("HashJoinExec: JoinType::");
                m.append(other.name());
                m.append(" is not yet implemented; supported variants are Inner, Left, Right");
                return Err(FdapQueryError::Internal(m));
            },
        }
        let ghost pairs = key_pairs(self.on@);
        let mut left_keys: Vec<usize> = Vec::new();
        let mut right_keys: Vec<usize> = Vec::new();
        let mut i: usize = 0;
        assert(pairs.skip(0) == pairs);
        while i < self.on.len()
            invariant
                i <= self.on.len(),
                partition == 0,
                executable(self.join_type),
                pairs == key_pairs(self.on@),
                keys_fault(pairs) == keys_fault(pairs.skip(i as int)),
                left_keys@ == left_positions(pairs.take(i as int)),
                right_keys@ == right_positions(pairs.take(i as int)),
            decreases self.on.len() - i,
        {
            assert(pairs.skip(i as int)[0] == pairs[i as int]);
            assert(pairs.skip(i as int).drop_first() == pairs.skip(i + 1));
            match on_index(&self.on[i].0, "left") {
                Ok(k) => left_keys.push(k),
                Err(e) => {
                    return Err(e);
                },
            }
            match on_index(&self.on[i].1, "right") {
                Ok(k) => right_keys.push(k),
                Err(e) => {
                    return Err(e);
                },
            }
            i += 1;
            assert(left_keys@ == left_positions(pairs.take(i as int)));
            assert(right_keys@ == right_positions(pairs.take(i as int)));
        }
        assert(pairs.take(i as int) == pairs);
        assert(pairs.skip(i as int).len() == 0);
        let left_schema = self.left.schema();
        let right_schema = self.right.schema();
        Ok(
            HashJoinStream {
                join_type: self.join_type,
                null_equality: self.null_equality,
                left_keys,
                right_keys,
                excluded: copy_set(&self.right_columns_to_exclude),
                left_width: left_schema.len(),
                right_width: right_schema.len(),
                schema: self.join_schema.clone(),
                table: JoinHashTable::new(),
                matched: Vec::new(),
                phase: JoinPhase::Build,
            },
        )
    }
}

impl DisplayAs for HashJoinExec {
    /// Every projected column exists.
    open spec fn displayable(&self) -> bool {
        match self.projection {
            Some(p) => forall|i: int|
                0 <= i < p@.len() ==> (#[trigger] p@[i]) < self.join_schema@.len(),
            None => true,
        }
    }

    open spec fn rendered(&self, t: DisplayFormatType) -> Seq<char> {
        let on = key_pairs(self.on@);
        match t {
            DisplayFormatType::TreeRender => (if self.join_type != JoinType::Inner {
                "join_type="@ + self.join_type.spec_name() + "\n"@
            } else {
                seq![]
            }) + "on="@ + text::join(pair_texts(on, " = "@), ", "@) + "\n"@ + (
            if self.null_equality == NullEquality::NullEqualsNull {
                "NullsEqual: true\n"@
            } else {
                seq![]
            }) + (if self.null_aware {
                "null_aware\n"@
            } else {
                seq![]
            }) + match self.filter {
                Some(f) => "filter="@ + expr::expr_text(f.expression@) + "\n"@,
                None => seq![],
            },
            _ => "HashJoinExec: mode="@ + self.mode.spec_name() + ", join_type="@
                + self.join_type.spec_name() + ", on=["@ + text::join(pair_texts(on, ", "@), ", "@)
                + "]"@ + (match self.filter {
                Some(f) => ", filter="@ + expr::expr_text(f.expression@),
                None => seq![],
            }) + (match self.projection {
                Some(p) => ", projection=["@ + text::join(
                    projection_texts(self.join_schema@, p@),
                    ", "@,
                ) + "]"@,
                None => seq![],
            }) + (if self.null_equality == NullEquality::NullEqualsNull {
                ", NullsEqual: true"@
            } else {
                seq![]
            }) + (if self.null_aware {
                ", null_aware"@
            } else {
                seq![]
            }),
        }
    }

    fn fmt_as(&self, t: DisplayFormatType) -> (r: String) {
        let mut out: String = String::new();
        match t {
            DisplayFormatType::TreeRender => {
                if self.join_type != JoinType::Inner {
                    out.append("join_type=");
                    out.append(self.join_type.name());
                    out.append("\n");
                }
                let pairs = pair_strings(&self.on, " = ");
                out.append("on=");
                push_joined(&mut out, &pairs, ", ");
                out.append("\n");
                if self.null_equality == NullEquality::NullEqualsNull {
                    out.append("NullsEqual: true\n");
                }
                if self.null_aware {
                    out.append("null_aware\n");
                }
                if let Some(filter) = &self.filter {
                    out.append("filter=");
                    out.append(filter.expression.to_string().as_str());
                    out.append("\n");
                }
                assert(out@ == self.rendered(t));
            },
            _ => {
                out.append("HashJoinExec: mode=");
                out.append(self.mode.name());
                out.append(", join_type=");
                out.append(self.join_type.name());
                out.append(", on=[");
                let pairs = pair_strings(&self.on, ", ");
                push_joined(&mut out, &pairs, ", ");
                out.append("]");
                if let Some(filter) = &self.filter {
                    out.append(", filter=");
                    out.append(filter.expression.to_string().as_str());
                }
                if let Some(projection) = &self.projection {
                    out.append(", projection=[");
                    let columns = projection_strings(&self.join_schema, projection);
                    push_joined(&mut out, &columns, ", ");
                    out.append("]");
                }
                if self.null_equality == NullEquality::NullEqualsNull {
                    out.append(", NullsEqual: true");
                }
                if self.null_aware {
                    out.append(", null_aware");
                }
                assert(out@ == self.rendered(t));
            },
        }
        out
    }
}

} // verus!
