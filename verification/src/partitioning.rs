//! How the output of a plan is divided into partitions.
use vstd::prelude::*;
use crate::expr::{copy_exprs, expr_strings, Expr, PhysicalExpr};
use crate::text::{owned, push_decimal, push_joined};
use crate::{expr, text};

verus! {

/// The scheme by which output rows are spread over partitions.
#[derive(Debug)]
pub enum Partitioning {
    /// Batches are handed out in turn.
    RoundRobinBatch(usize),
    /// Rows go where the hash of the given expressions sends them.
    Hash(Vec<PhysicalExpr>, usize),
    /// Nothing is known but the number of partitions.
    UnknownPartitioning(usize),
}

/// The mathematical value of a partitioning.
pub enum PartitioningModel {
    RoundRobinBatch(usize),
    Hash(Seq<Expr>, usize),
    UnknownPartitioning(usize),
}

impl View for Partitioning {
    type V = PartitioningModel;

    open spec fn view(&self) -> PartitioningModel {
        match *self {
            Partitioning::RoundRobinBatch(n) => PartitioningModel::RoundRobinBatch(n),
            Partitioning::Hash(keys, n) => PartitioningModel::Hash(expr::exprs(keys@), n),
            Partitioning::UnknownPartitioning(n) => PartitioningModel::UnknownPartitioning(n),
        }
    }
}

impl Clone for Partitioning {
    fn clone(&self) -> (r: Self)
        ensures
            r@ == self@,
    {
        match self {
            Partitioning::RoundRobinBatch(n) => Partitioning::RoundRobinBatch(*n),
            Partitioning::Hash(keys, n) => Partitioning::Hash(copy_exprs(keys), *n),
            Partitioning::UnknownPartitioning(n) => Partitioning::UnknownPartitioning(*n),
        }
    }
}

impl PartitioningModel {
    /// The number of partitions.
    pub open spec fn count(self) -> usize {
        match self {
            PartitioningModel::RoundRobinBatch(n) => n,
            PartitioningModel::Hash(_, n) => n,
            PartitioningModel::UnknownPartitioning(n) => n,
        }
    }

    /// The text of the partitioning.
    pub open spec fn rendered(self) -> Seq<char> {
        match self {
            PartitioningModel::RoundRobinBatch(n) => "RoundRobinBatch("@ + text::decimal(n as nat)
                + ")"@,
            PartitioningModel::Hash(keys, n) => "Hash(["@ + text::join(
                expr::expr_texts(keys),
                ", "@,
            ) + "], "@ + text::decimal(n as nat) + ")"@,
            PartitioningModel::UnknownPartitioning(n) => "UnknownPartitioning("@ + text::decimal(
                n as nat,
            ) + ")"@,
        }
    }
}

impl Partitioning {
    /// The number of partitions.
    pub fn partition_count(&self) -> (r: usize)
        ensures
            r == self@.count(),
    {
        match self {
            Partitioning::RoundRobinBatch(n) => *n,
            Partitioning::Hash(_, n) => *n,
            Partitioning::UnknownPartitioning(n) => *n,
        }
    }

    /// The text of the partitioning.
    pub fn to_string(&self) -> (r: String)
        ensures
            r@ == self@.rendered(),
    {
        match self {
            Partitioning::RoundRobinBatch(n) => {
                let mut out: String = owned("RoundRobinBatch(");
                push_decimal(&mut out, *n as u128);
                out.append(")");
                out
            },
            Partitioning::Hash(keys, n) => {
                let mut out: String = owned("Hash([");
                let parts: Vec<String> = expr_strings(keys);
                push_joined(&mut out, &parts, ", ");
                out.append("], ");
                push_decimal(&mut out, *n as u128);
                out.append(")");
                out
            },
            Partitioning::UnknownPartitioning(n) => {
                let mut out: String = owned("UnknownPartitioning(");
                push_decimal(&mut out, *n as u128);
                out.append(")");
                out
            },
        }
    }
}

} // verus!
