//! The hash join, batch by batch.
//!
//! The right input is read whole into the hash table; then each batch of the
//! left input is joined with it. A right join reads the left input once more to
//! learn which keys occur there, and then hands out the right rows whose key
//! does not.
use vstd::prelude::*;
use std::collections::HashSet;
use crate::batch::{create_batch, RecordBatch};
use crate::error::FdapQueryError;
use crate::hash_join_exec::NullEquality;
use crate::join_table::{JoinHashTable, JoinType};
use crate::scalar::{Scalar, ScalarValue};
use crate::schema::Schema;
use crate::{batch, hash_join_exec, join_laws, join_table, scalar};

verus! {

/// What a running join is reading.
#[derive(Clone, Copy, Debug, PartialEq, Eq, Structural)]
pub enum JoinPhase {
    /// The right input, into the hash table.
    Build,
    /// The left input, to join it.
    Probe,
    /// The left input once more, to learn which keys occur in it.
    Rescan,
    /// Nothing more.
    Done,
}

/// What a running join asks for next.
#[derive(Clone, Copy, Debug, PartialEq, Eq, Structural)]
pub enum JoinAction {
    /// Another batch of the right input.
    PullRight,
    /// The left input, from its start.
    OpenLeft,
    /// Another batch of the left input.
    PullLeft,
    /// Nothing.
    Finish,
}

/// What a batch of the left input leads to.
#[derive(Debug)]
pub struct JoinStep {
    pub output: Option<RecordBatch>,
    pub next: JoinAction,
}

/// A running hash join.
#[derive(Debug)]
pub struct HashJoinStream {
    pub join_type: JoinType,
    /// Whether nulls in keys equal each other.
    pub null_equality: NullEquality,
    pub left_keys: Vec<usize>,
    pub right_keys: Vec<usize>,
    pub excluded: HashSet<usize>,
    pub left_width: usize,
    pub right_width: usize,
    pub schema: Schema,
    pub table: JoinHashTable,
    pub matched: Vec<bool>,
    pub phase: JoinPhase,
}

/// Whether every position is below `width`.
pub open spec fn all_below(positions: Seq<usize>, width: usize) -> bool {
    forall|i: int| 0 <= i < positions.len() ==> (#[trigger] positions[i]) < width
}

/// What joined rows of the given width lead to: nothing where there are none,
/// and an error where they make no batch under the schema of the output.
pub open spec fn emitted(
    step: Result<JoinStep, FdapQueryError>,
    rows: Seq<Seq<Scalar>>,
    width: nat,
    schema: Schema,
    next: JoinAction,
) -> bool {
    match step {
        Ok(s) => s.next == next && match s.output {
            Some(out) => rows.len() > 0 && batch::batch_fault(
                schema@,
                batch::spread(rows, width, schema@.len()),
            ) is None && out.wf() && out.schema@ == schema@ && out.rows() == batch::filled_rows(
                rows,
                width,
                schema@.len(),
            ),
            None => rows.len() == 0,
        },
        Err(e) => rows.len() > 0 && batch::batch_fault(
            schema@,
            batch::spread(rows, width, schema@.len()),
        ) == Some(e@),
    }
}

/// Hands out joined rows.
fn emit(rows: Vec<Vec<ScalarValue>>, schema: &Schema, next: JoinAction, Ghost(width): Ghost<
    nat,
>) -> (r: Result<JoinStep, FdapQueryError>)
    requires
        join_laws::all_wide(scalar::rows_of(rows@), width),
        rows@.len() > 0 ==> width <= schema@.len(),
    ensures
        emitted(r, scalar::rows_of(rows@), width, *schema, next),
{
    if rows.is_empty() {
        return Ok(JoinStep { output: None, next });
    }
    proof {
        assert forall|i: int| 0 <= i < rows@.len() implies (#[trigger] rows@[i])@.len() == width by {
            assert(scalar::rows_of(rows@)[i].len() == width);
        }
    }
    match create_batch(&rows, schema) {
        Ok(batch) => Ok(JoinStep { output: Some(batch), next }),
        Err(e) => Err(e),
    }
}

impl HashJoinStream {
    /// The number of cells of a joined row.
    pub open spec fn width(&self) -> nat {
        join_laws::joined_width(
            self.left_width as nat,
            self.right_width as nat,
            self.excluded@,
        )
    }

    /// The join can be executed, and the hash table holds rows of the right
    /// input.
    pub open spec fn ready(&self) -> bool {
        &&& hash_join_exec::executable(self.join_type)
        &&& self.table.wf()
        &&& join_laws::buckets_wide(self.table@, self.right_width as nat)
        &&& self.phase == JoinPhase::Rescan ==> self.matched@.len() == self.table@.len()
    }

    /// The joined rows that a batch of the left input, or its end, leads to.
    pub open spec fn joined(&self, batch: Option<RecordBatch>) -> Seq<Seq<Scalar>> {
        match (self.phase, batch) {
            (JoinPhase::Probe, Some(b)) => join_table::probed_rows(
                self.join_type,
                self.null_equality,
                self.table@,
                b.rows(),
                self.left_keys@,
                self.right_width as nat,
                self.excluded@,
            ),
            (JoinPhase::Rescan, None) => join_table::unmatched_rows(
                self.table@,
                self.matched@,
                self.left_width as nat,
                self.excluded@,
            ),
            _ => seq![],
        }
    }

    /// Whether all that a join does not change is as in `other`.
    pub open spec fn same_join(&self, other: &Self) -> bool {
        &&& self.join_type == other.join_type
        &&& self.null_equality == other.null_equality
        &&& self.left_keys == other.left_keys
        &&& self.right_keys == other.right_keys
        &&& self.excluded == other.excluded
        &&& self.left_width == other.left_width
        &&& self.right_width == other.right_width
        &&& self.schema == other.schema
    }

    /// Takes a batch of the right input, or its end.
    pub fn on_right(&mut self, batch: Option<RecordBatch>) -> (r: JoinAction)
        requires
            old(self).ready(),
            old(self).phase == JoinPhase::Build,
            batch matches Some(b) ==> b.wf() && b.columns@.len() == old(self).right_width,
            batch matches Some(b) ==> b.num_rows > 0 ==> all_below(
                old(self).right_keys@,
                old(self).right_width,
            ),
        ensures
            final(self).ready(),
            final(self).same_join(&*old(self)),
            match batch {
                Some(b) => r == JoinAction::PullRight && final(self).phase == JoinPhase::Build
                    && final(self).table@ == join_table::with_rows(
                    old(self).table@,
                    b.rows(),
                    old(self).right_keys@,
                ),
                None => r == JoinAction::OpenLeft && final(self).phase == JoinPhase::Probe
                    && final(self).table@ == old(self).table@,
            },
    {
        match batch {
            Some(b) => {
                proof {
                    assert(join_laws::all_wide(b.rows(), self.right_width as nat));
                    join_laws::build_keeps_width(
                        self.table@,
                        b.rows(),
                        self.right_keys@,
                        self.right_width as nat,
                    );
                }
                self.table.insert_batch(&b, &self.right_keys);
                JoinAction::PullRight
            },
            None => {
                self.phase = JoinPhase::Probe;
                JoinAction::OpenLeft
            },
        }
    }

    /// The buckets hit so far, none of them at first.
    fn none_matched(&self) -> (r: Vec<bool>)
        requires
            self.table.wf(),
        ensures
            r@ == Seq::new(self.table@.len(), |k: int| false),
    {
        let mut r: Vec<bool> = Vec::new();
        let mut i: usize = 0;
        while i < self.table.keys.len()
            invariant
                i <= self.table.keys.len(),
                r.len() == i,
                forall|j: int| 0 <= j < i ==> !(#[trigger] r@[j]),
            decreases self.table.keys.len() - i,
        {
            r.push(false);
            i += 1;
        }
        assert(r@ == Seq::new(self.table@.len(), |k: int| false));
        r
    }

    /// Takes a batch of the left input, or its end.
    pub fn on_left(&mut self, batch: Option<RecordBatch>) -> (r: Result<JoinStep, FdapQueryError>)
        requires
            old(self).ready(),
            old(self).phase == JoinPhase::Probe || old(self).phase == JoinPhase::Rescan,
            batch matches Some(b) ==> b.wf() && b.columns@.len() == old(self).left_width,
            batch matches Some(b) ==> b.num_rows > 0 ==> all_below(
                old(self).left_keys@,
                old(self).left_width,
            ),
            old(self).joined(batch).len() > 0 ==> old(self).width() <= old(self).schema@.len(),
        ensures
            final(self).ready(),
            final(self).same_join(&*old(self)),
            final(self).table == old(self).table,
            match (old(self).phase, batch) {
                (JoinPhase::Probe, Some(_)) => final(self).phase == JoinPhase::Probe,
                (JoinPhase::Probe, None) => if old(self).join_type == JoinType::Right {
                    final(self).phase == JoinPhase::Rescan && final(self).matched@ == Seq::new(
                        old(self).table@.len(),
                        |k: int| false,
                    )
                } else {
                    final(self).phase == JoinPhase::Done
                },
                (_, Some(b)) => final(self).phase == JoinPhase::Rescan && final(self).matched@
                    == join_table::hits(
                    old(self).null_equality,
                    old(self).table@,
                    old(self).matched@,
                    b.rows(),
                    old(self).left_keys@,
                ),
                (_, None) => final(self).phase == JoinPhase::Done,
            },
            emitted(
                r,
                old(self).joined(batch),
                old(self).width(),
                old(self).schema,
                match (batch, final(self).phase) {
                    (Some(_), _) => JoinAction::PullLeft,
                    (None, JoinPhase::Rescan) => JoinAction::OpenLeft,
                    (None, _) => JoinAction::Finish,
                },
            ),
    {
        match (self.phase, batch) {
            (JoinPhase::Probe, Some(b)) => {
                let rows = self.table.probe_batch(
                    self.join_type,
                    self.null_equality,
                    &b,
                    &self.left_keys,
                    self.right_width,
                    &self.excluded,
                );
                proof {
                    assert(join_laws::all_wide(b.rows(), self.left_width as nat));
                    join_laws::probe_width(
                        self.join_type,
                        self.null_equality,
                        self.table@,
                        b.rows(),
                        self.left_keys@,
                        self.left_width as nat,
                        self.right_width as nat,
                        self.excluded@,
                    );
                }
                emit(rows, &self.schema, JoinAction::PullLeft, Ghost(self.width()))
            },
            (JoinPhase::Probe, None) => {
                if self.join_type == JoinType::Right {
                    self.matched = self.none_matched();
                    self.phase = JoinPhase::Rescan;
                    Ok(JoinStep { output: None, next: JoinAction::OpenLeft })
                } else {
                    self.phase = JoinPhase::Done;
                    Ok(JoinStep { output: None, next: JoinAction::Finish })
                }
            },
            (_, Some(b)) => {
                let mut matched: Vec<bool> = Vec::new();
                std::mem::swap(&mut matched, &mut self.matched);
                self.table.note_hits(self.null_equality, &mut matched, &b, &self.left_keys);
                self.matched = matched;
                Ok(JoinStep { output: None, next: JoinAction::PullLeft })
            },
            (_, None) => {
                let rows = self.table.unmatched(&self.matched, self.left_width, &self.excluded);
                proof {
                    join_laws::unmatched_width(
                        self.table@,
                        self.matched@,
                        self.left_width as nat,
                        self.right_width as nat,
                        self.excluded@,
                    );
                }
                self.phase = JoinPhase::Done;
                emit(rows, &self.schema, JoinAction::Finish, Ghost(self.width()))
            },
        }
    }
}

} // verus!
