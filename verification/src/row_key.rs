//! Keys of joins, groups and shuffles: the tuple of key cells of a row.
//!
//! Two keys are equal exactly when their cells are, floats by bit pattern and
//! null equal to null. Equal keys feed the same bytes to the hasher.
use vstd::prelude::*;
use vstd::bytes::{u16_to_le_bytes, u32_to_le_bytes, u64_to_le_bytes};
use vstd::std_specs::hash::DefaultHasherAdditionalSpecFns;
use std::collections::hash_map::DefaultHasher;
use std::hash::Hasher;
use crate::batch::RecordBatch;
use crate::scalar::{copy_cells, same_cells, Scalar, ScalarValue};
use crate::{batch, scalar};

verus! {

/// The key cells of one row.
#[derive(Debug)]
pub struct RowKey(pub Vec<ScalarValue>);

impl View for RowKey {
    type V = Seq<Scalar>;

    open spec fn view(&self) -> Seq<Scalar> {
        scalar::cells(self.0@)
    }
}

impl Clone for RowKey {
    fn clone(&self) -> (r: Self)
        ensures
            r@ == self@,
    {
        RowKey(copy_cells(&self.0))
    }
}

impl PartialEq for RowKey {
    fn eq(&self, other: &Self) -> (r: bool) {
        same_cells(&self.0, &other.0)
    }
}

impl vstd::std_specs::cmp::PartialEqSpecImpl for RowKey {
    open spec fn obeys_eq_spec() -> bool {
        true
    }

    open spec fn eq_spec(&self, other: &Self) -> bool {
        self@ == other@
    }
}

/// Equality of key cells: by bit pattern for floats, so that a not-a-number
/// cell equals itself, and null equal to null.
pub fn scalar_key_eq(a: &ScalarValue, b: &ScalarValue) -> (r: bool)
    ensures
        r == (a@ == b@),
{
    *a == *b
}

/// The cells of `row` in the given columns.
pub open spec fn key_cells(row: Seq<Scalar>, columns: Seq<usize>) -> Seq<Scalar> {
    Seq::new(columns.len(), |i: int| row[columns[i] as int])
}

/// The key of one row of a batch.
pub fn key_of(batch: &RecordBatch, keys: &Vec<usize>, row: usize) -> (r: RowKey)
    requires
        batch.wf(),
        row < batch.num_rows,
        forall|i: int| 0 <= i < keys@.len() ==> (#[trigger] keys@[i]) < batch.columns@.len(),
    ensures
        r@ == key_cells(batch.rows()[row as int], keys@),
{
    let mut key: Vec<ScalarValue> = Vec::new();
    let mut i: usize = 0;
    while i < keys.len()
        invariant
            batch.wf(),
            row < batch.num_rows,
            forall|i: int| 0 <= i < keys@.len() ==> (#[trigger] keys@[i]) < batch.columns@.len(),
            i <= keys.len(),
            key.len() == i,
            forall|j: int|
                0 <= j < i ==> (#[trigger] key@[j])@
                    == batch.columns@[keys@[j] as int]@[row as int]@,
        decreases keys.len() - i,
    {
        let k: usize = keys[i];
        assert(batch.columns@[k as int]@.len() == batch.num_rows);
        key.push(batch.columns[k][row].clone());
        i += 1;
    }
    let r = RowKey(key);
    assert(r@ == key_cells(batch.rows()[row as int], keys@));
    r
}

/// The number of the variant of a cell.
pub open spec fn variant_number(v: Scalar) -> u64 {
    match v {
        Scalar::Null => 0,
        Scalar::Boolean(_) => 1,
        Scalar::Int8(_) => 2,
        Scalar::Int16(_) => 3,
        Scalar::Int32(_) => 4,
        Scalar::Int64(_) => 5,
        Scalar::UInt8(_) => 6,
        Scalar::UInt16(_) => 7,
        Scalar::UInt32(_) => 8,
        Scalar::UInt64(_) => 9,
        Scalar::Float32(_) => 10,
        Scalar::Float64(_) => 11,
        Scalar::Utf8(_) => 12,
        Scalar::Binary(_) => 13,
        Scalar::Date32(_) => 14,
        Scalar::Other { .. } => 15,
    }
}

/// What hashing a cell writes after the variant number: the little-endian bytes
/// of a number, the bytes of a text closed by `0xff`, or the length and the
/// bytes of a byte string.
pub open spec fn payload_writes(v: Scalar) -> Seq<Seq<u8>> {
    match v {
        Scalar::Null => seq![],
        Scalar::Boolean(b) => seq![seq![if b { 1u8 } else { 0u8 }]],
        Scalar::Int8(n) => seq![seq![n as u8]],
        Scalar::Int16(n) => seq![vstd::bytes::spec_u16_to_le_bytes(n as u16)],
        Scalar::Int32(n) => seq![vstd::bytes::spec_u32_to_le_bytes(n as u32)],
        Scalar::Int64(n) => seq![vstd::bytes::spec_u64_to_le_bytes(n as u64)],
        Scalar::UInt8(n) => seq![seq![n]],
        Scalar::UInt16(n) => seq![vstd::bytes::spec_u16_to_le_bytes(n)],
        Scalar::UInt32(n) => seq![vstd::bytes::spec_u32_to_le_bytes(n)],
        Scalar::UInt64(n) => seq![vstd::bytes::spec_u64_to_le_bytes(n)],
        Scalar::Float32(n) => seq![vstd::bytes::spec_u32_to_le_bytes(n)],
        Scalar::Float64(n) => seq![vstd::bytes::spec_u64_to_le_bytes(n)],
        Scalar::Utf8(s) => seq![vstd::utf8::encode_utf8(s), seq![0xffu8]],
        Scalar::Binary(b) => seq![vstd::bytes::spec_u64_to_le_bytes(b.len() as u64), b],
        Scalar::Date32(n) => seq![vstd::bytes::spec_u32_to_le_bytes(n as u32)],
        Scalar::Other { kind, id } => seq![
            vstd::bytes::spec_u32_to_le_bytes(kind),
            vstd::bytes::spec_u64_to_le_bytes(id as u64),
        ],
    }
}

/// Everything that hashing a cell writes.
pub open spec fn scalar_writes(v: Scalar) -> Seq<Seq<u8>> {
    seq![vstd::bytes::spec_u64_to_le_bytes(variant_number(v))] + payload_writes(v)
}

/// Everything that hashing a key writes.
pub open spec fn key_writes(key: Seq<Scalar>) -> Seq<Seq<u8>>
    decreases key.len(),
{
    if key.len() == 0 {
        seq![]
    } else {
        key_writes(key.drop_last()) + scalar_writes(key.last())
    }
}

fn write_bytes(state: &mut DefaultHasher, bytes: &Vec<u8>)
    ensures
        final(state)@ == old(state)@.push(bytes@),
{
    state.write(bytes.as_slice());
}

fn write_byte(state: &mut DefaultHasher, byte: u8)
    ensures
        final(state)@ == old(state)@.push(seq![byte]),
{
    let mut bytes: Vec<u8> = Vec::new();
    bytes.push(byte);
    assert(bytes@ == seq![byte]);
    write_bytes(state, &bytes);
}

fn variant_of(v: &ScalarValue) -> (r: u64)
    ensures
        r == variant_number(v@),
{
    match v {
        ScalarValue::Null => 0,
        ScalarValue::Boolean(_) => 1,
        ScalarValue::Int8(_) => 2,
        ScalarValue::Int16(_) => 3,
        ScalarValue::Int32(_) => 4,
        ScalarValue::Int64(_) => 5,
        ScalarValue::UInt8(_) => 6,
        ScalarValue::UInt16(_) => 7,
        ScalarValue::UInt32(_) => 8,
        ScalarValue::UInt64(_) => 9,
        ScalarValue::Float32(_) => 10,
        ScalarValue::Float64(_) => 11,
        ScalarValue::Utf8(_) => 12,
        ScalarValue::Binary(_) => 13,
        ScalarValue::Date32(_) => 14,
        ScalarValue::Other { .. } => 15,
    }
}

/// Hashes one cell: the variant, then the bytes of the value.
pub fn hash_scalar(v: &ScalarValue, state: &mut DefaultHasher)
    ensures
        final(state)@ == old(state)@ + scalar_writes(v@),
{
    write_bytes(state, &u64_to_le_bytes(variant_of(v)));
    match v {
        ScalarValue::Null => {},
        ScalarValue::Boolean(b) => write_byte(
            state,
            if *b {
                1
            } else {
                0
            },
        ),
        ScalarValue::Int8(n) => write_byte(state, *n as u8),
        ScalarValue::Int16(n) => write_bytes(state, &u16_to_le_bytes(*n as u16)),
        ScalarValue::Int32(n) => write_bytes(state, &u32_to_le_bytes(*n as u32)),
        ScalarValue::Int64(n) => write_bytes(state, &u64_to_le_bytes(*n as u64)),
        ScalarValue::UInt8(n) => write_byte(state, *n),
        ScalarValue::UInt16(n) => write_bytes(state, &u16_to_le_bytes(*n)),
        ScalarValue::UInt32(n) => write_bytes(state, &u32_to_le_bytes(*n)),
        ScalarValue::UInt64(n) => write_bytes(state, &u64_to_le_bytes(*n)),
        ScalarValue::Float32(n) => write_bytes(state, &u32_to_le_bytes(*n)),
        ScalarValue::Float64(n) => write_bytes(state, &u64_to_le_bytes(*n)),
        ScalarValue::Utf8(s) => {
            state.write(s.as_str().as_bytes());
            write_byte(state, 0xff);
        },
        ScalarValue::Binary(b) => {
            write_bytes(state, &u64_to_le_bytes(b.len() as u64));
            write_bytes(state, b);
        },
        ScalarValue::Date32(n) => write_bytes(state, &u32_to_le_bytes(*n as u32)),
        ScalarValue::Other { kind, id } => {
            write_bytes(state, &u32_to_le_bytes(*kind));
            write_bytes(state, &u64_to_le_bytes(*id as u64));
        },
    }
    assert(state@ == old(state)@ + scalar_writes(v@));
}

impl RowKey {
    /// Whether a cell of the key is null.
    pub fn has_null(&self) -> (r: bool)
        ensures
            r == self@.contains(Scalar::Null),
    {
        let mut i: usize = 0;
        while i < self.0.len()
            invariant
                i <= self.0.len(),
                forall|j: int| 0 <= j < i ==> (#[trigger] self@[j]) != Scalar::Null,
            decreases self.0.len() - i,
        {
            if let ScalarValue::Null = self.0[i] {
                assert(self@[i as int] == Scalar::Null);
                return true;
            }
            assert(self@[i as int] != Scalar::Null);
            i += 1;
        }
        false
    }

    /// Hashes the cells of the key in order.
    pub fn hash(&self, state: &mut DefaultHasher)
        ensures
            final(state)@ == old(state)@ + key_writes(self@),
    {
        let mut i: usize = 0;
        assert(self@.take(0) == Seq::<Scalar>::empty());
        while i < self.0.len()
            invariant
                i <= self.0.len(),
                state@ == old(state)@ + key_writes(self@.take(i as int)),
            decreases self.0.len() - i,
        {
            hash_scalar(&self.0[i], state);
            assert(self@.take(i + 1).drop_last() == self@.take(i as int));
            assert(self@.take(i + 1).last() == self.0@[i as int]@);
            i += 1;
            assert(state@ == old(state)@ + key_writes(self@.take(i as int)));
        }
        assert(self@.take(i as int) == self@);
    }
}

/// The shuffle partition of a key: its hash, modulo the number of partitions.
pub open spec fn target_of(key: Seq<Scalar>, partition_count: int) -> int {
    DefaultHasher::spec_finish(key_writes(key)) as int % partition_count
}

/// The shuffle partition of a key.
pub fn target_partition(key: &RowKey, partition_count: usize) -> (r: usize)
    requires
        partition_count > 0,
    ensures
        r == target_of(key@, partition_count as int),
        r < partition_count,
{
    let mut hasher = DefaultHasher::new();
    key.hash(&mut hasher);
    assert(hasher@ == key_writes(key@));
    let h: u64 = hasher.finish();
    (h % partition_count as u64) as usize
}

} // verus!
