//! What is hashed of a key.
use vstd::prelude::*;
use vstd::bytes::{
    lemma_auto_spec_u16_to_from_le_bytes, lemma_auto_spec_u32_to_from_le_bytes,
    lemma_auto_spec_u64_to_from_le_bytes,
};
use vstd::std_specs::hash::DefaultHasherAdditionalSpecFns;
use std::collections::hash_map::DefaultHasher;
use crate::batch;
use crate::row_key;
use crate::scalar::{Scalar, ScalarValue};
use crate::shuffle_writer_exec;

verus! {

proof fn first_cell_is_written_first(key: Seq<Scalar>)
    requires
        key.len() > 0,
    ensures
        row_key::key_writes(key) == row_key::scalar_writes(key[0]) + row_key::key_writes(
            key.drop_first(),
        ),
    decreases key.len(),
{
    if key.len() == 1 {
        assert(key.drop_last() =~= Seq::<Scalar>::empty());
        assert(key.drop_first() =~= Seq::<Scalar>::empty());
        assert(row_key::key_writes(key.drop_last()) =~= Seq::<Seq<u8>>::empty());
        assert(key.last() == key[0]);
        assert(row_key::key_writes(key) == row_key::key_writes(key.drop_last())
            + row_key::scalar_writes(key.last()));
        assert(row_key::key_writes(key) =~= row_key::scalar_writes(key[0]));
        assert(row_key::key_writes(key.drop_first()) =~= Seq::<Seq<u8>>::empty());
        assert(row_key::scalar_writes(key[0]) + Seq::<Seq<u8>>::empty() =~= row_key::scalar_writes(
            key[0],
        ));
    } else {
        first_cell_is_written_first(key.drop_last());
        assert(key.drop_last().drop_first() =~= key.drop_first().drop_last());
        assert(key.drop_first().last() == key.last());
        assert(key.drop_last()[0] == key[0]);
        assert(row_key::key_writes(key) =~= row_key::scalar_writes(key[0]) + row_key::key_writes(
            key.drop_first(),
        ));
    }
}

proof fn bits_of_numbers(a: i8, b: i8, c: i16, d: i16, e: i32, f: i32, g: i64, h: i64)
    ensures
        a as u8 == b as u8 ==> a == b,
        c as u16 == d as u16 ==> c == d,
        e as u32 == f as u32 ==> e == f,
        g as u64 == h as u64 ==> g == h,
{
    assert(a as u8 == b as u8 ==> a == b) by (bit_vector);
    assert(c as u16 == d as u16 ==> c == d) by (bit_vector);
    assert(e as u32 == f as u32 ==> e == f) by (bit_vector);
    assert(g as u64 == h as u64 ==> g == h) by (bit_vector);
}

/// What hashing a cell writes tells the cell, whatever is written after it.
pub proof fn the_writes_of_a_cell_tell_the_cell(
    a: Scalar,
    b: Scalar,
    p: Seq<Seq<u8>>,
    q: Seq<Seq<u8>>,
)
    requires
        row_key::scalar_writes(a) + p == row_key::scalar_writes(b) + q,
    ensures
        a == b,
        p == q,
{
    lemma_auto_spec_u16_to_from_le_bytes();
    lemma_auto_spec_u32_to_from_le_bytes();
    lemma_auto_spec_u64_to_from_le_bytes();
    let x = row_key::scalar_writes(a);
    let y = row_key::scalar_writes(b);
    assert((x + p)[0] == x[0]);
    assert((y + q)[0] == y[0]);
    assert(row_key::variant_number(a) == row_key::variant_number(b));
    assert(x.len() == y.len());
    assert forall|i: int| 0 <= i < x.len() implies x[i] == y[i] by {
        assert((x + p)[i] == (y + q)[i]);
    }
    assert(p =~= (x + p).skip(x.len() as int));
    assert(q =~= (y + q).skip(y.len() as int));
    if x.len() > 1 {
        assert(x[1] == row_key::payload_writes(a)[0]);
        assert(y[1] == row_key::payload_writes(b)[0]);
    }
    if x.len() > 2 {
        assert(x[2] == row_key::payload_writes(a)[1]);
        assert(y[2] == row_key::payload_writes(b)[1]);
    }
    match (a, b) {
        (Scalar::Boolean(m), Scalar::Boolean(n)) => {
            assert(x[1][0] == y[1][0]);
        },
        (Scalar::Int8(m), Scalar::Int8(n)) => {
            assert(x[1][0] == y[1][0]);
            bits_of_numbers(m, n, 0, 0, 0, 0, 0, 0);
        },
        (Scalar::UInt8(m), Scalar::UInt8(n)) => {
            assert(x[1][0] == y[1][0]);
        },
        (Scalar::Int16(m), Scalar::Int16(n)) => {
            bits_of_numbers(0, 0, m, n, 0, 0, 0, 0);
        },
        (Scalar::Int32(m), Scalar::Int32(n)) => {
            bits_of_numbers(0, 0, 0, 0, m, n, 0, 0);
        },
        (Scalar::Date32(m), Scalar::Date32(n)) => {
            bits_of_numbers(0, 0, 0, 0, m, n, 0, 0);
        },
        (Scalar::Int64(m), Scalar::Int64(n)) => {
            bits_of_numbers(0, 0, 0, 0, 0, 0, m, n);
        },
        (Scalar::Other { id: m, .. }, Scalar::Other { id: n, .. }) => {
            bits_of_numbers(0, 0, 0, 0, 0, 0, m, n);
        },
        (Scalar::Utf8(m), Scalar::Utf8(n)) => {
            vstd::utf8::encode_utf8_decode_utf8(m);
            vstd::utf8::encode_utf8_decode_utf8(n);
        },
        _ => {},
    }
}

/// Every cell of a key goes into its hash: keys that differ in a cell, or in how
/// many cells they have, write different bytes, and the same key always writes
/// the same.
pub proof fn different_keys_write_different_bytes(a: Seq<Scalar>, b: Seq<Scalar>)
    ensures
        row_key::key_writes(a) == row_key::key_writes(b) <==> a == b,
    decreases a.len(),
{
    if row_key::key_writes(a) == row_key::key_writes(b) {
        if a.len() > 0 {
            first_cell_is_written_first(a);
        }
        if b.len() > 0 {
            first_cell_is_written_first(b);
        }
        if a.len() == 0 {
            assert(row_key::key_writes(a).len() == 0);
            if b.len() > 0 {
                assert(row_key::key_writes(b).len() > 0);
            }
            assert(a =~= b);
        } else if b.len() == 0 {
            assert(row_key::key_writes(b).len() == 0);
            assert(row_key::key_writes(a).len() > 0);
        } else {
            the_writes_of_a_cell_tell_the_cell(
                a[0],
                b[0],
                row_key::key_writes(a.drop_first()),
                row_key::key_writes(b.drop_first()),
            );
            different_keys_write_different_bytes(a.drop_first(), b.drop_first());
            assert(a =~= seq![a[0]] + a.drop_first());
            assert(b =~= seq![b[0]] + b.drop_first());
        }
    }
}

/// A key is hashed cell by cell, in the order of its cells.
pub proof fn a_key_is_hashed_cell_by_cell(key: Seq<Scalar>)
    ensures
        row_key::key_writes(key) == key.map_values(
            |v: Scalar| row_key::scalar_writes(v),
        ).flatten(),
    decreases key.len(),
{
    let f = |v: Scalar| row_key::scalar_writes(v);
    if key.len() > 0 {
        a_key_is_hashed_cell_by_cell(key.drop_last());
        assert(key.map_values(f) =~= key.drop_last().map_values(f).push(f(key.last())));
        key.drop_last().map_values(f).lemma_flatten_push(f(key.last()));
    } else {
        assert(row_key::key_writes(key) =~= key.map_values(f).flatten());
    }
}

/// Of a cell the number of its type is hashed first, in eight bytes, and then its
/// value: a number as its bytes, the lowest first; a text as its bytes and a byte
/// that no text holds; bytes after their number. Of null the type alone is hashed.
pub proof fn a_cell_is_hashed_as_its_type_and_its_value(v: Scalar)
    ensures
        row_key::scalar_writes(v).len() > 0,
        row_key::scalar_writes(v)[0] == vstd::bytes::spec_u64_to_le_bytes(
            row_key::variant_number(v),
        ),
        ({
            let value = row_key::scalar_writes(v).skip(1);
            match v {
                Scalar::Null => value.len() == 0,
                Scalar::Int32(n) => value == seq![vstd::bytes::spec_u32_to_le_bytes(n as u32)],
                Scalar::Date32(n) => value == seq![vstd::bytes::spec_u32_to_le_bytes(n as u32)],
                Scalar::Int64(n) => value == seq![vstd::bytes::spec_u64_to_le_bytes(n as u64)],
                Scalar::UInt32(n) => value == seq![vstd::bytes::spec_u32_to_le_bytes(n)],
                Scalar::UInt64(n) => value == seq![vstd::bytes::spec_u64_to_le_bytes(n)],
                Scalar::Float32(n) => value == seq![vstd::bytes::spec_u32_to_le_bytes(n)],
                Scalar::Float64(n) => value == seq![vstd::bytes::spec_u64_to_le_bytes(n)],
                Scalar::Utf8(s) => value == seq![vstd::utf8::encode_utf8(s), seq![0xffu8]],
                Scalar::Binary(b) => value == seq![
                    vstd::bytes::spec_u64_to_le_bytes(b.len() as u64),
                    b,
                ],
                _ => true,
            }
        }),
{
    assert(row_key::scalar_writes(v).skip(1) =~= row_key::payload_writes(v));
}

/// The target of a key is the remainder of its hash by the number of partitions.
pub proof fn a_target_is_the_remainder_of_the_hash(key: Seq<Scalar>, partitions: int)
    requires
        partitions > 0,
    ensures
        row_key::target_of(key, partitions) == DefaultHasher::spec_finish(
            key.map_values(|v: Scalar| row_key::scalar_writes(v)).flatten(),
        ) as int % partitions,
{
    a_key_is_hashed_cell_by_cell(key);
}

/// A row goes to the partition that its cells in all key columns, hashed in the
/// order of the columns, send it to.
pub proof fn every_key_column_decides_the_target(
    columns: Seq<Vec<ScalarValue>>,
    n: nat,
    partitions: int,
    i: int,
)
    requires
        partitions > 0,
        0 <= i < n,
    ensures
        shuffle_writer_exec::row_targets(columns, n, partitions)[i] == DefaultHasher::spec_finish(
            Seq::new(columns.len(), |c: int| row_key::scalar_writes(columns[c]@[i]@)).flatten(),
        ) as int % partitions,
{
    let key = batch::row_at(columns, i);
    a_target_is_the_remainder_of_the_hash(key, partitions);
    assert(key.map_values(|v: Scalar| row_key::scalar_writes(v)) =~= Seq::new(
        columns.len(),
        |c: int| row_key::scalar_writes(columns[c]@[i]@),
    ));
}

} // verus!
