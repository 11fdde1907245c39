use std::collections::hash_map::DefaultHasher;
use std::hash::Hasher;
use std::sync::Arc;

use fdapquery::batch::RecordBatch;
use fdapquery::display::{DisplayAs, DisplayFormatType};
use fdapquery::error::FdapQueryError;
use fdapquery::expr::PhysicalExpr;
use fdapquery::extension_exec::ExtensionExec;
use fdapquery::plan::ExecutionPlan;
use fdapquery::row_key::{scalar_key_eq, target_partition, RowKey};
use fdapquery::scalar::ScalarValue;
use fdapquery::schema::{DataType, Field, Schema};
use fdapquery::shuffle_location::ShuffleLocation;
use fdapquery::shuffle_reader_exec::ShuffleReaderExec;
use fdapquery::shuffle_writer_exec::{compute_targets, ShuffleBuffers, ShuffleWriterExec};
use fdapquery::task_context::{RuntimeEnv, SessionConfig, TaskContext};

fn employee_schema() -> Schema {
    Schema::new(vec![
        Field::new("id", DataType::Int64, true),
        Field::new("first_name", DataType::Utf8, true),
    ])
}

fn employee_batch() -> RecordBatch {
    RecordBatch::try_new(
        employee_schema(),
        vec![
            (1..=4).map(ScalarValue::Int64).collect(),
            ["Bill", "Gregg", "John", "Von"]
                .iter()
                .map(|s| ScalarValue::Utf8(s.to_string()))
                .collect(),
        ],
    )
    .unwrap()
}

fn source(name: &str) -> Arc<ExecutionPlan> {
    Arc::new(ExecutionPlan::Extension(ExtensionExec::leaf(name, name, employee_schema())))
}

fn writer(job: &str, partition_count: i32) -> ShuffleWriterExec {
    ShuffleWriterExec::new(
        source("TestSourceExec"),
        vec![PhysicalExpr::column("id", 0)],
        job,
        0,
        partition_count,
    )
}

fn context(executor_id: &str) -> TaskContext {
    TaskContext::new(executor_id, SessionConfig::new(), Arc::new(RuntimeEnv::default_local()))
}

fn shuffled(writer: &ShuffleWriterExec, batches: &[RecordBatch]) -> ShuffleBuffers {
    let mut buffers = writer.start_shuffle();
    for batch in batches {
        let keys = vec![batch.columns[0].iter().map(|v| v.clone()).collect()];
        buffers.add_batch(batch, &keys).unwrap();
    }
    buffers
}

fn rows_in(buffers: &ShuffleBuffers, partition: usize) -> usize {
    buffers.buffers[partition].iter().map(|b| b.num_rows()).sum()
}

#[test]
fn writes_partitions_and_reports_locations_tagged_with_executor() {
    let writer = writer("test-job-shuffle-writer", 3);
    let buffers = shuffled(&writer, &[employee_batch()]);
    let locations = writer.locations(&buffers, "exec-test", "127.0.0.1", 50099);

    assert!(!locations.is_empty());
    assert!(locations.len() <= 3);
    for loc in &locations {
        assert_eq!(loc.job_uuid, "test-job-shuffle-writer");
        assert_eq!(loc.stage_id, 0);
        assert!(loc.partition_id >= 0 && loc.partition_id < 3);
        assert_eq!(loc.executor_id, "exec-test");
        assert_eq!(loc.executor_host, "127.0.0.1");
        assert_eq!(loc.executor_port, 50099);
    }
    let total_rows: usize =
        locations.iter().map(|loc| rows_in(&buffers, loc.partition_id as usize)).sum();
    assert_eq!(total_rows, 4, "round-trip row count must match input");
}

#[test]
fn empty_input_produces_no_locations_and_no_files() {
    let writer = ShuffleWriterExec::new(
        source("EmptyInput"),
        vec![PhysicalExpr::column("id", 0)],
        "test-job-shuffle-writer-empty",
        0,
        3,
    );
    let buffers = shuffled(&writer, &[]);
    let locations = writer.locations(&buffers, "exec-test", "127.0.0.1", 50099);
    assert!(locations.is_empty(), "empty input must produce no locations");
    for partition_id in 0..3 {
        assert!(buffers.buffers[partition_id].is_empty());
    }
}

#[test]
fn single_partition_collects_all_rows_into_one_bucket() {
    let writer = writer("test-job-shuffle-writer-one", 1);
    let buffers = shuffled(&writer, &[employee_batch()]);
    let locations = writer.locations(&buffers, "exec-test", "127.0.0.1", 50099);
    assert_eq!(locations.len(), 1);
    assert_eq!(locations[0].partition_id, 0);
    assert_eq!(rows_in(&buffers, 0), 4);
}

#[test]
fn writer_then_reader_round_trips_full_row_count() {
    let writer = writer("test-job-reader-roundtrip", 3);
    let batches = [employee_batch(), employee_batch()];
    let input_rows: usize = batches.iter().map(|b| b.num_rows()).sum();
    let buffers = shuffled(&writer, &batches);
    let locations = writer.locations(&buffers, "exec-test", "127.0.0.1", 50099);
    let reader = ShuffleReaderExec::new(employee_schema(), locations);
    let reads = reader.execute(0, &context("exec-test")).unwrap();
    let read_rows: usize = reads.iter().map(|r| rows_in(&buffers, r.partition_id as usize)).sum();
    assert_eq!(read_rows, input_rows);
}

#[test]
fn empty_locations_yields_empty_iterator() {
    let reader = ShuffleReaderExec::new(employee_schema(), vec![]);
    assert!(reader.execute(0, &context("exec-test")).unwrap().is_empty());
}

#[test]
fn single_partition_round_trip_reads_all_rows_from_one_file() {
    let writer = writer("test-job-reader-single", 1);
    let buffers = shuffled(&writer, &[employee_batch()]);
    let locations = writer.locations(&buffers, "exec-test", "127.0.0.1", 50099);
    assert_eq!(locations.len(), 1, "single partition writer emits 1 location");
    let reader = ShuffleReaderExec::new(employee_schema(), locations);
    let reads = reader.execute(0, &context("exec-test")).unwrap();
    assert_eq!(reads.len(), 1);
    assert_eq!(reads[0].job_uuid, "test-job-reader-single");
    assert_eq!(rows_in(&buffers, reads[0].partition_id as usize), 4);
}

#[test]
fn remote_location_errors_until_flight_client_lands() {
    let remote = ShuffleLocation::new("test-job-remote", 0, 0, "exec-B", "10.0.0.2", 50099);
    let reader = ShuffleReaderExec::new(employee_schema(), vec![remote]);
    let err = reader.execute(0, &context("exec-A")).map(|_| ()).unwrap_err();
    assert!(matches!(err, FdapQueryError::NotImplemented(_)));
    assert!(err.message().contains("remote shuffle reads require an Arrow Flight client"));
    assert!(err.message().contains("executor 'exec-B' but this executor is 'exec-A'"));
}

#[test]
fn a_shuffle_reader_has_one_partition() {
    let reader = ShuffleReaderExec::new(employee_schema(), vec![]);
    let error = reader.execute(1, &context("exec-test")).unwrap_err();
    assert_eq!(
        error.message(),
        "ShuffleReaderExec has 1 output partition; partition 1 is out of range"
    );
}

#[test]
fn a_shuffle_writer_yields_no_batches() {
    let error = writer("job", 2).execute(0).unwrap_err();
    assert!(matches!(error, FdapQueryError::NotImplemented(_)));
}

#[test]
fn rows_of_one_key_share_a_partition() {
    let column: Vec<ScalarValue> =
        [5i64, 8, 5, 8, 5].iter().map(|n| ScalarValue::Int64(*n)).collect();
    let targets = compute_targets(&vec![column], 5, 7);
    assert_eq!(targets[0], targets[2]);
    assert_eq!(targets[0], targets[4]);
    assert_eq!(targets[1], targets[3]);
    assert!(targets.iter().all(|t| *t < 7));
}

#[test]
fn rows_without_key_columns_go_to_one_partition() {
    let targets = compute_targets(&vec![], 3, 5);
    assert!(targets.iter().all(|t| *t == targets[0]));
}

#[test]
fn a_partition_is_the_hash_of_the_key() {
    for n in 0..20 {
        let key = RowKey(vec![ScalarValue::Int64(n), ScalarValue::Utf8("k".to_string())]);
        let mut state = DefaultHasher::new();
        key.hash(&mut state);
        assert_eq!(target_partition(&key, 11) as u64, state.finish() % 11);
    }
}

#[test]
fn float_keys_are_equal_by_their_bits() {
    let nan = ScalarValue::Float64(f64::NAN.to_bits());
    assert!(scalar_key_eq(&nan, &ScalarValue::Float64(f64::NAN.to_bits())));
    assert!(!scalar_key_eq(
        &ScalarValue::Float64(0.0f64.to_bits()),
        &ScalarValue::Float64((-0.0f64).to_bits())
    ));
    assert!(scalar_key_eq(&ScalarValue::Null, &ScalarValue::Null));
    assert!(!scalar_key_eq(&ScalarValue::Int64(1), &ScalarValue::Int32(1)));
}

#[test]
fn a_shuffle_refuses_batches_that_do_not_fit_its_schema() {
    let mut buffers = ShuffleBuffers::new(Schema::new(vec![]), 2);
    let batch = employee_batch();
    let keys = vec![batch.columns[0].iter().map(|v| v.clone()).collect()];
    let error = buffers.add_batch(&batch, &keys).unwrap_err();
    assert!(matches!(error, FdapQueryError::ArrowError(_)));
}

#[test]
fn shuffles_show_what_they_do() {
    let shown = writer("job-7", 3).fmt_as(DisplayFormatType::Default);
    assert!(shown.starts_with("ShuffleWriterExec"));
    assert!(shown.contains("job-7"));
    let shown =
        ShuffleReaderExec::new(employee_schema(), vec![]).fmt_as(DisplayFormatType::Default);
    assert!(shown.starts_with("ShuffleReaderExec"));
}
