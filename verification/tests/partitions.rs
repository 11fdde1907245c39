use fdapquery::expr::PhysicalExpr;
use fdapquery::partitioning::Partitioning;
use fdapquery::plan_properties::PlanProperties;

#[test]
fn partition_count_round_robin() {
    assert_eq!(Partitioning::RoundRobinBatch(4).partition_count(), 4);
}

#[test]
fn partition_count_unknown() {
    assert_eq!(Partitioning::UnknownPartitioning(1).partition_count(), 1);
    assert_eq!(Partitioning::UnknownPartitioning(8).partition_count(), 8);
}

#[test]
fn partition_count_hash() {
    let keys: Vec<PhysicalExpr> = vec![];
    assert_eq!(Partitioning::Hash(keys, 3).partition_count(), 3);
}

#[test]
fn display_round_robin_matches_datafusion() {
    assert_eq!(Partitioning::RoundRobinBatch(8).to_string(), "RoundRobinBatch(8)");
}

#[test]
fn display_unknown_partitioning_matches_datafusion() {
    assert_eq!(Partitioning::UnknownPartitioning(4).to_string(), "UnknownPartitioning(4)");
}

#[test]
fn display_hash_empty_keys_matches_datafusion() {
    let keys: Vec<PhysicalExpr> = vec![];
    assert_eq!(Partitioning::Hash(keys, 1).to_string(), "Hash([], 1)");
}

#[test]
fn display_hash_with_single_column_key_matches_datafusion() {
    let keys = vec![PhysicalExpr::column("a", 0)];
    assert_eq!(Partitioning::Hash(keys, 8).to_string(), "Hash([a@0], 8)");
}

#[test]
fn display_hash_with_two_column_keys_matches_datafusion() {
    let keys = vec![PhysicalExpr::column("a", 0), PhysicalExpr::column("b", 1)];
    assert_eq!(Partitioning::Hash(keys, 4).to_string(), "Hash([a@0, b@1], 4)");
}

#[test]
fn single_partition_convenience_constructor() {
    let props = PlanProperties::single_partition_unknown();
    assert_eq!(props.partition_count(), 1);
}

#[test]
fn partition_count_delegates_to_partitioning() {
    let props = PlanProperties::new(Partitioning::RoundRobinBatch(7));
    assert_eq!(props.partition_count(), 7);
}

#[test]
fn cloned_partitioning_shows_the_same() {
    let original = Partitioning::Hash(vec![PhysicalExpr::column("k", 2)], 5);
    let copy = original.clone();
    assert_eq!(copy.to_string(), original.to_string());
    assert_eq!(copy.partition_count(), 5);
}
