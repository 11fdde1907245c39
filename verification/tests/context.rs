use fdapquery::task_context::{parse_usize, RuntimeEnv, SessionConfig, ShuffleManager, TaskContext};
use std::sync::Arc;

#[test]
fn session_config_default_csv_batch_size() {
    let config = SessionConfig::new();
    assert_eq!(config.csv_batch_size(), 1024);
}

#[test]
fn session_config_overridden_csv_batch_size() {
    let config = SessionConfig::new().with_setting("rquery.csv.batchSize", "2048");
    assert_eq!(config.csv_batch_size(), 2048);
}

#[test]
fn session_config_invalid_csv_batch_size_falls_back_to_default() {
    let config = SessionConfig::new().with_setting("rquery.csv.batchSize", "not-a-number");
    assert_eq!(config.csv_batch_size(), 1024);
}

#[test]
fn task_context_default_test_constructor() {
    let ctx = TaskContext::default_test();
    assert_eq!(ctx.executor_id, "test");
    assert_eq!(ctx.session_config.csv_batch_size(), 1024);
}

#[test]
fn task_context_construction() {
    let runtime = Arc::new(RuntimeEnv::default_local());
    let config = SessionConfig::new();
    let ctx = TaskContext::new("exec-1", config, Arc::clone(&runtime));
    assert_eq!(ctx.executor_id, "exec-1");
    assert!(Arc::ptr_eq(&ctx.runtime, &runtime));
}

#[test]
fn numbers_are_parsed_as_by_the_standard_library() {
    let texts = [
        "", "0", "7", "+7", "-7", "-0", "+", "007", "1024", "1_000", " 1", "1 ", "12a", "a12", "++1",
        "18446744073709551615", "18446744073709551616", "18446744073709551620",
        "99999999999999999999999", "00000000000000000000000000000042", "\u{0661}",
    ];
    for text in texts {
        assert_eq!(parse_usize(text), text.parse::<usize>().ok(), "{:?}", text);
    }
}

#[test]
fn a_setting_takes_the_place_of_an_earlier_one() {
    let config = SessionConfig::new()
        .with_setting("a", "1")
        .with_setting("b", "2")
        .with_setting("a", "3");
    assert_eq!(config.get("a").unwrap(), "3");
    assert_eq!(config.get("b").unwrap(), "2");
    assert!(config.get("c").is_none());
    assert_eq!(config.settings.len(), 2);
}

#[test]
fn shuffle_files_have_a_default_place() {
    assert_eq!(ShuffleManager::default().base_dir, "/tmp/rquery-shuffle");
    assert_eq!(RuntimeEnv::default_local().shuffle_manager.base_dir, "/tmp/rquery-shuffle");
    let env = RuntimeEnv::new(Arc::new(ShuffleManager::new("/data")));
    assert_eq!(env.shuffle_manager.base_dir, "/data");
}
