//! Metrics that operators record while they run.
pub mod baseline;
pub mod builder;
pub mod cells;
pub mod handles;
pub mod readable;
pub mod metric_laws;
pub mod metrics_set;
pub mod skew;
pub mod value;
