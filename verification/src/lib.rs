pub mod aggregate_exec;
pub mod aggregates;
pub mod ascii_plans;
pub mod batch;
pub mod boolean_expression;
pub mod concat;
pub mod data_source_exec;
pub mod display;
pub mod display_laws;
pub mod equi_join;
pub mod error;
pub mod expr;
pub mod extension_exec;
pub mod fault_laws;
pub mod filter_exec;
pub mod graph_laws;
pub mod group_table;
pub mod hash_join_exec;
pub mod hash_join_stream;
pub mod hash_laws;
pub mod join_laws;
pub mod join_table;
pub mod limit_exec;
pub mod limits;
pub mod logical_plan;
pub mod memory_exec;
pub mod metrics;
pub mod order_laws;
pub mod partitioning;
pub mod plan;
pub mod plan_display;
pub mod plan_laws;
pub mod plan_properties;
pub mod plan_visitor;
pub mod projection_exec;
pub mod proto;
pub mod render_plan;
pub mod row_key;
pub mod row_laws;
pub mod scalar;
pub mod scan_exec;
pub mod schema;
pub mod shuffle_location;
pub mod shuffle_reader_exec;
pub mod shuffle_writer_exec;
pub mod sort_exec;
pub mod sort_laws;
pub mod sorting;
pub mod task;
pub mod task_context;
pub mod text;
pub mod text_laws;
pub mod tree_laws;
pub mod tree_layers;
pub mod tree_render;
pub mod wrap;
