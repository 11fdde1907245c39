//! Plans as messages.
pub mod message_laws;
pub mod messages;
pub mod operators;
pub mod physical_plan_deserializer;
pub mod physical_plan_serializer;
pub mod protobuf_deserializer;
pub mod protobuf_serializer;
pub mod round_trip;
