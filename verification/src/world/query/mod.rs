pub mod query;
pub mod query_entity;
