//! An in-memory entity-component store.
//!
//! Component values are kept as plain bytes in per-type columns. A column is
//! described by a [`storage::TypeInfo`]: identity, byte size, alignment and a
//! reference to the destructor that the surrounding program owns. Entities
//! are dense integer ids into every column at once; a 128-bit mask per entity
//! records which columns hold live data for it.
#![allow(dead_code)]

pub mod errors;
pub mod storage;
pub mod world;
