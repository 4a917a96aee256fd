//! A schema-governed structured-data directory.
//!
//! The library keeps a store of typed classes (schema containers) and
//! entities (typed instances).  Classes grow append-only lists of properties
//! and schemas; entities hold validated values for the properties of their
//! class.  Every mutation is gated by a permission check derived from the
//! caller's identity and an optional credential, reference links between
//! entities are counted exactly, and an ordered batch of operations can
//! create entities and refer to them from later steps of the same batch.

pub mod access;
pub mod class_ops;
pub mod constraint;
pub mod credentials;
pub mod entity_ops;
pub mod errors;
pub mod ids;
pub mod lifecycle;
pub mod operations;
pub mod permissions;
pub mod rc_ops;
pub mod refs;
pub mod schema;
pub mod schema_ops;
pub mod state;
pub mod value_ops;
