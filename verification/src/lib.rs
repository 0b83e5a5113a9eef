//! An append-only, per-entity, per-field event log with read-time projection.
//!
//! Each entity owns a set of named fields; a field is a time-ordered log of
//! patches. Queries ("views") filter one field's history by an inclusive
//! time range and reduce it with a projection: the latest value, the ordered
//! collection, a numeric sum or average, a string concatenation, or a
//! boolean conjunction, disjunction, or joint denial.

pub mod keys;
pub mod laws;
mod outside;
pub mod query;
pub mod types;
