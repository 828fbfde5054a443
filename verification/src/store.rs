//! The verified in-memory tables that give the data-access layer its
//! semantics: one table per entity, with insert, partial update, idempotent
//! delete, filtered lookup and relationship traversal.

pub mod bakery_table;
pub mod chef_table;
