//! A verified data-access core for a two-table bakery schema.
//!
//! The library models a relational store holding `bakery` and `chef` records
//! (one bakery owns many chefs through `chef.bakery_id`). It provides:
//!
//! - entity definitions with partial records that mark each field
//!   set-with-value or unset (`entities`);
//! - the semantics of the CRUD surface — insert with store-assigned keys,
//!   partial update, idempotent delete, filtered and relationship lookup —
//!   as verified operations on in-memory tables (`store`);
//! - a scripted query facade that replays an ordered sequence of canned
//!   result batches, for deterministic runs without a live store (`facade`);
//! - a small statement renderer that turns a column list, source table,
//!   join condition, equality filter and ordering clause into SQL text
//!   (`statement`), validated against the schema declarations (`schema`).
//!
//! Live execution against a relational server, and the HTTP/GraphQL surface
//! around it, are deliberately outside this crate: they only carry plain
//! values in and out of the verified operations here.

pub mod api;
pub mod entities;
pub mod error;
pub mod facade;
pub mod schema;
pub mod statement;
pub mod store;
