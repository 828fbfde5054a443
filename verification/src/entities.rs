//! Entity definitions for the two-table schema: `bakery` and `chef`.

pub mod bakery;
pub mod chef;
