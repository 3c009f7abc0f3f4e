//! Interior-mutability and shared-ownership primitives with checked contracts:
//! a copy-out cell, a cell whose borrows are tracked at run time, and a
//! reference-counted pointer whose blocks live in an arena.

pub mod cell;
pub mod rc;
pub mod refcell;
