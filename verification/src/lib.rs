//! Filter-query construction and keyset pagination over a table of exoplanet
//! records.
//!
//! A request is a list of filter clauses, an anchor identifier and a
//! direction. The clauses are validated against a closed set of fields and
//! operators, compiled into a parameterised query whose text never contains a
//! caller-supplied literal, and the rows that come back are assembled into a
//! page that is ascending by identifier whichever way it was fetched.

pub mod api;
pub mod catalog;
pub mod compile;
pub mod field;
pub mod filter;
pub mod keyset;
pub mod model;
pub mod page;
pub mod sqlite;
pub mod text;
