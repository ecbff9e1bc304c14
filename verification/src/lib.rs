//! Verified core of the kernel's foreign-function interface: the handle table
//! that hands out integer ids for kernel objects, the predicate visitor that
//! engines drive to build kernel expressions, the plan by which a table schema
//! is walked for an engine's schema visitor, the directory-to-URL step used when
//! opening a table, and the parsing of a column of JSON strings.

pub mod reference_set;
pub mod expressions;
pub mod visitor;
pub mod schema;
pub mod table_url;
pub mod json;
pub mod engine;
