//! Core primitives of the `tank` data layer: time intervals, SQL text
//! rendering, value prototypes and small text utilities, each with a
//! machine-checked contract.
use vstd::prelude::*;

pub mod interval;
pub mod text;
pub mod context;
pub mod table_ref;
pub mod sql_writer;
pub mod value;
pub mod value_hash;
pub mod expression;
pub mod expression_writer;
pub mod column;
pub mod entity;
pub mod ddl_writer;
pub mod util;
pub mod dml_writer;
pub mod insert_writer;
pub mod query;
pub mod decode_type;
pub mod parse_int;
pub mod as_value;
pub mod as_value_bytes;
pub mod as_value_interval;
pub mod as_value_decimal;
pub mod as_value_time;
pub mod as_value_list;
pub mod as_value_array;
pub mod as_value_shared;
pub mod as_value_map;
pub mod join;
pub mod metadata;
pub mod statement;
pub mod write_sql;
pub mod parse;
pub mod writable;
pub mod laws;

pub use interval::{Interval, IntervalError, IntervalUnit};

verus! {

} // verus!
