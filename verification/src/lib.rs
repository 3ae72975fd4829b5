//! A small, statically typed expression language for reshaping structured
//! events: runtime values, the static kinds that describe them, and the
//! built-in functions that compile into executable expression nodes.

pub mod conversion;
pub mod error;
pub mod expression;
pub mod function;
pub mod kind;
pub mod mapping;
pub mod metrics;
pub mod number;
pub mod object;
pub mod parse_timestamp;
pub mod pattern;
pub mod state;
pub mod text;
pub mod time;
pub mod to_string;
pub mod type_def;
pub mod value;
