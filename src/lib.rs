//! An in-process tabular data engine: schema-typed rows held in one flat,
//! row-major buffer, with column and row mutation, typed casts and selection.
use vstd::prelude::*;

pub mod dim;
pub mod text;
pub mod schema;
pub mod traits;
pub mod number;
pub mod value;
pub mod error;
pub mod cast;
pub mod convert;
pub mod dataframe;
pub mod select;
pub mod views;
pub mod base;
pub mod pipeline;
pub mod source;
pub mod order;

pub use dataframe::DataFrame;
pub use number::{Num, Number};
pub use schema::{DataType, Schema};
pub use traits::Get;
pub use value::Value;

verus! {

} // verus!
