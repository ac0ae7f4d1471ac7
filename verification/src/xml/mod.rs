//! The XML binding layer.

pub mod de;
pub mod decoded;
pub mod document;
pub mod dynamic;
pub mod event;
pub mod integer;
pub mod reader;
pub mod round_trip;
pub mod schema;
pub mod typed;
pub mod se;
pub mod tree;
pub mod value;
pub mod writer;
