//! Field descriptions for annotated type definitions.
//!
//! A [`TypeDef`] lists the members of a struct, enum or union together with
//! the annotations attached to each of them. [`describe`] validates those
//! annotations and builds a [`Description`] in one of three schemas, and
//! [`structmap`] renders that description as JSON text.
pub mod describe;
pub mod json;
pub mod laws;
pub mod model;
pub mod readback;

pub use describe::{describe, Description, FieldRecord};
pub use json::{structmap, to_json};
pub use model::{Annotation, DescribeError, Literal, Member, Nested, Schema, Shape, TypeDef};
