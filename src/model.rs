//! The plain-value model of a type definition and its annotations.
use vstd::prelude::*;

verus! {

/// A literal written in an annotation.
#[derive(Debug)]
pub enum Literal {
    /// A string literal, holding its value.
    Str(String),
    /// Any other literal (an integer, a boolean, a byte string, ...).
    Other,
}

/// One entry inside a list-style annotation `marker(...)`.
#[derive(Debug)]
pub enum Nested {
    /// A bare key with no value: `marker(key)`.
    Path,
    /// A nested list: `marker(key(...))`.
    List,
    /// A `key = literal` pair. The key is `None` when the path on the left
    /// is not a single identifier (`a::b = "x"`).
    NameValue(Option<String>, Literal),
    /// A bare literal: `marker("x")`.
    Lit(Literal),
}

/// An annotation attached to a member or to the type itself.
#[derive(Debug)]
pub enum Annotation {
    /// The marker alone: `#[marker]`.
    Path,
    /// The list form: `#[marker(k = "v", ...)]`.
    List(Vec<Nested>),
    /// The single-value form: `#[marker = literal]`.
    NameValue(Literal),
}

/// A named field of a struct or union, or a variant of an enum.
#[derive(Debug)]
pub struct Member {
    pub name: String,
    pub annotations: Vec<Annotation>,
}

/// The shape of a type's body.
#[derive(Debug)]
pub enum Shape {
    /// Named fields of a struct or union, or the variants of an enum.
    Named(Vec<Member>),
    /// A tuple struct.
    Tuple,
    /// A unit struct.
    Unit,
}

/// A type definition to be described.
#[derive(Debug)]
pub struct TypeDef {
    pub name: String,
    /// Annotations attached to the type itself rather than to a member.
    pub annotations: Vec<Annotation>,
    pub shape: Shape,
}

/// The output schema of a description.
#[derive(Clone, Copy, Debug, PartialEq, Eq, Structural)]
pub enum Schema {
    /// Member name to a single label: `{"id":"Primary ID",...}`.
    FlatMap,
    /// One single-entry object per member: `[{"id":{"k":"v"}},...]`.
    MetadataList,
    /// One record per member: `[{"field_name":"id","meta":{"k":"v"}},...]`.
    StructuredList,
}

/// Why a type definition could not be described.
#[derive(Clone, Copy, Debug, PartialEq, Eq, Structural)]
pub enum DescribeError {
    /// An annotation is attached to the type itself.
    MisplacedAnnotation,
    /// The type is a tuple struct or a unit struct.
    UnsupportedShape,
    /// A bare key, a nested list, a bare literal, a non-string literal, or a
    /// key that is not a single identifier.
    MalformedValue,
    /// A single-value annotation where a list was required, or the reverse.
    UnsupportedForm,
}

} // verus!
