//! The small type vocabulary used to type rewritten expressions.
use vstd::prelude::*;

verus! {

/// Numeric column types.
#[derive(Clone, Copy, Debug, PartialEq, Eq, Structural)]
pub enum NumberDataType {
    UInt8,
    UInt16,
    UInt32,
    UInt64,
    Int8,
    Int16,
    Int32,
    Int64,
}

/// The kind of value a type holds, regardless of nullability.
#[derive(Clone, Copy, Debug, PartialEq, Eq, Structural)]
pub enum TypeKind {
    Null,
    Boolean,
    String,
    Number(NumberDataType),
}

/// A column type: a value kind, possibly widened with `NULL`.
#[derive(Clone, Copy, Debug, PartialEq, Eq, Structural)]
pub struct DataType {
    pub kind: TypeKind,
    pub nullable: bool,
}

impl DataType {
    /// Whether the type admits `NULL`.
    pub open spec fn spec_is_nullable(self) -> bool {
        self.nullable || self.kind == TypeKind::Null
    }

    pub open spec fn spec_wrap_nullable(self) -> DataType {
        DataType { kind: self.kind, nullable: true }
    }

    pub open spec fn spec_remove_nullable(self) -> DataType {
        DataType { kind: self.kind, nullable: false }
    }

    pub fn boolean() -> (r: DataType)
        ensures
            r == (DataType { kind: TypeKind::Boolean, nullable: false }),
    {
        DataType { kind: TypeKind::Boolean, nullable: false }
    }

    pub fn number(n: NumberDataType) -> (r: DataType)
        ensures
            r == (DataType { kind: TypeKind::Number(n), nullable: false }),
    {
        DataType { kind: TypeKind::Number(n), nullable: false }
    }

    /// `Nullable(Boolean)`, the type of a mark-join marker.
    pub fn nullable_boolean() -> (r: DataType)
        ensures
            r == (DataType { kind: TypeKind::Boolean, nullable: true }),
    {
        DataType { kind: TypeKind::Boolean, nullable: true }
    }

    pub fn is_nullable(&self) -> (r: bool)
        ensures
            r == self.spec_is_nullable(),
    {
        self.nullable || matches!(self.kind, TypeKind::Null)
    }

    /// The same type widened with `NULL`; wrapping twice is wrapping once.
    pub fn wrap_nullable(&self) -> (r: DataType)
        ensures
            r == self.spec_wrap_nullable(),
            r.spec_is_nullable(),
    {
        DataType { kind: self.kind, nullable: true }
    }

    /// The same type without `NULL`.
    pub fn remove_nullable(&self) -> (r: DataType)
        ensures
            r == self.spec_remove_nullable(),
    {
        DataType { kind: self.kind, nullable: false }
    }
}

} // verus!
