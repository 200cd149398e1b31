//! The closed set of value types an emitted expression can carry, together
//! with the family grouping and widening rules used by the emitter.

use vstd::prelude::*;

use crate::ir::BasicType;
use crate::ir::ValueRef;

verus! {

/// The type of an IR-level value.  `Str` is an immutable pointer to a
/// NUL-terminated byte sequence in read-only storage.
#[derive(Debug, Clone, Copy, PartialEq, Eq, Structural)]
pub enum ValueType {
    Void,
    Bool,
    I8,
    I16,
    I32,
    F32,
    Str,
}

/// The family a `ValueType` belongs to; binary operators and comparisons are
/// defined once per family rather than once per bit width.
#[derive(Debug, Clone, Copy, PartialEq, Eq, Structural)]
pub enum ValueTypeGroup {
    Void,
    Bool,
    Int,
    UInt,
    Float,
    Str,
}

impl ValueType {
    /// The family of this type.
    pub open spec fn spec_group(self) -> ValueTypeGroup {
        match self {
            ValueType::Void => ValueTypeGroup::Void,
            ValueType::Bool => ValueTypeGroup::Bool,
            ValueType::I8 => ValueTypeGroup::Int,
            ValueType::I16 => ValueTypeGroup::Int,
            ValueType::I32 => ValueTypeGroup::Int,
            ValueType::F32 => ValueTypeGroup::Float,
            ValueType::Str => ValueTypeGroup::Str,
        }
    }

    /// The number of bits a value of this type occupies; 0 where the width is
    /// meaningless (`Void`) or unknown (`Str`).
    pub open spec fn spec_bitwidth(self) -> usize {
        match self {
            ValueType::Void => 0,
            ValueType::Bool => 1,
            ValueType::I8 => 8,
            ValueType::I16 => 16,
            ValueType::I32 => 32,
            ValueType::F32 => 32,
            ValueType::Str => 0,
        }
    }

    /// Widening within a family: the merged type of `lhs` and `rhs`, or
    /// `None` when the two types belong to different families.
    pub open spec fn spec_merge_group(lhs: ValueType, rhs: ValueType) -> Option<ValueType> {
        if lhs.spec_group() != rhs.spec_group() {
            None
        } else if lhs.spec_bitwidth() < rhs.spec_bitwidth() {
            Some(rhs)
        } else {
            Some(lhs)
        }
    }

    pub fn is_void(&self) -> (r: bool)
        ensures
            r == (*self == ValueType::Void),
    {
        match self {
            ValueType::Void => true,
            _ => false,
        }
    }

    pub fn get_group(&self) -> (r: ValueTypeGroup)
        ensures
            r == self.spec_group(),
    {
        match self {
            ValueType::Void => ValueTypeGroup::Void,
            ValueType::Bool => ValueTypeGroup::Bool,
            ValueType::I8 => ValueTypeGroup::Int,
            ValueType::I16 => ValueTypeGroup::Int,
            ValueType::I32 => ValueTypeGroup::Int,
            ValueType::F32 => ValueTypeGroup::Float,
            ValueType::Str => ValueTypeGroup::Str,
        }
    }

    pub fn get_bitwidth(&self) -> (r: usize)
        ensures
            r == self.spec_bitwidth(),
    {
        match self {
            ValueType::Void => 0,
            ValueType::Bool => 1,
            ValueType::I8 => 8,
            ValueType::I16 => 16,
            ValueType::I32 => 32,
            ValueType::F32 => 32,
            ValueType::Str => 0,
        }
    }

    /// Merge two types by family, keeping the wider width; `None` across
    /// families.
    pub fn merge_group(lhs: &ValueType, rhs: &ValueType) -> (r: Option<ValueType>)
        ensures
            r == ValueType::spec_merge_group(*lhs, *rhs),
    {
        if lhs.get_group() != rhs.get_group() {
            None
        } else if lhs.get_bitwidth() < rhs.get_bitwidth() {
            Some(*rhs)
        } else {
            Some(*lhs)
        }
    }

    /// The IR type a value of this type lowers to; `Void` lowers to no
    /// first-class type.
    pub open spec fn spec_basic_type(self) -> BasicType {
        match self {
            ValueType::Void => BasicType::I1,  // never used; excluded by the callers
            ValueType::Bool => BasicType::I1,
            ValueType::I8 => BasicType::I8,
            ValueType::I16 => BasicType::I16,
            ValueType::I32 => BasicType::I32,
            ValueType::F32 => BasicType::F32,
            ValueType::Str => BasicType::PtrI8,
        }
    }

    pub fn to_basic_type(&self) -> (r: BasicType)
        requires
            *self != ValueType::Void,
        ensures
            r == self.spec_basic_type(),
    {
        match self {
            ValueType::Void => BasicType::I1,
            ValueType::Bool => BasicType::I1,
            ValueType::I8 => BasicType::I8,
            ValueType::I16 => BasicType::I16,
            ValueType::I32 => BasicType::I32,
            ValueType::F32 => BasicType::F32,
            ValueType::Str => BasicType::PtrI8,
        }
    }
}

/// An IR-level expression value: a `ValueType` paired with the IR handle the
/// emitter received from the builder.  The constructors enforce that the
/// handle's IR type matches the value type.
#[derive(Debug, Clone, Copy, PartialEq, Eq, Structural)]
pub enum Value {
    Void,
    Bool { value: ValueRef },
    I8 { value: ValueRef },
    I16 { value: ValueRef },
    I32 { value: ValueRef },
    F32 { value: ValueRef },
    Str { value: ValueRef },
}

impl Value {
    /// The `ValueType` this value carries.
    pub open spec fn spec_get_type(self) -> ValueType {
        match self {
            Value::Void => ValueType::Void,
            Value::Bool { .. } => ValueType::Bool,
            Value::I8 { .. } => ValueType::I8,
            Value::I16 { .. } => ValueType::I16,
            Value::I32 { .. } => ValueType::I32,
            Value::F32 { .. } => ValueType::F32,
            Value::Str { .. } => ValueType::Str,
        }
    }

    /// The IR handle, for every kind but `Void`.
    pub open spec fn spec_handle(self) -> Option<ValueRef> {
        match self {
            Value::Void => None,
            Value::Bool { value } => Some(value),
            Value::I8 { value } => Some(value),
            Value::I16 { value } => Some(value),
            Value::I32 { value } => Some(value),
            Value::F32 { value } => Some(value),
            Value::Str { value } => Some(value),
        }
    }

    /// The handle's IR type matches the value type, and a constant handle is
    /// canonical for its width.
    pub open spec fn wf(self) -> bool {
        match self.spec_handle() {
            None => true,
            Some(h) => h.ty() == self.spec_get_type().spec_basic_type() && h.canonical(),
        }
    }

    pub fn get_type(&self) -> (r: ValueType)
        ensures
            r == self.spec_get_type(),
    {
        match self {
            Value::Void => ValueType::Void,
            Value::Bool { .. } => ValueType::Bool,
            Value::I8 { .. } => ValueType::I8,
            Value::I16 { .. } => ValueType::I16,
            Value::I32 { .. } => ValueType::I32,
            Value::F32 { .. } => ValueType::F32,
            Value::Str { .. } => ValueType::Str,
        }
    }

    /// The IR handle of a non-void value.
    pub fn to_basic_value(&self) -> (r: ValueRef)
        requires
            self.spec_get_type() != ValueType::Void,
        ensures
            Some(r) == self.spec_handle(),
    {
        match self {
            Value::Void => ValueRef::ConstInt { ty: BasicType::I1, bits: 0 },
            Value::Bool { value } => *value,
            Value::I8 { value } => *value,
            Value::I16 { value } => *value,
            Value::I32 { value } => *value,
            Value::F32 { value } => *value,
            Value::Str { value } => *value,
        }
    }

    /// Tag an IR handle with a non-void value type; the handle's IR type must
    /// match.
    pub fn from_basic_value(ty: ValueType, bv: ValueRef) -> (r: Value)
        requires
            ty != ValueType::Void,
            bv.ty() == ty.spec_basic_type(),
            bv.canonical(),
        ensures
            r.spec_get_type() == ty,
            r.spec_handle() == Some(bv),
            r.wf(),
    {
        match ty {
            ValueType::Void => Value::Void,
            ValueType::Bool => Value::Bool { value: bv },
            ValueType::I8 => Value::I8 { value: bv },
            ValueType::I16 => Value::I16 { value: bv },
            ValueType::I32 => Value::I32 { value: bv },
            ValueType::F32 => Value::F32 { value: bv },
            ValueType::Str => Value::Str { value: bv },
        }
    }
}

} // verus!
