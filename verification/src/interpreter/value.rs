//! Runtime values.

use vstd::prelude::*;
use crate::elements::types::ValueType;

verus! {

/// A value crossing the runtime boundary. Floats travel as their raw bit
/// patterns, which keeps every payload intact.
#[derive(Copy, Clone, Debug, PartialEq, Eq, Structural)]
pub enum RuntimeValue {
    /// A 32-bit integer.
    I32(i32),
    /// A 64-bit integer.
    I64(i64),
    /// A 32-bit float, as its bit pattern.
    F32(u32),
    /// A 64-bit float, as its bit pattern.
    F64(u64),
}

/// The type a runtime value carries.
pub open spec fn spec_value_type_of(v: RuntimeValue) -> ValueType {
    match v {
        RuntimeValue::I32(_) => ValueType::I32,
        RuntimeValue::I64(_) => ValueType::I64,
        RuntimeValue::F32(_) => ValueType::F32,
        RuntimeValue::F64(_) => ValueType::F64,
    }
}

impl RuntimeValue {
    /// The default value of a type: its zero.
    pub fn default(value_type: ValueType) -> (r: Self)
        ensures
            spec_value_type_of(r) == value_type,
    {
        match value_type {
            ValueType::I32 => RuntimeValue::I32(0),
            ValueType::I64 => RuntimeValue::I64(0),
            ValueType::F32 => RuntimeValue::F32(0),
            ValueType::F64 => RuntimeValue::F64(0),
        }
    }

    /// The type this value carries.
    pub fn value_type(&self) -> (r: ValueType)
        ensures
            r == spec_value_type_of(*self),
    {
        match self {
            RuntimeValue::I32(_) => ValueType::I32,
            RuntimeValue::I64(_) => ValueType::I64,
            RuntimeValue::F32(_) => ValueType::F32,
            RuntimeValue::F64(_) => ValueType::F64,
        }
    }
}

} // verus!
