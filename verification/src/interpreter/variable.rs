//! Typed variable cells: locals, globals, and host-provided globals.

use vstd::prelude::*;
use crate::elements::types::ValueType;
use crate::interpreter::Error;
use crate::interpreter::value::{RuntimeValue, spec_value_type_of};

verus! {

/// The type a variable slot can hold: a numeric type or a callable
/// reference.
#[derive(Copy, Clone, Debug, PartialEq, Eq, Structural)]
pub enum VariableType {
    /// A reference to a callable table element.
    AnyFunc,
    /// A 32-bit integer.
    I32,
    /// A 64-bit integer.
    I64,
    /// A 32-bit float.
    F32,
    /// A 64-bit float.
    F64,
}

/// The variable type a numeric value type corresponds to.
pub open spec fn spec_variable_type_of(vt: ValueType) -> VariableType {
    match vt {
        ValueType::I32 => VariableType::I32,
        ValueType::I64 => VariableType::I64,
        ValueType::F32 => VariableType::F32,
        ValueType::F64 => VariableType::F64,
    }
}

impl VariableType {
    /// The variable type of a numeric value type.
    pub fn of_value_type(vt: ValueType) -> (r: Self)
        ensures
            r == spec_variable_type_of(vt),
    {
        match vt {
            ValueType::I32 => VariableType::I32,
            ValueType::I64 => VariableType::I64,
            ValueType::F32 => VariableType::F32,
            ValueType::F64 => VariableType::F64,
        }
    }
}

/// A typed cell with a mutability bit; the held value always has the
/// declared type.
#[derive(Clone, Debug)]
pub struct VariableInstance {
    is_mutable: bool,
    variable_type: VariableType,
    value: RuntimeValue,
}

impl VariableInstance {
    /// The cell's invariant: the value matches the declared type.
    pub open spec fn wf(&self) -> bool {
        spec_variable_type_of(spec_value_type_of(self.spec_value())) == self.spec_variable_type()
    }

    /// Whether the cell may be written, for contracts.
    pub closed spec fn spec_is_mutable(&self) -> bool {
        self.is_mutable
    }

    /// The declared type, for contracts.
    pub closed spec fn spec_variable_type(&self) -> VariableType {
        self.variable_type
    }

    /// The held value, for contracts.
    pub closed spec fn spec_value(&self) -> RuntimeValue {
        self.value
    }

    /// New variable cell holding `value`; the value must match the
    /// declared type.
    pub fn new(is_mutable: bool, variable_type: VariableType, value: RuntimeValue) -> (r: Result<
        Self,
        Error,
    >)
        ensures
            match r {
                Ok(v) => {
                    &&& v.wf()
                    &&& v.spec_is_mutable() == is_mutable
                    &&& v.spec_variable_type() == variable_type
                    &&& v.spec_value() == value
                    &&& spec_variable_type_of(spec_value_type_of(value)) == variable_type
                },
                Err(e) => e == Error::VariableTypeMismatch && spec_variable_type_of(
                    spec_value_type_of(value),
                ) != variable_type,
            },
    {
        let vt = VariableType::of_value_type(value.value_type());
        if !(vt == variable_type) {
            return Err(Error::VariableTypeMismatch);
        }
        Ok(VariableInstance { is_mutable, variable_type, value })
    }

    /// Whether the cell may be written.
    pub fn is_mutable(&self) -> (r: bool)
        ensures
            r == self.spec_is_mutable(),
    {
        self.is_mutable
    }

    /// The declared type of the cell.
    pub fn variable_type(&self) -> (r: VariableType)
        ensures
            r == self.spec_variable_type(),
    {
        self.variable_type
    }

    /// The held value.
    pub fn get(&self) -> (r: RuntimeValue)
        ensures
            r == self.spec_value(),
    {
        self.value
    }

    /// Replace the held value: the cell must be mutable and the new value
    /// must match the declared type.
    pub fn set(&mut self, value: RuntimeValue) -> (r: Result<(), Error>)
        ensures
            final(self).spec_is_mutable() == old(self).spec_is_mutable(),
            final(self).spec_variable_type() == old(self).spec_variable_type(),
            match r {
                Ok(()) => {
                    &&& old(self).spec_is_mutable()
                    &&& spec_variable_type_of(spec_value_type_of(value)) == old(
                        self,
                    ).spec_variable_type()
                    &&& final(self).spec_value() == value
                },
                Err(e) => final(self).spec_value() == old(self).spec_value() && (e
                    == Error::VariableIsImmutable && !old(self).spec_is_mutable() || e
                    == Error::VariableTypeMismatch && old(self).spec_is_mutable()
                    && spec_variable_type_of(spec_value_type_of(value)) != old(
                    self,
                ).spec_variable_type()),
            },
    {
        if !self.is_mutable {
            return Err(Error::VariableIsImmutable);
        }
        let vt = VariableType::of_value_type(value.value_type());
        if !(vt == self.variable_type) {
            return Err(Error::VariableTypeMismatch);
        }
        self.value = value;
        Ok(())
    }
}

} // verus!
