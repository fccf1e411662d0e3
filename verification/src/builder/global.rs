//! Fluent construction of global entries.

use vstd::prelude::*;
use crate::builder::{Identity, Invoke};
use crate::elements::global_entry::GlobalEntry;
use crate::elements::import_entry::GlobalType;
use crate::elements::ops::{InitExpr, Opcode};
use crate::elements::types::ValueType;

verus! {

/// Builder of one global entry.
pub struct GlobalBuilder<F = Identity> {
    callback: F,
    value_type: ValueType,
    is_mutable: bool,
    init_expr: InitExpr,
}

impl GlobalBuilder<Identity> {
    /// New builder returning the entry itself.
    pub fn new() -> (r: Self)
        ensures
            r.spec_value_type() == ValueType::I32,
            !r.spec_is_mutable(),
    {
        GlobalBuilder::with_callback(Identity)
    }
}

impl<F> GlobalBuilder<F> {
    /// The type the built global will have, for contracts.
    pub closed spec fn spec_value_type(&self) -> ValueType {
        self.value_type
    }

    /// Whether the built global will be mutable, for contracts.
    pub closed spec fn spec_is_mutable(&self) -> bool {
        self.is_mutable
    }

    /// The initializer the built global will have, for contracts.
    pub closed spec fn spec_init_expr(&self) -> InitExpr {
        self.init_expr
    }

    /// New builder handing the entry to `callback`.
    pub fn with_callback(callback: F) -> (r: Self)
        ensures
            r.spec_value_type() == ValueType::I32,
            !r.spec_is_mutable(),
    {
        GlobalBuilder {
            callback,
            value_type: ValueType::I32,
            init_expr: InitExpr::empty(),
            is_mutable: false,
        }
    }

    /// Set the global's value type.
    pub fn with_type(self, value_type: ValueType) -> (r: Self)
        ensures
            r.spec_value_type() == value_type,
            r.spec_is_mutable() == self.spec_is_mutable(),
            r.spec_init_expr() == self.spec_init_expr(),
    {
        GlobalBuilder { value_type, ..self }
    }

    /// Make the global mutable.
    pub fn mutable(self) -> (r: Self)
        ensures
            r.spec_is_mutable(),
            r.spec_value_type() == self.spec_value_type(),
            r.spec_init_expr() == self.spec_init_expr(),
    {
        GlobalBuilder { is_mutable: true, ..self }
    }

    /// Initialize the global with one instruction.
    pub fn init_expr(self, opcode: Opcode) -> (r: Self)
        ensures
            r.spec_init_expr().0@ =~= seq![opcode, Opcode::End],
            r.spec_value_type() == self.spec_value_type(),
            r.spec_is_mutable() == self.spec_is_mutable(),
    {
        let mut code: Vec<Opcode> = Vec::new();
        code.push(opcode);
        code.push(Opcode::End);
        GlobalBuilder { init_expr: InitExpr::new(code), ..self }
    }
}

impl<F: Invoke<GlobalEntry>> GlobalBuilder<F> {
    /// Finish: hand the entry to the callback.
    pub fn build(self) -> F::Result {
        self.callback.invoke(
            GlobalEntry::new(GlobalType::new(self.value_type, self.is_mutable), self.init_expr),
        )
    }
}

/// New builder for a global entry.
pub fn global() -> (r: GlobalBuilder<Identity>)
    ensures
        r.spec_value_type() == ValueType::I32,
        !r.spec_is_mutable(),
{
    GlobalBuilder::new()
}

} // verus!
