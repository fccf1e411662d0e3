//! Fluent construction of table definitions.

use vstd::prelude::*;
use crate::builder::{Identity, Invoke};
use crate::elements::ops::{InitExpr, Opcode};

verus! {

/// A table under construction: its limits and its initial entries.
#[derive(Debug)]
pub struct TableDefinition {
    /// The table's minimum size.
    pub min: u32,
    /// The table's optional maximum size.
    pub max: Option<u32>,
    /// The initial entries.
    pub elements: Vec<TableEntryDefinition>,
}

/// One run of initial table entries at an offset.
#[derive(Debug)]
pub struct TableEntryDefinition {
    /// Where the run starts.
    pub offset: InitExpr,
    /// The function indices placed there.
    pub values: Vec<u32>,
}

/// Builder of one table definition.
pub struct TableBuilder<F = Identity> {
    callback: F,
    table: TableDefinition,
}

impl TableBuilder<Identity> {
    /// New builder returning the definition itself.
    pub fn new() -> (r: Self)
        ensures
            r.spec_min() == 0,
            r.spec_max() is None,
    {
        TableBuilder::with_callback(Identity)
    }
}

impl<F> TableBuilder<F> {
    /// The minimum size, for contracts.
    pub closed spec fn spec_min(&self) -> u32 {
        self.table.min
    }

    /// The maximum size, for contracts.
    pub closed spec fn spec_max(&self) -> Option<u32> {
        self.table.max
    }

    /// New builder handing the definition to `callback`.
    pub fn with_callback(callback: F) -> (r: Self)
        ensures
            r.spec_min() == 0,
            r.spec_max() is None,
    {
        TableBuilder {
            callback,
            table: TableDefinition { min: 0, max: None, elements: Vec::new() },
        }
    }

    /// Set the table's minimum size.
    pub fn with_min(self, min: u32) -> (r: Self)
        ensures
            r.spec_min() == min,
            r.spec_max() == self.spec_max(),
    {
        let TableBuilder { callback, table } = self;
        TableBuilder { callback, table: TableDefinition { min, ..table } }
    }

    /// Set the table's maximum size.
    pub fn with_max(self, max: Option<u32>) -> (r: Self)
        ensures
            r.spec_max() == max,
            r.spec_min() == self.spec_min(),
    {
        let TableBuilder { callback, table } = self;
        TableBuilder { callback, table: TableDefinition { max, ..table } }
    }

    /// Add a run of initial entries at `index`.
    pub fn with_element(self, index: u32, values: Vec<u32>) -> (r: Self)
        ensures
            r.spec_min() == self.spec_min(),
            r.spec_max() == self.spec_max(),
    {
        let TableBuilder { callback, mut table } = self;
        let mut code: Vec<Opcode> = Vec::new();
        code.push(Opcode::I32Const(index as i32));
        code.push(Opcode::End);
        table.elements.push(TableEntryDefinition { offset: InitExpr::new(code), values });
        TableBuilder { callback, table }
    }
}

impl<F: Invoke<TableDefinition>> TableBuilder<F> {
    /// Finish: hand the definition to the callback.
    pub fn build(self) -> F::Result {
        self.callback.invoke(self.table)
    }
}

} // verus!
