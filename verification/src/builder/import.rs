//! Fluent construction of import entries.

use vstd::prelude::*;
use crate::builder::{Identity, Invoke};
use crate::elements::import_entry::{External, GlobalType, ImportEntry, MemoryType, TableType};
use crate::elements::types::ValueType;

verus! {

/// Builder of one import entry.
pub struct ImportBuilder<F = Identity> {
    callback: F,
    module: String,
    field: String,
    binding: External,
}

impl ImportBuilder<Identity> {
    /// New builder returning the entry itself.
    pub fn new() -> (r: Self)
        ensures
            r.spec_binding() == External::Function(0),
    {
        ImportBuilder::with_callback(Identity)
    }
}

impl<F> ImportBuilder<F> {
    /// The import path's module part, for contracts.
    pub closed spec fn spec_module(&self) -> Seq<char> {
        self.module@
    }

    /// The import path's field part, for contracts.
    pub closed spec fn spec_field(&self) -> Seq<char> {
        self.field@
    }

    /// What the built import will bring, for contracts.
    pub closed spec fn spec_binding(&self) -> External {
        self.binding
    }

    /// New builder handing the entry to `callback`.
    pub fn with_callback(callback: F) -> (r: Self)
        ensures
            r.spec_binding() == External::Function(0),
    {
        ImportBuilder { callback, module: String::new(), field: String::new(), binding: External::Function(0) }
    }

    /// Set the module part of the import path.
    pub fn module(self, name: &str) -> (r: Self)
        ensures
            r.spec_module() == name@,
            r.spec_field() == self.spec_field(),
            r.spec_binding() == self.spec_binding(),
    {
        ImportBuilder { module: name.to_owned(), ..self }
    }

    /// Set the field part of the import path.
    pub fn field(self, name: &str) -> (r: Self)
        ensures
            r.spec_field() == name@,
            r.spec_module() == self.spec_module(),
            r.spec_binding() == self.spec_binding(),
    {
        ImportBuilder { field: name.to_owned(), ..self }
    }

    /// Set both parts of the import path.
    pub fn path(self, module: &str, field: &str) -> (r: Self)
        ensures
            r.spec_module() == module@,
            r.spec_field() == field@,
            r.spec_binding() == self.spec_binding(),
    {
        self.module(module).field(field)
    }

    /// Set what the import brings.
    pub fn with_external(self, external: External) -> (r: Self)
        ensures
            r.spec_binding() == external,
            r.spec_module() == self.spec_module(),
            r.spec_field() == self.spec_field(),
    {
        ImportBuilder { binding: external, ..self }
    }

    /// Open a builder for what the import brings.
    pub fn external(self) -> ImportExternalBuilder<Self> {
        ImportExternalBuilder::with_callback(self)
    }
}

impl<F: Invoke<ImportEntry>> ImportBuilder<F> {
    /// Finish: hand the entry to the callback.
    pub fn build(self) -> F::Result {
        self.callback.invoke(ImportEntry::new(self.module, self.field, self.binding))
    }
}

impl<F> Invoke<External> for ImportBuilder<F> {
    type Result = Self;

    fn invoke(self, val: External) -> (r: Self)
        ensures
            r.spec_binding() == val,
            r.spec_module() == self.spec_module(),
            r.spec_field() == self.spec_field(),
    {
        self.with_external(val)
    }
}

/// Builder of the external part of an import entry.
pub struct ImportExternalBuilder<F = Identity> {
    callback: F,
    binding: External,
}

impl<F: Invoke<External>> ImportExternalBuilder<F> {
    /// New builder handing the external to `callback`.
    pub fn with_callback(callback: F) -> Self {
        ImportExternalBuilder { callback, binding: External::Function(0) }
    }

    /// A function import with the given type index.
    pub fn func(self, index: u32) -> F::Result {
        self.callback.invoke(External::Function(index))
    }

    /// A memory import with the given page limits.
    pub fn memory(self, min: u32, max: Option<u32>) -> F::Result {
        self.callback.invoke(External::Memory(MemoryType::new(min, max)))
    }

    /// A table import with the given limits.
    pub fn table(self, min: u32, max: Option<u32>) -> F::Result {
        self.callback.invoke(External::Table(TableType::new(min, max)))
    }

    /// A global import of the given type.
    pub fn global(self, value_type: ValueType, is_mut: bool) -> F::Result {
        self.callback.invoke(External::Global(GlobalType::new(value_type, is_mut)))
    }
}

/// New builder for an import entry.
pub fn import() -> ImportBuilder<Identity> {
    ImportBuilder::new()
}

} // verus!
