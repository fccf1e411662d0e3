//! The module-level declarations a function body is checked against.

use vstd::prelude::*;
use crate::elements::import_entry::{GlobalType, MemoryType, TableType};
use crate::elements::types::{BlockType, FunctionType, Type, ValueType};
use crate::validation::Error;

verus! {

/// The declarations of a module, imports included, in index-space order.
#[derive(Default)]
pub struct ModuleContext {
    /// The memories, in index order.
    pub memories: Vec<MemoryType>,
    /// The tables, in index order.
    pub tables: Vec<TableType>,
    /// The globals, in index order.
    pub globals: Vec<GlobalType>,
    /// The declared types.
    pub types: Vec<Type>,
    /// For each function, the index of its type.
    pub func_type_indexes: Vec<u32>,
}

/// The signature a function index resolves to, at the specification level:
/// its parameter types and its result as a block type.
pub open spec fn spec_function_type(
    mc: ModuleContext,
    ty_idx: u32,
) -> Result<(Seq<ValueType>, BlockType), Error> {
    if ty_idx < mc.types@.len() {
        let ft = mc.types@[ty_idx as int]->Function_0;
        Ok(
            (
                ft.params@,
                match ft.return_type {
                    Option::Some(vt) => BlockType::Value(vt),
                    Option::None => BlockType::NoResult,
                },
            ),
        )
    } else {
        Err(Error::MissingFunctionType)
    }
}

impl ModuleContext {
    /// The memories, in index order.
    pub fn memories(&self) -> (r: &Vec<MemoryType>)
        ensures
            r == &self.memories,
    {
        &self.memories
    }

    /// The tables, in index order.
    pub fn tables(&self) -> (r: &Vec<TableType>)
        ensures
            r == &self.tables,
    {
        &self.tables
    }

    /// The globals, in index order.
    pub fn globals(&self) -> (r: &Vec<GlobalType>)
        ensures
            r == &self.globals,
    {
        &self.globals
    }

    /// The declared types.
    pub fn types(&self) -> (r: &Vec<Type>)
        ensures
            r == &self.types,
    {
        &self.types
    }

    /// For each function, the index of its type.
    pub fn func_type_indexes(&self) -> (r: &Vec<u32>)
        ensures
            r == &self.func_type_indexes,
    {
        &self.func_type_indexes
    }

    /// Check that a memory exists at `idx`.
    pub fn require_memory(&self, idx: u32) -> (r: Result<(), Error>)
        ensures
            match r {
                Ok(()) => idx < self.memories@.len(),
                Err(e) => e == Error::MissingMemory && idx >= self.memories@.len(),
            },
    {
        if (idx as usize) < self.memories.len() {
            Ok(())
        } else {
            Err(Error::MissingMemory)
        }
    }

    /// The table at `idx`, if one is declared.
    pub fn require_table(&self, idx: u32) -> (r: Result<&TableType, Error>)
        ensures
            match r {
                Ok(t) => idx < self.tables@.len() && *t == self.tables@[idx as int],
                Err(e) => e == Error::MissingTable && idx >= self.tables@.len(),
            },
    {
        if (idx as usize) < self.tables.len() {
            Ok(&self.tables[idx as usize])
        } else {
            Err(Error::MissingTable)
        }
    }

    /// The signature of the function at `idx` in the function index space.
    pub fn require_function(&self, idx: u32) -> (r: Result<(Vec<ValueType>, BlockType), Error>)
        ensures
            match r {
                Ok(sig) => {
                    &&& idx < self.func_type_indexes@.len()
                    &&& spec_function_type(*self, self.func_type_indexes@[idx as int]) matches Ok(
                        s,
                    ) && s == (sig.0@, sig.1)
                },
                Err(e) => {
                    if idx < self.func_type_indexes@.len() {
                        spec_function_type(*self, self.func_type_indexes@[idx as int]) == Err::<
                            (Seq<ValueType>, BlockType),
                            Error,
                        >(e)
                    } else {
                        e == Error::MissingFunction
                    }
                },
            },
    {
        if (idx as usize) < self.func_type_indexes.len() {
            let ty_idx = self.func_type_indexes[idx as usize];
            self.require_function_type(ty_idx)
        } else {
            Err(Error::MissingFunction)
        }
    }

    /// The signature behind the type index `idx`.
    pub fn require_function_type(&self, idx: u32) -> (r: Result<(Vec<ValueType>, BlockType), Error>)
        ensures
            match r {
                Ok(sig) => spec_function_type(*self, idx) matches Ok(s) && s == (sig.0@, sig.1),
                Err(e) => spec_function_type(*self, idx) == Err::<(Seq<ValueType>, BlockType), Error>(
                    e,
                ),
            },
    {
        if (idx as usize) < self.types.len() {
            let ft = match &self.types[idx as usize] {
                Type::Function(ft) => ft,
            };
            let params = ft.params().clone();
            let return_ty = match ft.return_type() {
                Some(vt) => BlockType::Value(vt),
                None => BlockType::NoResult,
            };
            proof {
                assert(params@ =~= self.types@[idx as int]->Function_0.params@);
            }
            Ok((params, return_ty))
        } else {
            Err(Error::MissingFunctionType)
        }
    }

    /// The global at `idx`, checking mutability if `mutability` asks for it.
    pub fn require_global(&self, idx: u32, mutability: Option<bool>) -> (r: Result<
        &GlobalType,
        Error,
    >)
        ensures
            match r {
                Ok(g) => {
                    &&& idx < self.globals@.len()
                    &&& *g == self.globals@[idx as int]
                    &&& (mutability matches Some(m) ==> m == g.is_mutable)
                },
                Err(e) => {
                    if idx >= self.globals@.len() {
                        e == Error::MissingGlobal
                    } else {
                        mutability matches Some(m) && m != self.globals@[idx as int].is_mutable
                            && e == (if m {
                            Error::GlobalIsImmutable
                        } else {
                            Error::TypeMismatch
                        })
                    }
                },
            },
    {
        if (idx as usize) >= self.globals.len() {
            return Err(Error::MissingGlobal);
        }
        let global = &self.globals[idx as usize];
        match mutability {
            Some(true) => {
                if !global.is_mutable() {
                    return Err(Error::GlobalIsImmutable);
                }
            },
            Some(false) => {
                if global.is_mutable() {
                    return Err(Error::TypeMismatch);
                }
            },
            None => {},
        }
        Ok(global)
    }
}

} // verus!
