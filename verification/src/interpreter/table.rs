//! Tables: indexed slots of optional callable references.

use vstd::prelude::*;
use crate::elements::import_entry::TableType;
use crate::interpreter::Error;
use crate::interpreter::variable::VariableType;

verus! {

/// A table instance: a vector of optional function indices, tagged by its
/// element kind.
#[derive(Debug)]
pub struct TableInstance {
    variable_type: VariableType,
    buffer: Vec<Option<u32>>,
}

impl TableInstance {
    /// The slots, for contracts.
    pub closed spec fn spec_buffer(&self) -> Seq<Option<u32>> {
        self.buffer@
    }

    /// The element kind, for contracts.
    pub closed spec fn spec_variable_type(&self) -> VariableType {
        self.variable_type
    }

    /// New table of `table_type.limits.initial` empty slots holding
    /// callable references.
    pub fn new(table_type: &TableType) -> (r: Self)
        ensures
            r.spec_variable_type() == VariableType::AnyFunc,
            r.spec_buffer().len() == table_type.limits.initial,
            forall|i: int| 0 <= i < r.spec_buffer().len() ==> r.spec_buffer()[i] is None,
    {
        let size = table_type.limits().initial();
        let mut buffer: Vec<Option<u32>> = Vec::new();
        let mut i: u32 = 0;
        while i < size
            invariant
                i <= size,
                buffer@.len() == i,
                forall|j: int| 0 <= j < i ==> buffer@[j] is None,
            decreases size - i,
        {
            buffer.push(None);
            i = i + 1;
        }
        TableInstance { variable_type: VariableType::AnyFunc, buffer }
    }

    /// The element kind of the table.
    pub fn variable_type(&self) -> (r: VariableType)
        ensures
            r == self.spec_variable_type(),
    {
        self.variable_type
    }

    /// How many slots the table holds.
    pub fn len(&self) -> (r: usize)
        ensures
            r == self.spec_buffer().len(),
    {
        self.buffer.len()
    }

    /// The function reference at `offset`: a trap when the index is out
    /// of bounds, and a trap when the slot is empty.
    pub fn get(&self, offset: u32) -> (r: Result<u32, Error>)
        ensures
            match r {
                Ok(f) => offset < self.spec_buffer().len() && self.spec_buffer()[offset as int]
                    == Some(f),
                Err(e) => {
                    if offset >= self.spec_buffer().len() {
                        e == Error::TableOutOfBounds
                    } else {
                        self.spec_buffer()[offset as int] is None && e == Error::TableElementEmpty
                    }
                },
            },
    {
        if (offset as usize) >= self.buffer.len() {
            return Err(Error::TableOutOfBounds);
        }
        match self.buffer[offset as usize] {
            Some(f) => Ok(f),
            None => Err(Error::TableElementEmpty),
        }
    }

    /// Store the function reference `value` at `offset`.
    pub fn set(&mut self, offset: u32, value: u32) -> (r: Result<(), Error>)
        ensures
            final(self).spec_variable_type() == old(self).spec_variable_type(),
            match r {
                Ok(()) => {
                    &&& offset < old(self).spec_buffer().len()
                    &&& final(self).spec_buffer() == old(self).spec_buffer().update(
                        offset as int,
                        Some(value),
                    )
                },
                Err(e) => {
                    &&& e == Error::TableOutOfBounds
                    &&& offset >= old(self).spec_buffer().len()
                    &&& final(self).spec_buffer() == old(self).spec_buffer()
                },
            },
    {
        if (offset as usize) >= self.buffer.len() {
            return Err(Error::TableOutOfBounds);
        }
        self.buffer.set(offset as usize, Some(value));
        Ok(())
    }
}

} // verus!
