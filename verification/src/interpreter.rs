//! The runtime: function-body validation, resource instances, and the
//! virtual machine's error taxonomy.

use vstd::prelude::*;
use crate::elements::types::FunctionType;

pub mod emscripten;
pub mod env;
pub mod env_native;
pub mod memory;
pub mod program;
pub mod table;
pub mod validator;
pub mod value;
pub mod variable;

verus! {

/// Why the runtime refused or aborted an operation.
#[derive(Clone, Copy, Debug, PartialEq, Eq, Structural)]
pub enum Error {
    /// A value did not match a variable's declared type.
    VariableTypeMismatch,
    /// A write named an immutable variable.
    VariableIsImmutable,
    /// A memory was declared larger than the host allows.
    MemoryTooLarge,
    /// A load or store ran past the current memory size.
    MemoryOutOfBounds,
    /// A grow request ran past the memory's maximum.
    MemoryGrowLimit,
    /// A table access ran past the table's size.
    TableOutOfBounds,
    /// An indirect call found an empty table slot.
    TableElementEmpty,
    /// An indirect call found a function of the wrong signature.
    IndirectCallMismatch,
    /// The host's abort stub was called.
    AbortTrap,
    /// The host's assertion stub saw a zero condition.
    AssertionFailure,
    /// A host stub with no implementation was called.
    NotImplemented,
    /// A pop found a runtime stack empty.
    StackUnderflow,
    /// A named export does not exist.
    ExportNotFound,
    /// Host functions were supplied without an executor to run them.
    ExecutorMissing,
    /// An index in the native range names no host item.
    NativeItemMissing,
}


/// Whether an indirect call may proceed: the callee's structural
/// signature must equal the one named by the call's type index; any
/// mismatch is the indirect-call trap.
pub fn check_indirect_signature(actual: &FunctionType, expected: &FunctionType) -> (r: Result<
    (),
    Error,
>)
    ensures
        match r {
            Ok(()) => actual.params@ == expected.params@ && actual.return_type
                == expected.return_type,
            Err(e) => e == Error::IndirectCallMismatch && !(actual.params@ == expected.params@
                && actual.return_type == expected.return_type),
        },
{
    if actual.params.len() != expected.params.len() {
        proof {
            assert(actual.params@ != expected.params@);
        }
        return Err(Error::IndirectCallMismatch);
    }
    let n = actual.params.len();
    let mut i: usize = 0;
    while i < n
        invariant
            i <= n,
            n == actual.params@.len() == expected.params@.len(),
            forall|j: int| 0 <= j < i ==> actual.params@[j] == expected.params@[j],
        decreases n - i,
    {
        if !(actual.params[i] == expected.params[i]) {
            return Err(Error::IndirectCallMismatch);
        }
        i = i + 1;
    }
    proof {
        assert(actual.params@ =~= expected.params@);
    }
    let ret_matches = match (actual.return_type, expected.return_type) {
        (Some(a), Some(b)) => a == b,
        (None, None) => true,
        _ => false,
    };
    if ret_matches {
        Ok(())
    } else {
        Err(Error::IndirectCallMismatch)
    }
}

} // verus!
