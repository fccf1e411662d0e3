//! Static validation: the module context and the error taxonomy shared by
//! the function-body type checker.

use vstd::prelude::*;

pub mod context;

verus! {

/// Why validation rejected a module or a function body.
#[derive(Clone, Copy, Debug, PartialEq, Eq, Structural)]
pub enum Error {
    /// A push ran past the declared stack limit.
    StackOverflow,
    /// A pop or read found too few values.
    StackUnderflow,
    /// An operand had the wrong type on top of the stack.
    TypeMismatch,
    /// An `else` appeared outside the then-arm of an `if`.
    MisplacedElse,
    /// An `if` without an `else` declared a result type.
    IfWithResultMissingElse,
    /// A block closed with the wrong operand stack shape.
    BlockTypeMismatch,
    /// The labels of a branch table disagree on their block type.
    BrTableTypeMismatch,
    /// An instruction tried to read below its own frame's stack base.
    ParentFrameAccess,
    /// A memory instruction declared an alignment beyond its access width.
    AlignmentTooLarge,
    /// A branch named more labels than are open.
    MissingLabel,
    /// A local index ran past the declared locals.
    MissingLocal,
    /// A global index ran past the declared globals.
    MissingGlobal,
    /// A write named an immutable global.
    GlobalIsImmutable,
    /// A memory instruction found no memory declared.
    MissingMemory,
    /// An indirect call found no table declared.
    MissingTable,
    /// A call named a function index past the declared functions.
    MissingFunction,
    /// A type index ran past the type section.
    MissingFunctionType,
    /// A `return` appeared while validating a bare expression.
    ReturnFromExpression,
    /// A function body held no instructions.
    EmptyFunctionBody,
}

} // verus!
