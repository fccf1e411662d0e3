//! The function-body type checker.
//!
//! The checker walks a body's instructions once, tracking an operand-type
//! stack and a control-frame stack, with the polymorphic treatment of
//! unreachable code the type system requires. Every step is specified by
//! [`validate_step`], a total function of the checker state; the executable
//! checker is proved to follow it instruction by instruction.

use vstd::prelude::*;
use crate::common::stack::StackWithLimit;
use crate::common::{DEFAULT_MEMORY_INDEX, DEFAULT_TABLE_INDEX};
use crate::elements::ops::Opcode;
use crate::elements::types::{BlockType, ValueType};
use crate::validation::Error;
use crate::validation::context::{ModuleContext, spec_function_type};

verus! {

/// Alignment value that disables the alignment check.
pub const NATURAL_ALIGNMENT: u32 = 0xFFFFFFFF;

/// Type of a value on the validation stack.
#[derive(Debug, Clone, Copy, PartialEq, Eq, Structural)]
pub enum StackValueType {
    /// Any value type, from dead code.
    Any,
    /// Any number of values of any type, from dead code.
    AnyUnlimited,
    /// A concrete value type.
    Specific(ValueType),
}

impl StackValueType {
    /// Whether this is the single polymorphic marker.
    pub fn is_any(&self) -> (r: bool)
        ensures
            r == (*self is Any),
    {
        match self {
            StackValueType::Any => true,
            _ => false,
        }
    }

    /// Whether this is the unlimited polymorphic marker.
    pub fn is_any_unlimited(&self) -> (r: bool)
        ensures
            r == (*self is AnyUnlimited),
    {
        match self {
            StackValueType::AnyUnlimited => true,
            _ => false,
        }
    }

    /// The concrete value type this entry carries.
    pub fn value_type(&self) -> (r: ValueType)
        requires
            *self is Specific,
        ensures
            r == self->Specific_0,
    {
        match self {
            StackValueType::Specific(vt) => *vt,
            _ => ValueType::I32,
        }
    }

    /// Whether two stack types are compatible: the polymorphic markers
    /// match everything, concrete types only themselves.
    pub fn compatible_with(&self, other: &StackValueType) -> (r: bool)
        ensures
            r == sv_compat(*self, *other),
    {
        match (self, other) {
            (StackValueType::Any, _) => true,
            (StackValueType::AnyUnlimited, _) => true,
            (_, StackValueType::Any) => true,
            (_, StackValueType::AnyUnlimited) => true,
            (StackValueType::Specific(a), StackValueType::Specific(b)) => a == b,
        }
    }
}

/// Compatibility of two stack types, at the specification level.
pub open spec fn sv_compat(a: StackValueType, b: StackValueType) -> bool {
    a is Any || a is AnyUnlimited || b is Any || b is AnyUnlimited || a == b
}

/// Kind of an open control frame.
#[derive(Debug, Clone, Copy, PartialEq, Eq, Structural)]
pub enum BlockFrameType {
    /// The function's own implicit frame.
    Function,
    /// A plain block.
    Block,
    /// A loop, whose branches target its beginning.
    Loop,
    /// The then-arm of an `if`.
    IfTrue,
    /// The else-arm of an `if`.
    IfFalse,
}

/// An open control frame of the validation stack.
#[derive(Debug, Clone, Copy, PartialEq, Eq, Structural)]
pub struct BlockFrame {
    /// The kind of construct that opened the frame.
    pub frame_type: BlockFrameType,
    /// The declared result shape of the region.
    pub block_type: BlockType,
    /// The instruction position the frame was opened at.
    pub begin_position: usize,
    /// The position branches to this frame resume at.
    pub branch_position: usize,
    /// The position of the frame's `end`.
    pub end_position: usize,
    /// The operand-stack height at which the frame was opened.
    pub value_stack_len: usize,
}

/// What a validated instruction says about the code that follows it.
#[derive(Debug, Clone, Copy, PartialEq, Eq, Structural)]
pub enum InstructionOutcome {
    /// Validate the next instruction.
    ValidateNextInstruction,
    /// The instruction never falls through; what follows is dead code.
    Unreachable,
}

/// The mutable state of the checker, at the specification level.
pub struct VState {
    /// The operand-type stack, bottom first.
    pub value_stack: Seq<StackValueType>,
    /// The open control frames, outermost first.
    pub frame_stack: Seq<BlockFrame>,
    /// The position of the instruction being validated.
    pub position: int,
    /// The collected label map: block begin position, block end position.
    pub labels: Seq<(usize, usize)>,
    /// The operand stack's capacity.
    pub vlimit: int,
    /// The frame stack's capacity.
    pub flimit: int,
}

// ---------------------------------------------------------------------------
// The specification of each stack operation.
// ---------------------------------------------------------------------------

/// Push an operand type.
pub open spec fn push_value_s(s: VState, v: StackValueType) -> Result<VState, Error> {
    if s.value_stack.len() >= s.vlimit {
        Err(Error::StackOverflow)
    } else {
        Ok(VState { value_stack: s.value_stack.push(v), ..s })
    }
}

/// Fail unless the operand stack holds a value above the top frame's base.
pub open spec fn check_access_s(s: VState) -> Result<(), Error> {
    if s.frame_stack.len() == 0 {
        Err(Error::StackUnderflow)
    } else if s.value_stack.len() > s.frame_stack.last().value_stack_len {
        Ok(())
    } else {
        Err(Error::ParentFrameAccess)
    }
}

/// Pop an operand of the expected type; the unlimited marker stays put.
pub open spec fn pop_value_s(s: VState, expected: StackValueType) -> Result<VState, Error> {
    match check_access_s(s) {
        Err(e) => Err(e),
        Ok(()) => if s.value_stack.len() == 0 {
            Err(Error::StackUnderflow)
        } else {
            let top = s.value_stack.last();
            if top is AnyUnlimited {
                Ok(s)
            } else if sv_compat(top, expected) {
                Ok(VState { value_stack: s.value_stack.drop_last(), ..s })
            } else {
                Err(Error::TypeMismatch)
            }
        },
    }
}

/// Check the top operand against the expected type without removing it.
pub open spec fn tee_value_s(s: VState, expected: StackValueType) -> Result<(), Error> {
    match check_access_s(s) {
        Err(e) => Err(e),
        Ok(()) => if s.value_stack.len() == 0 {
            Err(Error::StackUnderflow)
        } else if sv_compat(s.value_stack.last(), expected) {
            Ok(())
        } else {
            Err(Error::TypeMismatch)
        },
    }
}

/// Pop an operand of any type; the unlimited marker stays put and reads
/// as a single polymorphic value.
pub open spec fn pop_any_s(s: VState) -> Result<(StackValueType, VState), Error> {
    match check_access_s(s) {
        Err(e) => Err(e),
        Ok(()) => if s.value_stack.len() == 0 {
            Err(Error::StackUnderflow)
        } else {
            let top = s.value_stack.last();
            if top is AnyUnlimited {
                Ok((StackValueType::Any, s))
            } else {
                Ok((top, VState { value_stack: s.value_stack.drop_last(), ..s }))
            }
        },
    }
}

/// Read the top operand without removing it.
pub open spec fn tee_any_s(s: VState) -> Result<StackValueType, Error> {
    match check_access_s(s) {
        Err(e) => Err(e),
        Ok(()) => if s.value_stack.len() == 0 {
            Err(Error::StackUnderflow)
        } else {
            Ok(s.value_stack.last())
        },
    }
}

/// Mark everything that follows as dead code.
pub open spec fn unreachable_s(s: VState) -> Result<VState, Error> {
    push_value_s(s, StackValueType::AnyUnlimited)
}

/// Open a control frame at the current position.
pub open spec fn push_label_s(s: VState, frame_type: BlockFrameType, block_type: BlockType)
    -> Result<VState, Error> {
    if s.frame_stack.len() >= s.flimit {
        Err(Error::StackOverflow)
    } else if !(0 <= s.position <= usize::MAX) || s.value_stack.len() > usize::MAX {
        Err(Error::StackOverflow)
    } else {
        Ok(
            VState {
                frame_stack: s.frame_stack.push(
                    BlockFrame {
                        frame_type,
                        block_type,
                        begin_position: s.position as usize,
                        branch_position: s.position as usize,
                        end_position: s.position as usize,
                        value_stack_len: s.value_stack.len() as usize,
                    },
                ),
                ..s
            },
        )
    }
}

/// Close the top control frame: the operand stack must match the frame's
/// declared result, the stack resets to the frame's base, and the frame's
/// result (if any) is pushed for the enclosing frame.
pub open spec fn pop_label_s(s: VState) -> Result<VState, Error> {
    if s.frame_stack.len() == 0 {
        Err(Error::StackUnderflow)
    } else {
        let frame = s.frame_stack.last();
        let popped = VState { frame_stack: s.frame_stack.drop_last(), ..s };
        let actual: Option<StackValueType> = if s.value_stack.len() > frame.value_stack_len {
            Some(s.value_stack.last())
        } else {
            None
        };
        let shrunk = VState {
            value_stack: if frame.value_stack_len as int <= popped.value_stack.len() {
                popped.value_stack.take(frame.value_stack_len as int)
            } else {
                popped.value_stack
            },
            ..popped
        };
        let type_ok = match frame.block_type {
            BlockType::NoResult => match actual {
                Option::Some(vt) => vt is AnyUnlimited,
                Option::None => true,
            },
            BlockType::Value(rv) => match actual {
                Option::Some(vt) => sv_compat(vt, StackValueType::Specific(rv)),
                Option::None => false,
            },
        };
        if !type_ok {
            Err(Error::BlockTypeMismatch)
        } else {
            let labelled = if shrunk.frame_stack.len() > 0 {
                if !(0 <= s.position <= usize::MAX) {
                    shrunk
                } else {
                    VState {
                        labels: shrunk.labels.push((frame.begin_position, s.position as usize)),
                        ..shrunk
                    }
                }
            } else {
                shrunk
            };
            match frame.block_type {
                BlockType::Value(vt) => push_value_s(labelled, StackValueType::Specific(vt)),
                BlockType::NoResult => Ok(labelled),
            }
        }
    }
}

/// The open frame `idx` levels out from the innermost one.
pub open spec fn require_label_s(s: VState, idx: u32) -> Result<BlockFrame, Error> {
    if idx < s.frame_stack.len() {
        Ok(s.frame_stack[s.frame_stack.len() - 1 - idx])
    } else {
        Err(Error::StackUnderflow)
    }
}

/// The type of local `idx`, as a stack type.
pub open spec fn require_local_s(locals: Seq<ValueType>, idx: u32) -> Result<
    StackValueType,
    Error,
> {
    if idx < locals.len() {
        Ok(StackValueType::Specific(locals[idx as int]))
    } else {
        Err(Error::MissingLocal)
    }
}

/// The type of global `idx`, checking mutability if asked to.
pub open spec fn require_global_s(mc: ModuleContext, idx: u32, mutability: Option<bool>)
    -> Result<StackValueType, Error> {
    if idx >= mc.globals@.len() {
        Err(Error::MissingGlobal)
    } else {
        let g = mc.globals@[idx as int];
        match mutability {
            Option::Some(m) => if m != g.is_mutable {
                Err(if m { Error::GlobalIsImmutable } else { Error::TypeMismatch })
            } else {
                Ok(StackValueType::Specific(g.content_type))
            },
            Option::None => Ok(StackValueType::Specific(g.content_type)),
        }
    }
}


/// The checker state for one function body.
pub struct FunctionValidationContext<'a> {
    /// The module declarations the body is checked against.
    module: &'a ModuleContext,
    /// The position of the instruction being validated.
    position: usize,
    /// The function's locals: parameters first, then declared locals.
    locals: &'a Vec<ValueType>,
    /// The operand-type stack.
    value_stack: StackWithLimit<StackValueType>,
    /// The control-frame stack.
    frame_stack: StackWithLimit<BlockFrame>,
    /// The function's declared return type, `None` for a bare expression.
    return_type: Option<BlockType>,
    /// The collected label map: block begin position, block end position.
    labels: Vec<(usize, usize)>,
}

impl<'a> FunctionValidationContext<'a> {
    /// The mutable state, for contracts.
    pub closed spec fn state(&self) -> VState {
        VState {
            value_stack: self.value_stack@,
            frame_stack: self.frame_stack@,
            position: self.position as int,
            labels: self.labels@,
            vlimit: self.value_stack.spec_limit(),
            flimit: self.frame_stack.spec_limit(),
        }
    }

    /// The parts of the checker that never change, for contracts.
    pub closed spec fn frozen(&self) -> (ModuleContext, Seq<ValueType>, Option<BlockType>) {
        (*self.module, self.locals@, self.return_type)
    }

    /// The module declarations, for contracts.
    pub closed spec fn spec_module(&self) -> ModuleContext {
        *self.module
    }

    /// The locals, for contracts.
    pub closed spec fn spec_locals(&self) -> Seq<ValueType> {
        self.locals@
    }

    /// The stacks stay within their limits.
    pub open spec fn wf(&self) -> bool {
        &&& self.state().value_stack.len() <= self.state().vlimit
        &&& self.state().frame_stack.len() <= self.state().flimit
    }

    /// New checker state for a function with the given locals and
    /// signature, with empty stacks of the given capacities.
    pub fn new(
        module: &'a ModuleContext,
        locals: &'a Vec<ValueType>,
        value_stack_limit: usize,
        frame_stack_limit: usize,
        return_type: Option<ValueType>,
    ) -> (r: Self)
        ensures
            r.wf(),
            r.state().value_stack == Seq::<StackValueType>::empty(),
            r.state().frame_stack == Seq::<BlockFrame>::empty(),
            r.state().position == 0,
            r.state().labels == Seq::<(usize, usize)>::empty(),
            r.state().vlimit == value_stack_limit,
            r.state().flimit == frame_stack_limit,
            r.spec_module() == *module,
            r.spec_locals() == locals@,
            r.spec_return_type() == Some(
                match return_type {
                    Some(vt) => BlockType::Value(vt),
                    None => BlockType::NoResult,
                },
            ),
    {
        FunctionValidationContext {
            module,
            position: 0,
            locals,
            value_stack: StackWithLimit::with_limit(value_stack_limit),
            frame_stack: StackWithLimit::with_limit(frame_stack_limit),
            return_type: Some(
                match return_type {
                    Some(vt) => BlockType::Value(vt),
                    None => BlockType::NoResult,
                },
            ),
            labels: Vec::new(),
        }
    }

    /// The declared return type, for contracts.
    pub closed spec fn spec_return_type(&self) -> Option<BlockType> {
        self.return_type
    }

    /// Push an operand type.
    pub fn push_value(&mut self, value_type: StackValueType) -> (r: Result<(), Error>)
        ensures
            final(self).frozen() == old(self).frozen(),
            match r {
                Ok(()) => push_value_s(old(self).state(), value_type) == Ok::<VState, Error>(
                    final(self).state(),
                ),
                Err(e) => push_value_s(old(self).state(), value_type) == Err::<VState, Error>(e)
                    && final(self).state() == old(self).state(),
            },
    {
        match self.value_stack.push(value_type) {
            Ok(()) => Ok(()),
            Err(_) => Err(Error::StackOverflow),
        }
    }

    /// Fail unless the operand stack holds a value above the top frame's
    /// base.
    fn check_stack_access(&self) -> (r: Result<(), Error>)
        ensures
            r == check_access_s(self.state()),
    {
        let frame = match self.frame_stack.top() {
            Ok(f) => f,
            Err(_) => { return Err(Error::StackUnderflow); },
        };
        if self.value_stack.len() > frame.value_stack_len {
            Ok(())
        } else {
            Err(Error::ParentFrameAccess)
        }
    }

    /// Pop an operand of the expected type.
    pub fn pop_value(&mut self, value_type: StackValueType) -> (r: Result<(), Error>)
        requires
            old(self).wf(),
        ensures
            final(self).frozen() == old(self).frozen(),
            match r {
                Ok(()) => pop_value_s(old(self).state(), value_type) == Ok::<VState, Error>(
                    final(self).state(),
                ),
                Err(e) => pop_value_s(old(self).state(), value_type) == Err::<VState, Error>(e),
            },
    {
        if let Err(e) = self.check_stack_access() {
            return Err(e);
        }
        let top = match self.value_stack.pop() {
            Ok(v) => v,
            Err(_) => { return Err(Error::StackUnderflow); },
        };
        match top {
            StackValueType::AnyUnlimited => {
                let pushed = self.value_stack.push(StackValueType::AnyUnlimited);
                proof {
                    assert(pushed is Ok);
                    assert(self.value_stack@ =~= old(self).state().value_stack);
                }
                Ok(())
            },
            other => {
                if other.compatible_with(&value_type) {
                    Ok(())
                } else {
                    Err(Error::TypeMismatch)
                }
            },
        }
    }

    /// Check the top operand against the expected type without removing
    /// it.
    pub fn tee_value(&mut self, value_type: StackValueType) -> (r: Result<(), Error>)
        ensures
            *final(self) == *old(self),
            r == tee_value_s(old(self).state(), value_type),
    {
        if let Err(e) = self.check_stack_access() {
            return Err(e);
        }
        let top = match self.value_stack.top() {
            Ok(v) => v,
            Err(_) => { return Err(Error::StackUnderflow); },
        };
        if top.compatible_with(&value_type) {
            Ok(())
        } else {
            Err(Error::TypeMismatch)
        }
    }

    /// Pop an operand of any type.
    pub fn pop_any_value(&mut self) -> (r: Result<StackValueType, Error>)
        requires
            old(self).wf(),
        ensures
            final(self).frozen() == old(self).frozen(),
            match r {
                Ok(v) => pop_any_s(old(self).state()) == Ok::<(StackValueType, VState), Error>(
                    (v, final(self).state()),
                ),
                Err(e) => pop_any_s(old(self).state()) == Err::<(StackValueType, VState), Error>(
                    e,
                ),
            },
    {
        if let Err(e) = self.check_stack_access() {
            return Err(e);
        }
        let top = match self.value_stack.pop() {
            Ok(v) => v,
            Err(_) => { return Err(Error::StackUnderflow); },
        };
        match top {
            StackValueType::AnyUnlimited => {
                let pushed = self.value_stack.push(StackValueType::AnyUnlimited);
                proof {
                    assert(pushed is Ok);
                    assert(self.value_stack@ =~= old(self).state().value_stack);
                }
                Ok(StackValueType::Any)
            },
            other => Ok(other),
        }
    }

    /// Read the top operand without removing it.
    pub fn tee_any_value(&mut self) -> (r: Result<StackValueType, Error>)
        ensures
            *final(self) == *old(self),
            r == tee_any_s(old(self).state()),
    {
        if let Err(e) = self.check_stack_access() {
            return Err(e);
        }
        match self.value_stack.top() {
            Ok(v) => Ok(*v),
            Err(_) => Err(Error::StackUnderflow),
        }
    }

    /// Mark everything that follows as dead code.
    pub fn unreachable(&mut self) -> (r: Result<(), Error>)
        ensures
            final(self).frozen() == old(self).frozen(),
            match r {
                Ok(()) => unreachable_s(old(self).state()) == Ok::<VState, Error>(
                    final(self).state(),
                ),
                Err(e) => unreachable_s(old(self).state()) == Err::<VState, Error>(e)
                    && final(self).state() == old(self).state(),
            },
    {
        self.push_value(StackValueType::AnyUnlimited)
    }

    /// The innermost open frame.
    pub fn top_label(&self) -> (r: Result<&BlockFrame, Error>)
        ensures
            match r {
                Ok(f) => self.state().frame_stack.len() > 0 && *f
                    == self.state().frame_stack.last(),
                Err(e) => e == Error::StackUnderflow && self.state().frame_stack.len() == 0,
            },
    {
        match self.frame_stack.top() {
            Ok(f) => Ok(f),
            Err(_) => Err(Error::StackUnderflow),
        }
    }

    /// Open a control frame at the current position.
    pub fn push_label(&mut self, frame_type: BlockFrameType, block_type: BlockType) -> (r: Result<
        (),
        Error,
    >)
        ensures
            final(self).frozen() == old(self).frozen(),
            match r {
                Ok(()) => push_label_s(old(self).state(), frame_type, block_type) == Ok::<
                    VState,
                    Error,
                >(final(self).state()),
                Err(e) => push_label_s(old(self).state(), frame_type, block_type) == Err::<
                    VState,
                    Error,
                >(e) && final(self).state() == old(self).state(),
            },
    {
        let frame = BlockFrame {
            frame_type,
            block_type,
            begin_position: self.position,
            branch_position: self.position,
            end_position: self.position,
            value_stack_len: self.value_stack.len(),
        };
        match self.frame_stack.push(frame) {
            Ok(()) => Ok(()),
            Err(_) => Err(Error::StackOverflow),
        }
    }

    /// Close the top control frame.
    pub fn pop_label(&mut self) -> (r: Result<InstructionOutcome, Error>)
        ensures
            final(self).frozen() == old(self).frozen(),
            match r {
                Ok(outcome) => outcome == InstructionOutcome::ValidateNextInstruction
                    && pop_label_s(old(self).state()) == Ok::<VState, Error>(final(self).state()),
                Err(e) => pop_label_s(old(self).state()) == Err::<VState, Error>(e),
            },
    {
        let frame = match self.frame_stack.pop() {
            Ok(f) => f,
            Err(_) => { return Err(Error::StackUnderflow); },
        };
        let actual: Option<StackValueType> = if self.value_stack.len() > frame.value_stack_len {
            match self.value_stack.pop() {
                Ok(v) => Some(v),
                Err(_) => { return Err(Error::StackUnderflow); },
            }
        } else {
            None
        };
        if frame.value_stack_len <= self.value_stack.len() {
            self.value_stack.resize(frame.value_stack_len);
        }
        let type_ok: bool = match frame.block_type {
            BlockType::NoResult => match &actual {
                Some(vt) => vt.is_any_unlimited(),
                None => true,
            },
            BlockType::Value(rv) => match &actual {
                Some(vt) => vt.compatible_with(&StackValueType::Specific(rv)),
                None => false,
            },
        };
        if !type_ok {
            return Err(Error::BlockTypeMismatch);
        }
        if !self.frame_stack.is_empty() {
            self.labels.push((frame.begin_position, self.position));
        }
        proof {
            let s0 = old(self).state();
            let frame_g = s0.frame_stack.last();
            if frame_g.value_stack_len as int <= s0.value_stack.len() {
                assert(self.value_stack@ =~= s0.value_stack.take(frame_g.value_stack_len as int));
            }
        }
        match frame.block_type {
            BlockType::Value(vt) => {
                match self.push_value(StackValueType::Specific(vt)) {
                    Ok(()) => Ok(InstructionOutcome::ValidateNextInstruction),
                    Err(e) => Err(e),
                }
            },
            BlockType::NoResult => Ok(InstructionOutcome::ValidateNextInstruction),
        }
    }

    /// The open frame `idx` levels out from the innermost one.
    pub fn require_label(&self, idx: u32) -> (r: Result<&BlockFrame, Error>)
        ensures
            match r {
                Ok(f) => require_label_s(self.state(), idx) == Ok::<BlockFrame, Error>(*f),
                Err(e) => require_label_s(self.state(), idx) == Err::<BlockFrame, Error>(e),
            },
    {
        match self.frame_stack.get(idx as usize) {
            Ok(f) => Ok(f),
            Err(_) => Err(Error::StackUnderflow),
        }
    }

    /// The function's declared return type.
    pub fn return_type(&self) -> (r: Result<BlockType, Error>)
        ensures
            match r {
                Ok(bt) => self.spec_return_type() == Some(bt),
                Err(e) => self.spec_return_type() is None && e == Error::ReturnFromExpression,
            },
    {
        match self.return_type {
            Some(bt) => Ok(bt),
            None => Err(Error::ReturnFromExpression),
        }
    }

    /// The type of local `idx`.
    pub fn require_local(&self, idx: u32) -> (r: Result<StackValueType, Error>)
        ensures
            r == require_local_s(self.spec_locals(), idx),
    {
        if (idx as usize) < self.locals.len() {
            Ok(StackValueType::Specific(self.locals[idx as usize]))
        } else {
            Err(Error::MissingLocal)
        }
    }

    /// The type of global `idx`, checking mutability if asked to.
    pub fn require_global(&self, idx: u32, mutability: Option<bool>) -> (r: Result<
        StackValueType,
        Error,
    >)
        ensures
            r == require_global_s(self.spec_module(), idx, mutability),
    {
        match self.module.require_global(idx, mutability) {
            Ok(g) => Ok(StackValueType::Specific(g.content_type())),
            Err(e) => Err(e),
        }
    }

    /// Check that a memory exists at `idx`.
    pub fn require_memory(&self, idx: u32) -> (r: Result<(), Error>)
        ensures
            match r {
                Ok(()) => idx < self.spec_module().memories@.len(),
                Err(e) => e == Error::MissingMemory && idx >= self.spec_module().memories@.len(),
            },
    {
        self.module.require_memory(idx)
    }

    /// Check that a table exists at `idx`.
    pub fn require_table(&self, idx: u32) -> (r: Result<(), Error>)
        ensures
            match r {
                Ok(()) => idx < self.spec_module().tables@.len(),
                Err(e) => e == Error::MissingTable && idx >= self.spec_module().tables@.len(),
            },
    {
        match self.module.require_table(idx) {
            Ok(_) => Ok(()),
            Err(e) => Err(e),
        }
    }

    /// The signature of the function at `idx` in the function index space.
    pub fn require_function(&self, idx: u32) -> (r: Result<(Vec<ValueType>, BlockType), Error>)
        ensures
            match r {
                Ok(sig) => require_function_s(self.spec_module(), idx) matches Ok(s) && s == (
                sig.0@, sig.1),
                Err(e) => require_function_s(self.spec_module(), idx) == Err::<
                    (Seq<ValueType>, BlockType),
                    Error,
                >(e),
            },
    {
        self.module.require_function(idx)
    }

    /// The signature behind the type index `idx`.
    pub fn require_function_type(&self, idx: u32) -> (r: Result<
        (Vec<ValueType>, BlockType),
        Error,
    >)
        ensures
            match r {
                Ok(sig) => spec_function_type(self.spec_module(), idx) matches Ok(s) && s == (
                sig.0@, sig.1),
                Err(e) => spec_function_type(self.spec_module(), idx) == Err::<
                    (Seq<ValueType>, BlockType),
                    Error,
                >(e),
            },
    {
        self.module.require_function_type(idx)
    }

    /// Whether any frame is still open.
    pub fn frame_stack_is_empty(&self) -> (r: bool)
        ensures
            r == (self.state().frame_stack.len() == 0),
    {
        self.frame_stack.is_empty()
    }

    /// The module declarations the body is checked against.
    pub fn spec_module_ref(&self) -> (r: &ModuleContext)
        ensures
            *r == self.spec_module(),
    {
        self.module
    }

    /// Destroy the checker, returning the collected label map.
    pub fn function_labels(self) -> (r: Vec<(usize, usize)>)
        ensures
            r@ == self.state().labels,
    {
        self.labels
    }
}

/// The signature of function `idx`, at the specification level.
pub open spec fn require_function_s(mc: ModuleContext, idx: u32) -> Result<
    (Seq<ValueType>, BlockType),
    Error,
> {
    if idx < mc.func_type_indexes@.len() {
        spec_function_type(mc, mc.func_type_indexes@[idx as int])
    } else {
        Err(Error::MissingFunction)
    }
}


// ---------------------------------------------------------------------------
// The specification of each instruction class.
// ---------------------------------------------------------------------------

/// A constant pushes its type.
pub open spec fn validate_const_s(s: VState, vt: StackValueType) -> Result<
    (VState, InstructionOutcome),
    Error,
> {
    match push_value_s(s, vt) {
        Ok(s2) => Ok((s2, InstructionOutcome::ValidateNextInstruction)),
        Err(e) => Err(e),
    }
}

/// A unary operator pops and pushes its operand type.
pub open spec fn validate_unop_s(s: VState, vt: StackValueType) -> Result<
    (VState, InstructionOutcome),
    Error,
> {
    match pop_value_s(s, vt) {
        Ok(s2) => validate_const_s(s2, vt),
        Err(e) => Err(e),
    }
}

/// A binary operator pops two operands and pushes one of the same type.
pub open spec fn validate_binop_s(s: VState, vt: StackValueType) -> Result<
    (VState, InstructionOutcome),
    Error,
> {
    match pop_value_s(s, vt) {
        Ok(s2) => validate_unop_s(s2, vt),
        Err(e) => Err(e),
    }
}

/// A test pops its operand and pushes an i32.
pub open spec fn validate_testop_s(s: VState, vt: StackValueType) -> Result<
    (VState, InstructionOutcome),
    Error,
> {
    match pop_value_s(s, vt) {
        Ok(s2) => validate_const_s(s2, StackValueType::Specific(ValueType::I32)),
        Err(e) => Err(e),
    }
}

/// A comparison pops two operands and pushes an i32.
pub open spec fn validate_relop_s(s: VState, vt: StackValueType) -> Result<
    (VState, InstructionOutcome),
    Error,
> {
    match pop_value_s(s, vt) {
        Ok(s2) => validate_testop_s(s2, vt),
        Err(e) => Err(e),
    }
}

/// A conversion pops one type and pushes another.
pub open spec fn validate_cvtop_s(s: VState, from: StackValueType, to: StackValueType) -> Result<
    (VState, InstructionOutcome),
    Error,
> {
    match pop_value_s(s, from) {
        Ok(s2) => validate_const_s(s2, to),
        Err(e) => Err(e),
    }
}

/// `drop` pops any operand.
pub open spec fn validate_drop_s(s: VState) -> Result<(VState, InstructionOutcome), Error> {
    match pop_any_s(s) {
        Ok((_, s2)) => Ok((s2, InstructionOutcome::ValidateNextInstruction)),
        Err(e) => Err(e),
    }
}

/// `select` pops a condition and two operands of one type, pushing it back.
pub open spec fn validate_select_s(s: VState) -> Result<(VState, InstructionOutcome), Error> {
    match pop_value_s(s, StackValueType::Specific(ValueType::I32)) {
        Err(e) => Err(e),
        Ok(s2) => match pop_any_s(s2) {
            Err(e) => Err(e),
            Ok((t, s3)) => match pop_value_s(s3, t) {
                Err(e) => Err(e),
                Ok(s4) => validate_const_s(s4, t),
            },
        },
    }
}

/// `get_local` pushes the local's type.
pub open spec fn validate_get_local_s(s: VState, locals: Seq<ValueType>, idx: u32) -> Result<
    (VState, InstructionOutcome),
    Error,
> {
    match require_local_s(locals, idx) {
        Err(e) => Err(e),
        Ok(t) => validate_const_s(s, t),
    }
}

/// `set_local` pops a value of the local's type.
pub open spec fn validate_set_local_s(s: VState, locals: Seq<ValueType>, idx: u32) -> Result<
    (VState, InstructionOutcome),
    Error,
> {
    match require_local_s(locals, idx) {
        Err(e) => Err(e),
        Ok(t) => match pop_any_s(s) {
            Err(e) => Err(e),
            Ok((got, s2)) => if sv_compat(t, got) {
                Ok((s2, InstructionOutcome::ValidateNextInstruction))
            } else {
                Err(Error::TypeMismatch)
            },
        },
    }
}

/// `tee_local` checks the top of the stack against the local's type.
pub open spec fn validate_tee_local_s(s: VState, locals: Seq<ValueType>, idx: u32) -> Result<
    (VState, InstructionOutcome),
    Error,
> {
    match require_local_s(locals, idx) {
        Err(e) => Err(e),
        Ok(t) => match tee_any_s(s) {
            Err(e) => Err(e),
            Ok(got) => if sv_compat(t, got) {
                Ok((s, InstructionOutcome::ValidateNextInstruction))
            } else {
                Err(Error::TypeMismatch)
            },
        },
    }
}

/// `get_global` pushes the global's type.
pub open spec fn validate_get_global_s(s: VState, mc: ModuleContext, idx: u32) -> Result<
    (VState, InstructionOutcome),
    Error,
> {
    match require_global_s(mc, idx, Option::None) {
        Err(e) => Err(e),
        Ok(t) => validate_const_s(s, t),
    }
}

/// `set_global` pops a value of the global's type; the global must be
/// mutable.
pub open spec fn validate_set_global_s(s: VState, mc: ModuleContext, idx: u32) -> Result<
    (VState, InstructionOutcome),
    Error,
> {
    match require_global_s(mc, idx, Option::Some(true)) {
        Err(e) => Err(e),
        Ok(t) => match pop_any_s(s) {
            Err(e) => Err(e),
            Ok((got, s2)) => if sv_compat(t, got) {
                Ok((s2, InstructionOutcome::ValidateNextInstruction))
            } else {
                Err(Error::TypeMismatch)
            },
        },
    }
}

/// The value an alignment hint denotes: two to its power, saturated.
pub open spec fn alignment_value(align: u32) -> int {
    if align >= 32 {
        u32::MAX as int
    } else {
        (1u32 << align) as int
    }
}

/// A load checks its alignment, pops an address, and pushes its type.
pub open spec fn validate_load_s(
    s: VState,
    mc: ModuleContext,
    align: u32,
    max_align: u32,
    vt: StackValueType,
) -> Result<(VState, InstructionOutcome), Error> {
    if align != NATURAL_ALIGNMENT && alignment_value(align) > max_align {
        Err(Error::AlignmentTooLarge)
    } else {
        match pop_value_s(s, StackValueType::Specific(ValueType::I32)) {
            Err(e) => Err(e),
            Ok(s2) => if DEFAULT_MEMORY_INDEX >= mc.memories@.len() {
                Err(Error::MissingMemory)
            } else {
                validate_const_s(s2, vt)
            },
        }
    }
}

/// A store checks its alignment and pops a value and an address.
pub open spec fn validate_store_s(
    s: VState,
    mc: ModuleContext,
    align: u32,
    max_align: u32,
    vt: StackValueType,
) -> Result<(VState, InstructionOutcome), Error> {
    if align != NATURAL_ALIGNMENT && alignment_value(align) > max_align {
        Err(Error::AlignmentTooLarge)
    } else if DEFAULT_MEMORY_INDEX >= mc.memories@.len() {
        Err(Error::MissingMemory)
    } else {
        match pop_value_s(s, vt) {
            Err(e) => Err(e),
            Ok(s2) => match pop_value_s(s2, StackValueType::Specific(ValueType::I32)) {
                Err(e) => Err(e),
                Ok(s3) => Ok((s3, InstructionOutcome::ValidateNextInstruction)),
            },
        }
    }
}

/// `block` and `loop` open a frame of their kind.
pub open spec fn validate_block_like_s(s: VState, ft: BlockFrameType, bt: BlockType) -> Result<
    (VState, InstructionOutcome),
    Error,
> {
    match push_label_s(s, ft, bt) {
        Ok(s2) => Ok((s2, InstructionOutcome::ValidateNextInstruction)),
        Err(e) => Err(e),
    }
}

/// `if` pops its condition and opens a then-frame.
pub open spec fn validate_if_s(s: VState, bt: BlockType) -> Result<
    (VState, InstructionOutcome),
    Error,
> {
    match pop_value_s(s, StackValueType::Specific(ValueType::I32)) {
        Err(e) => Err(e),
        Ok(s2) => validate_block_like_s(s2, BlockFrameType::IfTrue, bt),
    }
}

/// `else` closes the then-frame and opens the else-frame of the same type.
pub open spec fn validate_else_s(s: VState) -> Result<(VState, InstructionOutcome), Error> {
    if s.frame_stack.len() == 0 {
        Err(Error::StackUnderflow)
    } else if !(s.frame_stack.last().frame_type is IfTrue) {
        Err(Error::MisplacedElse)
    } else {
        let bt = s.frame_stack.last().block_type;
        match pop_label_s(s) {
            Err(e) => Err(e),
            Ok(s2) => {
                let after_pop: Result<VState, Error> = match bt {
                    BlockType::Value(vt) => pop_value_s(s2, StackValueType::Specific(vt)),
                    BlockType::NoResult => Ok(s2),
                };
                match after_pop {
                    Err(e) => Err(e),
                    Ok(s3) => validate_block_like_s(s3, BlockFrameType::IfFalse, bt),
                }
            },
        }
    }
}

/// `end` closes the innermost frame; a then-frame may only close without
/// an `else` when it leaves no value.
pub open spec fn validate_end_s(s: VState) -> Result<(VState, InstructionOutcome), Error> {
    if s.frame_stack.len() == 0 {
        Err(Error::StackUnderflow)
    } else if s.frame_stack.last().frame_type is IfTrue && !(s.frame_stack.last().block_type
        is NoResult) {
        Err(Error::IfWithResultMissingElse)
    } else {
        match pop_label_s(s) {
            Err(e) => Err(e),
            Ok(s2) => Ok((s2, InstructionOutcome::ValidateNextInstruction)),
        }
    }
}

/// A branch to a non-loop frame must see that frame's value on the stack.
pub open spec fn check_branch_value_s(s: VState, frame: BlockFrame) -> Result<(), Error> {
    if !(frame.frame_type is Loop) {
        match frame.block_type {
            BlockType::Value(vt) => tee_value_s(s, StackValueType::Specific(vt)),
            BlockType::NoResult => Ok(()),
        }
    } else {
        Ok(())
    }
}

/// `br` checks the target's value and never falls through.
pub open spec fn validate_br_s(s: VState, idx: u32) -> Result<
    (VState, InstructionOutcome),
    Error,
> {
    match require_label_s(s, idx) {
        Err(e) => Err(e),
        Ok(frame) => match check_branch_value_s(s, frame) {
            Err(e) => Err(e),
            Ok(()) => Ok((s, InstructionOutcome::Unreachable)),
        },
    }
}

/// `br_if` pops its condition, checks the target's value, and falls
/// through.
pub open spec fn validate_br_if_s(s: VState, idx: u32) -> Result<
    (VState, InstructionOutcome),
    Error,
> {
    match pop_value_s(s, StackValueType::Specific(ValueType::I32)) {
        Err(e) => Err(e),
        Ok(s2) => match require_label_s(s2, idx) {
            Err(e) => Err(e),
            Ok(frame) => match check_branch_value_s(s2, frame) {
                Err(e) => Err(e),
                Ok(()) => Ok((s2, InstructionOutcome::ValidateNextInstruction)),
            },
        },
    }
}

/// Scan the labels of a branch table for their shared non-loop block type.
pub open spec fn br_table_scan_s(
    s: VState,
    table: Seq<u32>,
    k: int,
    acc: Option<BlockType>,
) -> Result<Option<BlockType>, Error>
    decreases table.len() - k,
{
    if k < 0 || k >= table.len() {
        Ok(acc)
    } else {
        match require_label_s(s, table[k]) {
            Err(e) => Err(e),
            Ok(frame) => if !(frame.frame_type is Loop) {
                if acc matches Some(bt) && bt != frame.block_type {
                    Err(Error::BrTableTypeMismatch)
                } else {
                    br_table_scan_s(s, table, k + 1, Some(frame.block_type))
                }
            } else {
                br_table_scan_s(s, table, k + 1, acc)
            },
        }
    }
}

/// `br_table` requires all its non-loop targets to share one block type,
/// pops its index, checks the shared value, and never falls through.
pub open spec fn validate_br_table_s(s: VState, table: Seq<u32>, default: u32) -> Result<
    (VState, InstructionOutcome),
    Error,
> {
    let first: Result<Option<BlockType>, Error> = match require_label_s(s, default) {
        Err(e) => Err(e),
        Ok(frame) => if !(frame.frame_type is Loop) {
            Ok(Some(frame.block_type))
        } else {
            Ok(None)
        },
    };
    match first {
        Err(e) => Err(e),
        Ok(acc0) => match br_table_scan_s(s, table, 0, acc0) {
            Err(e) => Err(e),
            Ok(required) => match pop_value_s(s, StackValueType::Specific(ValueType::I32)) {
                Err(e) => Err(e),
                Ok(s2) => {
                    let checked: Result<(), Error> = match required {
                        Option::Some(BlockType::Value(vt)) => tee_value_s(
                            s2,
                            StackValueType::Specific(vt),
                        ),
                        _ => Ok(()),
                    };
                    match checked {
                        Err(e) => Err(e),
                        Ok(()) => Ok((s2, InstructionOutcome::Unreachable)),
                    }
                },
            },
        },
    }
}

/// `return` checks the function's declared result and never falls through.
pub open spec fn validate_return_s(s: VState, ret: Option<BlockType>) -> Result<
    (VState, InstructionOutcome),
    Error,
> {
    match ret {
        Option::None => Err(Error::ReturnFromExpression),
        Option::Some(bt) => {
            let checked: Result<(), Error> = match bt {
                BlockType::Value(vt) => tee_value_s(s, StackValueType::Specific(vt)),
                BlockType::NoResult => Ok(()),
            };
            match checked {
                Err(e) => Err(e),
                Ok(()) => Ok((s, InstructionOutcome::Unreachable)),
            }
        },
    }
}

/// Pop a signature's parameters, last first.
pub open spec fn pop_params_s(s: VState, params: Seq<ValueType>) -> Result<VState, Error>
    decreases params.len(),
{
    if params.len() == 0 {
        Ok(s)
    } else {
        match pop_value_s(s, StackValueType::Specific(params.last())) {
            Err(e) => Err(e),
            Ok(s2) => pop_params_s(s2, params.drop_last()),
        }
    }
}

/// After the parameters are popped, a call pushes its result, if any.
pub open spec fn push_call_result_s(s: VState, ret: BlockType) -> Result<
    (VState, InstructionOutcome),
    Error,
> {
    match ret {
        BlockType::Value(vt) => validate_const_s(s, StackValueType::Specific(vt)),
        BlockType::NoResult => Ok((s, InstructionOutcome::ValidateNextInstruction)),
    }
}

/// `call` pops the callee's parameters and pushes its result.
pub open spec fn validate_call_s(s: VState, mc: ModuleContext, idx: u32) -> Result<
    (VState, InstructionOutcome),
    Error,
> {
    match require_function_s(mc, idx) {
        Err(e) => Err(e),
        Ok((params, ret)) => match pop_params_s(s, params) {
            Err(e) => Err(e),
            Ok(s2) => push_call_result_s(s2, ret),
        },
    }
}

/// `call_indirect` needs a table of callable references, pops the table
/// index and the parameters, and pushes the result.
pub open spec fn validate_call_indirect_s(s: VState, mc: ModuleContext, idx: u32) -> Result<
    (VState, InstructionOutcome),
    Error,
> {
    if DEFAULT_TABLE_INDEX >= mc.tables@.len() {
        Err(Error::MissingTable)
    } else if mc.tables@[DEFAULT_TABLE_INDEX as int].elem_type != -0x10i8 {
        Err(Error::TypeMismatch)
    } else {
        match pop_value_s(s, StackValueType::Specific(ValueType::I32)) {
            Err(e) => Err(e),
            Ok(s2) => match spec_function_type(mc, idx) {
                Err(e) => Err(e),
                Ok((params, ret)) => match pop_params_s(s2, params) {
                    Err(e) => Err(e),
                    Ok(s3) => push_call_result_s(s3, ret),
                },
            },
        }
    }
}

/// `current_memory` needs a memory and pushes its page count type.
pub open spec fn validate_current_memory_s(s: VState, mc: ModuleContext) -> Result<
    (VState, InstructionOutcome),
    Error,
> {
    if DEFAULT_MEMORY_INDEX >= mc.memories@.len() {
        Err(Error::MissingMemory)
    } else {
        validate_const_s(s, StackValueType::Specific(ValueType::I32))
    }
}

/// `grow_memory` needs a memory, pops a page count, and pushes the old one.
pub open spec fn validate_grow_memory_s(s: VState, mc: ModuleContext) -> Result<
    (VState, InstructionOutcome),
    Error,
> {
    if DEFAULT_MEMORY_INDEX >= mc.memories@.len() {
        Err(Error::MissingMemory)
    } else {
        match pop_value_s(s, StackValueType::Specific(ValueType::I32)) {
            Err(e) => Err(e),
            Ok(s2) => validate_const_s(s2, StackValueType::Specific(ValueType::I32)),
        }
    }
}


/// What validating one instruction does to the checker state: the next
/// state and whether the instruction falls through, or the exact error.
pub open spec fn validate_step(
    s: VState,
    op: Opcode,
    mc: ModuleContext,
    locals: Seq<ValueType>,
    ret: Option<BlockType>,
) -> Result<(VState, InstructionOutcome), Error> {
    match op {
        Opcode::Unreachable => Ok((s, InstructionOutcome::Unreachable)),
        Opcode::Nop => Ok((s, InstructionOutcome::ValidateNextInstruction)),
        Opcode::Block(bt) => validate_block_like_s(s, BlockFrameType::Block, bt),
        Opcode::Loop(bt) => validate_block_like_s(s, BlockFrameType::Loop, bt),
        Opcode::If(bt) => validate_if_s(s, bt),
        Opcode::Else => validate_else_s(s),
        Opcode::End => validate_end_s(s),
        Opcode::Br(idx) => validate_br_s(s, idx),
        Opcode::BrIf(idx) => validate_br_if_s(s, idx),
        Opcode::BrTable(table, default) => validate_br_table_s(s, table@, default),
        Opcode::Return => validate_return_s(s, ret),
        Opcode::Call(idx) => validate_call_s(s, mc, idx),
        Opcode::CallIndirect(idx, _) => validate_call_indirect_s(s, mc, idx),
        Opcode::Drop => validate_drop_s(s),
        Opcode::Select => validate_select_s(s),
        Opcode::GetLocal(idx) => validate_get_local_s(s, locals, idx),
        Opcode::SetLocal(idx) => validate_set_local_s(s, locals, idx),
        Opcode::TeeLocal(idx) => validate_tee_local_s(s, locals, idx),
        Opcode::GetGlobal(idx) => validate_get_global_s(s, mc, idx),
        Opcode::SetGlobal(idx) => validate_set_global_s(s, mc, idx),
        Opcode::I32Load(align, _) => validate_load_s(s, mc, align, 4, StackValueType::Specific(ValueType::I32)),
        Opcode::I64Load(align, _) => validate_load_s(s, mc, align, 8, StackValueType::Specific(ValueType::I64)),
        Opcode::F32Load(align, _) => validate_load_s(s, mc, align, 4, StackValueType::Specific(ValueType::F32)),
        Opcode::F64Load(align, _) => validate_load_s(s, mc, align, 8, StackValueType::Specific(ValueType::F64)),
        Opcode::I32Load8S(align, _) => validate_load_s(s, mc, align, 1, StackValueType::Specific(ValueType::I32)),
        Opcode::I32Load8U(align, _) => validate_load_s(s, mc, align, 1, StackValueType::Specific(ValueType::I32)),
        Opcode::I32Load16S(align, _) => validate_load_s(s, mc, align, 2, StackValueType::Specific(ValueType::I32)),
        Opcode::I32Load16U(align, _) => validate_load_s(s, mc, align, 2, StackValueType::Specific(ValueType::I32)),
        Opcode::I64Load8S(align, _) => validate_load_s(s, mc, align, 1, StackValueType::Specific(ValueType::I64)),
        Opcode::I64Load8U(align, _) => validate_load_s(s, mc, align, 1, StackValueType::Specific(ValueType::I64)),
        Opcode::I64Load16S(align, _) => validate_load_s(s, mc, align, 2, StackValueType::Specific(ValueType::I64)),
        Opcode::I64Load16U(align, _) => validate_load_s(s, mc, align, 2, StackValueType::Specific(ValueType::I64)),
        Opcode::I64Load32S(align, _) => validate_load_s(s, mc, align, 4, StackValueType::Specific(ValueType::I64)),
        Opcode::I64Load32U(align, _) => validate_load_s(s, mc, align, 4, StackValueType::Specific(ValueType::I64)),
        Opcode::I32Store(align, _) => validate_store_s(s, mc, align, 4, StackValueType::Specific(ValueType::I32)),
        Opcode::I64Store(align, _) => validate_store_s(s, mc, align, 8, StackValueType::Specific(ValueType::I64)),
        Opcode::F32Store(align, _) => validate_store_s(s, mc, align, 4, StackValueType::Specific(ValueType::F32)),
        Opcode::F64Store(align, _) => validate_store_s(s, mc, align, 8, StackValueType::Specific(ValueType::F64)),
        Opcode::I32Store8(align, _) => validate_store_s(s, mc, align, 1, StackValueType::Specific(ValueType::I32)),
        Opcode::I32Store16(align, _) => validate_store_s(s, mc, align, 2, StackValueType::Specific(ValueType::I32)),
        Opcode::I64Store8(align, _) => validate_store_s(s, mc, align, 1, StackValueType::Specific(ValueType::I64)),
        Opcode::I64Store16(align, _) => validate_store_s(s, mc, align, 2, StackValueType::Specific(ValueType::I64)),
        Opcode::I64Store32(align, _) => validate_store_s(s, mc, align, 4, StackValueType::Specific(ValueType::I64)),
        Opcode::CurrentMemory(_) => validate_current_memory_s(s, mc),
        Opcode::GrowMemory(_) => validate_grow_memory_s(s, mc),
        Opcode::I32Const(_) => validate_const_s(s, StackValueType::Specific(ValueType::I32)),
        Opcode::I64Const(_) => validate_const_s(s, StackValueType::Specific(ValueType::I64)),
        Opcode::F32Const(_) => validate_const_s(s, StackValueType::Specific(ValueType::F32)),
        Opcode::F64Const(_) => validate_const_s(s, StackValueType::Specific(ValueType::F64)),
        Opcode::I32Eqz => validate_testop_s(s, StackValueType::Specific(ValueType::I32)),
        Opcode::I64Eqz => validate_testop_s(s, StackValueType::Specific(ValueType::I64)),
        Opcode::I32Eq => validate_relop_s(s, StackValueType::Specific(ValueType::I32)),
        Opcode::I32Ne => validate_relop_s(s, StackValueType::Specific(ValueType::I32)),
        Opcode::I32LtS => validate_relop_s(s, StackValueType::Specific(ValueType::I32)),
        Opcode::I32LtU => validate_relop_s(s, StackValueType::Specific(ValueType::I32)),
        Opcode::I32GtS => validate_relop_s(s, StackValueType::Specific(ValueType::I32)),
        Opcode::I32GtU => validate_relop_s(s, StackValueType::Specific(ValueType::I32)),
        Opcode::I32LeS => validate_relop_s(s, StackValueType::Specific(ValueType::I32)),
        Opcode::I32LeU => validate_relop_s(s, StackValueType::Specific(ValueType::I32)),
        Opcode::I32GeS => validate_relop_s(s, StackValueType::Specific(ValueType::I32)),
        Opcode::I32GeU => validate_relop_s(s, StackValueType::Specific(ValueType::I32)),
        Opcode::I64Eq => validate_relop_s(s, StackValueType::Specific(ValueType::I64)),
        Opcode::I64Ne => validate_relop_s(s, StackValueType::Specific(ValueType::I64)),
        Opcode::I64LtS => validate_relop_s(s, StackValueType::Specific(ValueType::I64)),
        Opcode::I64LtU => validate_relop_s(s, StackValueType::Specific(ValueType::I64)),
        Opcode::I64GtS => validate_relop_s(s, StackValueType::Specific(ValueType::I64)),
        Opcode::I64GtU => validate_relop_s(s, StackValueType::Specific(ValueType::I64)),
        Opcode::I64LeS => validate_relop_s(s, StackValueType::Specific(ValueType::I64)),
        Opcode::I64LeU => validate_relop_s(s, StackValueType::Specific(ValueType::I64)),
        Opcode::I64GeS => validate_relop_s(s, StackValueType::Specific(ValueType::I64)),
        Opcode::I64GeU => validate_relop_s(s, StackValueType::Specific(ValueType::I64)),
        Opcode::F32Eq => validate_relop_s(s, StackValueType::Specific(ValueType::F32)),
        Opcode::F32Ne => validate_relop_s(s, StackValueType::Specific(ValueType::F32)),
        Opcode::F32Lt => validate_relop_s(s, StackValueType::Specific(ValueType::F32)),
        Opcode::F32Gt => validate_relop_s(s, StackValueType::Specific(ValueType::F32)),
        Opcode::F32Le => validate_relop_s(s, StackValueType::Specific(ValueType::F32)),
        Opcode::F32Ge => validate_relop_s(s, StackValueType::Specific(ValueType::F32)),
        Opcode::F64Eq => validate_relop_s(s, StackValueType::Specific(ValueType::F64)),
        Opcode::F64Ne => validate_relop_s(s, StackValueType::Specific(ValueType::F64)),
        Opcode::F64Lt => validate_relop_s(s, StackValueType::Specific(ValueType::F64)),
        Opcode::F64Gt => validate_relop_s(s, StackValueType::Specific(ValueType::F64)),
        Opcode::F64Le => validate_relop_s(s, StackValueType::Specific(ValueType::F64)),
        Opcode::F64Ge => validate_relop_s(s, StackValueType::Specific(ValueType::F64)),
        Opcode::I32Clz => validate_unop_s(s, StackValueType::Specific(ValueType::I32)),
        Opcode::I32Ctz => validate_unop_s(s, StackValueType::Specific(ValueType::I32)),
        Opcode::I32Popcnt => validate_unop_s(s, StackValueType::Specific(ValueType::I32)),
        Opcode::I64Clz => validate_unop_s(s, StackValueType::Specific(ValueType::I64)),
        Opcode::I64Ctz => validate_unop_s(s, StackValueType::Specific(ValueType::I64)),
        Opcode::I64Popcnt => validate_unop_s(s, StackValueType::Specific(ValueType::I64)),
        Opcode::F32Abs => validate_unop_s(s, StackValueType::Specific(ValueType::F32)),
        Opcode::F32Neg => validate_unop_s(s, StackValueType::Specific(ValueType::F32)),
        Opcode::F32Ceil => validate_unop_s(s, StackValueType::Specific(ValueType::F32)),
        Opcode::F32Floor => validate_unop_s(s, StackValueType::Specific(ValueType::F32)),
        Opcode::F32Trunc => validate_unop_s(s, StackValueType::Specific(ValueType::F32)),
        Opcode::F32Nearest => validate_unop_s(s, StackValueType::Specific(ValueType::F32)),
        Opcode::F32Sqrt => validate_unop_s(s, StackValueType::Specific(ValueType::F32)),
        Opcode::F64Abs => validate_unop_s(s, StackValueType::Specific(ValueType::F64)),
        Opcode::F64Neg => validate_unop_s(s, StackValueType::Specific(ValueType::F64)),
        Opcode::F64Ceil => validate_unop_s(s, StackValueType::Specific(ValueType::F64)),
        Opcode::F64Floor => validate_unop_s(s, StackValueType::Specific(ValueType::F64)),
        Opcode::F64Trunc => validate_unop_s(s, StackValueType::Specific(ValueType::F64)),
        Opcode::F64Nearest => validate_unop_s(s, StackValueType::Specific(ValueType::F64)),
        Opcode::F64Sqrt => validate_unop_s(s, StackValueType::Specific(ValueType::F64)),
        Opcode::I32Add => validate_binop_s(s, StackValueType::Specific(ValueType::I32)),
        Opcode::I32Sub => validate_binop_s(s, StackValueType::Specific(ValueType::I32)),
        Opcode::I32Mul => validate_binop_s(s, StackValueType::Specific(ValueType::I32)),
        Opcode::I32DivS => validate_binop_s(s, StackValueType::Specific(ValueType::I32)),
        Opcode::I32DivU => validate_binop_s(s, StackValueType::Specific(ValueType::I32)),
        Opcode::I32RemS => validate_binop_s(s, StackValueType::Specific(ValueType::I32)),
        Opcode::I32RemU => validate_binop_s(s, StackValueType::Specific(ValueType::I32)),
        Opcode::I32And => validate_binop_s(s, StackValueType::Specific(ValueType::I32)),
        Opcode::I32Or => validate_binop_s(s, StackValueType::Specific(ValueType::I32)),
        Opcode::I32Xor => validate_binop_s(s, StackValueType::Specific(ValueType::I32)),
        Opcode::I32Shl => validate_binop_s(s, StackValueType::Specific(ValueType::I32)),
        Opcode::I32ShrS => validate_binop_s(s, StackValueType::Specific(ValueType::I32)),
        Opcode::I32ShrU => validate_binop_s(s, StackValueType::Specific(ValueType::I32)),
        Opcode::I32Rotl => validate_binop_s(s, StackValueType::Specific(ValueType::I32)),
        Opcode::I32Rotr => validate_binop_s(s, StackValueType::Specific(ValueType::I32)),
        Opcode::I64Add => validate_binop_s(s, StackValueType::Specific(ValueType::I64)),
        Opcode::I64Sub => validate_binop_s(s, StackValueType::Specific(ValueType::I64)),
        Opcode::I64Mul => validate_binop_s(s, StackValueType::Specific(ValueType::I64)),
        Opcode::I64DivS => validate_binop_s(s, StackValueType::Specific(ValueType::I64)),
        Opcode::I64DivU => validate_binop_s(s, StackValueType::Specific(ValueType::I64)),
        Opcode::I64RemS => validate_binop_s(s, StackValueType::Specific(ValueType::I64)),
        Opcode::I64RemU => validate_binop_s(s, StackValueType::Specific(ValueType::I64)),
        Opcode::I64And => validate_binop_s(s, StackValueType::Specific(ValueType::I64)),
        Opcode::I64Or => validate_binop_s(s, StackValueType::Specific(ValueType::I64)),
        Opcode::I64Xor => validate_binop_s(s, StackValueType::Specific(ValueType::I64)),
        Opcode::I64Shl => validate_binop_s(s, StackValueType::Specific(ValueType::I64)),
        Opcode::I64ShrS => validate_binop_s(s, StackValueType::Specific(ValueType::I64)),
        Opcode::I64ShrU => validate_binop_s(s, StackValueType::Specific(ValueType::I64)),
        Opcode::I64Rotl => validate_binop_s(s, StackValueType::Specific(ValueType::I64)),
        Opcode::I64Rotr => validate_binop_s(s, StackValueType::Specific(ValueType::I64)),
        Opcode::F32Add => validate_binop_s(s, StackValueType::Specific(ValueType::F32)),
        Opcode::F32Sub => validate_binop_s(s, StackValueType::Specific(ValueType::F32)),
        Opcode::F32Mul => validate_binop_s(s, StackValueType::Specific(ValueType::F32)),
        Opcode::F32Div => validate_binop_s(s, StackValueType::Specific(ValueType::F32)),
        Opcode::F32Min => validate_binop_s(s, StackValueType::Specific(ValueType::F32)),
        Opcode::F32Max => validate_binop_s(s, StackValueType::Specific(ValueType::F32)),
        Opcode::F32Copysign => validate_binop_s(s, StackValueType::Specific(ValueType::F32)),
        Opcode::F64Add => validate_binop_s(s, StackValueType::Specific(ValueType::F64)),
        Opcode::F64Sub => validate_binop_s(s, StackValueType::Specific(ValueType::F64)),
        Opcode::F64Mul => validate_binop_s(s, StackValueType::Specific(ValueType::F64)),
        Opcode::F64Div => validate_binop_s(s, StackValueType::Specific(ValueType::F64)),
        Opcode::F64Min => validate_binop_s(s, StackValueType::Specific(ValueType::F64)),
        Opcode::F64Max => validate_binop_s(s, StackValueType::Specific(ValueType::F64)),
        Opcode::F64Copysign => validate_binop_s(s, StackValueType::Specific(ValueType::F64)),
        Opcode::I32WarpI64 => validate_cvtop_s(s, StackValueType::Specific(ValueType::I64), StackValueType::Specific(ValueType::I32)),
        Opcode::I32TruncSF32 => validate_cvtop_s(s, StackValueType::Specific(ValueType::F32), StackValueType::Specific(ValueType::I32)),
        Opcode::I32TruncUF32 => validate_cvtop_s(s, StackValueType::Specific(ValueType::F32), StackValueType::Specific(ValueType::I32)),
        Opcode::I32TruncSF64 => validate_cvtop_s(s, StackValueType::Specific(ValueType::F64), StackValueType::Specific(ValueType::I32)),
        Opcode::I32TruncUF64 => validate_cvtop_s(s, StackValueType::Specific(ValueType::F64), StackValueType::Specific(ValueType::I32)),
        Opcode::I64ExtendSI32 => validate_cvtop_s(s, StackValueType::Specific(ValueType::I32), StackValueType::Specific(ValueType::I64)),
        Opcode::I64ExtendUI32 => validate_cvtop_s(s, StackValueType::Specific(ValueType::I32), StackValueType::Specific(ValueType::I64)),
        Opcode::I64TruncSF32 => validate_cvtop_s(s, StackValueType::Specific(ValueType::F32), StackValueType::Specific(ValueType::I64)),
        Opcode::I64TruncUF32 => validate_cvtop_s(s, StackValueType::Specific(ValueType::F32), StackValueType::Specific(ValueType::I64)),
        Opcode::I64TruncSF64 => validate_cvtop_s(s, StackValueType::Specific(ValueType::F64), StackValueType::Specific(ValueType::I64)),
        Opcode::I64TruncUF64 => validate_cvtop_s(s, StackValueType::Specific(ValueType::F64), StackValueType::Specific(ValueType::I64)),
        Opcode::F32ConvertSI32 => validate_cvtop_s(s, StackValueType::Specific(ValueType::I32), StackValueType::Specific(ValueType::F32)),
        Opcode::F32ConvertUI32 => validate_cvtop_s(s, StackValueType::Specific(ValueType::I32), StackValueType::Specific(ValueType::F32)),
        Opcode::F32ConvertSI64 => validate_cvtop_s(s, StackValueType::Specific(ValueType::I64), StackValueType::Specific(ValueType::F32)),
        Opcode::F32ConvertUI64 => validate_cvtop_s(s, StackValueType::Specific(ValueType::I64), StackValueType::Specific(ValueType::F32)),
        Opcode::F32DemoteF64 => validate_cvtop_s(s, StackValueType::Specific(ValueType::F64), StackValueType::Specific(ValueType::F32)),
        Opcode::F64ConvertSI32 => validate_cvtop_s(s, StackValueType::Specific(ValueType::I32), StackValueType::Specific(ValueType::F64)),
        Opcode::F64ConvertUI32 => validate_cvtop_s(s, StackValueType::Specific(ValueType::I32), StackValueType::Specific(ValueType::F64)),
        Opcode::F64ConvertSI64 => validate_cvtop_s(s, StackValueType::Specific(ValueType::I64), StackValueType::Specific(ValueType::F64)),
        Opcode::F64ConvertUI64 => validate_cvtop_s(s, StackValueType::Specific(ValueType::I64), StackValueType::Specific(ValueType::F64)),
        Opcode::F64PromoteF32 => validate_cvtop_s(s, StackValueType::Specific(ValueType::F32), StackValueType::Specific(ValueType::F64)),
        Opcode::I32ReinterpretF32 => validate_cvtop_s(s, StackValueType::Specific(ValueType::F32), StackValueType::Specific(ValueType::I32)),
        Opcode::I64ReinterpretF64 => validate_cvtop_s(s, StackValueType::Specific(ValueType::F64), StackValueType::Specific(ValueType::I64)),
        Opcode::F32ReinterpretI32 => validate_cvtop_s(s, StackValueType::Specific(ValueType::I32), StackValueType::Specific(ValueType::F32)),
        Opcode::F64ReinterpretI64 => validate_cvtop_s(s, StackValueType::Specific(ValueType::I64), StackValueType::Specific(ValueType::F64)),
    }
}


/// The function-body checker.
pub struct Validator;

impl Validator {

    fn validate_const(context: &mut FunctionValidationContext, value_type: StackValueType) -> (r: Result<InstructionOutcome, Error>)
        requires
            old(context).wf(),
        ensures
            final(context).frozen() == old(context).frozen(),
            r is Ok ==> final(context).wf(),
            match r {
                Ok(oc) => validate_const_s(old(context).state(), value_type) == Ok::<(VState, InstructionOutcome), Error>(
                    (final(context).state(), oc),
                ),
                Err(e) => validate_const_s(old(context).state(), value_type) == Err::<(VState, InstructionOutcome), Error>(e),
            },
    {
        match context.push_value(value_type) {
            Ok(()) => Ok(InstructionOutcome::ValidateNextInstruction),
            Err(e) => Err(e),
        }
    }


    fn validate_unop(context: &mut FunctionValidationContext, value_type: StackValueType) -> (r: Result<InstructionOutcome, Error>)
        requires
            old(context).wf(),
        ensures
            final(context).frozen() == old(context).frozen(),
            r is Ok ==> final(context).wf(),
            match r {
                Ok(oc) => validate_unop_s(old(context).state(), value_type) == Ok::<(VState, InstructionOutcome), Error>(
                    (final(context).state(), oc),
                ),
                Err(e) => validate_unop_s(old(context).state(), value_type) == Err::<(VState, InstructionOutcome), Error>(e),
            },
    {
        if let Err(e) = context.pop_value(value_type) {
            return Err(e);
        }
        Validator::validate_const(context, value_type)
    }


    fn validate_binop(context: &mut FunctionValidationContext, value_type: StackValueType) -> (r: Result<InstructionOutcome, Error>)
        requires
            old(context).wf(),
        ensures
            final(context).frozen() == old(context).frozen(),
            r is Ok ==> final(context).wf(),
            match r {
                Ok(oc) => validate_binop_s(old(context).state(), value_type) == Ok::<(VState, InstructionOutcome), Error>(
                    (final(context).state(), oc),
                ),
                Err(e) => validate_binop_s(old(context).state(), value_type) == Err::<(VState, InstructionOutcome), Error>(e),
            },
    {
        if let Err(e) = context.pop_value(value_type) {
            return Err(e);
        }
        Validator::validate_unop(context, value_type)
    }


    fn validate_testop(context: &mut FunctionValidationContext, value_type: StackValueType) -> (r: Result<InstructionOutcome, Error>)
        requires
            old(context).wf(),
        ensures
            final(context).frozen() == old(context).frozen(),
            r is Ok ==> final(context).wf(),
            match r {
                Ok(oc) => validate_testop_s(old(context).state(), value_type) == Ok::<(VState, InstructionOutcome), Error>(
                    (final(context).state(), oc),
                ),
                Err(e) => validate_testop_s(old(context).state(), value_type) == Err::<(VState, InstructionOutcome), Error>(e),
            },
    {
        if let Err(e) = context.pop_value(value_type) {
            return Err(e);
        }
        Validator::validate_const(context, StackValueType::Specific(ValueType::I32))
    }


    fn validate_relop(context: &mut FunctionValidationContext, value_type: StackValueType) -> (r: Result<InstructionOutcome, Error>)
        requires
            old(context).wf(),
        ensures
            final(context).frozen() == old(context).frozen(),
            r is Ok ==> final(context).wf(),
            match r {
                Ok(oc) => validate_relop_s(old(context).state(), value_type) == Ok::<(VState, InstructionOutcome), Error>(
                    (final(context).state(), oc),
                ),
                Err(e) => validate_relop_s(old(context).state(), value_type) == Err::<(VState, InstructionOutcome), Error>(e),
            },
    {
        if let Err(e) = context.pop_value(value_type) {
            return Err(e);
        }
        Validator::validate_testop(context, value_type)
    }


    fn validate_cvtop(context: &mut FunctionValidationContext, value_type1: StackValueType, value_type2: StackValueType) -> (r: Result<InstructionOutcome, Error>)
        requires
            old(context).wf(),
        ensures
            final(context).frozen() == old(context).frozen(),
            r is Ok ==> final(context).wf(),
            match r {
                Ok(oc) => validate_cvtop_s(old(context).state(), value_type1, value_type2) == Ok::<(VState, InstructionOutcome), Error>(
                    (final(context).state(), oc),
                ),
                Err(e) => validate_cvtop_s(old(context).state(), value_type1, value_type2) == Err::<(VState, InstructionOutcome), Error>(e),
            },
    {
        if let Err(e) = context.pop_value(value_type1) {
            return Err(e);
        }
        Validator::validate_const(context, value_type2)
    }


    fn validate_drop(context: &mut FunctionValidationContext) -> (r: Result<InstructionOutcome, Error>)
        requires
            old(context).wf(),
        ensures
            final(context).frozen() == old(context).frozen(),
            r is Ok ==> final(context).wf(),
            match r {
                Ok(oc) => validate_drop_s(old(context).state()) == Ok::<(VState, InstructionOutcome), Error>(
                    (final(context).state(), oc),
                ),
                Err(e) => validate_drop_s(old(context).state()) == Err::<(VState, InstructionOutcome), Error>(e),
            },
    {
        match context.pop_any_value() {
            Ok(_) => Ok(InstructionOutcome::ValidateNextInstruction),
            Err(e) => Err(e),
        }
    }


    fn validate_select(context: &mut FunctionValidationContext) -> (r: Result<InstructionOutcome, Error>)
        requires
            old(context).wf(),
        ensures
            final(context).frozen() == old(context).frozen(),
            r is Ok ==> final(context).wf(),
            match r {
                Ok(oc) => validate_select_s(old(context).state()) == Ok::<(VState, InstructionOutcome), Error>(
                    (final(context).state(), oc),
                ),
                Err(e) => validate_select_s(old(context).state()) == Err::<(VState, InstructionOutcome), Error>(e),
            },
    {
        if let Err(e) = context.pop_value(StackValueType::Specific(ValueType::I32)) {
            return Err(e);
        }
        let select_type = match context.pop_any_value() {
            Ok(t) => t,
            Err(e) => { return Err(e); },
        };
        if let Err(e) = context.pop_value(select_type) {
            return Err(e);
        }
        Validator::validate_const(context, select_type)
    }


    fn validate_get_local(context: &mut FunctionValidationContext, index: u32) -> (r: Result<InstructionOutcome, Error>)
        requires
            old(context).wf(),
        ensures
            final(context).frozen() == old(context).frozen(),
            r is Ok ==> final(context).wf(),
            match r {
                Ok(oc) => validate_get_local_s(old(context).state(), old(context).spec_locals(), index) == Ok::<(VState, InstructionOutcome), Error>(
                    (final(context).state(), oc),
                ),
                Err(e) => validate_get_local_s(old(context).state(), old(context).spec_locals(), index) == Err::<(VState, InstructionOutcome), Error>(e),
            },
    {
        let local_type = match context.require_local(index) {
            Ok(t) => t,
            Err(e) => { return Err(e); },
        };
        Validator::validate_const(context, local_type)
    }


    fn validate_set_local(context: &mut FunctionValidationContext, index: u32) -> (r: Result<InstructionOutcome, Error>)
        requires
            old(context).wf(),
        ensures
            final(context).frozen() == old(context).frozen(),
            r is Ok ==> final(context).wf(),
            match r {
                Ok(oc) => validate_set_local_s(old(context).state(), old(context).spec_locals(), index) == Ok::<(VState, InstructionOutcome), Error>(
                    (final(context).state(), oc),
                ),
                Err(e) => validate_set_local_s(old(context).state(), old(context).spec_locals(), index) == Err::<(VState, InstructionOutcome), Error>(e),
            },
    {
        let local_type = match context.require_local(index) {
            Ok(t) => t,
            Err(e) => { return Err(e); },
        };
        let value_type = match context.pop_any_value() {
            Ok(t) => t,
            Err(e) => { return Err(e); },
        };
        if !local_type.compatible_with(&value_type) {
            return Err(Error::TypeMismatch);
        }
        Ok(InstructionOutcome::ValidateNextInstruction)
    }


    fn validate_tee_local(context: &mut FunctionValidationContext, index: u32) -> (r: Result<InstructionOutcome, Error>)
        requires
            old(context).wf(),
        ensures
            final(context).frozen() == old(context).frozen(),
            r is Ok ==> final(context).wf(),
            match r {
                Ok(oc) => validate_tee_local_s(old(context).state(), old(context).spec_locals(), index) == Ok::<(VState, InstructionOutcome), Error>(
                    (final(context).state(), oc),
                ),
                Err(e) => validate_tee_local_s(old(context).state(), old(context).spec_locals(), index) == Err::<(VState, InstructionOutcome), Error>(e),
            },
    {
        let local_type = match context.require_local(index) {
            Ok(t) => t,
            Err(e) => { return Err(e); },
        };
        let value_type = match context.tee_any_value() {
            Ok(t) => t,
            Err(e) => { return Err(e); },
        };
        if !local_type.compatible_with(&value_type) {
            return Err(Error::TypeMismatch);
        }
        Ok(InstructionOutcome::ValidateNextInstruction)
    }


    fn validate_get_global(context: &mut FunctionValidationContext, index: u32) -> (r: Result<InstructionOutcome, Error>)
        requires
            old(context).wf(),
        ensures
            final(context).frozen() == old(context).frozen(),
            r is Ok ==> final(context).wf(),
            match r {
                Ok(oc) => validate_get_global_s(old(context).state(), old(context).spec_module(), index) == Ok::<(VState, InstructionOutcome), Error>(
                    (final(context).state(), oc),
                ),
                Err(e) => validate_get_global_s(old(context).state(), old(context).spec_module(), index) == Err::<(VState, InstructionOutcome), Error>(e),
            },
    {
        let global_type = match context.require_global(index, None) {
            Ok(t) => t,
            Err(e) => { return Err(e); },
        };
        Validator::validate_const(context, global_type)
    }


    fn validate_set_global(context: &mut FunctionValidationContext, index: u32) -> (r: Result<InstructionOutcome, Error>)
        requires
            old(context).wf(),
        ensures
            final(context).frozen() == old(context).frozen(),
            r is Ok ==> final(context).wf(),
            match r {
                Ok(oc) => validate_set_global_s(old(context).state(), old(context).spec_module(), index) == Ok::<(VState, InstructionOutcome), Error>(
                    (final(context).state(), oc),
                ),
                Err(e) => validate_set_global_s(old(context).state(), old(context).spec_module(), index) == Err::<(VState, InstructionOutcome), Error>(e),
            },
    {
        let global_type = match context.require_global(index, Some(true)) {
            Ok(t) => t,
            Err(e) => { return Err(e); },
        };
        let value_type = match context.pop_any_value() {
            Ok(t) => t,
            Err(e) => { return Err(e); },
        };
        if !global_type.compatible_with(&value_type) {
            return Err(Error::TypeMismatch);
        }
        Ok(InstructionOutcome::ValidateNextInstruction)
    }


    fn validate_load(context: &mut FunctionValidationContext, align: u32, max_align: u32, value_type: StackValueType) -> (r: Result<InstructionOutcome, Error>)
        requires
            old(context).wf(),
        ensures
            final(context).frozen() == old(context).frozen(),
            r is Ok ==> final(context).wf(),
            match r {
                Ok(oc) => validate_load_s(old(context).state(), old(context).spec_module(), align, max_align, value_type) == Ok::<(VState, InstructionOutcome), Error>(
                    (final(context).state(), oc),
                ),
                Err(e) => validate_load_s(old(context).state(), old(context).spec_module(), align, max_align, value_type) == Err::<(VState, InstructionOutcome), Error>(e),
            },
    {
        if align != NATURAL_ALIGNMENT {
            let shifted: u32 = if align >= 32 {
                u32::MAX
            } else {
                1u32 << align
            };
            if shifted > max_align {
                return Err(Error::AlignmentTooLarge);
            }
        }
        if let Err(e) = context.pop_value(StackValueType::Specific(ValueType::I32)) {
            return Err(e);
        }
        if let Err(e) = context.require_memory(DEFAULT_MEMORY_INDEX) {
            return Err(e);
        }
        Validator::validate_const(context, value_type)
    }


    fn validate_store(context: &mut FunctionValidationContext, align: u32, max_align: u32, value_type: StackValueType) -> (r: Result<InstructionOutcome, Error>)
        requires
            old(context).wf(),
        ensures
            final(context).frozen() == old(context).frozen(),
            r is Ok ==> final(context).wf(),
            match r {
                Ok(oc) => validate_store_s(old(context).state(), old(context).spec_module(), align, max_align, value_type) == Ok::<(VState, InstructionOutcome), Error>(
                    (final(context).state(), oc),
                ),
                Err(e) => validate_store_s(old(context).state(), old(context).spec_module(), align, max_align, value_type) == Err::<(VState, InstructionOutcome), Error>(e),
            },
    {
        if align != NATURAL_ALIGNMENT {
            let shifted: u32 = if align >= 32 {
                u32::MAX
            } else {
                1u32 << align
            };
            if shifted > max_align {
                return Err(Error::AlignmentTooLarge);
            }
        }
        if let Err(e) = context.require_memory(DEFAULT_MEMORY_INDEX) {
            return Err(e);
        }
        if let Err(e) = context.pop_value(value_type) {
            return Err(e);
        }
        if let Err(e) = context.pop_value(StackValueType::Specific(ValueType::I32)) {
            return Err(e);
        }
        Ok(InstructionOutcome::ValidateNextInstruction)
    }


    fn validate_block(context: &mut FunctionValidationContext, block_type: BlockType) -> (r: Result<InstructionOutcome, Error>)
        requires
            old(context).wf(),
        ensures
            final(context).frozen() == old(context).frozen(),
            r is Ok ==> final(context).wf(),
            match r {
                Ok(oc) => validate_block_like_s(old(context).state(), BlockFrameType::Block, block_type) == Ok::<(VState, InstructionOutcome), Error>(
                    (final(context).state(), oc),
                ),
                Err(e) => validate_block_like_s(old(context).state(), BlockFrameType::Block, block_type) == Err::<(VState, InstructionOutcome), Error>(e),
            },
    {
        match context.push_label(BlockFrameType::Block, block_type) {
            Ok(()) => Ok(InstructionOutcome::ValidateNextInstruction),
            Err(e) => Err(e),
        }
    }


    fn validate_loop(context: &mut FunctionValidationContext, block_type: BlockType) -> (r: Result<InstructionOutcome, Error>)
        requires
            old(context).wf(),
        ensures
            final(context).frozen() == old(context).frozen(),
            r is Ok ==> final(context).wf(),
            match r {
                Ok(oc) => validate_block_like_s(old(context).state(), BlockFrameType::Loop, block_type) == Ok::<(VState, InstructionOutcome), Error>(
                    (final(context).state(), oc),
                ),
                Err(e) => validate_block_like_s(old(context).state(), BlockFrameType::Loop, block_type) == Err::<(VState, InstructionOutcome), Error>(e),
            },
    {
        match context.push_label(BlockFrameType::Loop, block_type) {
            Ok(()) => Ok(InstructionOutcome::ValidateNextInstruction),
            Err(e) => Err(e),
        }
    }


    fn validate_if(context: &mut FunctionValidationContext, block_type: BlockType) -> (r: Result<InstructionOutcome, Error>)
        requires
            old(context).wf(),
        ensures
            final(context).frozen() == old(context).frozen(),
            r is Ok ==> final(context).wf(),
            match r {
                Ok(oc) => validate_if_s(old(context).state(), block_type) == Ok::<(VState, InstructionOutcome), Error>(
                    (final(context).state(), oc),
                ),
                Err(e) => validate_if_s(old(context).state(), block_type) == Err::<(VState, InstructionOutcome), Error>(e),
            },
    {
        if let Err(e) = context.pop_value(StackValueType::Specific(ValueType::I32)) {
            return Err(e);
        }
        match context.push_label(BlockFrameType::IfTrue, block_type) {
            Ok(()) => Ok(InstructionOutcome::ValidateNextInstruction),
            Err(e) => Err(e),
        }
    }


    fn validate_else(context: &mut FunctionValidationContext) -> (r: Result<InstructionOutcome, Error>)
        requires
            old(context).wf(),
        ensures
            final(context).frozen() == old(context).frozen(),
            r is Ok ==> final(context).wf(),
            match r {
                Ok(oc) => validate_else_s(old(context).state()) == Ok::<(VState, InstructionOutcome), Error>(
                    (final(context).state(), oc),
                ),
                Err(e) => validate_else_s(old(context).state()) == Err::<(VState, InstructionOutcome), Error>(e),
            },
    {
        let block_type = {
            let top_frame = match context.top_label() {
                Ok(f) => f,
                Err(e) => { return Err(e); },
            };
            if !matches!(top_frame.frame_type, BlockFrameType::IfTrue) {
                return Err(Error::MisplacedElse);
            }
            top_frame.block_type
        };
        if let Err(e) = context.pop_label() {
            return Err(e);
        }
        if let BlockType::Value(value_type) = block_type {
            if let Err(e) = context.pop_value(StackValueType::Specific(value_type)) {
                return Err(e);
            }
        }
        match context.push_label(BlockFrameType::IfFalse, block_type) {
            Ok(()) => Ok(InstructionOutcome::ValidateNextInstruction),
            Err(e) => Err(e),
        }
    }


    fn validate_end(context: &mut FunctionValidationContext) -> (r: Result<InstructionOutcome, Error>)
        requires
            old(context).wf(),
        ensures
            final(context).frozen() == old(context).frozen(),
            r is Ok ==> final(context).wf(),
            match r {
                Ok(oc) => validate_end_s(old(context).state()) == Ok::<(VState, InstructionOutcome), Error>(
                    (final(context).state(), oc),
                ),
                Err(e) => validate_end_s(old(context).state()) == Err::<(VState, InstructionOutcome), Error>(e),
            },
    {
        {
            let top_frame = match context.top_label() {
                Ok(f) => f,
                Err(e) => { return Err(e); },
            };
            if matches!(top_frame.frame_type, BlockFrameType::IfTrue) {
                if !matches!(top_frame.block_type, BlockType::NoResult) {
                    return Err(Error::IfWithResultMissingElse);
                }
            }
        }
        context.pop_label()
    }


    fn validate_br(context: &mut FunctionValidationContext, idx: u32) -> (r: Result<InstructionOutcome, Error>)
        requires
            old(context).wf(),
        ensures
            final(context).frozen() == old(context).frozen(),
            r is Ok ==> final(context).wf(),
            match r {
                Ok(oc) => validate_br_s(old(context).state(), idx) == Ok::<(VState, InstructionOutcome), Error>(
                    (final(context).state(), oc),
                ),
                Err(e) => validate_br_s(old(context).state(), idx) == Err::<(VState, InstructionOutcome), Error>(e),
            },
    {
        let (frame_type, frame_block_type) = {
            let frame = match context.require_label(idx) {
                Ok(f) => f,
                Err(e) => { return Err(e); },
            };
            (frame.frame_type, frame.block_type)
        };
        if !matches!(frame_type, BlockFrameType::Loop) {
            if let BlockType::Value(value_type) = frame_block_type {
                if let Err(e) = context.tee_value(StackValueType::Specific(value_type)) {
                    return Err(e);
                }
            }
        }
        Ok(InstructionOutcome::Unreachable)
    }


    fn validate_br_if(context: &mut FunctionValidationContext, idx: u32) -> (r: Result<InstructionOutcome, Error>)
        requires
            old(context).wf(),
        ensures
            final(context).frozen() == old(context).frozen(),
            r is Ok ==> final(context).wf(),
            match r {
                Ok(oc) => validate_br_if_s(old(context).state(), idx) == Ok::<(VState, InstructionOutcome), Error>(
                    (final(context).state(), oc),
                ),
                Err(e) => validate_br_if_s(old(context).state(), idx) == Err::<(VState, InstructionOutcome), Error>(e),
            },
    {
        if let Err(e) = context.pop_value(StackValueType::Specific(ValueType::I32)) {
            return Err(e);
        }
        let (frame_type, frame_block_type) = {
            let frame = match context.require_label(idx) {
                Ok(f) => f,
                Err(e) => { return Err(e); },
            };
            (frame.frame_type, frame.block_type)
        };
        if !matches!(frame_type, BlockFrameType::Loop) {
            if let BlockType::Value(value_type) = frame_block_type {
                if let Err(e) = context.tee_value(StackValueType::Specific(value_type)) {
                    return Err(e);
                }
            }
        }
        Ok(InstructionOutcome::ValidateNextInstruction)
    }


    fn validate_return(context: &mut FunctionValidationContext) -> (r: Result<InstructionOutcome, Error>)
        requires
            old(context).wf(),
        ensures
            final(context).frozen() == old(context).frozen(),
            r is Ok ==> final(context).wf(),
            match r {
                Ok(oc) => validate_return_s(old(context).state(), old(context).spec_return_type()) == Ok::<(VState, InstructionOutcome), Error>(
                    (final(context).state(), oc),
                ),
                Err(e) => validate_return_s(old(context).state(), old(context).spec_return_type()) == Err::<(VState, InstructionOutcome), Error>(e),
            },
    {
        let ret = match context.return_type() {
            Ok(bt) => bt,
            Err(e) => { return Err(e); },
        };
        if let BlockType::Value(value_type) = ret {
            if let Err(e) = context.tee_value(StackValueType::Specific(value_type)) {
                return Err(e);
            }
        }
        Ok(InstructionOutcome::Unreachable)
    }


    fn validate_current_memory(context: &mut FunctionValidationContext) -> (r: Result<InstructionOutcome, Error>)
        requires
            old(context).wf(),
        ensures
            final(context).frozen() == old(context).frozen(),
            r is Ok ==> final(context).wf(),
            match r {
                Ok(oc) => validate_current_memory_s(old(context).state(), old(context).spec_module()) == Ok::<(VState, InstructionOutcome), Error>(
                    (final(context).state(), oc),
                ),
                Err(e) => validate_current_memory_s(old(context).state(), old(context).spec_module()) == Err::<(VState, InstructionOutcome), Error>(e),
            },
    {
        if let Err(e) = context.require_memory(DEFAULT_MEMORY_INDEX) {
            return Err(e);
        }
        Validator::validate_const(context, StackValueType::Specific(ValueType::I32))
    }


    fn validate_grow_memory(context: &mut FunctionValidationContext) -> (r: Result<InstructionOutcome, Error>)
        requires
            old(context).wf(),
        ensures
            final(context).frozen() == old(context).frozen(),
            r is Ok ==> final(context).wf(),
            match r {
                Ok(oc) => validate_grow_memory_s(old(context).state(), old(context).spec_module()) == Ok::<(VState, InstructionOutcome), Error>(
                    (final(context).state(), oc),
                ),
                Err(e) => validate_grow_memory_s(old(context).state(), old(context).spec_module()) == Err::<(VState, InstructionOutcome), Error>(e),
            },
    {
        if let Err(e) = context.require_memory(DEFAULT_MEMORY_INDEX) {
            return Err(e);
        }
        if let Err(e) = context.pop_value(StackValueType::Specific(ValueType::I32)) {
            return Err(e);
        }
        Validator::validate_const(context, StackValueType::Specific(ValueType::I32))
    }


    /// Pop a call's parameters, last first.
    fn pop_params(context: &mut FunctionValidationContext, params: &Vec<ValueType>) -> (r: Result<
        (),
        Error,
    >)
        requires
            old(context).wf(),
        ensures
            final(context).frozen() == old(context).frozen(),
            r is Ok ==> final(context).wf(),
            match r {
                Ok(()) => pop_params_s(old(context).state(), params@) == Ok::<VState, Error>(
                    final(context).state(),
                ),
                Err(e) => pop_params_s(old(context).state(), params@) == Err::<VState, Error>(e),
            },
    {
        let mut i = params.len();
        proof {
            assert(params@.take(params@.len() as int) =~= params@);
        }
        while i > 0
            invariant
                i <= params@.len(),
                context.wf(),
                context.frozen() == old(context).frozen(),
                pop_params_s(old(context).state(), params@) == pop_params_s(
                    context.state(),
                    params@.take(i as int),
                ),
            decreases i,
        {
            i = i - 1;
            let ghost pre = context.state();
            match context.pop_value(StackValueType::Specific(params[i])) {
                Ok(()) => {
                    proof {
                        assert(params@.take(i + 1).last() == params@[i as int]);
                        assert(params@.take(i + 1).drop_last() =~= params@.take(i as int));
                    }
                },
                Err(e) => {
                    proof {
                        assert(params@.take(i + 1).last() == params@[i as int]);
                    }
                    return Err(e);
                },
            }
        }
        proof {
            assert(params@.take(0int) =~= Seq::<ValueType>::empty());
        }
        Ok(())
    }


    fn validate_call(context: &mut FunctionValidationContext, idx: u32) -> (r: Result<InstructionOutcome, Error>)
        requires
            old(context).wf(),
        ensures
            final(context).frozen() == old(context).frozen(),
            r is Ok ==> final(context).wf(),
            match r {
                Ok(oc) => validate_call_s(old(context).state(), old(context).spec_module(), idx) == Ok::<(VState, InstructionOutcome), Error>(
                    (final(context).state(), oc),
                ),
                Err(e) => validate_call_s(old(context).state(), old(context).spec_module(), idx) == Err::<(VState, InstructionOutcome), Error>(e),
            },
    {
        let (params, ret) = match context.require_function(idx) {
            Ok(sig) => sig,
            Err(e) => { return Err(e); },
        };
        if let Err(e) = Validator::pop_params(context, &params) {
            return Err(e);
        }
        match ret {
            BlockType::Value(vt) => Validator::validate_const(
                context,
                StackValueType::Specific(vt),
            ),
            BlockType::NoResult => Ok(InstructionOutcome::ValidateNextInstruction),
        }
    }


    fn validate_call_indirect(context: &mut FunctionValidationContext, idx: u32) -> (r: Result<InstructionOutcome, Error>)
        requires
            old(context).wf(),
        ensures
            final(context).frozen() == old(context).frozen(),
            r is Ok ==> final(context).wf(),
            match r {
                Ok(oc) => validate_call_indirect_s(old(context).state(), old(context).spec_module(), idx) == Ok::<(VState, InstructionOutcome), Error>(
                    (final(context).state(), oc),
                ),
                Err(e) => validate_call_indirect_s(old(context).state(), old(context).spec_module(), idx) == Err::<(VState, InstructionOutcome), Error>(e),
            },
    {
        {
            let table = match context.spec_module_ref().require_table(DEFAULT_TABLE_INDEX) {
                Ok(t) => t,
                Err(e) => { return Err(e); },
            };
            if table.elem_type() != -0x10 {
                return Err(Error::TypeMismatch);
            }
        }
        if let Err(e) = context.pop_value(StackValueType::Specific(ValueType::I32)) {
            return Err(e);
        }
        let (params, ret) = match context.require_function_type(idx) {
            Ok(sig) => sig,
            Err(e) => { return Err(e); },
        };
        if let Err(e) = Validator::pop_params(context, &params) {
            return Err(e);
        }
        match ret {
            BlockType::Value(vt) => Validator::validate_const(
                context,
                StackValueType::Specific(vt),
            ),
            BlockType::NoResult => Ok(InstructionOutcome::ValidateNextInstruction),
        }
    }


    /// Check the labels of a branch table and never fall through.
    fn validate_br_table(
        context: &mut FunctionValidationContext,
        table: &Vec<u32>,
        default: u32,
    ) -> (r: Result<InstructionOutcome, Error>)
        requires
            old(context).wf(),
        ensures
            final(context).frozen() == old(context).frozen(),
            r is Ok ==> final(context).wf(),
            match r {
                Ok(oc) => validate_br_table_s(old(context).state(), table@, default) == Ok::<
                    (VState, InstructionOutcome),
                    Error,
                >((final(context).state(), oc)),
                Err(e) => validate_br_table_s(old(context).state(), table@, default) == Err::<
                    (VState, InstructionOutcome),
                    Error,
                >(e),
            },
    {
        let mut required_block_type: Option<BlockType> = None;
        {
            let default_frame = match context.require_label(default) {
                Ok(f) => f,
                Err(e) => { return Err(e); },
            };
            if !matches!(default_frame.frame_type, BlockFrameType::Loop) {
                required_block_type = Some(default_frame.block_type);
            }
        }
        let n = table.len();
        let mut k: usize = 0;
        proof {
            assert(br_table_scan_s(context.state(), table@, 0, required_block_type)
                == br_table_scan_s(context.state(), table@, k as int, required_block_type));
        }
        let ghost acc0 = required_block_type;
        while k < n
            invariant
                k <= n,
                n == table@.len(),
                context.wf(),
                context.frozen() == old(context).frozen(),
                context.state() == old(context).state(),
                require_label_s(old(context).state(), default) matches Ok(df) && acc0 == (
                if df.frame_type is Loop {
                    Option::<BlockType>::None
                } else {
                    Some(df.block_type)
                }),
                br_table_scan_s(context.state(), table@, 0, acc0) == br_table_scan_s(
                    context.state(),
                    table@,
                    k as int,
                    required_block_type,
                ),
            decreases n - k,
        {
            let ghost acc_pre = required_block_type;
            let frame = match context.require_label(table[k]) {
                Ok(f) => f,
                Err(e) => {
                    proof {
                        assert(br_table_scan_s(context.state(), table@, k as int, acc_pre)
                            == Err::<Option<BlockType>, Error>(e));
                    }
                    return Err(e);
                },
            };
            if !matches!(frame.frame_type, BlockFrameType::Loop) {
                match required_block_type {
                    Some(bt) => {
                        if !(bt == frame.block_type) {
                            proof {
                                assert(br_table_scan_s(context.state(), table@, k as int, acc_pre)
                                    == Err::<Option<BlockType>, Error>(
                                    Error::BrTableTypeMismatch,
                                ));
                            }
                            return Err(Error::BrTableTypeMismatch);
                        }
                    },
                    None => {},
                }
                required_block_type = Some(frame.block_type);
            }
            proof {
                assert(br_table_scan_s(context.state(), table@, k as int, acc_pre)
                    == br_table_scan_s(context.state(), table@, k + 1int, required_block_type));
            }
            k = k + 1;
        }
        if let Err(e) = context.pop_value(StackValueType::Specific(ValueType::I32)) {
            return Err(e);
        }
        match required_block_type {
            Some(BlockType::Value(value_type)) => {
                if let Err(e) = context.tee_value(StackValueType::Specific(value_type)) {
                    return Err(e);
                }
            },
            _ => {},
        }
        Ok(InstructionOutcome::Unreachable)
    }

    /// Validate one instruction: the checker state steps exactly as
    /// [`validate_step`] says.
    #[verifier::rlimit(100)]
    pub fn validate_instruction(
        context: &mut FunctionValidationContext,
        opcode: &Opcode,
    ) -> (r: Result<InstructionOutcome, Error>)
        requires
            old(context).wf(),
        ensures
            final(context).frozen() == old(context).frozen(),
            r is Ok ==> final(context).wf(),
            match r {
                Ok(oc) => validate_step(
                    old(context).state(),
                    *opcode,
                    old(context).spec_module(),
                    old(context).spec_locals(),
                    old(context).spec_return_type(),
                ) == Ok::<(VState, InstructionOutcome), Error>((final(context).state(), oc)),
                Err(e) => validate_step(
                    old(context).state(),
                    *opcode,
                    old(context).spec_module(),
                    old(context).spec_locals(),
                    old(context).spec_return_type(),
                ) == Err::<(VState, InstructionOutcome), Error>(e),
            },
    {
        match opcode {
            Opcode::Unreachable => Ok(InstructionOutcome::Unreachable),
            Opcode::Nop => Ok(InstructionOutcome::ValidateNextInstruction),
            Opcode::Block(block_type) => Validator::validate_block(context, *block_type),
            Opcode::Loop(block_type) => Validator::validate_loop(context, *block_type),
            Opcode::If(block_type) => Validator::validate_if(context, *block_type),
            Opcode::Else => Validator::validate_else(context),
            Opcode::End => Validator::validate_end(context),
            Opcode::Br(idx) => Validator::validate_br(context, *idx),
            Opcode::BrIf(idx) => Validator::validate_br_if(context, *idx),
            Opcode::BrTable(table, default) => Validator::validate_br_table(context, table, *default),
            Opcode::Return => Validator::validate_return(context),
            Opcode::Call(idx) => Validator::validate_call(context, *idx),
            Opcode::CallIndirect(idx, _) => Validator::validate_call_indirect(context, *idx),
            Opcode::Drop => Validator::validate_drop(context),
            Opcode::Select => Validator::validate_select(context),
            Opcode::GetLocal(idx) => Validator::validate_get_local(context, *idx),
            Opcode::SetLocal(idx) => Validator::validate_set_local(context, *idx),
            Opcode::TeeLocal(idx) => Validator::validate_tee_local(context, *idx),
            Opcode::GetGlobal(idx) => Validator::validate_get_global(context, *idx),
            Opcode::SetGlobal(idx) => Validator::validate_set_global(context, *idx),
            Opcode::I32Load(align, _) => Validator::validate_load(context, *align, 4, StackValueType::Specific(ValueType::I32)),
            Opcode::I64Load(align, _) => Validator::validate_load(context, *align, 8, StackValueType::Specific(ValueType::I64)),
            Opcode::F32Load(align, _) => Validator::validate_load(context, *align, 4, StackValueType::Specific(ValueType::F32)),
            Opcode::F64Load(align, _) => Validator::validate_load(context, *align, 8, StackValueType::Specific(ValueType::F64)),
            Opcode::I32Load8S(align, _) => Validator::validate_load(context, *align, 1, StackValueType::Specific(ValueType::I32)),
            Opcode::I32Load8U(align, _) => Validator::validate_load(context, *align, 1, StackValueType::Specific(ValueType::I32)),
            Opcode::I32Load16S(align, _) => Validator::validate_load(context, *align, 2, StackValueType::Specific(ValueType::I32)),
            Opcode::I32Load16U(align, _) => Validator::validate_load(context, *align, 2, StackValueType::Specific(ValueType::I32)),
            Opcode::I64Load8S(align, _) => Validator::validate_load(context, *align, 1, StackValueType::Specific(ValueType::I64)),
            Opcode::I64Load8U(align, _) => Validator::validate_load(context, *align, 1, StackValueType::Specific(ValueType::I64)),
            Opcode::I64Load16S(align, _) => Validator::validate_load(context, *align, 2, StackValueType::Specific(ValueType::I64)),
            Opcode::I64Load16U(align, _) => Validator::validate_load(context, *align, 2, StackValueType::Specific(ValueType::I64)),
            Opcode::I64Load32S(align, _) => Validator::validate_load(context, *align, 4, StackValueType::Specific(ValueType::I64)),
            Opcode::I64Load32U(align, _) => Validator::validate_load(context, *align, 4, StackValueType::Specific(ValueType::I64)),
            Opcode::I32Store(align, _) => Validator::validate_store(context, *align, 4, StackValueType::Specific(ValueType::I32)),
            Opcode::I64Store(align, _) => Validator::validate_store(context, *align, 8, StackValueType::Specific(ValueType::I64)),
            Opcode::F32Store(align, _) => Validator::validate_store(context, *align, 4, StackValueType::Specific(ValueType::F32)),
            Opcode::F64Store(align, _) => Validator::validate_store(context, *align, 8, StackValueType::Specific(ValueType::F64)),
            Opcode::I32Store8(align, _) => Validator::validate_store(context, *align, 1, StackValueType::Specific(ValueType::I32)),
            Opcode::I32Store16(align, _) => Validator::validate_store(context, *align, 2, StackValueType::Specific(ValueType::I32)),
            Opcode::I64Store8(align, _) => Validator::validate_store(context, *align, 1, StackValueType::Specific(ValueType::I64)),
            Opcode::I64Store16(align, _) => Validator::validate_store(context, *align, 2, StackValueType::Specific(ValueType::I64)),
            Opcode::I64Store32(align, _) => Validator::validate_store(context, *align, 4, StackValueType::Specific(ValueType::I64)),
            Opcode::CurrentMemory(_) => Validator::validate_current_memory(context),
            Opcode::GrowMemory(_) => Validator::validate_grow_memory(context),
            Opcode::I32Const(_) => Validator::validate_const(context, StackValueType::Specific(ValueType::I32)),
            Opcode::I64Const(_) => Validator::validate_const(context, StackValueType::Specific(ValueType::I64)),
            Opcode::F32Const(_) => Validator::validate_const(context, StackValueType::Specific(ValueType::F32)),
            Opcode::F64Const(_) => Validator::validate_const(context, StackValueType::Specific(ValueType::F64)),
            Opcode::I32Eqz => Validator::validate_testop(context, StackValueType::Specific(ValueType::I32)),
            Opcode::I64Eqz => Validator::validate_testop(context, StackValueType::Specific(ValueType::I64)),
            Opcode::I32Eq => Validator::validate_relop(context, StackValueType::Specific(ValueType::I32)),
            Opcode::I32Ne => Validator::validate_relop(context, StackValueType::Specific(ValueType::I32)),
            Opcode::I32LtS => Validator::validate_relop(context, StackValueType::Specific(ValueType::I32)),
            Opcode::I32LtU => Validator::validate_relop(context, StackValueType::Specific(ValueType::I32)),
            Opcode::I32GtS => Validator::validate_relop(context, StackValueType::Specific(ValueType::I32)),
            Opcode::I32GtU => Validator::validate_relop(context, StackValueType::Specific(ValueType::I32)),
            Opcode::I32LeS => Validator::validate_relop(context, StackValueType::Specific(ValueType::I32)),
            Opcode::I32LeU => Validator::validate_relop(context, StackValueType::Specific(ValueType::I32)),
            Opcode::I32GeS => Validator::validate_relop(context, StackValueType::Specific(ValueType::I32)),
            Opcode::I32GeU => Validator::validate_relop(context, StackValueType::Specific(ValueType::I32)),
            Opcode::I64Eq => Validator::validate_relop(context, StackValueType::Specific(ValueType::I64)),
            Opcode::I64Ne => Validator::validate_relop(context, StackValueType::Specific(ValueType::I64)),
            Opcode::I64LtS => Validator::validate_relop(context, StackValueType::Specific(ValueType::I64)),
            Opcode::I64LtU => Validator::validate_relop(context, StackValueType::Specific(ValueType::I64)),
            Opcode::I64GtS => Validator::validate_relop(context, StackValueType::Specific(ValueType::I64)),
            Opcode::I64GtU => Validator::validate_relop(context, StackValueType::Specific(ValueType::I64)),
            Opcode::I64LeS => Validator::validate_relop(context, StackValueType::Specific(ValueType::I64)),
            Opcode::I64LeU => Validator::validate_relop(context, StackValueType::Specific(ValueType::I64)),
            Opcode::I64GeS => Validator::validate_relop(context, StackValueType::Specific(ValueType::I64)),
            Opcode::I64GeU => Validator::validate_relop(context, StackValueType::Specific(ValueType::I64)),
            Opcode::F32Eq => Validator::validate_relop(context, StackValueType::Specific(ValueType::F32)),
            Opcode::F32Ne => Validator::validate_relop(context, StackValueType::Specific(ValueType::F32)),
            Opcode::F32Lt => Validator::validate_relop(context, StackValueType::Specific(ValueType::F32)),
            Opcode::F32Gt => Validator::validate_relop(context, StackValueType::Specific(ValueType::F32)),
            Opcode::F32Le => Validator::validate_relop(context, StackValueType::Specific(ValueType::F32)),
            Opcode::F32Ge => Validator::validate_relop(context, StackValueType::Specific(ValueType::F32)),
            Opcode::F64Eq => Validator::validate_relop(context, StackValueType::Specific(ValueType::F64)),
            Opcode::F64Ne => Validator::validate_relop(context, StackValueType::Specific(ValueType::F64)),
            Opcode::F64Lt => Validator::validate_relop(context, StackValueType::Specific(ValueType::F64)),
            Opcode::F64Gt => Validator::validate_relop(context, StackValueType::Specific(ValueType::F64)),
            Opcode::F64Le => Validator::validate_relop(context, StackValueType::Specific(ValueType::F64)),
            Opcode::F64Ge => Validator::validate_relop(context, StackValueType::Specific(ValueType::F64)),
            Opcode::I32Clz => Validator::validate_unop(context, StackValueType::Specific(ValueType::I32)),
            Opcode::I32Ctz => Validator::validate_unop(context, StackValueType::Specific(ValueType::I32)),
            Opcode::I32Popcnt => Validator::validate_unop(context, StackValueType::Specific(ValueType::I32)),
            Opcode::I64Clz => Validator::validate_unop(context, StackValueType::Specific(ValueType::I64)),
            Opcode::I64Ctz => Validator::validate_unop(context, StackValueType::Specific(ValueType::I64)),
            Opcode::I64Popcnt => Validator::validate_unop(context, StackValueType::Specific(ValueType::I64)),
            Opcode::F32Abs => Validator::validate_unop(context, StackValueType::Specific(ValueType::F32)),
            Opcode::F32Neg => Validator::validate_unop(context, StackValueType::Specific(ValueType::F32)),
            Opcode::F32Ceil => Validator::validate_unop(context, StackValueType::Specific(ValueType::F32)),
            Opcode::F32Floor => Validator::validate_unop(context, StackValueType::Specific(ValueType::F32)),
            Opcode::F32Trunc => Validator::validate_unop(context, StackValueType::Specific(ValueType::F32)),
            Opcode::F32Nearest => Validator::validate_unop(context, StackValueType::Specific(ValueType::F32)),
            Opcode::F32Sqrt => Validator::validate_unop(context, StackValueType::Specific(ValueType::F32)),
            Opcode::F64Abs => Validator::validate_unop(context, StackValueType::Specific(ValueType::F64)),
            Opcode::F64Neg => Validator::validate_unop(context, StackValueType::Specific(ValueType::F64)),
            Opcode::F64Ceil => Validator::validate_unop(context, StackValueType::Specific(ValueType::F64)),
            Opcode::F64Floor => Validator::validate_unop(context, StackValueType::Specific(ValueType::F64)),
            Opcode::F64Trunc => Validator::validate_unop(context, StackValueType::Specific(ValueType::F64)),
            Opcode::F64Nearest => Validator::validate_unop(context, StackValueType::Specific(ValueType::F64)),
            Opcode::F64Sqrt => Validator::validate_unop(context, StackValueType::Specific(ValueType::F64)),
            Opcode::I32Add => Validator::validate_binop(context, StackValueType::Specific(ValueType::I32)),
            Opcode::I32Sub => Validator::validate_binop(context, StackValueType::Specific(ValueType::I32)),
            Opcode::I32Mul => Validator::validate_binop(context, StackValueType::Specific(ValueType::I32)),
            Opcode::I32DivS => Validator::validate_binop(context, StackValueType::Specific(ValueType::I32)),
            Opcode::I32DivU => Validator::validate_binop(context, StackValueType::Specific(ValueType::I32)),
            Opcode::I32RemS => Validator::validate_binop(context, StackValueType::Specific(ValueType::I32)),
            Opcode::I32RemU => Validator::validate_binop(context, StackValueType::Specific(ValueType::I32)),
            Opcode::I32And => Validator::validate_binop(context, StackValueType::Specific(ValueType::I32)),
            Opcode::I32Or => Validator::validate_binop(context, StackValueType::Specific(ValueType::I32)),
            Opcode::I32Xor => Validator::validate_binop(context, StackValueType::Specific(ValueType::I32)),
            Opcode::I32Shl => Validator::validate_binop(context, StackValueType::Specific(ValueType::I32)),
            Opcode::I32ShrS => Validator::validate_binop(context, StackValueType::Specific(ValueType::I32)),
            Opcode::I32ShrU => Validator::validate_binop(context, StackValueType::Specific(ValueType::I32)),
            Opcode::I32Rotl => Validator::validate_binop(context, StackValueType::Specific(ValueType::I32)),
            Opcode::I32Rotr => Validator::validate_binop(context, StackValueType::Specific(ValueType::I32)),
            Opcode::I64Add => Validator::validate_binop(context, StackValueType::Specific(ValueType::I64)),
            Opcode::I64Sub => Validator::validate_binop(context, StackValueType::Specific(ValueType::I64)),
            Opcode::I64Mul => Validator::validate_binop(context, StackValueType::Specific(ValueType::I64)),
            Opcode::I64DivS => Validator::validate_binop(context, StackValueType::Specific(ValueType::I64)),
            Opcode::I64DivU => Validator::validate_binop(context, StackValueType::Specific(ValueType::I64)),
            Opcode::I64RemS => Validator::validate_binop(context, StackValueType::Specific(ValueType::I64)),
            Opcode::I64RemU => Validator::validate_binop(context, StackValueType::Specific(ValueType::I64)),
            Opcode::I64And => Validator::validate_binop(context, StackValueType::Specific(ValueType::I64)),
            Opcode::I64Or => Validator::validate_binop(context, StackValueType::Specific(ValueType::I64)),
            Opcode::I64Xor => Validator::validate_binop(context, StackValueType::Specific(ValueType::I64)),
            Opcode::I64Shl => Validator::validate_binop(context, StackValueType::Specific(ValueType::I64)),
            Opcode::I64ShrS => Validator::validate_binop(context, StackValueType::Specific(ValueType::I64)),
            Opcode::I64ShrU => Validator::validate_binop(context, StackValueType::Specific(ValueType::I64)),
            Opcode::I64Rotl => Validator::validate_binop(context, StackValueType::Specific(ValueType::I64)),
            Opcode::I64Rotr => Validator::validate_binop(context, StackValueType::Specific(ValueType::I64)),
            Opcode::F32Add => Validator::validate_binop(context, StackValueType::Specific(ValueType::F32)),
            Opcode::F32Sub => Validator::validate_binop(context, StackValueType::Specific(ValueType::F32)),
            Opcode::F32Mul => Validator::validate_binop(context, StackValueType::Specific(ValueType::F32)),
            Opcode::F32Div => Validator::validate_binop(context, StackValueType::Specific(ValueType::F32)),
            Opcode::F32Min => Validator::validate_binop(context, StackValueType::Specific(ValueType::F32)),
            Opcode::F32Max => Validator::validate_binop(context, StackValueType::Specific(ValueType::F32)),
            Opcode::F32Copysign => Validator::validate_binop(context, StackValueType::Specific(ValueType::F32)),
            Opcode::F64Add => Validator::validate_binop(context, StackValueType::Specific(ValueType::F64)),
            Opcode::F64Sub => Validator::validate_binop(context, StackValueType::Specific(ValueType::F64)),
            Opcode::F64Mul => Validator::validate_binop(context, StackValueType::Specific(ValueType::F64)),
            Opcode::F64Div => Validator::validate_binop(context, StackValueType::Specific(ValueType::F64)),
            Opcode::F64Min => Validator::validate_binop(context, StackValueType::Specific(ValueType::F64)),
            Opcode::F64Max => Validator::validate_binop(context, StackValueType::Specific(ValueType::F64)),
            Opcode::F64Copysign => Validator::validate_binop(context, StackValueType::Specific(ValueType::F64)),
            Opcode::I32WarpI64 => Validator::validate_cvtop(context, StackValueType::Specific(ValueType::I64), StackValueType::Specific(ValueType::I32)),
            Opcode::I32TruncSF32 => Validator::validate_cvtop(context, StackValueType::Specific(ValueType::F32), StackValueType::Specific(ValueType::I32)),
            Opcode::I32TruncUF32 => Validator::validate_cvtop(context, StackValueType::Specific(ValueType::F32), StackValueType::Specific(ValueType::I32)),
            Opcode::I32TruncSF64 => Validator::validate_cvtop(context, StackValueType::Specific(ValueType::F64), StackValueType::Specific(ValueType::I32)),
            Opcode::I32TruncUF64 => Validator::validate_cvtop(context, StackValueType::Specific(ValueType::F64), StackValueType::Specific(ValueType::I32)),
            Opcode::I64ExtendSI32 => Validator::validate_cvtop(context, StackValueType::Specific(ValueType::I32), StackValueType::Specific(ValueType::I64)),
            Opcode::I64ExtendUI32 => Validator::validate_cvtop(context, StackValueType::Specific(ValueType::I32), StackValueType::Specific(ValueType::I64)),
            Opcode::I64TruncSF32 => Validator::validate_cvtop(context, StackValueType::Specific(ValueType::F32), StackValueType::Specific(ValueType::I64)),
            Opcode::I64TruncUF32 => Validator::validate_cvtop(context, StackValueType::Specific(ValueType::F32), StackValueType::Specific(ValueType::I64)),
            Opcode::I64TruncSF64 => Validator::validate_cvtop(context, StackValueType::Specific(ValueType::F64), StackValueType::Specific(ValueType::I64)),
            Opcode::I64TruncUF64 => Validator::validate_cvtop(context, StackValueType::Specific(ValueType::F64), StackValueType::Specific(ValueType::I64)),
            Opcode::F32ConvertSI32 => Validator::validate_cvtop(context, StackValueType::Specific(ValueType::I32), StackValueType::Specific(ValueType::F32)),
            Opcode::F32ConvertUI32 => Validator::validate_cvtop(context, StackValueType::Specific(ValueType::I32), StackValueType::Specific(ValueType::F32)),
            Opcode::F32ConvertSI64 => Validator::validate_cvtop(context, StackValueType::Specific(ValueType::I64), StackValueType::Specific(ValueType::F32)),
            Opcode::F32ConvertUI64 => Validator::validate_cvtop(context, StackValueType::Specific(ValueType::I64), StackValueType::Specific(ValueType::F32)),
            Opcode::F32DemoteF64 => Validator::validate_cvtop(context, StackValueType::Specific(ValueType::F64), StackValueType::Specific(ValueType::F32)),
            Opcode::F64ConvertSI32 => Validator::validate_cvtop(context, StackValueType::Specific(ValueType::I32), StackValueType::Specific(ValueType::F64)),
            Opcode::F64ConvertUI32 => Validator::validate_cvtop(context, StackValueType::Specific(ValueType::I32), StackValueType::Specific(ValueType::F64)),
            Opcode::F64ConvertSI64 => Validator::validate_cvtop(context, StackValueType::Specific(ValueType::I64), StackValueType::Specific(ValueType::F64)),
            Opcode::F64ConvertUI64 => Validator::validate_cvtop(context, StackValueType::Specific(ValueType::I64), StackValueType::Specific(ValueType::F64)),
            Opcode::F64PromoteF32 => Validator::validate_cvtop(context, StackValueType::Specific(ValueType::F32), StackValueType::Specific(ValueType::F64)),
            Opcode::I32ReinterpretF32 => Validator::validate_cvtop(context, StackValueType::Specific(ValueType::F32), StackValueType::Specific(ValueType::I32)),
            Opcode::I64ReinterpretF64 => Validator::validate_cvtop(context, StackValueType::Specific(ValueType::F64), StackValueType::Specific(ValueType::I64)),
            Opcode::F32ReinterpretI32 => Validator::validate_cvtop(context, StackValueType::Specific(ValueType::I32), StackValueType::Specific(ValueType::F32)),
            Opcode::F64ReinterpretI64 => Validator::validate_cvtop(context, StackValueType::Specific(ValueType::I64), StackValueType::Specific(ValueType::F64)),
        }
    }
}


/// Validating a body from instruction `k` to its end: the final checker
/// state, or the first error. Dead code after an instruction that never
/// falls through checks against the unlimited marker.
pub open spec fn validate_body_from(
    s: VState,
    k: int,
    body: Seq<Opcode>,
    mc: ModuleContext,
    locals: Seq<ValueType>,
    ret: Option<BlockType>,
) -> Result<VState, Error>
    decreases body.len() - k,
{
    if k < 0 || k >= body.len() {
        Ok(s)
    } else {
        match validate_step(s, body[k], mc, locals, ret) {
            Err(e) => Err(e),
            Ok(p) => {
                let after: Result<VState, Error> = if p.1 is Unreachable {
                    unreachable_s(p.0)
                } else {
                    Ok(p.0)
                };
                match after {
                    Err(e) => Err(e),
                    Ok(s3) => validate_body_from(
                        VState { position: k + 1, ..s3 },
                        k + 1,
                        body,
                        mc,
                        locals,
                        ret,
                    ),
                }
            },
        }
    }
}

/// Closing every frame still open at the end of a body.
pub open spec fn pop_all_labels_s(s: VState) -> Result<VState, Error>
    decreases s.frame_stack.len() via pop_all_labels_s_dec
{
    if s.frame_stack.len() == 0 {
        Ok(s)
    } else {
        match pop_label_s(s) {
            Err(e) => Err(e),
            Ok(s2) => pop_all_labels_s(s2),
        }
    }
}

#[via_fn]
proof fn pop_all_labels_s_dec(s: VState) {
    if s.frame_stack.len() > 0 {
        match pop_label_s(s) {
            Ok(s2) => {
                assert(s2.frame_stack.len() < s.frame_stack.len());
            },
            Err(_) => {},
        }
    }
}

/// Validating a whole function body: open the function's own frame, walk
/// the instructions, then close every frame left open.
pub open spec fn validate_function_s(
    s: VState,
    block_type: BlockType,
    body: Seq<Opcode>,
    mc: ModuleContext,
    locals: Seq<ValueType>,
    ret: Option<BlockType>,
) -> Result<VState, Error> {
    match push_label_s(s, BlockFrameType::Function, block_type) {
        Err(e) => Err(e),
        Ok(s1) => if body.len() == 0 {
            Err(Error::EmptyFunctionBody)
        } else {
            match validate_body_from(s1, s1.position, body, mc, locals, ret) {
                Err(e) => Err(e),
                Ok(s2) => pop_all_labels_s(s2),
            }
        },
    }
}

impl Validator {
    /// Walk the body's instructions from the current position.
    fn validate_function_block(
        context: &mut FunctionValidationContext,
        body: &Vec<Opcode>,
    ) -> (r: Result<(), Error>)
        requires
            old(context).wf(),
        ensures
            final(context).frozen() == old(context).frozen(),
            r is Ok ==> final(context).wf(),
            match r {
                Ok(()) => body@.len() > 0 && validate_body_from(
                    old(context).state(),
                    old(context).state().position,
                    body@,
                    old(context).spec_module(),
                    old(context).spec_locals(),
                    old(context).spec_return_type(),
                ) == Ok::<VState, Error>(final(context).state()),
                Err(e) => {
                    if body@.len() == 0 {
                        e == Error::EmptyFunctionBody
                    } else {
                        validate_body_from(
                            old(context).state(),
                            old(context).state().position,
                            body@,
                            old(context).spec_module(),
                            old(context).spec_locals(),
                            old(context).spec_return_type(),
                        ) == Err::<VState, Error>(e)
                    }
                },
            },
    {
        let ghost mc = old(context).spec_module();
        let ghost locals_g = old(context).spec_locals();
        let ghost ret_g = old(context).spec_return_type();
        let body_len = body.len();
        if body_len == 0 {
            return Err(Error::EmptyFunctionBody);
        }
        let mut i = context.position;
        while i < body_len
            invariant
                context.wf(),
                context.frozen() == old(context).frozen(),
                body_len == body@.len(),
                mc == old(context).spec_module(),
                locals_g == old(context).spec_locals(),
                ret_g == old(context).spec_return_type(),
                context.state().position == i as int,
                validate_body_from(
                    old(context).state(),
                    old(context).state().position,
                    body@,
                    mc,
                    locals_g,
                    ret_g,
                ) == validate_body_from(context.state(), i as int, body@, mc, locals_g, ret_g),
            decreases body@.len() - i,
        {
            let ghost pre = context.state();
            let opcode = &body[i];
            let outcome = match Validator::validate_instruction(context, opcode) {
                Ok(oc) => oc,
                Err(e) => { return Err(e); },
            };
            match outcome {
                InstructionOutcome::ValidateNextInstruction => {},
                InstructionOutcome::Unreachable => {
                    if let Err(e) = context.unreachable() {
                        return Err(e);
                    }
                },
            }
            let ghost stepped = context.state();
            context.position = i + 1;
            i = i + 1;
            proof {
                assert(context.state() == VState { position: i as int, ..stepped });
            }
        }
        Ok(())
    }

    /// Validate one function body against its declared block type: the
    /// result is exactly what [`validate_function_s`] says of it.
    pub fn validate_function(
        context: &mut FunctionValidationContext,
        block_type: BlockType,
        body: &Vec<Opcode>,
    ) -> (r: Result<(), Error>)
        requires
            old(context).wf(),
        ensures
            final(context).frozen() == old(context).frozen(),
            match r {
                Ok(()) => validate_function_s(
                    old(context).state(),
                    block_type,
                    body@,
                    old(context).spec_module(),
                    old(context).spec_locals(),
                    old(context).spec_return_type(),
                ) == Ok::<VState, Error>(final(context).state()),
                Err(e) => validate_function_s(
                    old(context).state(),
                    block_type,
                    body@,
                    old(context).spec_module(),
                    old(context).spec_locals(),
                    old(context).spec_return_type(),
                ) == Err::<VState, Error>(e),
            },
    {
        let ghost mc = old(context).spec_module();
        let ghost locals_g = old(context).spec_locals();
        let ghost ret_g = old(context).spec_return_type();
        if let Err(e) = context.push_label(BlockFrameType::Function, block_type) {
            return Err(e);
        }
        let ghost s1 = context.state();
        if let Err(e) = Validator::validate_function_block(context, body) {
            return Err(e);
        }
        let ghost s2 = context.state();
        while !context.frame_stack_is_empty()
            invariant
                context.wf(),
                context.frozen() == old(context).frozen(),
                mc == old(context).spec_module(),
                locals_g == old(context).spec_locals(),
                ret_g == old(context).spec_return_type(),
                push_label_s(old(context).state(), BlockFrameType::Function, block_type) == Ok::<
                    VState,
                    Error,
                >(s1),
                body@.len() > 0,
                validate_body_from(s1, s1.position, body@, mc, locals_g, ret_g) == Ok::<VState, Error>(s2),
                pop_all_labels_s(s2) == pop_all_labels_s(context.state()),
            decreases context.state().frame_stack.len(),
        {
            if let Err(e) = context.pop_label() {
                return Err(e);
            }
            proof {
                pop_all_labels_s_dec_helper(context.state());
            }
        }
        Ok(())
    }
}

/// Helper to keep the frame count visibly shrinking while frames close.
proof fn pop_all_labels_s_dec_helper(s: VState) {
}

} // verus!
