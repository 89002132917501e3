//! The state of the machine: frames, handlers, exits, faults and the abstract view that the
//! semantics speaks of.
use vstd::prelude::*;

use crate::env::{Env, EnvView};
use crate::value::{Heap, Object, Value};

verus! {

/// Symbols that the machine itself signals; [`Machine::new`](crate::machine::Machine::new)
/// interns them first, in this order.
pub const SYM_ERROR: u32 = 0;
pub const SYM_WRONG_NUMBER_OF_ARGUMENTS: u32 = 1;
pub const SYM_VOID_VARIABLE: u32 = 2;
pub const SYM_WRONG_TYPE_ARGUMENT: u32 = 3;
pub const SYM_SETTING_CONSTANT: u32 = 4;
pub const N_BUILTIN_SYMBOLS: u32 = 5;

/// One active invocation.  Its operands are the stack slots from `base` up, at most `limit`
/// of them; it owns the bindings from `binding_base` and the handlers from `handler_base` up.
#[derive(Clone, Copy, Debug, PartialEq, Eq, Structural)]
pub struct Frame {
    /// The heap index of the procedure being run.
    pub code_obj: usize,
    pub pc: usize,
    pub base: usize,
    pub limit: usize,
    pub binding_base: usize,
    pub handler_base: usize,
}

#[derive(Clone, Copy, Debug, PartialEq, Eq, Structural)]
pub enum HandlerKind {
    Catch,
    ConditionCase,
}

/// A resume point for a non-local exit.
#[derive(Clone, Copy, Debug, PartialEq, Eq, Structural)]
pub struct Handler {
    pub kind: HandlerKind,
    /// The catch tag, or the condition (or list of conditions) handled.
    pub tag: Value,
    pub target: usize,
    pub stack_depth: usize,
    pub binding_depth: usize,
    /// The number of frames when the handler was pushed; the newest of them resumes.
    pub frame_depth: usize,
}

/// A non-local exit in progress.
#[derive(Clone, Copy, Debug, PartialEq, Eq, Structural)]
pub enum Exit {
    Throw { tag: Value, value: Value },
    Signal { symbol: Value, data: Value },
}

/// A malformed procedure or machine state; not recoverable by handlers.
#[derive(Clone, Copy, Debug, PartialEq, Eq, Structural)]
pub enum Fault {
    InvalidInstruction { pc: usize },
    StackUnderflow { pc: usize },
    StackOverflow { pc: usize },
    BadConstant { pc: usize },
    BadJumpTable { pc: usize },
    BindingUnderflow { pc: usize },
    /// A known opcode that this machine does not implement.
    Unimplemented { pc: usize },
    HandlerUnderflow { pc: usize },
    /// A handler records depths that the current stacks no longer reach.
    BrokenHandler,
    /// There is no frame to run, or the frame does not name a procedure.
    BrokenFrame,
    HeapExhausted,
}

/// How an invocation ends.
#[derive(Clone, Copy, Debug, PartialEq, Eq, Structural)]
pub enum Ending {
    Finished(Value),
    Uncaught(Exit),
    Faulted(Fault),
}

/// What goes on once a cleanup has run: the unwinding that the cleanup interrupted.
#[derive(Clone, Copy, Debug, PartialEq, Eq, Structural)]
pub enum Resume {
    /// Unbind down to `depth` entries, then go on at `next`.
    Unbind { depth: usize, next: usize },
    /// Go on with a non-local exit.
    Raise(Exit),
    /// Go on returning `v` from the current frame.
    Return(Value),
    /// Go on ending the invocation.
    Finish(Ending),
}

#[derive(Clone, Copy, Debug, PartialEq, Eq, Structural)]
pub enum State {
    /// No invocation in progress.
    Idle,
    Running,
    /// The host is asked to apply `func` to the top `nargs` operands; on completion the top
    /// `slots` operands are replaced by the result.
    Waiting { func: Value, nargs: usize, slots: usize },
    /// The host is asked to apply the cleanup `handler` to no arguments; once it has, the
    /// result is dropped and `then` goes on.
    Cleaning { handler: Value, then: Resume },
    /// The host is asked to apply `func` to no arguments; its answer is recorded as a
    /// cleanup on the binding stack.
    Saving { func: Value },
    Finished(Value),
    Uncaught(Exit),
    Faulted(Fault),
}

pub struct Machine {
    pub heap: Heap,
    pub env: Env,
    pub handlers: Vec<Handler>,
    pub frames: Vec<Frame>,
    pub stack: Vec<Value>,
    pub state: State,
}

#[verifier::ext_equal]
pub ghost struct MachineView {
    pub objs: Seq<Object>,
    pub env: EnvView,
    pub handlers: Seq<Handler>,
    pub frames: Seq<Frame>,
    pub stack: Seq<Value>,
    pub state: State,
}

pub open spec fn ending_state(e: Ending) -> State {
    match e {
        Ending::Finished(v) => State::Finished(v),
        Ending::Uncaught(x) => State::Uncaught(x),
        Ending::Faulted(f) => State::Faulted(f),
    }
}

impl Ending {
    pub fn state(self) -> (r: State)
        ensures
            r == ending_state(self),
    {
        match self {
            Ending::Finished(v) => State::Finished(v),
            Ending::Uncaught(x) => State::Uncaught(x),
            Ending::Faulted(f) => State::Faulted(f),
        }
    }
}

impl View for Machine {
    type V = MachineView;

    open spec fn view(&self) -> MachineView {
        MachineView {
            objs: self.heap.objs@,
            env: self.env@,
            handlers: self.handlers@,
            frames: self.frames@,
            stack: self.stack@,
            state: self.state,
        }
    }
}

} // verus!
