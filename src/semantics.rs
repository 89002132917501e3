//! The meaning of each instruction, as a function from machine view to machine view.
use vstd::prelude::*;

use crate::env::{
    bind_spec, known, lookup_spec, protect_spec, set_spec, unwind_cleanup, unwind_spec,
};
use crate::opcode::{decode_spec, Instr};
use crate::state::{
    ending_state, Ending, Exit, Fault, Frame, Handler, HandlerKind, MachineView, Resume, State, SYM_ERROR, SYM_SETTING_CONSTANT,
    SYM_VOID_VARIABLE, SYM_WRONG_NUMBER_OF_ARGUMENTS, SYM_WRONG_TYPE_ARGUMENT,
};
use crate::template::{arity_ok, positional_spec, rest_spec, template_spec};
use crate::value::{
    bool_value, build_list_spec, consp_spec, listp_spec, object_at, rank, stringp_spec,
    symbolp_spec, equal_spec, Object, Procedure, Value,
};

verus! {

pub open spec fn top(m: MachineView) -> Frame {
    m.frames.last()
}

/// The number of operands of the current frame.
pub open spec fn avail(m: MachineView) -> int {
    m.stack.len() - top(m).base
}

/// A fault ends the invocation like an uncaught exit does.
pub open spec fn faulted(m: MachineView, f: Fault) -> MachineView {
    finish_spec(m, Ending::Faulted(f))
}

pub open spec fn underflow(m: MachineView) -> MachineView {
    faulted(m, Fault::StackUnderflow { pc: top(m).pc })
}

/// The current frame goes on at `pc` with operand stack `stack`.
pub open spec fn moved(m: MachineView, stack: Seq<Value>, pc: usize) -> MachineView {
    MachineView {
        stack: stack,
        frames: m.frames.update(m.frames.len() - 1, Frame { pc: pc, ..top(m) }),
        ..m
    }
}

pub open spec fn popped(m: MachineView, pops: int) -> Seq<Value> {
    m.stack.subrange(0, m.stack.len() - pops)
}

/// Replaces the top `pops` operands by `v` and goes on at `pc`, or faults where the frame's
/// bound would be exceeded.
pub open spec fn push_spec(m: MachineView, pops: int, v: Value, pc: usize) -> MachineView {
    if popped(m, pops).len() - top(m).base < top(m).limit {
        moved(m, popped(m, pops).push(v), pc)
    } else {
        faulted(m, Fault::StackOverflow { pc: top(m).pc })
    }
}

pub open spec fn truncate<A>(s: Seq<A>, n: int) -> Seq<A> {
    if n <= s.len() {
        s.subrange(0, n)
    } else {
        s
    }
}

/// Unbinds down to `depth` entries; where a cleanup entry comes first, stops after popping
/// it and asks for its handler to run, after which `then` goes on.  `done` is the state
/// reached when no cleanup intervenes.
pub open spec fn unwind_then(m: MachineView, depth: int, then: Resume, done: MachineView) -> MachineView {
    match unwind_cleanup(m.env, depth) {
        Some(handler) => MachineView {
            env: unwind_spec(m.env, depth),
            state: State::Cleaning { handler, then },
            ..m
        },
        None => done,
    }
}

/// Ends the invocation: the outermost frame's bindings and handlers are undone, running
/// the cleanups met on the way, and the stacks emptied.
pub open spec fn finish_spec(m: MachineView, end: Ending) -> MachineView {
    if m.frames.len() == 0 {
        MachineView { state: ending_state(end), ..m }
    } else {
        unwind_then(m, m.frames[0].binding_base as int, Resume::Finish(end), MachineView {
            objs: m.objs,
            env: unwind_spec(m.env, m.frames[0].binding_base as int),
            handlers: truncate(m.handlers, m.frames[0].handler_base as int),
            frames: Seq::empty(),
            stack: Seq::empty(),
            state: ending_state(end),
        })
    }
}

/// Whether one condition name covers the signalled symbol: itself, `error`, or `t`.
pub open spec fn covers(c: Value, symbol: Value) -> bool {
    c == symbol || c == Value::Symbol(SYM_ERROR) || c == Value::T
}

/// Whether some element of the list `v` covers the signalled symbol.
pub open spec fn list_covers(objs: Seq<Object>, v: Value, symbol: Value) -> bool
    decreases rank(v),
{
    match object_at(objs, v) {
        Some(Object::Cons(a, d)) => covers(a, symbol) || (rank(d) < rank(v) && list_covers(
            objs,
            d,
            symbol,
        )),
        _ => false,
    }
}

pub open spec fn handles(objs: Seq<Object>, h: Handler, e: Exit) -> bool {
    match e {
        Exit::Throw { tag, value } => h.kind == HandlerKind::Catch && h.tag == tag,
        Exit::Signal { symbol, data } => h.kind == HandlerKind::ConditionCase && (covers(
            h.tag,
            symbol,
        ) || list_covers(objs, h.tag, symbol)),
    }
}

/// The index of the newest handler for `e`.
pub open spec fn handler_index(objs: Seq<Object>, hs: Seq<Handler>, e: Exit) -> Option<int>
    decreases hs.len(),
{
    if hs.len() == 0 {
        None
    } else if handles(objs, hs.last(), e) {
        Some(hs.len() - 1)
    } else {
        handler_index(objs, hs.drop_last(), e)
    }
}

pub proof fn lemma_handler_index_bound(objs: Seq<Object>, hs: Seq<Handler>, e: Exit)
    ensures
        match handler_index(objs, hs, e) {
            Some(k) => 0 <= k < hs.len() && handles(objs, hs[k], e),
            None => true,
        },
    decreases hs.len(),
{
    if hs.len() > 0 && !handles(objs, hs.last(), e) {
        lemma_handler_index_bound(objs, hs.drop_last(), e);
    }
}

/// Whether the depths that a handler records are reached by the current stacks.
pub open spec fn handler_fits(m: MachineView, h: Handler) -> bool {
    &&& 1 <= h.frame_depth <= m.frames.len()
    &&& m.frames[h.frame_depth - 1].base <= h.stack_depth < m.stack.len() + 1
    &&& h.stack_depth - m.frames[h.frame_depth - 1].base < m.frames[h.frame_depth - 1].limit
    &&& h.binding_depth <= m.env.bindings.len()
}

/// A throw resumes with its value; a signal with a new cons of its symbol and data.
pub open spec fn resumed_with(m: MachineView, h: Handler, k: int, objs: Seq<Object>, payload: Value) -> MachineView {
    let f = m.frames[h.frame_depth - 1];
    MachineView {
        objs: objs,
        env: unwind_spec(m.env, h.binding_depth as int),
        handlers: m.handlers.subrange(0, k),
        frames: m.frames.subrange(0, h.frame_depth as int).update(
            h.frame_depth - 1,
            Frame { pc: h.target, ..f },
        ),
        stack: m.stack.subrange(0, h.stack_depth as int).push(payload),
        state: State::Running,
    }
}

/// A non-local exit: resume at the newest matching handler after undoing what lies above
/// it, or end the invocation where none matches.
pub open spec fn raise_spec(m: MachineView, e: Exit) -> MachineView {
    match handler_index(m.objs, m.handlers, e) {
        None => finish_spec(m, Ending::Uncaught(e)),
        Some(k) => {
            let h = m.handlers[k];
            if !handler_fits(m, h) {
                faulted(m, Fault::BrokenHandler)
            } else if e is Signal && m.objs.len() + 1 >= usize::MAX {
                faulted(m, Fault::HeapExhausted)
            } else if unwind_cleanup(m.env, h.binding_depth as int) is Some {
                unwind_then(m, h.binding_depth as int, Resume::Raise(e), m)
            } else {
                match e {
                    Exit::Throw { tag, value } => resumed_with(m, h, k, m.objs, value),
                    Exit::Signal { symbol, data } => resumed_with(
                        m,
                        h,
                        k,
                        m.objs.push(Object::Cons(symbol, data)),
                        Value::Obj(m.objs.len() as usize),
                    ),
                }
            }
        },
    }
}

pub open spec fn signal(symbol: u32, data: Value) -> Exit {
    Exit::Signal { symbol: Value::Symbol(symbol), data }
}

pub open spec fn varref_spec(m: MachineView, c: Value, next: usize) -> MachineView {
    match c {
        Value::Nil => push_spec(m, 0, c, next),
        Value::T => push_spec(m, 0, c, next),
        Value::Symbol(s) => match lookup_spec(m.env, s) {
            Some(v) => push_spec(m, 0, v, next),
            None => raise_spec(m, signal(SYM_VOID_VARIABLE, c)),
        },
        _ => raise_spec(m, signal(SYM_WRONG_TYPE_ARGUMENT, c)),
    }
}

/// Assigns (`bind` false) or dynamically binds (`bind` true) the top operand to `c`.
pub open spec fn varset_spec(m: MachineView, c: Value, bind: bool, next: usize) -> MachineView {
    let v = m.stack.last();
    match c {
        Value::Symbol(s) => if known(m.env, s) {
            MachineView {
                env: if bind {
                    bind_spec(m.env, s, v)
                } else {
                    set_spec(m.env, s, v)
                },
                ..moved(m, popped(m, 1), next)
            }
        } else {
            raise_spec(m, signal(SYM_WRONG_TYPE_ARGUMENT, c))
        },
        Value::Nil => raise_spec(m, signal(SYM_SETTING_CONSTANT, c)),
        Value::T => raise_spec(m, signal(SYM_SETTING_CONSTANT, c)),
        _ => raise_spec(m, signal(SYM_WRONG_TYPE_ARGUMENT, c)),
    }
}

pub open spec fn return_spec(m: MachineView, v: Value) -> MachineView {
    if m.frames.len() <= 1 {
        finish_spec(m, Ending::Finished(v))
    } else {
        let f = top(m);
        let caller = m.frames[m.frames.len() - 2];
        if !(caller.base <= f.base && f.base <= m.stack.len()) {
            faulted(m, Fault::BrokenFrame)
        } else if f.base - caller.base < caller.limit {
            unwind_then(m, f.binding_base as int, Resume::Return(v), MachineView {
                objs: m.objs,
                env: unwind_spec(m.env, f.binding_base as int),
                handlers: truncate(m.handlers, f.handler_base as int),
                frames: m.frames.drop_last(),
                stack: m.stack.subrange(0, f.base as int).push(v),
                state: m.state,
            })
        } else {
            faulted(m, Fault::StackOverflow { pc: f.pc })
        }
    }
}

/// Whether a table key matches: by structure in a structural table, else by identity.
pub open spec fn key_matches(objs: Seq<Object>, structural: bool, k: Value, key: Value) -> bool {
    if structural {
        equal_spec(objs, k, key)
    } else {
        k == key
    }
}

/// The target stored for `key` in a jump table; the first matching entry wins.
pub open spec fn table_lookup(objs: Seq<Object>, structural: bool, entries: Seq<(Value, Value)>, key: Value) -> Option<Value>
    decreases entries.len(),
{
    if entries.len() == 0 {
        None
    } else if key_matches(objs, structural, entries[0].0, key) {
        Some(entries[0].1)
    } else {
        table_lookup(objs, structural, entries.drop_first(), key)
    }
}

pub open spec fn switch_spec(m: MachineView, next: usize) -> MachineView {
    let table = m.stack.last();
    let key = m.stack[m.stack.len() - 2];
    let bad = faulted(m, Fault::BadJumpTable { pc: top(m).pc });
    match object_at(m.objs, table) {
        Some(Object::Table { structural, entries }) => match table_lookup(m.objs, structural, entries@, key) {
            None => moved(m, popped(m, 2), next),
            Some(Value::Int(t)) => if 0 <= t <= usize::MAX {
                moved(m, popped(m, 2), t as usize)
            } else {
                bad
            },
            Some(_) => bad,
        },
        _ => bad,
    }
}

pub open spec fn predicate_spec(objs: Seq<Object>, i: Instr, v: Value) -> bool {
    match i {
        Instr::Symbolp => symbolp_spec(v),
        Instr::Consp => consp_spec(objs, v),
        Instr::Stringp => stringp_spec(objs, v),
        Instr::Listp => listp_spec(objs, v),
        Instr::Numberp => v is Int,
        Instr::Integerp => v is Int,
        _ => v == Value::Nil,
    }
}

pub open spec fn push_handler_spec(m: MachineView, kind: HandlerKind, target: usize, next: usize) -> MachineView {
    let h = Handler {
        kind: kind,
        tag: m.stack.last(),
        target: target,
        stack_depth: (m.stack.len() - 1) as usize,
        binding_depth: m.env.bindings.len() as usize,
        frame_depth: m.frames.len() as usize,
    };
    MachineView { handlers: m.handlers.push(h), ..moved(m, popped(m, 1), next) }
}

/// Asks the host to apply `func`; the current frame goes on at `next` once it answers.
pub open spec fn wait_spec(m: MachineView, func: Value, nargs: usize, slots: usize, next: usize) -> MachineView {
    MachineView { state: State::Waiting { func, nargs, slots }, ..moved(m, m.stack, next) }
}

/// The heap and the data of a wrong-number-of-arguments signal: the list
/// `((mandatory . nonrest) nargs)`, whose pair is allocated first.
pub open spec fn arity_data_spec(objs: Seq<Object>, mandatory: u64, nonrest: u64, nargs: usize) -> (Seq<Object>, Value) {
    let pair = Value::Obj(objs.len() as usize);
    build_list_spec(
        objs.push(Object::Cons(Value::Int(mandatory as i64), Value::Int(nonrest as i64))),
        seq![pair, Value::Int(nargs as i64)],
        Value::Nil,
    )
}

/// Enters a new frame for the compiled procedure at heap index `obj`, whose operands are
/// `pushed` and whose heap is then `objs`.
pub open spec fn enter_spec(m: MachineView, obj: usize, q: Procedure, base: int, pushed: Seq<Value>, objs: Seq<Object>) -> MachineView {
    MachineView {
        objs: objs,
        stack: m.stack.subrange(0, base) + pushed,
        frames: m.frames.push(
            Frame {
                code_obj: obj,
                pc: 0,
                base: base as usize,
                limit: q.max_depth,
                binding_base: m.env.bindings.len() as usize,
                handler_base: m.handlers.len() as usize,
            },
        ),
        ..m
    }
}

/// Calls the compiled procedure at heap index `obj` with the top `k` operands; `m` already
/// goes on after the call instruction, which stands at `pc`.
pub open spec fn call_code_spec(m: MachineView, obj: usize, q: Procedure, k: usize, pc: usize) -> MachineView {
    let n = m.stack.len();
    let base = n - k - 1;
    let args = m.stack.subrange(n - k, n as int);
    match q.template {
        None => if args.len() <= q.max_depth {
            enter_spec(m, obj, q, base, args, m.objs)
        } else {
            faulted(m, Fault::StackOverflow { pc })
        },
        Some(packed) => {
            let t = template_spec(packed);
            if !arity_ok(t, k as int) {
                if m.objs.len() + 4 < usize::MAX {
                    let built = arity_data_spec(m.objs, t.mandatory, t.nonrest, k);
                    raise_spec(
                        MachineView { objs: built.0, ..m },
                        signal(SYM_WRONG_NUMBER_OF_ARGUMENTS, built.1),
                    )
                } else {
                    faulted(m, Fault::HeapExhausted)
                }
            } else if !t.rest {
                if positional_spec(t, args).len() <= q.max_depth {
                    enter_spec(m, obj, q, base, positional_spec(t, args), m.objs)
                } else {
                    faulted(m, Fault::StackOverflow { pc })
                }
            } else if positional_spec(t, args).len() + 1 <= q.max_depth {
                if m.objs.len() + rest_spec(t, args).len() < usize::MAX {
                    let built = build_list_spec(m.objs, rest_spec(t, args), Value::Nil);
                    enter_spec(m, obj, q, base, positional_spec(t, args).push(built.1), built.0)
                } else {
                    faulted(m, Fault::HeapExhausted)
                }
            } else {
                faulted(m, Fault::StackOverflow { pc })
            }
        },
    }
}

/// `call[k]`: below the `k` arguments lies the procedure.  A compiled procedure runs in a
/// new frame; anything else goes to the host.
pub open spec fn call_spec(m: MachineView, k: usize, next: usize) -> MachineView {
    let n = m.stack.len();
    let func = m.stack[n - 1 - k];
    match object_at(m.objs, func) {
        Some(Object::Code(q)) => call_code_spec(
            moved(m, m.stack, next),
            func->Obj_0,
            q,
            k,
            top(m).pc,
        ),
        _ => wait_spec(m, func, k, (k + 1) as usize, next),
    }
}

/// The constant that instruction `i` of `p` names, where the pool has it.
pub open spec fn constant_spec(p: Procedure, i: Instr) -> Option<Value> {
    match i {
        Instr::Constant(k) => if k < p.constants@.len() { Some(p.constants@[k as int]) } else { None },
        Instr::Varref(k) => if k < p.constants@.len() { Some(p.constants@[k as int]) } else { None },
        Instr::Varset(k) => if k < p.constants@.len() { Some(p.constants@[k as int]) } else { None },
        Instr::Varbind(k) => if k < p.constants@.len() { Some(p.constants@[k as int]) } else { None },
        _ => None,
    }
}

/// The effect of instruction `i` of procedure `p`, whose successor starts at `next`.
pub open spec fn instr_spec(m: MachineView, p: Procedure, i: Instr, next: usize) -> MachineView {
    let n = m.stack.len();
    let pc = top(m).pc;
    let bad_constant = faulted(m, Fault::BadConstant { pc });
    match i {
        Instr::StackRef(k) => if avail(m) <= k {
            underflow(m)
        } else {
            push_spec(m, 0, m.stack[n - 1 - k], next)
        },
        Instr::Dup => if avail(m) < 1 {
            underflow(m)
        } else {
            push_spec(m, 0, m.stack[n - 1], next)
        },
        Instr::StackSet(k) => if avail(m) <= k {
            underflow(m)
        } else {
            moved(m, m.stack.update(n - 1 - k, m.stack[n - 1]).drop_last(), next)
        },
        Instr::Discard => if avail(m) < 1 {
            underflow(m)
        } else {
            moved(m, popped(m, 1), next)
        },
        Instr::DiscardN(k, keep) => if keep {
            if avail(m) <= k {
                underflow(m)
            } else {
                moved(m, m.stack.update(n - 1 - k, m.stack[n - 1]).subrange(0, n - k), next)
            }
        } else if avail(m) < k {
            underflow(m)
        } else {
            moved(m, popped(m, k as int), next)
        },
        Instr::Constant(k) => if k >= p.constants@.len() {
            bad_constant
        } else {
            push_spec(m, 0, p.constants@[k as int], next)
        },
        Instr::Varref(k) => if k >= p.constants@.len() {
            bad_constant
        } else {
            varref_spec(m, p.constants@[k as int], next)
        },
        Instr::Varset(k) => if k >= p.constants@.len() {
            bad_constant
        } else if avail(m) < 1 {
            underflow(m)
        } else {
            varset_spec(m, p.constants@[k as int], false, next)
        },
        Instr::Varbind(k) => if k >= p.constants@.len() {
            bad_constant
        } else if avail(m) < 1 {
            underflow(m)
        } else {
            varset_spec(m, p.constants@[k as int], true, next)
        },
        Instr::Unbind(k) => if m.env.bindings.len() < top(m).binding_base + k {
            faulted(m, Fault::BindingUnderflow { pc })
        } else {
            unbind_spec(m, (m.env.bindings.len() - k) as usize, next)
        },
        Instr::UnbindAll => if m.env.bindings.len() < top(m).binding_base {
            faulted(m, Fault::BindingUnderflow { pc })
        } else {
            unbind_spec(m, top(m).binding_base, next)
        },
        Instr::Unimplemented(_) => faulted(m, Fault::Unimplemented { pc }),
        Instr::Save(op) => MachineView {
            state: State::Saving { func: Value::Subr(op as u32) },
            ..moved(m, m.stack, next)
        },
        Instr::Call(k) => if avail(m) <= k {
            underflow(m)
        } else {
            call_spec(m, k, next)
        },
        Instr::Primitive(op, k) => if avail(m) < k {
            underflow(m)
        } else {
            wait_spec(m, Value::Subr(op as u32), k, k, next)
        },
        Instr::UnwindProtect => if avail(m) < 1 {
            underflow(m)
        } else {
            MachineView {
                env: protect_spec(m.env, m.stack[n - 1]),
                ..moved(m, popped(m, 1), next)
            }
        },
        Instr::Pophandler => if m.handlers.len() <= top(m).handler_base {
            faulted(m, Fault::HandlerUnderflow { pc })
        } else {
            MachineView { handlers: m.handlers.drop_last(), ..moved(m, m.stack, next) }
        },
        Instr::PushCatch(t) => if avail(m) < 1 {
            underflow(m)
        } else {
            push_handler_spec(m, HandlerKind::Catch, t, next)
        },
        Instr::PushConditionCase(t) => if avail(m) < 1 {
            underflow(m)
        } else {
            push_handler_spec(m, HandlerKind::ConditionCase, t, next)
        },
        Instr::Goto(t) => moved(m, m.stack, t),
        Instr::GotoIfNil(t) => if avail(m) < 1 {
            underflow(m)
        } else {
            moved(m, popped(m, 1), if m.stack[n - 1] == Value::Nil { t } else { next })
        },
        Instr::GotoIfNonNil(t) => if avail(m) < 1 {
            underflow(m)
        } else {
            moved(m, popped(m, 1), if m.stack[n - 1] != Value::Nil { t } else { next })
        },
        Instr::GotoIfNilElsePop(t) => if avail(m) < 1 {
            underflow(m)
        } else if m.stack[n - 1] == Value::Nil {
            moved(m, m.stack, t)
        } else {
            moved(m, popped(m, 1), next)
        },
        Instr::GotoIfNonNilElsePop(t) => if avail(m) < 1 {
            underflow(m)
        } else if m.stack[n - 1] != Value::Nil {
            moved(m, m.stack, t)
        } else {
            moved(m, popped(m, 1), next)
        },
        Instr::Return => if avail(m) < 1 {
            underflow(m)
        } else {
            return_spec(m, m.stack[n - 1])
        },
        Instr::Switch => if avail(m) < 2 {
            underflow(m)
        } else {
            switch_spec(m, next)
        },
        Instr::Eq => if avail(m) < 2 {
            underflow(m)
        } else {
            push_spec(m, 2, bool_value(m.stack[n - 1] == m.stack[n - 2]), next)
        },
        Instr::Equal => if avail(m) < 2 {
            underflow(m)
        } else {
            push_spec(m, 2, bool_value(equal_spec(m.objs, m.stack[n - 1], m.stack[n - 2])), next)
        },
        _ => if avail(m) < 1 {
            underflow(m)
        } else {
            push_spec(m, 1, bool_value(predicate_spec(m.objs, i, m.stack[n - 1])), next)
        },
    }
}

/// Unbinds down to `depth` entries and goes on at `next`, running the cleanups met on the
/// way.
pub open spec fn unbind_spec(m: MachineView, depth: usize, next: usize) -> MachineView {
    unwind_then(
        m,
        depth as int,
        Resume::Unbind { depth, next },
        MachineView { env: unwind_spec(m.env, depth as int), ..moved(m, m.stack, next) },
    )
}

/// The procedure that the current frame runs.
pub open spec fn current_procedure(m: MachineView) -> Option<Procedure> {
    match object_at(m.objs, Value::Obj(top(m).code_obj)) {
        Some(Object::Code(p)) => Some(p),
        _ => None,
    }
}

/// One instruction of the current frame.
pub open spec fn step_spec(m: MachineView) -> MachineView {
    if m.state != State::Running {
        m
    } else if m.frames.len() == 0 || m.stack.len() < top(m).base {
        faulted(m, Fault::BrokenFrame)
    } else {
        match current_procedure(m) {
            None => faulted(m, Fault::BrokenFrame),
            Some(p) => match decode_spec(p.code@, top(m).pc as int) {
                None => faulted(m, Fault::InvalidInstruction { pc: top(m).pc }),
                Some(d) => instr_spec(m, p, d.instr, (top(m).pc + d.len) as usize),
            },
        }
    }
}

/// Begins an invocation of `p` with `args`: the procedure is allocated and called as if
/// from an empty frame.
pub open spec fn start_spec(m: MachineView, p: Procedure, args: Seq<Value>) -> MachineView {
    if m.objs.len() + 1 >= usize::MAX {
        MachineView { state: State::Faulted(Fault::HeapExhausted), ..m }
    } else {
        let obj = m.objs.len() as usize;
        call_code_spec(
            MachineView {
                objs: m.objs.push(Object::Code(p)),
                stack: seq![Value::Obj(obj)] + args,
                state: State::Running,
                ..m
            },
            obj,
            p,
            args.len() as usize,
            0,
        )
    }
}

/// At most `n` steps; a machine that is not running stays as it is.
pub open spec fn run_spec(m: MachineView, n: nat) -> MachineView
    decreases n,
{
    if n == 0 {
        m
    } else {
        run_spec(step_spec(m), (n - 1) as nat)
    }
}

pub proof fn lemma_run_stopped(m: MachineView, n: nat)
    requires
        m.state != State::Running,
    ensures
        run_spec(m, n) == m,
    decreases n,
{
    if n > 0 {
        lemma_run_stopped(step_spec(m), (n - 1) as nat);
    }
}

/// The host's reply to a pending `call` that the procedure to apply is `callee`: its slot
/// takes `callee`, which runs in a new frame where it is compiled code and is otherwise
/// asked of the host again.  Offsets of faults on entry are those the caller goes on at.
pub open spec fn redirect_spec(m: MachineView, callee: Value) -> MachineView {
    match m.state {
        State::Waiting { func, nargs, slots } => if m.frames.len() > 0 && slots == nargs + 1
            && top(m).base + slots <= m.stack.len() {
            let m1 = MachineView {
                stack: m.stack.update(m.stack.len() - slots, callee),
                state: State::Running,
                ..m
            };
            match object_at(m.objs, callee) {
                Some(Object::Code(q)) => call_code_spec(m1, callee->Obj_0, q, nargs, top(m).pc),
                _ => MachineView { state: State::Waiting { func: callee, nargs, slots }, ..m1 },
            }
        } else {
            m
        },
        _ => m,
    }
}

/// Goes on with the unwinding that a cleanup interrupted.
pub open spec fn resume_spec(m: MachineView, then: Resume) -> MachineView {
    match then {
        Resume::Unbind { depth, next } => if m.frames.len() == 0 {
            faulted(m, Fault::BrokenFrame)
        } else {
            unbind_spec(m, depth, next)
        },
        Resume::Raise(e) => raise_spec(m, e),
        Resume::Return(v) => if m.frames.len() == 0 {
            faulted(m, Fault::BrokenFrame)
        } else {
            return_spec(m, v)
        },
        Resume::Finish(end) => finish_spec(m, end),
    }
}

/// The host's answer `v` to a pending application replaces the operands of the call.
pub open spec fn complete_spec(m: MachineView, v: Value) -> MachineView {
    match m.state {
        State::Waiting { func, nargs, slots } => if m.frames.len() == 0 || m.stack.len()
            < top(m).base + slots {
            faulted(m, Fault::BrokenFrame)
        } else {
            push_spec(MachineView { state: State::Running, ..m }, slots as int, v, top(m).pc)
        },
        State::Cleaning { handler, then } => resume_spec(MachineView { state: State::Running, ..m }, then),
        State::Saving { func } => MachineView {
            env: protect_spec(m.env, v),
            state: State::Running,
            ..m
        },
        _ => m,
    }
}

} // verus!
