//! Laws that relate instructions to one another.
use vstd::prelude::*;

use crate::env::{known, lemma_bind_set_unbind, lookup_spec, unwind_cleanup, unwind_spec};
use crate::opcode::Instr;
use crate::opcode::decode_spec;
use crate::semantics::{
    arity_data_spec, avail, call_code_spec, complete_spec, current_procedure, handler_fits,
    handler_index, instr_spec, lemma_handler_index_bound, moved, raise_spec, signal, start_spec,
    step_spec, top,
};
use crate::env::Binding;
use crate::state::{
    Exit, HandlerKind, Resume, MachineView, State, SYM_SETTING_CONSTANT, SYM_VOID_VARIABLE,
    SYM_WRONG_NUMBER_OF_ARGUMENTS, SYM_WRONG_TYPE_ARGUMENT,
};
use crate::template::{arity_ok, positional_spec, rest_spec, template_spec};
use crate::value::{
    build_list_spec, lemma_build_list, list_items, object_at, Object, Procedure, Value,
};

verus! {

/// `dup` pushes a copy of the top operand, and a `return` right after it returns that
/// copy, which is the operand that was on top before the `dup`: popping it leaves the stack
/// as it was before the `dup`.  Where the frame has no cleanup left to run, the outermost
/// frame finishes with that value and a nested frame hands it to its caller.
pub proof fn lemma_dup_then_return(m: MachineView, p: Procedure, q: Procedure, next: usize, after: usize)
    requires
        m.frames.len() > 0,
        avail(m) >= 1,
        avail(m) < top(m).limit,
        unwind_cleanup(m.env, top(m).binding_base as int) is None,
    ensures
        instr_spec(m, p, Instr::Dup, next).stack == m.stack.push(m.stack.last()),
        instr_spec(m, p, Instr::Dup, next).stack.drop_last() == m.stack,
        m.frames.len() == 1 ==> instr_spec(instr_spec(m, p, Instr::Dup, next), q, Instr::Return, after).state
            == State::Finished(m.stack.last()),
        ({
            let caller = m.frames[m.frames.len() - 2];
            m.frames.len() >= 2 && caller.base <= top(m).base && top(m).base - caller.base
                < caller.limit ==> instr_spec(
                instr_spec(m, p, Instr::Dup, next),
                q,
                Instr::Return,
                after,
            ).stack == m.stack.subrange(0, top(m).base as int).push(m.stack.last())
        }),
{
    let d = instr_spec(m, p, Instr::Dup, next);
    assert(m.stack.subrange(0, m.stack.len() as int) =~= m.stack);
    assert(d.stack.drop_last() =~= m.stack);
    assert(d.stack.subrange(0, top(m).base as int) =~= m.stack.subrange(0, top(m).base as int));
}

/// `stack-ref[k]` pushes the operand `k` slots below the top and leaves every slot below
/// the push as it was.
pub proof fn lemma_stack_ref_keeps_stack(m: MachineView, p: Procedure, k: usize, next: usize)
    requires
        m.frames.len() > 0,
        avail(m) > k,
        avail(m) < top(m).limit,
    ensures
        ({
            let r = instr_spec(m, p, Instr::StackRef(k), next);
            &&& r.stack.len() == m.stack.len() + 1
            &&& r.stack.subrange(0, m.stack.len() as int) == m.stack
            &&& r.stack.last() == m.stack[m.stack.len() - 1 - k]
        }),
{
    let r = instr_spec(m, p, Instr::StackRef(k), next);
    assert(m.stack.subrange(0, m.stack.len() as int) =~= m.stack);
    assert(r.stack.subrange(0, m.stack.len() as int) =~= m.stack);
}

/// `stack-set[k]` moves the top operand into the slot `k` below it and pops: the stack is
/// one shallower, that slot holds the old top, and every other slot is unchanged.
pub proof fn lemma_stack_set_moves_top(m: MachineView, p: Procedure, k: usize, next: usize)
    requires
        m.frames.len() > 0,
        avail(m) > k,
    ensures
        ({
            let r = instr_spec(m, p, Instr::StackSet(k), next);
            let n = m.stack.len();
            &&& r.stack.len() == n - 1
            &&& k > 0 ==> r.stack[n - 1 - k] == m.stack[n - 1]
            &&& forall|i: int| 0 <= i < n - 1 && i != n - 1 - k ==> r.stack[i] == m.stack[i]
        }),
{
}

/// A `pushcatch` immediately followed by a throw to the tag it popped resumes at the
/// recorded target, in the same frame, with exactly the thrown value on top of the stack
/// cut to the depth recorded when the handler was pushed; the handler is consumed and the
/// bindings are as they were.
pub proof fn lemma_catch_then_throw(m: MachineView, p: Procedure, target: usize, next: usize, value: Value)
    requires
        0 < m.frames.len() <= usize::MAX,
        m.stack.len() <= usize::MAX,
        m.env.bindings.len() <= usize::MAX,
        avail(m) >= 1,
        avail(m) <= top(m).limit,
    ensures
        ({
            let m1 = instr_spec(m, p, Instr::PushCatch(target), next);
            let m2 = raise_spec(m1, Exit::Throw { tag: m.stack.last(), value });
            &&& m1.handlers.last().stack_depth == m.stack.len() - 1
            &&& m2.state == State::Running
            &&& m2.frames.len() == m.frames.len()
            &&& top(m2).pc == target
            &&& m2.stack == m.stack.drop_last().push(value)
            &&& m2.stack.len() == m1.handlers.last().stack_depth + 1
            &&& m2.handlers == m.handlers
            &&& m2.env == m.env
        }),
{
    let m1 = instr_spec(m, p, Instr::PushCatch(target), next);
    let e = Exit::Throw { tag: m.stack.last(), value };
    assert(m1.handlers.last().kind == HandlerKind::Catch);
    assert(handler_index(m1.objs, m1.handlers, e) == Some(m.handlers.len() as int));
    let m2 = raise_spec(m1, e);
    assert(unwind_spec(m1.env, m1.env.bindings.len() as int) == m1.env);
    assert(m1.frames.subrange(0, m1.frames.len() as int) =~= m1.frames);
    assert(m1.stack.subrange(0, m.stack.len() - 1) =~= m.stack.drop_last());
    assert(m1.handlers.subrange(0, m.handlers.len() as int) =~= m.handlers);
    assert(handler_fits(m1, m1.handlers[m.handlers.len() as int]));
    assert(m2.stack =~= m.stack.drop_last().push(value));
}

/// The current frame holds no fewer operands than its base and no more than its bound.
pub open spec fn depth_ok(m: MachineView) -> bool {
    m.frames.len() > 0 ==> top(m).base <= m.stack.len() <= top(m).base + top(m).limit
}

pub proof fn lemma_raise_keeps_depth(m: MachineView, e: Exit)
    requires
        depth_ok(m),
    ensures
        depth_ok(raise_spec(m, e)),
{
    lemma_handler_index_bound(m.objs, m.handlers, e);
}

pub proof fn lemma_call_keeps_depth(m: MachineView, obj: usize, q: Procedure, k: usize, pc: usize)
    requires
        m.frames.len() > 0 ==> top(m).base <= m.stack.len() - k - 1,
        k < m.stack.len() <= usize::MAX,
        depth_ok(m),
    ensures
        depth_ok(call_code_spec(m, obj, q, k, pc)),
{
    let n = m.stack.len();
    let args = m.stack.subrange(n - k, n as int);
    match q.template {
        None => {
            let base = n - k - 1;
            assert((m.stack.subrange(0, base) + args).len() == base + k);
        },
        Some(packed) => {
            let t = template_spec(packed);
            if !arity_ok(t, k as int) {
                if m.objs.len() + 4 < usize::MAX {
                    let built = arity_data_spec(m.objs, t.mandatory, t.nonrest, k);
                    lemma_raise_keeps_depth(
                        MachineView { objs: built.0, ..m },
                        signal(SYM_WRONG_NUMBER_OF_ARGUMENTS, built.1),
                    );
                }
            }
        },
    }
}

#[verifier::rlimit(60)]
pub proof fn lemma_instr_keeps_depth(m: MachineView, p: Procedure, i: Instr, next: usize)
    requires
        m.frames.len() > 0,
        m.stack.len() <= usize::MAX,
        depth_ok(m),
    ensures
        depth_ok(instr_spec(m, p, i, next)),
{
    let n = m.stack.len();
    match i {
        Instr::Varref(k) => {
            if k < p.constants@.len() {
                let c = p.constants@[k as int];
                lemma_raise_keeps_depth(m, signal(SYM_VOID_VARIABLE, c));
                lemma_raise_keeps_depth(m, signal(SYM_WRONG_TYPE_ARGUMENT, c));
            }
        },
        Instr::Varset(k) | Instr::Varbind(k) => {
            if k < p.constants@.len() {
                let c = p.constants@[k as int];
                lemma_raise_keeps_depth(m, signal(SYM_SETTING_CONSTANT, c));
                lemma_raise_keeps_depth(m, signal(SYM_WRONG_TYPE_ARGUMENT, c));
            }
        },
        Instr::Call(k) => {
            if avail(m) > k {
                let func = m.stack[n - 1 - k];
                if let Some(Object::Code(q)) = object_at(m.objs, func) {
                    lemma_call_keeps_depth(moved(m, m.stack, next), func->Obj_0, q, k, top(m).pc);
                }
            }
        },
        _ => {},
    }
}

/// At every instruction boundary the current frame's operands stay within the bound that
/// its procedure declares: each step keeps it so, and `Machine::start` begins within it.
pub proof fn lemma_step_keeps_depth(m: MachineView)
    requires
        depth_ok(m),
        m.stack.len() <= usize::MAX,
    ensures
        depth_ok(step_spec(m)),
{
    if m.state == State::Running && m.frames.len() > 0 && m.stack.len() >= top(m).base {
        if let Some(p) = current_procedure(m) {
            if let Some(d) = decode_spec(p.code@, top(m).pc as int) {
                lemma_instr_keeps_depth(m, p, d.instr, (top(m).pc + d.len) as usize);
            }
        }
    }
}

/// Answering a pending application keeps the current frame within its bound.
pub proof fn lemma_complete_keeps_depth(m: MachineView, v: Value)
    requires
        depth_ok(m),
    ensures
        depth_ok(complete_spec(m, v)),
{
}

/// The binder, seen through the entry point.  With a template, a call that the template
/// admits starts running at offset 0 of a single frame whose operands are exactly the first
/// `min(nonrest, nargs)` arguments, in order, followed, with a rest parameter, by one list
/// of the remaining arguments in order.  A call that the template refuses ends, with no
/// handler in place, in an uncaught wrong-number-of-arguments signal whose data is
/// `((mandatory . nonrest) nargs)`.
pub proof fn lemma_entry_binds_arguments(m: MachineView, p: Procedure, args: Seq<Value>)
    requires
        m.frames.len() == 0,
        m.handlers.len() == 0,
        p.template is Some,
        m.objs.len() + args.len() + 6 < usize::MAX,
    ensures
        ({
            let t = template_spec(p.template.unwrap());
            let r = start_spec(m, p, args);
            let pos = positional_spec(t, args);
            arity_ok(t, args.len() as int) && pos.len() + (if t.rest { 1int } else { 0 })
                <= p.max_depth ==> {
                &&& r.state == State::Running
                &&& r.frames.len() == 1
                &&& top(r).pc == 0
                &&& top(r).base == 0
                &&& !t.rest ==> r.stack == pos
                &&& t.rest ==> r.stack.drop_last() == pos && list_items(r.objs, r.stack.last())
                    == Some(rest_spec(t, args))
            }
        }),
        ({
            let t = template_spec(p.template.unwrap());
            let r = start_spec(m, p, args);
            !arity_ok(t, args.len() as int) ==> (r.state matches State::Uncaught(
                Exit::Signal { symbol, data },
            ) && symbol == Value::Symbol(SYM_WRONG_NUMBER_OF_ARGUMENTS) && arity_data_reads(
                r.objs,
                data,
                t.mandatory,
                t.nonrest,
                args.len(),
            ))
        }),
{
    let t = template_spec(p.template.unwrap());
    let obj = m.objs.len() as usize;
    let objs = m.objs.push(Object::Code(p));
    let s = MachineView {
        objs: objs,
        stack: seq![Value::Obj(obj)] + args,
        state: State::Running,
        ..m
    };
    let k = args.len() as usize;
    assert(s.stack.subrange(s.stack.len() - k, s.stack.len() as int) =~= args);
    assert(s.stack.subrange(0, 0) =~= Seq::<Value>::empty());
    if !arity_ok(t, k as int) {
        let pair = Value::Obj(objs.len() as usize);
        let objs1 = objs.push(Object::Cons(Value::Int(t.mandatory as i64), Value::Int(t.nonrest as i64)));
        lemma_build_list(objs1, seq![pair, Value::Int(k as i64)], Value::Nil, Seq::empty());
        assert(seq![pair, Value::Int(k as i64)] + Seq::<Value>::empty() =~= seq![pair, Value::Int(k as i64)]);
        let built = arity_data_spec(objs, t.mandatory, t.nonrest, k);
        assert(built.0[objs.len() as int] == objs1[objs.len() as int]);
    } else if t.rest {
        let pos = positional_spec(t, args);
        lemma_build_list(objs, rest_spec(t, args), Value::Nil, Seq::empty());
        assert(rest_spec(t, args) + Seq::<Value>::empty() =~= rest_spec(t, args));
        let built = build_list_spec(objs, rest_spec(t, args), Value::Nil);
        let r = start_spec(m, p, args);
        assert(r == call_code_spec(s, obj, p, k, 0));
        if pos.len() + 1 <= p.max_depth {
            assert(r.stack =~= pos.push(built.1));
            assert(r.stack.drop_last() =~= pos);
        }
    } else {
        let r = start_spec(m, p, args);
        assert(r == call_code_spec(s, obj, p, k, 0));
        if positional_spec(t, args).len() <= p.max_depth {
            assert(r.stack =~= positional_spec(t, args));
        }
    }
}

/// Whether `data` reads as the list `((mandatory . nonrest) nargs)`.
pub open spec fn arity_data_reads(objs: Seq<Object>, data: Value, mandatory: u64, nonrest: u64, nargs: nat) -> bool {
    match list_items(objs, data) {
        Some(items) => items.len() == 2 && object_at(objs, items[0]) == Some(
            Object::Cons(Value::Int(mandatory as i64), Value::Int(nonrest as i64)),
        ) && items[1] == Value::Int(nargs as i64),
        None => false,
    }
}

/// `varbind[i]`, then `varset[i]`, then `unbind[1]`, on a procedure whose constant `i` is
/// a symbol of the machine: the value bound by the first instruction is seen in between,
/// and afterwards the dynamic environment, value cells and binding stack alike, is exactly
/// what it was before the `varbind`, whatever the `varset` assigned.
pub proof fn lemma_varbind_varset_unbind(m: MachineView, p: Procedure, i: usize, n1: usize, n2: usize, n3: usize)
    requires
        m.frames.len() > 0,
        avail(m) >= 2,
        i < p.constants@.len(),
        p.constants@[i as int] matches Value::Symbol(s) && known(m.env, s),
        top(m).binding_base <= m.env.bindings.len() < usize::MAX,
    ensures
        ({
            let s = p.constants@[i as int]->Symbol_0;
            let m1 = instr_spec(m, p, Instr::Varbind(i), n1);
            let m2 = instr_spec(m1, p, Instr::Varset(i), n2);
            let m3 = instr_spec(m2, p, Instr::Unbind(1), n3);
            &&& lookup_spec(m1.env, s) == Some(m.stack.last())
            &&& lookup_spec(m2.env, s) == Some(m.stack[m.stack.len() - 2])
            &&& m3.env == m.env
            &&& m3.stack == m.stack.subrange(0, m.stack.len() - 2)
            &&& m3.state == m.state
        }),
{
    let s = p.constants@[i as int]->Symbol_0;
    let m1 = instr_spec(m, p, Instr::Varbind(i), n1);
    let m2 = instr_spec(m1, p, Instr::Varset(i), n2);
    lemma_bind_set_unbind(m.env, s, m.stack.last(), m.stack[m.stack.len() - 2]);
    assert(m1.stack.last() == m.stack[m.stack.len() - 2]);
    assert(m2.stack =~= m.stack.subrange(0, m.stack.len() - 2));
}

/// A non-local exit resumes at a handler only where every depth that the handler recorded
/// is reached by the current stacks; otherwise the machine reports a broken handler.
pub proof fn lemma_resume_respects_recorded_depths(m: MachineView, e: Exit)
    ensures
        ({
            let r = raise_spec(m, e);
            handler_index(m.objs, m.handlers, e) is Some && r.state == State::Running ==> {
                let h = m.handlers[handler_index(m.objs, m.handlers, e).unwrap()];
                &&& h.stack_depth <= m.stack.len()
                &&& h.binding_depth <= m.env.bindings.len()
                &&& 1 <= h.frame_depth <= m.frames.len()
            }
        }),
{
    lemma_handler_index_bound(m.objs, m.handlers, e);
}

/// `unbind[1]` over a cleanup entry pops it and stops, asking for its handler to run before
/// anything else; once the host answers, the frame goes on at the next instruction with the
/// operand stack and the rest of the binding stack untouched.
pub proof fn lemma_unbind_runs_cleanup_first(m: MachineView, p: Procedure, handler: Value, next: usize, answer: Value)
    requires
        m.frames.len() > 0,
        m.env.bindings.len() >= top(m).binding_base + 1,
        m.env.bindings.len() <= usize::MAX,
        m.env.bindings.last() == (Binding::Cleanup { handler }),
    ensures
        ({
            let depth = (m.env.bindings.len() - 1) as usize;
            let m1 = instr_spec(m, p, Instr::Unbind(1), next);
            let m2 = complete_spec(m1, answer);
            &&& m1.state == (State::Cleaning { handler, then: Resume::Unbind { depth, next } })
            &&& m1.env.bindings == m.env.bindings.drop_last()
            &&& m1.stack == m.stack
            &&& m2.state == State::Running
            &&& top(m2).pc == next
            &&& m2.env == m1.env
            &&& m2.stack == m.stack
        }),
{
    let depth = (m.env.bindings.len() - 1) as usize;
    let m1 = instr_spec(m, p, Instr::Unbind(1), next);
    assert(unwind_cleanup(m1.env, depth as int) is None);
    assert(unwind_spec(m1.env, depth as int) == m1.env);
}

} // verus!
