//! The executable machine: fetch, decode and execute, one instruction per step.
use vstd::prelude::*;

use crate::env::{known, lookup_spec, set_spec, Env};
use crate::semantics::{
    covers, enter_spec, faulted, finish_spec, handler_index, handles, lemma_handler_index_bound,
    list_covers, moved, popped, push_handler_spec, push_spec, raise_spec, return_spec, switch_spec,
    arity_data_spec, call_code_spec, call_spec, constant_spec, current_procedure, instr_spec,
    predicate_spec, redirect_spec, step_spec, start_spec, run_spec, lemma_run_stopped, complete_spec,
    table_lookup, top, unbind_spec, varref_spec, varset_spec, wait_spec,
};
use crate::state::{
    Ending, Exit, Fault, Frame, Handler, HandlerKind, Machine, MachineView, Resume, State,
    N_BUILTIN_SYMBOLS,
    SYM_ERROR, SYM_SETTING_CONSTANT, SYM_VOID_VARIABLE, SYM_WRONG_NUMBER_OF_ARGUMENTS,
    SYM_WRONG_TYPE_ARGUMENT,
};
use crate::laws::{depth_ok, lemma_call_keeps_depth, lemma_complete_keeps_depth, lemma_step_keeps_depth};
use crate::opcode::{decode, Decoded, Instr};
use crate::template::{bind_args, decode_template, BoundArgs};
use crate::value::{list_items, object_at, rank, Heap, Object, Procedure, Value};

verus! {

/// Whether a condition name covers the signalled symbol.
fn covers_exec(c: Value, symbol: Value) -> (r: bool)
    ensures
        r == covers(c, symbol),
{
    c == symbol || c == Value::Symbol(SYM_ERROR) || c == Value::T
}

/// Whether some element of the list `v` covers the signalled symbol.
fn list_covers_exec(heap: &Heap, v: Value, symbol: Value) -> (r: bool)
    ensures
        r == list_covers(heap.objs@, v, symbol),
{
    let mut cur = v;
    loop
        invariant
            list_covers(heap.objs@, cur, symbol) == list_covers(heap.objs@, v, symbol),
        decreases rank(cur),
    {
        match heap.get(cur) {
            Some(Object::Cons(a, d)) => {
                if covers_exec(*a, symbol) {
                    return true;
                }
                let d = *d;
                let below = match (d, cur) {
                    (Value::Obj(j), Value::Obj(i)) => j < i,
                    (Value::Obj(_), _) => false,
                    _ => true,
                };
                if !below {
                    return false;
                }
                cur = d;
            },
            _ => return false,
        }
    }
}

fn handles_exec(heap: &Heap, h: Handler, e: Exit) -> (r: bool)
    ensures
        r == handles(heap.objs@, h, e),
{
    match e {
        Exit::Throw { tag, value: _ } => h.kind == HandlerKind::Catch && h.tag == tag,
        Exit::Signal { symbol, data: _ } => h.kind == HandlerKind::ConditionCase && (covers_exec(
            h.tag,
            symbol,
        ) || list_covers_exec(heap, h.tag, symbol)),
    }
}

/// Searches the handler stack from the top for a handler of `e`.
fn find_handler(heap: &Heap, hs: &Vec<Handler>, e: Exit) -> (r: Option<usize>)
    ensures
        match r {
            Some(k) => handler_index(heap.objs@, hs@, e) == Some(k as int),
            None => handler_index(heap.objs@, hs@, e) is None,
        },
{
    let mut i: usize = hs.len();
    assert(hs@.subrange(0, i as int) =~= hs@);
    while i > 0
        invariant
            i <= hs@.len(),
            handler_index(heap.objs@, hs@.subrange(0, i as int), e) == handler_index(
                heap.objs@,
                hs@,
                e,
            ),
        decreases i,
    {
        let ghost sub = hs@.subrange(0, i as int);
        assert(sub.last() == hs@[i - 1]);
        assert(sub.drop_last() =~= hs@.subrange(0, i - 1));
        if handles_exec(heap, hs[i - 1], e) {
            return Some(i - 1);
        }
        i = i - 1;
    }
    None
}

impl Machine {
    /// A machine with no invocation in progress, whose symbol table holds the symbols that
    /// the machine signals, all void.
    pub fn new() -> (m: Machine)
        ensures
            m@.state == State::Idle,
            m@.objs.len() == 0,
            m@.env.values == Seq::new(N_BUILTIN_SYMBOLS as nat, |i: int| None::<Value>),
            m@.env.bindings.len() == 0,
            m@.handlers.len() == 0,
            m@.frames.len() == 0,
            m@.stack.len() == 0,
    {
        let mut env = Env::new();
        let mut i: u32 = 0;
        while i < N_BUILTIN_SYMBOLS
            invariant
                i <= N_BUILTIN_SYMBOLS,
                env@.values == Seq::new(i as nat, |j: int| None::<Value>),
                env@.bindings.len() == 0,
            decreases N_BUILTIN_SYMBOLS - i,
        {
            env.intern();
            i = i + 1;
            assert(env@.values =~= Seq::new(i as nat, |j: int| None::<Value>));
        }
        Machine {
            heap: Heap::new(),
            env,
            handlers: Vec::new(),
            frames: Vec::new(),
            stack: Vec::new(),
            state: State::Idle,
        }
    }

    /// Ends the invocation with fault `f`.
    fn fault(&mut self, f: Fault)
        ensures
            final(self)@ == faulted(old(self)@, f),
    {
        self.finish(Ending::Faulted(f));
    }

    /// The current frame goes on at `pc`.
    fn move_to(&mut self, pc: usize)
        requires
            old(self)@.frames.len() > 0,
        ensures
            final(self)@ == moved(old(self)@, old(self)@.stack, pc),
    {
        let last = self.frames.len() - 1;
        let f = self.frames[last];
        self.frames.set(last, Frame { pc, ..f });
        assert(self@ =~= moved(old(self)@, old(self)@.stack, pc));
    }

    /// Pops `pops` operands and goes on at `pc`.
    fn pop_to(&mut self, pops: usize, pc: usize)
        requires
            old(self)@.frames.len() > 0,
            pops <= old(self)@.stack.len(),
        ensures
            final(self)@ == moved(old(self)@, popped(old(self)@, pops as int), pc),
    {
        let n = self.stack.len();
        self.stack.truncate(n - pops);
        self.move_to(pc);
        assert(self@ =~= moved(old(self)@, popped(old(self)@, pops as int), pc));
    }

    /// Replaces the top `pops` operands by `v` and goes on at `pc`, unless the frame's bound
    /// forbids it.
    fn push_from(&mut self, pops: usize, v: Value, pc: usize)
        requires
            old(self)@.frames.len() > 0,
            pops <= old(self)@.stack.len(),
            top(old(self)@).base <= old(self)@.stack.len() - pops,
        ensures
            final(self)@ == push_spec(old(self)@, pops as int, v, pc),
    {
        let f = self.frames[self.frames.len() - 1];
        let n = self.stack.len();
        if n - pops - f.base < f.limit {
            self.stack.truncate(n - pops);
            self.stack.push(v);
            self.move_to(pc);
            assert(self@ =~= push_spec(old(self)@, pops as int, v, pc));
        } else {
            self.fault(Fault::StackOverflow { pc: f.pc });
        }
    }

    /// Ends the invocation with `end`, running the cleanups met on the way.
    fn finish(&mut self, end: Ending)
        ensures
            final(self)@ == finish_spec(old(self)@, end),
    {
        if self.frames.len() == 0 {
            self.state = end.state();
            return;
        }
        let b = self.frames[0];
        if let Some(handler) = self.env.unbind_to(b.binding_base) {
            self.state = State::Cleaning { handler, then: Resume::Finish(end) };
            assert(self@ =~= finish_spec(old(self)@, end));
            return;
        }
        self.handlers.truncate(b.handler_base);
        self.frames.clear();
        self.stack.clear();
        self.state = end.state();
        assert(self@ =~= finish_spec(old(self)@, end));
    }

    /// Unbinds down to `depth` entries and goes on at `next`, stopping for a cleanup.
    fn unbind(&mut self, depth: usize, next: usize)
        requires
            old(self)@.frames.len() > 0,
        ensures
            final(self)@ == unbind_spec(old(self)@, depth, next),
    {
        if let Some(handler) = self.env.unbind_to(depth) {
            self.state = State::Cleaning { handler, then: Resume::Unbind { depth, next } };
            assert(self@ =~= unbind_spec(old(self)@, depth, next));
        } else {
            self.move_to(next);
            assert(self@ =~= unbind_spec(old(self)@, depth, next));
        }
    }

    /// Performs the non-local exit `e`.
    pub fn raise(&mut self, e: Exit)
        ensures
            final(self)@ == raise_spec(old(self)@, e),
    {
        let found = find_handler(&self.heap, &self.handlers, e);
        let k = match found {
            None => {
                self.finish(Ending::Uncaught(e));
                return;
            },
            Some(k) => k,
        };
        proof {
            lemma_handler_index_bound(self.heap.objs@, self.handlers@, e);
        }
        let h = self.handlers[k];
        if !(1 <= h.frame_depth && h.frame_depth <= self.frames.len()) {
            self.fault(Fault::BrokenHandler);
            return;
        }
        let f = self.frames[h.frame_depth - 1];
        if !(f.base <= h.stack_depth && h.stack_depth <= self.stack.len() && h.stack_depth
            - f.base < f.limit && h.binding_depth <= self.env.depth()) {
            self.fault(Fault::BrokenHandler);
            return;
        }
        let is_signal = match e {
            Exit::Signal { .. } => true,
            _ => false,
        };
        if is_signal && self.heap.objs.len() >= usize::MAX - 1 {
            self.fault(Fault::HeapExhausted);
            return;
        }
        if let Some(handler) = self.env.unbind_to(h.binding_depth) {
            self.state = State::Cleaning { handler, then: Resume::Raise(e) };
            assert(self@ =~= raise_spec(old(self)@, e));
            return;
        }
        let payload = match e {
            Exit::Throw { tag: _, value } => value,
            Exit::Signal { symbol, data } => self.heap.allocate(Object::Cons(symbol, data)),
        };
        self.handlers.truncate(k);
        self.frames.truncate(h.frame_depth);
        self.frames.set(h.frame_depth - 1, Frame { pc: h.target, ..f });
        self.stack.truncate(h.stack_depth);
        self.stack.push(payload);
        self.state = State::Running;
        assert(self@ =~= raise_spec(old(self)@, e));
    }

    /// Asks the host to apply `func`; the frame goes on at `next` once it answers.
    fn wait(&mut self, func: Value, nargs: usize, slots: usize, next: usize)
        requires
            old(self)@.frames.len() > 0,
        ensures
            final(self)@ == wait_spec(old(self)@, func, nargs, slots, next),
    {
        self.move_to(next);
        self.state = State::Waiting { func, nargs, slots };
        assert(self@ =~= wait_spec(old(self)@, func, nargs, slots, next));
    }

    fn do_varref(&mut self, c: Value, next: usize)
        requires
            old(self)@.frames.len() > 0,
            top(old(self)@).base <= old(self)@.stack.len(),
        ensures
            final(self)@ == varref_spec(old(self)@, c, next),
    {
        match c {
            Value::Nil => self.push_from(0, c, next),
            Value::T => self.push_from(0, c, next),
            Value::Symbol(s) => match self.env.lookup(s) {
                Some(v) => self.push_from(0, v, next),
                None => self.raise(
                    Exit::Signal { symbol: Value::Symbol(SYM_VOID_VARIABLE), data: c },
                ),
            },
            _ => self.raise(Exit::Signal { symbol: Value::Symbol(SYM_WRONG_TYPE_ARGUMENT), data: c }),
        }
    }

    fn do_varset(&mut self, c: Value, bind: bool, next: usize)
        requires
            old(self)@.frames.len() > 0,
            old(self)@.stack.len() > 0,
        ensures
            final(self)@ == varset_spec(old(self)@, c, bind, next),
    {
        let v = self.stack[self.stack.len() - 1];
        match c {
            Value::Symbol(s) => {
                if (s as usize) < self.env.values.len() {
                    if bind {
                        self.env.bind(s, v);
                    } else {
                        self.env.set(s, v);
                    }
                    self.pop_to(1, next);
                    assert(self@ =~= varset_spec(old(self)@, c, bind, next));
                } else {
                    self.raise(
                        Exit::Signal { symbol: Value::Symbol(SYM_WRONG_TYPE_ARGUMENT), data: c },
                    );
                }
            },
            Value::Nil => self.raise(
                Exit::Signal { symbol: Value::Symbol(SYM_SETTING_CONSTANT), data: c },
            ),
            Value::T => self.raise(
                Exit::Signal { symbol: Value::Symbol(SYM_SETTING_CONSTANT), data: c },
            ),
            _ => self.raise(Exit::Signal { symbol: Value::Symbol(SYM_WRONG_TYPE_ARGUMENT), data: c }),
        }
    }

    fn do_return(&mut self, v: Value)
        requires
            old(self)@.frames.len() > 0,
        ensures
            final(self)@ == return_spec(old(self)@, v),
    {
        let nf = self.frames.len();
        if nf <= 1 {
            self.finish(Ending::Finished(v));
            return;
        }
        let f = self.frames[nf - 1];
        let caller = self.frames[nf - 2];
        if !(caller.base <= f.base && f.base <= self.stack.len()) {
            self.fault(Fault::BrokenFrame);
            return;
        }
        if f.base - caller.base < caller.limit {
            if let Some(handler) = self.env.unbind_to(f.binding_base) {
                self.state = State::Cleaning { handler, then: Resume::Return(v) };
                assert(self@ =~= return_spec(old(self)@, v));
                return;
            }
            self.handlers.truncate(f.handler_base);
            self.frames.pop();
            self.stack.truncate(f.base);
            self.stack.push(v);
            assert(self@ =~= return_spec(old(self)@, v));
        } else {
            self.fault(Fault::StackOverflow { pc: f.pc });
        }
    }

    fn do_switch(&mut self, next: usize)
        requires
            old(self)@.frames.len() > 0,
            old(self)@.stack.len() >= 2,
        ensures
            final(self)@ == switch_spec(old(self)@, next),
    {
        let n = self.stack.len();
        let table = self.stack[n - 1];
        let key = self.stack[n - 2];
        let pc = self.frames[self.frames.len() - 1].pc;
        let found = match self.heap.get(table) {
            Some(Object::Table { structural, entries }) => Some(
                table_lookup_exec(&self.heap, *structural, entries, key),
            ),
            _ => None,
        };
        match found {
            Some(None) => self.pop_to(2, next),
            Some(Some(Value::Int(t))) => {
                if 0 <= t && (t as u64) <= (usize::MAX as u64) {
                    self.pop_to(2, t as usize);
                } else {
                    self.fault(Fault::BadJumpTable { pc });
                }
            },
            _ => self.fault(Fault::BadJumpTable { pc }),
        }
    }

    fn do_push_handler(&mut self, kind: HandlerKind, target: usize, next: usize)
        requires
            old(self)@.frames.len() > 0,
            old(self)@.stack.len() >= 1,
        ensures
            final(self)@ == push_handler_spec(old(self)@, kind, target, next),
    {
        let n = self.stack.len();
        let h = Handler {
            kind,
            tag: self.stack[n - 1],
            target,
            stack_depth: n - 1,
            binding_depth: self.env.depth(),
            frame_depth: self.frames.len(),
        };
        self.handlers.push(h);
        self.pop_to(1, next);
        assert(self@ =~= push_handler_spec(old(self)@, kind, target, next));
    }

    /// Pushes a frame for the procedure at heap index `obj` over the stack cut to `base`.
    fn enter(&mut self, obj: usize, max_depth: usize, base: usize, pushed: Vec<Value>, Ghost(q): Ghost<Procedure>)
        requires
            q.max_depth == max_depth,
            base <= old(self)@.stack.len(),
        ensures
            final(self)@ == enter_spec(old(self)@, obj, q, base as int, pushed@, old(self)@.objs),
    {
        let ghost items = pushed@;
        let mut pushed = pushed;
        self.stack.truncate(base);
        self.stack.append(&mut pushed);
        let f = Frame {
            code_obj: obj,
            pc: 0,
            base,
            limit: max_depth,
            binding_base: self.env.depth(),
            handler_base: self.handlers.len(),
        };
        self.frames.push(f);
        assert(self@ =~= enter_spec(old(self)@, obj, q, base as int, items, old(self)@.objs));
    }

    /// Calls the compiled procedure `q`, at heap index `obj`, with the top `k` operands,
    /// which lie over the procedure itself.
    fn call_code(&mut self, obj: usize, template: Option<u64>, max_depth: usize, k: usize, pc: usize, Ghost(q): Ghost<Procedure>)
        requires
            q.template == template,
            q.max_depth == max_depth,
            k < old(self)@.stack.len(),
        ensures
            final(self)@ == call_code_spec(old(self)@, obj, q, k, pc),
            depth_ok(old(self)@) && (old(self)@.frames.len() > 0 ==> top(old(self)@).base
                <= old(self)@.stack.len() - k - 1) ==> depth_ok(final(self)@),
    {
        let n = self.stack.len();
        proof {
            if depth_ok(self@) && (self@.frames.len() > 0 ==> top(self@).base <= n - k - 1) {
                lemma_call_keeps_depth(self@, obj, q, k, pc);
            }
        }
        let base = n - k - 1;
        let start = n - k;
        let mut args: Vec<Value> = Vec::new();
        let mut j: usize = start;
        assert(args@ =~= self.stack@.subrange(start as int, j as int));
        while j < n
            invariant
                n == self.stack@.len(),
                start == n - k,
                start <= j <= n,
                args@ == self.stack@.subrange(start as int, j as int),
            decreases n - j,
        {
            args.push(self.stack[j]);
            j = j + 1;
            assert(args@ =~= self.stack@.subrange(start as int, j as int));
        }
        match template {
            None => {
                if k <= max_depth {
                    self.enter(obj, max_depth, base, args, Ghost(q));
                } else {
                    self.fault(Fault::StackOverflow { pc });
                }
            },
            Some(packed) => {
                let t = decode_template(packed);
                match bind_args(t, args.as_slice()) {
                    Err(e) => {
                        if self.heap.objs.len() >= usize::MAX - 4 {
                            self.fault(Fault::HeapExhausted);
                            return;
                        }
                        let pair = self.heap.allocate(
                            Object::Cons(Value::Int(e.mandatory as i64), Value::Int(e.nonrest as i64)),
                        );
                        let mut items: Vec<Value> = Vec::new();
                        items.push(pair);
                        items.push(Value::Int(k as i64));
                        let data = self.heap.make_list(items.as_slice());
                        assert(items@ =~= seq![pair, Value::Int(k as i64)]);
                        self.raise(
                            Exit::Signal {
                                symbol: Value::Symbol(SYM_WRONG_NUMBER_OF_ARGUMENTS),
                                data,
                            },
                        );
                    },
                    Ok(b) => {
                        let BoundArgs { positional, rest } = b;
                        match rest {
                            None => {
                                if positional.len() <= max_depth {
                                    self.enter(obj, max_depth, base, positional, Ghost(q));
                                } else {
                                    self.fault(Fault::StackOverflow { pc });
                                }
                            },
                            Some(rest) => {
                                if positional.len() < max_depth {
                                    if self.heap.objs.len() >= usize::MAX - rest.len() {
                                        self.fault(Fault::HeapExhausted);
                                        return;
                                    }
                                    let l = self.heap.make_list(rest.as_slice());
                                    let mut pushed = positional;
                                    pushed.push(l);
                                    self.enter(obj, max_depth, base, pushed, Ghost(q));
                                    assert(self@ =~= call_code_spec(old(self)@, obj, q, k, pc));
                                } else {
                                    self.fault(Fault::StackOverflow { pc });
                                }
                            },
                        }
                    },
                }
            },
        }
    }

    fn do_call(&mut self, k: usize, next: usize)
        requires
            old(self)@.frames.len() > 0,
            k < old(self)@.stack.len(),
        ensures
            final(self)@ == call_spec(old(self)@, k, next),
    {
        let n = self.stack.len();
        let func = self.stack[n - 1 - k];
        let callee = match self.heap.get(func) {
            Some(Object::Code(q)) => Some((q.template, q.max_depth)),
            _ => None,
        };
        match callee {
            None => self.wait(func, k, k + 1, next),
            Some((template, max_depth)) => {
                let ghost q = object_at(self.heap.objs@, func).unwrap()->Code_0;
                let obj = match func {
                    Value::Obj(i) => i,
                    _ => 0,
                };
                let pc = self.frames[self.frames.len() - 1].pc;
                self.move_to(next);
                self.call_code(obj, template, max_depth, k, pc, Ghost(q));
            },
        }
    }

    fn predicate(&self, i: Instr, v: Value) -> (r: bool)
        ensures
            r == predicate_spec(self.heap.objs@, i, v),
    {
        match i {
            Instr::Symbolp => match v {
                Value::Nil | Value::T | Value::Symbol(_) => true,
                _ => false,
            },
            Instr::Consp => self.heap.consp(v),
            Instr::Stringp => self.heap.stringp(v),
            Instr::Listp => self.heap.listp(v),
            Instr::Numberp => match v {
                Value::Int(_) => true,
                _ => false,
            },
            Instr::Integerp => match v {
                Value::Int(_) => true,
                _ => false,
            },
            _ => v.is_nil(),
        }
    }

    /// Executes instruction `i` of the current procedure `p`; `c` is the constant that the
    /// instruction names, where it names one that exists.
    #[verifier::rlimit(40)]
    fn execute(&mut self, i: Instr, c: Option<Value>, next: usize, Ghost(p): Ghost<Procedure>)
        requires
            old(self)@.frames.len() > 0,
            top(old(self)@).base <= old(self)@.stack.len(),
            c == constant_spec(p, i),
        ensures
            final(self)@ == instr_spec(old(self)@, p, i, next),
    {
        let n = self.stack.len();
        let f = self.frames[self.frames.len() - 1];
        let avail = n - f.base;
        let under = Fault::StackUnderflow { pc: f.pc };
        match i {
            Instr::StackRef(k) => {
                if avail <= k {
                    self.fault(under);
                } else {
                    let v = self.stack[n - 1 - k];
                    self.push_from(0, v, next);
                }
            },
            Instr::Dup => {
                if avail < 1 {
                    self.fault(under);
                } else {
                    let v = self.stack[n - 1];
                    self.push_from(0, v, next);
                }
            },
            Instr::StackSet(k) => {
                if avail <= k {
                    self.fault(under);
                } else {
                    let v = self.stack[n - 1];
                    self.stack.set(n - 1 - k, v);
                    self.stack.pop();
                    self.move_to(next);
                    assert(self@ =~= instr_spec(old(self)@, p, i, next));
                }
            },
            Instr::Discard => {
                if avail < 1 {
                    self.fault(under);
                } else {
                    self.pop_to(1, next);
                }
            },
            Instr::DiscardN(k, keep) => {
                if keep {
                    if avail <= k {
                        self.fault(under);
                    } else {
                        let v = self.stack[n - 1];
                        self.stack.set(n - 1 - k, v);
                        self.stack.truncate(n - k);
                        self.move_to(next);
                        assert(self@ =~= instr_spec(old(self)@, p, i, next));
                    }
                } else if avail < k {
                    self.fault(under);
                } else {
                    self.pop_to(k, next);
                }
            },
            Instr::Constant(_) => match c {
                None => self.fault(Fault::BadConstant { pc: f.pc }),
                Some(v) => self.push_from(0, v, next),
            },
            Instr::Varref(_) => match c {
                None => self.fault(Fault::BadConstant { pc: f.pc }),
                Some(v) => self.do_varref(v, next),
            },
            Instr::Varset(_) => match c {
                None => self.fault(Fault::BadConstant { pc: f.pc }),
                Some(v) => if avail < 1 {
                    self.fault(under);
                } else {
                    self.do_varset(v, false, next);
                },
            },
            Instr::Varbind(_) => match c {
                None => self.fault(Fault::BadConstant { pc: f.pc }),
                Some(v) => if avail < 1 {
                    self.fault(under);
                } else {
                    self.do_varset(v, true, next);
                },
            },
            Instr::Unbind(k) => {
                let depth = self.env.depth();
                if depth < f.binding_base || depth - f.binding_base < k {
                    self.fault(Fault::BindingUnderflow { pc: f.pc });
                } else {
                    self.unbind(depth - k, next);
                }
            },
            Instr::UnbindAll => {
                if self.env.depth() < f.binding_base {
                    self.fault(Fault::BindingUnderflow { pc: f.pc });
                } else {
                    self.unbind(f.binding_base, next);
                }
            },
            Instr::Unimplemented(_) => self.fault(Fault::Unimplemented { pc: f.pc }),
            Instr::Save(op) => {
                self.move_to(next);
                self.state = State::Saving { func: Value::Subr(op as u32) };
                assert(self@ =~= instr_spec(old(self)@, p, i, next));
            },
            Instr::Call(k) => {
                if avail <= k {
                    self.fault(under);
                } else {
                    self.do_call(k, next);
                }
            },
            Instr::Primitive(op, k) => {
                if avail < k {
                    self.fault(under);
                } else {
                    self.wait(Value::Subr(op as u32), k, k, next);
                }
            },
            Instr::UnwindProtect => {
                if avail < 1 {
                    self.fault(under);
                } else {
                    let handler = self.stack[n - 1];
                    self.env.protect(handler);
                    self.pop_to(1, next);
                    assert(self@ =~= instr_spec(old(self)@, p, i, next));
                }
            },
            Instr::Pophandler => {
                if self.handlers.len() <= f.handler_base {
                    self.fault(Fault::HandlerUnderflow { pc: f.pc });
                } else {
                    self.handlers.pop();
                    self.move_to(next);
                    assert(self@ =~= instr_spec(old(self)@, p, i, next));
                }
            },
            Instr::PushCatch(t) => {
                if avail < 1 {
                    self.fault(under);
                } else {
                    self.do_push_handler(HandlerKind::Catch, t, next);
                }
            },
            Instr::PushConditionCase(t) => {
                if avail < 1 {
                    self.fault(under);
                } else {
                    self.do_push_handler(HandlerKind::ConditionCase, t, next);
                }
            },
            Instr::Goto(t) => self.move_to(t),
            Instr::GotoIfNil(t) => {
                if avail < 1 {
                    self.fault(under);
                } else {
                    let target = if self.stack[n - 1].is_nil() {
                        t
                    } else {
                        next
                    };
                    self.pop_to(1, target);
                }
            },
            Instr::GotoIfNonNil(t) => {
                if avail < 1 {
                    self.fault(under);
                } else {
                    let target = if !self.stack[n - 1].is_nil() {
                        t
                    } else {
                        next
                    };
                    self.pop_to(1, target);
                }
            },
            Instr::GotoIfNilElsePop(t) => {
                if avail < 1 {
                    self.fault(under);
                } else if self.stack[n - 1].is_nil() {
                    self.move_to(t);
                } else {
                    self.pop_to(1, next);
                }
            },
            Instr::GotoIfNonNilElsePop(t) => {
                if avail < 1 {
                    self.fault(under);
                } else if !self.stack[n - 1].is_nil() {
                    self.move_to(t);
                } else {
                    self.pop_to(1, next);
                }
            },
            Instr::Return => {
                if avail < 1 {
                    self.fault(under);
                } else {
                    let v = self.stack[n - 1];
                    self.do_return(v);
                }
            },
            Instr::Switch => {
                if avail < 2 {
                    self.fault(under);
                } else {
                    self.do_switch(next);
                }
            },
            Instr::Eq => {
                if avail < 2 {
                    self.fault(under);
                } else {
                    let b = self.stack[n - 1] == self.stack[n - 2];
                    self.push_from(2, Value::from_bool(b), next);
                }
            },
            Instr::Equal => {
                if avail < 2 {
                    self.fault(under);
                } else {
                    let b = self.heap.equal(self.stack[n - 1], self.stack[n - 2]);
                    self.push_from(2, Value::from_bool(b), next);
                }
            },
            _ => {
                if avail < 1 {
                    self.fault(under);
                } else {
                    let b = self.predicate(i, self.stack[n - 1]);
                    self.push_from(1, Value::from_bool(b), next);
                }
            },
        }
    }

    /// Executes one instruction of the current frame; does nothing unless running.
    pub fn step(&mut self)
        ensures
            final(self)@ == step_spec(old(self)@),
            depth_ok(old(self)@) ==> depth_ok(final(self)@),
    {
        match self.state {
            State::Running => {},
            _ => return,
        }
        let nf = self.frames.len();
        if nf == 0 {
            self.fault(Fault::BrokenFrame);
            return;
        }
        let f = self.frames[nf - 1];
        if self.stack.len() < f.base {
            self.fault(Fault::BrokenFrame);
            return;
        }
        proof {
            if depth_ok(self@) {
                lemma_step_keeps_depth(self@);
            }
        }
        let ghost mut gp: Option<Procedure> = None;
        let fetched: Result<(Decoded, Option<Value>, usize), bool> = match self.heap.get(
            Value::Obj(f.code_obj),
        ) {
            Some(Object::Code(p)) => {
                proof {
                    gp = Some(*p);
                }
                match decode(p.code.as_slice(), f.pc) {
                    Some(d) => Ok((d, constant_of(d.instr, &p.constants), f.pc + d.len)),
                    None => Err(false),
                }
            },
            _ => Err(true),
        };
        assert(gp == current_procedure(self@));
        match fetched {
            Err(true) => self.fault(Fault::BrokenFrame),
            Err(false) => self.fault(Fault::InvalidInstruction { pc: f.pc }),
            Ok((d, c, next)) => self.execute(d.instr, c, next, Ghost(gp.unwrap())),
        }
    }
}

/// The constant that an instruction names, where the pool has it.
fn constant_of(i: Instr, constants: &Vec<Value>) -> (r: Option<Value>)
    ensures
        forall|p: Procedure| p.constants@ == constants@ ==> r == constant_spec(p, i),
{
    match i {
        Instr::Constant(k) | Instr::Varref(k) | Instr::Varset(k) | Instr::Varbind(k) => {
            if k < constants.len() {
                Some(constants[k])
            } else {
                None
            }
        },
        _ => None,
    }
}

/// The target stored for `key`, compared as the table asks; the first match wins.
fn table_lookup_exec(heap: &Heap, structural: bool, entries: &Vec<(Value, Value)>, key: Value) -> (r: Option<Value>)
    ensures
        r == table_lookup(heap.objs@, structural, entries@, key),
{
    let mut i: usize = 0;
    assert(entries@.subrange(0, entries@.len() as int) =~= entries@);
    while i < entries.len()
        invariant
            i <= entries@.len(),
            table_lookup(heap.objs@, structural, entries@.subrange(i as int, entries@.len() as int), key)
                == table_lookup(heap.objs@, structural, entries@, key),
        decreases entries@.len() - i,
    {
        let ghost sub = entries@.subrange(i as int, entries@.len() as int);
        assert(sub[0] == entries@[i as int]);
        assert(sub.drop_first() =~= entries@.subrange(i + 1, entries@.len() as int));
        let (k, t) = entries[i];
        let hit = if structural {
            heap.equal(k, key)
        } else {
            k == key
        };
        if hit {
            return Some(t);
        }
        i = i + 1;
    }
    None
}

/// The interface through which a host drives the machine: it starts an invocation, runs it,
/// answers the applications that the machine asks for, and builds the data it hands over.
impl Machine {
    pub fn state(&self) -> (r: State)
        ensures
            r == self@.state,
    {
        self.state
    }

    /// Begins running `p` on `args`; the machine must have no invocation in progress.  With
    /// no call instruction behind the entry, a stack overflow on entry is reported at offset 0.
    pub fn start(&mut self, p: Procedure, args: Vec<Value>)
        requires
            old(self)@.frames.len() == 0,
        ensures
            final(self)@ == start_spec(old(self)@, p, args@),
            depth_ok(final(self)@),
    {
        let ghost gp = p;
        if self.heap.objs.len() >= usize::MAX - 1 {
            self.state = State::Faulted(Fault::HeapExhausted);
            return;
        }
        let template = p.template;
        let max_depth = p.max_depth;
        let k = args.len();
        let f = self.heap.allocate(Object::Code(p));
        let obj = match f {
            Value::Obj(i) => i,
            _ => 0,
        };
        let ghost items = args@;
        let mut args = args;
        self.stack.clear();
        self.stack.push(f);
        self.stack.append(&mut args);
        self.state = State::Running;
        proof {
            let m0 = old(self)@;
            assert(self@ =~= MachineView {
                objs: m0.objs.push(Object::Code(gp)),
                stack: seq![Value::Obj(obj)] + items,
                state: State::Running,
                ..m0
            }) by {
                assert(self@.stack =~= seq![Value::Obj(obj)] + items);
            }
        }
        self.call_code(obj, template, max_depth, k, 0, Ghost(gp));
    }

    /// Runs at most `budget` steps, stopping early once the machine no longer runs: it has
    /// finished, faulted, or waits for the host.
    pub fn run(&mut self, budget: u64)
        ensures
            final(self)@ == run_spec(old(self)@, budget as nat),
            depth_ok(old(self)@) ==> depth_ok(final(self)@),
    {
        let mut i: u64 = 0;
        while i < budget
            invariant
                i <= budget,
                depth_ok(old(self)@) ==> depth_ok(self@),
                run_spec(self@, (budget - i) as nat) == run_spec(old(self)@, budget as nat),
            decreases budget - i,
        {
            match self.state {
                State::Running => {},
                _ => {
                    proof {
                        lemma_run_stopped(self@, (budget - i) as nat);
                    }
                    return;
                },
            }
            self.step();
            i = i + 1;
        }
    }

    /// The procedure and the arguments of the application that the machine waits for.
    pub fn pending_call(&self) -> (r: Option<(Value, Vec<Value>)>)
        ensures
            match self@.state {
                State::Waiting { func, nargs, slots } => if nargs <= self@.stack.len() {
                    (r matches Some((f, a)) && f == func && a@ == self@.stack.subrange(
                        self@.stack.len() - nargs,
                        self@.stack.len() as int,
                    ))
                } else {
                    r is None
                },
                State::Cleaning { handler, then } => (r matches Some((f, a)) && f == handler
                    && a@.len() == 0),
                State::Saving { func } => (r matches Some((f, a)) && f == func && a@.len() == 0),
                _ => r is None,
            },
    {
        match self.state {
            State::Waiting { func, nargs, slots: _ } => {
                let n = self.stack.len();
                if nargs > n {
                    return None;
                }
                let start = n - nargs;
                let mut args: Vec<Value> = Vec::new();
                let mut j: usize = start;
                assert(args@ =~= self.stack@.subrange(start as int, j as int));
                while j < n
                    invariant
                        n == self.stack@.len(),
                        start <= j <= n,
                        args@ == self.stack@.subrange(start as int, j as int),
                    decreases n - j,
                {
                    args.push(self.stack[j]);
                    j = j + 1;
                    assert(args@ =~= self.stack@.subrange(start as int, j as int));
                }
                Some((func, args))
            },
            State::Cleaning { handler, then: _ } => Some((handler, Vec::new())),
            State::Saving { func } => Some((func, Vec::new())),
            _ => None,
        }
    }

    /// Answers the pending application with its result.
    pub fn complete(&mut self, v: Value)
        ensures
            final(self)@ == complete_spec(old(self)@, v),
            depth_ok(old(self)@) ==> depth_ok(final(self)@),
    {
        proof {
            if depth_ok(self@) {
                lemma_complete_keeps_depth(self@, v);
            }
        }
        match self.state {
            State::Waiting { func: _, nargs: _, slots } => {
                let nf = self.frames.len();
                if nf == 0 {
                    self.fault(Fault::BrokenFrame);
                    return;
                }
                let f = self.frames[nf - 1];
                if self.stack.len() < f.base || self.stack.len() - f.base < slots {
                    self.fault(Fault::BrokenFrame);
                    return;
                }
                self.state = State::Running;
                self.push_from(slots, v, f.pc);
            },
            State::Cleaning { handler: _, then } => {
                self.state = State::Running;
                match then {
                    Resume::Unbind { depth, next } => {
                        if self.frames.len() == 0 {
                            self.fault(Fault::BrokenFrame);
                        } else {
                            self.unbind(depth, next);
                        }
                    },
                    Resume::Raise(e) => self.raise(e),
                    Resume::Return(r) => {
                        if self.frames.len() == 0 {
                            self.fault(Fault::BrokenFrame);
                        } else {
                            self.do_return(r);
                        }
                    },
                    Resume::Finish(end) => self.finish(end),
                }
            },
            State::Saving { func: _ } => {
                self.env.protect(v);
                self.state = State::Running;
                assert(self@ =~= complete_spec(old(self)@, v));
            },
            _ => {},
        }
    }

    /// Answers a pending `call` by naming the procedure to apply instead, for instance the
    /// compiled definition of a symbol that was called: compiled code then runs in a new
    /// frame of this machine.  Does nothing unless such a call is pending.
    pub fn call_instead(&mut self, callee: Value)
        ensures
            final(self)@ == redirect_spec(old(self)@, callee),
            depth_ok(old(self)@) ==> depth_ok(final(self)@),
    {
        let (nargs, slots) = match self.state {
            State::Waiting { func: _, nargs, slots } => (nargs, slots),
            _ => return,
        };
        let nf = self.frames.len();
        if nf == 0 || nargs == usize::MAX || slots != nargs + 1 {
            return;
        }
        let f = self.frames[nf - 1];
        let n = self.stack.len();
        if n < f.base || n - f.base < slots {
            return;
        }
        self.stack.set(n - slots, callee);
        let target = match self.heap.get(callee) {
            Some(Object::Code(q)) => Some((q.template, q.max_depth)),
            _ => None,
        };
        match target {
            None => {
                self.state = State::Waiting { func: callee, nargs, slots };
                assert(self@ =~= redirect_spec(old(self)@, callee));
            },
            Some((template, max_depth)) => {
                let ghost q = object_at(self.heap.objs@, callee).unwrap()->Code_0;
                let obj = match callee {
                    Value::Obj(i) => i,
                    _ => 0,
                };
                self.state = State::Running;
                let ghost m1 = self@;
                assert(m1 =~= MachineView {
                    stack: old(self)@.stack.update(n - slots, callee),
                    state: State::Running,
                    ..old(self)@
                });
                self.call_code(obj, template, max_depth, nargs, f.pc, Ghost(q));
            },
        }
    }

    /// A new symbol, void at first.
    pub fn intern(&mut self) -> (r: Option<Value>)
        ensures
            old(self)@.env.values.len() < u32::MAX ==> r == Some(
                Value::Symbol(old(self)@.env.values.len() as u32),
            ) && final(self)@.env.values == old(self)@.env.values.push(None),
            old(self)@.env.values.len() >= u32::MAX ==> r is None && final(self)@.env
                == old(self)@.env,
            final(self)@.env.bindings == old(self)@.env.bindings,
            final(self)@.objs == old(self)@.objs,
            final(self)@.state == old(self)@.state,
            final(self)@.stack == old(self)@.stack,
            final(self)@.frames == old(self)@.frames,
            final(self)@.handlers == old(self)@.handlers,
    {
        match self.env.intern() {
            Some(s) => Some(Value::Symbol(s)),
            None => None,
        }
    }

    /// The value of a symbol, `None` where it is void or not a symbol of this machine.
    pub fn symbol_value(&self, sym: Value) -> (r: Option<Value>)
        ensures
            r == match sym {
                Value::Symbol(s) => lookup_spec(self@.env, s),
                _ => None,
            },
    {
        match sym {
            Value::Symbol(s) => self.env.lookup(s),
            _ => None,
        }
    }

    /// Assigns a symbol's value; false where `sym` is not a symbol of this machine.
    pub fn set_value(&mut self, sym: Value, v: Value) -> (r: bool)
        ensures
            r == (sym matches Value::Symbol(s) && known(old(self)@.env, s)),
            r ==> final(self)@ == (MachineView {
                env: set_spec(old(self)@.env, sym->Symbol_0, v),
                ..old(self)@
            }),
            !r ==> final(self)@ == old(self)@,
    {
        match sym {
            Value::Symbol(s) => {
                if (s as usize) < self.env.values.len() {
                    self.env.set(s, v);
                    assert(self@ =~= MachineView {
                        env: set_spec(old(self)@.env, s, v),
                        ..old(self)@
                    });
                    true
                } else {
                    false
                }
            },
            _ => false,
        }
    }

    /// Adds an object to the heap; `None` where the heap is full.
    pub fn make_object(&mut self, o: Object) -> (r: Option<Value>)
        ensures
            old(self)@.objs.len() + 1 < usize::MAX ==> r == Some(
                Value::Obj(old(self)@.objs.len() as usize),
            ) && final(self)@ == (MachineView { objs: old(self)@.objs.push(o), ..old(self)@ }),
            old(self)@.objs.len() + 1 >= usize::MAX ==> r is None && final(self)@ == old(
                self,
            )@,
    {
        if self.heap.objs.len() >= usize::MAX - 1 {
            return None;
        }
        let r = self.heap.allocate(o);
        assert(self@ =~= MachineView { objs: old(self)@.objs.push(o), ..old(self)@ });
        Some(r)
    }

    /// A proper list of `items`; `None` where the heap has no room for it.
    pub fn make_list(&mut self, items: &[Value]) -> (r: Option<Value>)
        ensures
            old(self)@.objs.len() + items@.len() < usize::MAX ==> (r matches Some(l)
                && list_items(final(self)@.objs, l) == Some(items@)),
            old(self)@.objs.len() + items@.len() < usize::MAX ==> final(self)@ == (MachineView {
                objs: final(self)@.objs,
                ..old(self)@
            }) && old(self)@.objs.is_prefix_of(final(self)@.objs),
            old(self)@.objs.len() + items@.len() >= usize::MAX ==> r is None && final(self)@
                == old(self)@,
    {
        if self.heap.objs.len() >= usize::MAX - items.len() {
            return None;
        }
        let l = self.heap.make_list(items);
        assert(self@ =~= MachineView { objs: self@.objs, ..old(self)@ });
        Some(l)
    }

    /// The items of a proper list, or `None` where `v` is not one.
    pub fn list_to_vec(&self, v: Value) -> (r: Option<Vec<Value>>)
        ensures
            match r {
                Some(items) => list_items(self@.objs, v) == Some(items@),
                None => list_items(self@.objs, v) is None,
            },
    {
        let mut items: Vec<Value> = Vec::new();
        let mut cur = v;
        loop
            invariant
                match list_items(self@.objs, cur) {
                    Some(rest) => list_items(self@.objs, v) == Some(items@ + rest),
                    None => list_items(self@.objs, v) is None,
                },
            decreases rank(cur),
        {
            if cur.is_nil() {
                assert(items@ + Seq::<Value>::empty() =~= items@);
                return Some(items);
            }
            match self.heap.get(cur) {
                Some(Object::Cons(a, d)) => {
                    let d = *d;
                    let below = match (d, cur) {
                        (Value::Obj(j), Value::Obj(i)) => j < i,
                        (Value::Obj(_), _) => false,
                        _ => true,
                    };
                    if !below {
                        return None;
                    }
                    let ghost before = items@;
                    items.push(*a);
                    proof {
                        if let Some(rest) = list_items(self@.objs, d) {
                            assert(before + (seq![*a] + rest) =~= items@ + rest);
                        }
                    }
                    cur = d;
                },
                _ => return None,
            }
        }
    }
}

/// Runs the procedure `code` with constant pool `constants` and stack bound `max_depth`,
/// without arguments, for at most `budget` steps, and returns the machine's state.
pub fn byte_code(m: &mut Machine, code: Vec<u8>, constants: Vec<Value>, max_depth: usize, budget: u64) -> (r: State)
    requires
        old(m)@.frames.len() == 0,
    ensures
        final(m)@ == run_spec(
            start_spec(
                old(m)@,
                Procedure { code, constants, max_depth, template: None },
                Seq::empty(),
            ),
            budget as nat,
        ),
        r == final(m)@.state,
{
    rust_byte_code(m, code, constants, max_depth, None, Vec::new(), budget)
}

/// Runs the procedure `code` with constant pool `constants`, stack bound `max_depth` and
/// argument template `template` on `args`, for at most `budget` steps, and returns the
/// machine's state.
pub fn rust_byte_code(m: &mut Machine, code: Vec<u8>, constants: Vec<Value>, max_depth: usize, template: Option<u64>, args: Vec<Value>, budget: u64) -> (r: State)
    requires
        old(m)@.frames.len() == 0,
    ensures
        final(m)@ == run_spec(
            start_spec(old(m)@, Procedure { code, constants, max_depth, template }, args@),
            budget as nat,
        ),
        r == final(m)@.state,
{
    m.start(Procedure { code, constants, max_depth, template }, args);
    m.run(budget);
    m.state()
}

} // verus!
