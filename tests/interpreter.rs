use bytecode::machine::{byte_code, rust_byte_code};
use bytecode::opcode::{decode, Decoded, Instr};
use bytecode::state::{
    Ending, Exit, Fault, Machine, Resume, State, SYM_ERROR, SYM_VOID_VARIABLE,
    SYM_WRONG_NUMBER_OF_ARGUMENTS,
};
use bytecode::value::{Object, Procedure, Value};

const CONSTANT: u8 = 0o300;
const DUP: u8 = 0o211;
const RETURN: u8 = 0o207;
const EQ: u8 = 0o75;
const EQUAL: u8 = 0o232;
const GOTO: u8 = 0o202;
const GOTO_IF_NIL_ELSE_POP: u8 = 0o205;
const GOTO_IF_NON_NIL_ELSE_POP: u8 = 0o206;
const GOTO_IF_NIL: u8 = 0o203;
const STACK_REF: u8 = 0;
const STACK_SET: u8 = 0o262;
const VARREF: u8 = 0o10;
const VARSET: u8 = 0o20;
const VARBIND: u8 = 0o30;
const CALL: u8 = 0o40;
const UNBIND: u8 = 0o50;
const POPHANDLER: u8 = 0o60;
const PUSH_CONDITION_CASE: u8 = 0o61;
const PUSH_CATCH: u8 = 0o62;
const ADD1: u8 = 0o124;
const SWITCH: u8 = 0o267;
const DISCARD: u8 = 0o210;
const CONSP: u8 = 0o72;
const LISTP: u8 = 0o74;
const STRINGP: u8 = 0o73;
const NOT: u8 = 0o77;
const UNWIND_PROTECT: u8 = 0o216;
const UNBIND_ALL: u8 = 0o222;

const BUDGET: u64 = 1000;

fn string(m: &mut Machine, s: &str) -> Value {
    m.make_object(Object::Str(s.as_bytes().to_vec())).unwrap()
}

#[test]
fn eq_compares_identity() {
    let mut m = Machine::new();
    let x = string(&mut m, "x");
    let code = vec![CONSTANT, CONSTANT + 1, EQ, RETURN];
    assert_eq!(byte_code(&mut m, code.clone(), vec![x, x], 4, BUDGET), State::Finished(Value::T));

    let mut m = Machine::new();
    let x = string(&mut m, "x");
    let y = string(&mut m, "x");
    assert_eq!(byte_code(&mut m, code, vec![x, y], 4, BUDGET), State::Finished(Value::Nil));
}

#[test]
fn equal_compares_structure() {
    let code = vec![CONSTANT, CONSTANT + 1, EQUAL, RETURN];
    let mut m = Machine::new();
    let x = string(&mut m, "abc");
    let y = string(&mut m, "abc");
    let z = string(&mut m, "abd");
    assert_eq!(byte_code(&mut m, code.clone(), vec![x, y], 2, BUDGET), State::Finished(Value::T));
    assert_eq!(byte_code(&mut m, code.clone(), vec![x, z], 2, BUDGET), State::Finished(Value::Nil));

    let l1 = m.make_list(&[Value::Int(1), x]).unwrap();
    let l2 = m.make_list(&[Value::Int(1), y]).unwrap();
    let l3 = m.make_list(&[Value::Int(1), z]).unwrap();
    assert_eq!(byte_code(&mut m, code.clone(), vec![l1, l2], 2, BUDGET), State::Finished(Value::T));
    assert_eq!(byte_code(&mut m, code.clone(), vec![l1, l3], 2, BUDGET), State::Finished(Value::Nil));
    let eq = vec![CONSTANT, CONSTANT + 1, EQ, RETURN];
    assert_eq!(byte_code(&mut m, eq, vec![l1, l2], 2, BUDGET), State::Finished(Value::Nil));
}

#[test]
fn goto_if_nil_else_pop_keeps_a_nil_operand() {
    // constant 0; goto-if-nil-else-pop 5; constant 1; return
    let code = vec![CONSTANT, GOTO_IF_NIL_ELSE_POP, 5, 0, CONSTANT + 1, RETURN];
    let mut m = Machine::new();
    assert_eq!(
        byte_code(&mut m, code.clone(), vec![Value::Nil, Value::Int(7)], 2, BUDGET),
        State::Finished(Value::Nil)
    );
    let mut m = Machine::new();
    assert_eq!(
        byte_code(&mut m, code, vec![Value::T, Value::Int(7)], 2, BUDGET),
        State::Finished(Value::Int(7))
    );
}

#[test]
fn goto_if_non_nil_else_pop_keeps_a_true_operand() {
    let code = vec![CONSTANT, GOTO_IF_NON_NIL_ELSE_POP, 5, 0, CONSTANT + 1, RETURN];
    let mut m = Machine::new();
    assert_eq!(
        byte_code(&mut m, code.clone(), vec![Value::Int(3), Value::Int(7)], 2, BUDGET),
        State::Finished(Value::Int(3))
    );
    let mut m = Machine::new();
    assert_eq!(
        byte_code(&mut m, code, vec![Value::Nil, Value::Int(7)], 2, BUDGET),
        State::Finished(Value::Int(7))
    );
}

#[test]
fn dup_then_return_gives_the_top() {
    let mut m = Machine::new();
    let code = vec![CONSTANT, DUP, RETURN];
    assert_eq!(
        byte_code(&mut m, code, vec![Value::Int(42)], 2, BUDGET),
        State::Finished(Value::Int(42))
    );
    assert!(m.stack.is_empty());
    assert!(m.frames.is_empty());
}

#[test]
fn stack_ref_copies_from_below() {
    let mut m = Machine::new();
    // push 1 2 3; stack-ref 2 copies the 1; return it
    let code = vec![CONSTANT, CONSTANT + 1, CONSTANT + 2, STACK_REF + 2, RETURN];
    let consts = vec![Value::Int(1), Value::Int(2), Value::Int(3)];
    assert_eq!(byte_code(&mut m, code, consts.clone(), 4, BUDGET), State::Finished(Value::Int(1)));

    let mut m = Machine::new();
    let code = vec![CONSTANT, CONSTANT + 1, CONSTANT + 2, STACK_REF, RETURN];
    assert_eq!(byte_code(&mut m, code, consts.clone(), 4, BUDGET), State::Finished(Value::Int(3)));

    // the one-byte operand form
    let mut m = Machine::new();
    let code = vec![CONSTANT, CONSTANT + 1, CONSTANT + 2, STACK_REF + 6, 1, RETURN];
    assert_eq!(byte_code(&mut m, code, consts, 4, BUDGET), State::Finished(Value::Int(2)));
}

#[test]
fn stack_ref_leaves_the_stack_below_unchanged() {
    let mut m = Machine::new();
    let code = vec![CONSTANT, CONSTANT + 1, CONSTANT + 2, STACK_REF + 2, CALL + 3];
    let f = Value::Subr(99);
    let consts = vec![f, Value::Int(2), Value::Int(3)];
    let st = byte_code(&mut m, code, consts, 5, BUDGET);
    assert_eq!(st, State::Waiting { func: f, nargs: 3, slots: 4 });
    assert_eq!(m.stack, vec![f, Value::Int(2), Value::Int(3), f]);
}

#[test]
fn stack_set_moves_the_top_down() {
    let mut m = Machine::new();
    // push 1 2 3; stack-set 2 puts the 3 where the 1 was and pops; return the bottom
    let code = vec![CONSTANT, CONSTANT + 1, CONSTANT + 2, STACK_SET, 2, DISCARD, RETURN];
    let consts = vec![Value::Int(1), Value::Int(2), Value::Int(3)];
    assert_eq!(byte_code(&mut m, code, consts, 3, BUDGET), State::Finished(Value::Int(3)));
}

#[test]
fn varbind_then_unbind_restores_the_value() {
    let mut m = Machine::new();
    let s = m.intern().unwrap();
    assert!(m.set_value(s, Value::Int(1)));
    // varbind s := 2; varset s := 3; unbind 1; varref s; return
    let code = vec![
        CONSTANT + 1,
        VARBIND,
        CONSTANT + 2,
        VARSET,
        UNBIND + 1,
        VARREF,
        RETURN,
    ];
    let consts = vec![s, Value::Int(2), Value::Int(3)];
    assert_eq!(byte_code(&mut m, code, consts, 2, BUDGET), State::Finished(Value::Int(1)));
    assert_eq!(m.symbol_value(s), Some(Value::Int(1)));
}

#[test]
fn bindings_left_open_are_undone_on_return() {
    let mut m = Machine::new();
    let s = m.intern().unwrap();
    assert!(m.set_value(s, Value::Int(1)));
    let code = vec![CONSTANT + 1, VARBIND, VARREF, RETURN];
    let consts = vec![s, Value::Int(5)];
    assert_eq!(byte_code(&mut m, code, consts, 2, BUDGET), State::Finished(Value::Int(5)));
    assert_eq!(m.symbol_value(s), Some(Value::Int(1)));
    assert!(m.env.bindings.is_empty());
}

#[test]
fn void_variable_is_signalled() {
    let mut m = Machine::new();
    let s = m.intern().unwrap();
    let st = byte_code(&mut m, vec![VARREF, RETURN], vec![s], 1, BUDGET);
    assert_eq!(
        st,
        State::Uncaught(Exit::Signal { symbol: Value::Symbol(SYM_VOID_VARIABLE), data: s })
    );
}

#[test]
fn pushcatch_then_throw_resumes_at_target() {
    let mut m = Machine::new();
    let tag = m.intern().unwrap();
    let thrower = Value::Subr(1);
    // 0: constant 9   1: constant tag   2: pushcatch 8   5: constant f   6: call 0   7: return
    // 8: return
    let code = vec![
        CONSTANT + 2,
        CONSTANT,
        PUSH_CATCH,
        8,
        0,
        CONSTANT + 1,
        CALL,
        RETURN,
        RETURN,
    ];
    let consts = vec![tag, thrower, Value::Int(9)];
    let st = byte_code(&mut m, code, consts, 3, BUDGET);
    assert_eq!(st, State::Waiting { func: thrower, nargs: 0, slots: 1 });
    assert_eq!(m.pending_call(), Some((thrower, vec![])));
    assert_eq!(m.handlers.len(), 1);
    assert_eq!(m.handlers[0].stack_depth, 1);

    m.raise(Exit::Throw { tag, value: Value::Int(77) });
    assert_eq!(m.state(), State::Running);
    assert_eq!(m.stack, vec![Value::Int(9), Value::Int(77)]);
    assert_eq!(m.frames[0].pc, 8);
    assert!(m.handlers.is_empty());
    m.run(BUDGET);
    assert_eq!(m.state(), State::Finished(Value::Int(77)));
}

#[test]
fn throw_to_another_tag_is_uncaught() {
    let mut m = Machine::new();
    let tag = m.intern().unwrap();
    let other = m.intern().unwrap();
    let code = vec![CONSTANT, PUSH_CATCH, 6, 0, CONSTANT + 1, CALL, RETURN];
    let st = byte_code(&mut m, code, vec![tag, Value::Subr(1)], 2, BUDGET);
    assert!(matches!(st, State::Waiting { .. }));
    let e = Exit::Throw { tag: other, value: Value::Int(1) };
    m.raise(e);
    assert_eq!(m.state(), State::Uncaught(e));
    assert!(m.handlers.is_empty());
    assert!(m.frames.is_empty());
}

#[test]
fn pophandler_ends_the_protected_region() {
    let mut m = Machine::new();
    let tag = m.intern().unwrap();
    let code = vec![CONSTANT, PUSH_CATCH, 7, 0, POPHANDLER, CONSTANT + 1, RETURN, RETURN];
    let st = byte_code(&mut m, code, vec![tag, Value::Int(4)], 2, BUDGET);
    assert_eq!(st, State::Finished(Value::Int(4)));
    assert!(m.handlers.is_empty());
}

#[test]
fn primitive_opcode_waits_for_the_host() {
    let mut m = Machine::new();
    let code = vec![CONSTANT, ADD1, RETURN];
    let st = byte_code(&mut m, code, vec![Value::Int(5)], 1, BUDGET);
    assert_eq!(st, State::Waiting { func: Value::Subr(ADD1 as u32), nargs: 1, slots: 1 });
    let (f, args) = m.pending_call().unwrap();
    assert_eq!(f, Value::Subr(ADD1 as u32));
    assert_eq!(args, vec![Value::Int(5)]);
    m.complete(Value::Int(6));
    m.run(BUDGET);
    assert_eq!(m.state(), State::Finished(Value::Int(6)));
}

#[test]
fn call_of_a_host_procedure_replaces_its_operands() {
    let mut m = Machine::new();
    let f = Value::Subr(3);
    let code = vec![CONSTANT, CONSTANT + 1, CONSTANT + 2, CALL + 2, RETURN];
    let st = byte_code(&mut m, code, vec![f, Value::Int(1), Value::Int(2)], 3, BUDGET);
    assert_eq!(st, State::Waiting { func: f, nargs: 2, slots: 3 });
    assert_eq!(m.pending_call(), Some((f, vec![Value::Int(1), Value::Int(2)])));
    m.complete(Value::Int(3));
    assert_eq!(m.stack, vec![Value::Int(3)]);
    m.run(BUDGET);
    assert_eq!(m.state(), State::Finished(Value::Int(3)));
}

fn callee(m: &mut Machine, template: Option<u64>, code: Vec<u8>, max_depth: usize) -> Value {
    m.make_object(Object::Code(Procedure { code, constants: vec![], max_depth, template }))
        .unwrap()
}

#[test]
fn call_of_compiled_code_runs_in_a_new_frame() {
    let mut m = Machine::new();
    // the callee returns its second argument: stack-ref 0 would be the top
    let g = callee(&mut m, Some(2 << 8 | 2), vec![STACK_REF, RETURN], 3);
    let code = vec![CONSTANT, CONSTANT + 1, CONSTANT + 2, CALL + 2, RETURN];
    let st = byte_code(&mut m, code, vec![g, Value::Int(1), Value::Int(2)], 3, BUDGET);
    assert_eq!(st, State::Finished(Value::Int(2)));
}

#[test]
fn rest_arguments_arrive_as_a_list() {
    let mut m = Machine::new();
    // (lambda (a &rest r) r)
    let g = callee(&mut m, Some(1 << 8 | 128 | 1), vec![RETURN], 2);
    let code = vec![CONSTANT, CONSTANT + 1, CONSTANT + 2, CONSTANT + 3, CALL + 3, RETURN];
    let consts = vec![g, Value::Int(1), Value::Int(2), Value::Int(3)];
    let st = byte_code(&mut m, code, consts, 4, BUDGET);
    let l = match st {
        State::Finished(l) => l,
        other => panic!("unexpected state {:?}", other),
    };
    assert_eq!(m.list_to_vec(l), Some(vec![Value::Int(2), Value::Int(3)]));
}

#[test]
fn arity_error_is_signalled_with_the_counts() {
    let mut m = Machine::new();
    let g = callee(&mut m, Some(2 << 8 | 1), vec![RETURN], 2);
    let code = vec![CONSTANT, CALL, RETURN];
    let st = byte_code(&mut m, code, vec![g], 1, BUDGET);
    let data = match st {
        State::Uncaught(Exit::Signal { symbol, data }) => {
            assert_eq!(symbol, Value::Symbol(SYM_WRONG_NUMBER_OF_ARGUMENTS));
            data
        }
        other => panic!("unexpected state {:?}", other),
    };
    assert_eq!(arity_counts(&m, data), (1, 2, 0));
}

/// Reads the data `((mandatory . nonrest) nargs)` of a wrong-number-of-arguments signal.
fn arity_counts(m: &Machine, data: Value) -> (i64, i64, i64) {
    let items = m.list_to_vec(data).expect("a proper list");
    assert_eq!(items.len(), 2);
    let nargs = match items[1] {
        Value::Int(n) => n,
        other => panic!("nargs is {:?}", other),
    };
    match m.heap.get(items[0]) {
        Some(Object::Cons(Value::Int(a), Value::Int(b))) => (*a, *b, nargs),
        _ => panic!("no (mandatory . nonrest) pair"),
    }
}

#[test]
fn arity_error_data_pairs_the_template_counts() {
    for (args, nargs) in [(vec![], 0), (vec![Value::Int(1), Value::Int(2), Value::Int(3)], 3)] {
        let mut m = Machine::new();
        let st = rust_byte_code(&mut m, vec![RETURN], vec![], 2, Some(513), args, BUDGET);
        let data = match st {
            State::Uncaught(Exit::Signal { symbol, data }) => {
                assert_eq!(symbol, Value::Symbol(SYM_WRONG_NUMBER_OF_ARGUMENTS));
                data
            }
            other => panic!("unexpected state {:?}", other),
        };
        assert_eq!(arity_counts(&m, data), (1, 2, nargs));
    }
}

#[test]
fn entry_point_checks_the_template() {
    let mut m = Machine::new();
    let st = rust_byte_code(&mut m, vec![RETURN], vec![], 2, Some(2 << 8 | 1), vec![], BUDGET);
    assert!(matches!(
        st,
        State::Uncaught(Exit::Signal { symbol: Value::Symbol(SYM_WRONG_NUMBER_OF_ARGUMENTS), .. })
    ));
    let mut m = Machine::new();
    let st = rust_byte_code(
        &mut m,
        vec![RETURN],
        vec![],
        2,
        Some(2 << 8 | 1),
        vec![Value::Int(8)],
        BUDGET,
    );
    assert_eq!(st, State::Finished(Value::Int(8)));
}

#[test]
fn condition_case_catches_an_arity_error() {
    let mut m = Machine::new();
    let g = callee(&mut m, Some(0), vec![CONSTANT, RETURN], 1);
    // pushconditioncase error -> 8; call g with one argument; at 8 return the condition
    let code = vec![
        CONSTANT,
        PUSH_CONDITION_CASE,
        9,
        0,
        CONSTANT + 1,
        CONSTANT + 2,
        CALL + 1,
        RETURN,
        RETURN,
        RETURN,
    ];
    let consts = vec![Value::Symbol(SYM_ERROR), g, Value::Int(5)];
    let st = byte_code(&mut m, code, consts, 3, BUDGET);
    let c = match st {
        State::Finished(c) => c,
        other => panic!("unexpected state {:?}", other),
    };
    match m.heap.get(c) {
        Some(Object::Cons(sym, data)) => {
            assert_eq!(*sym, Value::Symbol(SYM_WRONG_NUMBER_OF_ARGUMENTS));
            let data = *data;
            assert_eq!(arity_counts(&m, data), (0, 0, 1));
        }
        _ => panic!("no condition"),
    }
}

#[test]
fn switch_jumps_to_the_stored_target() {
    let mut m = Machine::new();
    let k = m.intern().unwrap();
    let table = m.make_object(Object::Table { structural: false, entries: vec![(k, Value::Int(6))] }).unwrap();
    // 0: constant key  1: constant table  2: switch  3: constant 1  4: return  5: return  6: constant 2  7: return
    let code = vec![CONSTANT, CONSTANT + 1, SWITCH, CONSTANT + 2, RETURN, RETURN, CONSTANT + 3, RETURN];
    let consts = vec![k, table, Value::Int(1), Value::Int(2)];
    assert_eq!(byte_code(&mut m, code.clone(), consts, 2, BUDGET), State::Finished(Value::Int(2)));

    let mut m = Machine::new();
    let k = m.intern().unwrap();
    let table = m.make_object(Object::Table { structural: false, entries: vec![(k, Value::Int(6))] }).unwrap();
    let consts = vec![Value::Int(0), table, Value::Int(1), Value::Int(2)];
    assert_eq!(byte_code(&mut m, code, consts, 2, BUDGET), State::Finished(Value::Int(1)));
}

fn apply_predicate(m: &mut Machine, op: u8, v: Value) -> State {
    byte_code(m, vec![CONSTANT, op, RETURN], vec![v], 1, BUDGET)
}

#[test]
fn predicates_test_types() {
    let mut m = Machine::new();
    let s = string(&mut m, "s");
    let l = m.make_list(&[Value::Int(1)]).unwrap();
    assert_eq!(apply_predicate(&mut m, CONSP, l), State::Finished(Value::T));
    assert_eq!(apply_predicate(&mut m, CONSP, Value::Nil), State::Finished(Value::Nil));
    assert_eq!(apply_predicate(&mut m, LISTP, Value::Nil), State::Finished(Value::T));
    assert_eq!(apply_predicate(&mut m, LISTP, s), State::Finished(Value::Nil));
    assert_eq!(apply_predicate(&mut m, STRINGP, s), State::Finished(Value::T));
    assert_eq!(apply_predicate(&mut m, STRINGP, l), State::Finished(Value::Nil));
    assert_eq!(apply_predicate(&mut m, NOT, Value::Nil), State::Finished(Value::T));
    assert_eq!(apply_predicate(&mut m, NOT, Value::Int(0)), State::Finished(Value::Nil));
}

#[test]
fn invalid_opcode_is_reported() {
    let mut m = Machine::new();
    let st = byte_code(&mut m, vec![CONSTANT, 0o63, RETURN], vec![Value::Nil], 2, BUDGET);
    assert_eq!(st, State::Faulted(Fault::InvalidInstruction { pc: 1 }));
}

#[test]
fn truncated_operand_is_reported() {
    let mut m = Machine::new();
    let st = byte_code(&mut m, vec![GOTO, 0], vec![], 1, BUDGET);
    assert_eq!(st, State::Faulted(Fault::InvalidInstruction { pc: 0 }));
}

#[test]
fn running_off_the_end_is_reported() {
    let mut m = Machine::new();
    let st = byte_code(&mut m, vec![CONSTANT], vec![Value::Nil], 1, BUDGET);
    assert_eq!(st, State::Faulted(Fault::InvalidInstruction { pc: 1 }));
}

#[test]
fn stack_underflow_is_reported() {
    let mut m = Machine::new();
    let st = byte_code(&mut m, vec![DUP], vec![], 1, BUDGET);
    assert_eq!(st, State::Faulted(Fault::StackUnderflow { pc: 0 }));
}

#[test]
fn stack_bound_is_enforced() {
    let mut m = Machine::new();
    let st = byte_code(&mut m, vec![CONSTANT, CONSTANT, RETURN], vec![Value::Nil], 1, BUDGET);
    assert_eq!(st, State::Faulted(Fault::StackOverflow { pc: 1 }));
}

#[test]
fn missing_constant_is_reported() {
    let mut m = Machine::new();
    let st = byte_code(&mut m, vec![CONSTANT + 3, RETURN], vec![Value::Nil], 1, BUDGET);
    assert_eq!(st, State::Faulted(Fault::BadConstant { pc: 0 }));
}

#[test]
fn budget_bounds_a_loop() {
    let mut m = Machine::new();
    let st = byte_code(&mut m, vec![GOTO, 0, 0], vec![], 0, 10);
    assert_eq!(st, State::Running);
    m.run(5);
    assert_eq!(m.state(), State::Running);
}

#[test]
fn goto_if_nil_pops_and_branches() {
    let mut m = Machine::new();
    let code = vec![CONSTANT, GOTO_IF_NIL, 6, 0, CONSTANT + 1, RETURN, CONSTANT + 2, RETURN];
    let consts = vec![Value::Nil, Value::Int(1), Value::Int(2)];
    assert_eq!(byte_code(&mut m, code.clone(), consts, 1, BUDGET), State::Finished(Value::Int(2)));
    let mut m = Machine::new();
    let consts = vec![Value::T, Value::Int(1), Value::Int(2)];
    assert_eq!(byte_code(&mut m, code, consts, 1, BUDGET), State::Finished(Value::Int(1)));
}

#[test]
fn decoder_reads_operand_widths() {
    assert_eq!(decode(&[0o46, 5], 0), Some(Decoded { instr: Instr::Call(5), len: 2 }));
    assert_eq!(decode(&[0o47, 1, 2], 0), Some(Decoded { instr: Instr::Call(513), len: 3 }));
    assert_eq!(decode(&[0o13], 0), Some(Decoded { instr: Instr::Varref(3), len: 1 }));
    assert_eq!(decode(&[0o377], 0), Some(Decoded { instr: Instr::Constant(63), len: 1 }));
    assert_eq!(decode(&[0o201, 0x34, 0x12], 0), Some(Decoded { instr: Instr::Constant(0x1234), len: 3 }));
    assert_eq!(decode(&[0o266, 0x83], 0), Some(Decoded { instr: Instr::DiscardN(3, true), len: 2 }));
    assert_eq!(decode(&[0o47, 1], 0), None);
    assert_eq!(decode(&[0o153], 0), None);
    assert_eq!(decode(&[], 0), None);
}

#[test]
fn fault_undoes_the_invocation() {
    let mut m = Machine::new();
    let s = m.intern().unwrap();
    assert!(m.set_value(s, Value::Int(1)));
    // varbind s := 5, then an invalid opcode
    let code = vec![CONSTANT + 1, VARBIND, 0o63];
    let st = byte_code(&mut m, code, vec![s, Value::Int(5)], 1, BUDGET);
    assert_eq!(st, State::Faulted(Fault::InvalidInstruction { pc: 2 }));
    assert_eq!(m.symbol_value(s), Some(Value::Int(1)));
    assert!(m.frames.is_empty());
    assert!(m.stack.is_empty());
    assert!(m.env.bindings.is_empty());
}

#[test]
fn unbind_below_the_frame_is_reported() {
    let mut m = Machine::new();
    let st = byte_code(&mut m, vec![UNBIND + 1], vec![], 1, BUDGET);
    assert_eq!(st, State::Faulted(Fault::BindingUnderflow { pc: 0 }));
}

#[test]
fn pophandler_without_handler_is_reported() {
    let mut m = Machine::new();
    let st = byte_code(&mut m, vec![POPHANDLER], vec![], 1, BUDGET);
    assert_eq!(st, State::Faulted(Fault::HandlerUnderflow { pc: 0 }));
}

#[test]
fn varset_of_nil_is_signalled() {
    let mut m = Machine::new();
    let st = byte_code(&mut m, vec![CONSTANT, VARSET, RETURN], vec![Value::Nil], 1, BUDGET);
    assert!(matches!(st, State::Uncaught(Exit::Signal { data: Value::Nil, .. })));
}

#[test]
fn switch_on_a_non_table_is_reported() {
    let mut m = Machine::new();
    let st = byte_code(&mut m, vec![CONSTANT, CONSTANT, SWITCH], vec![Value::Int(1)], 2, BUDGET);
    assert_eq!(st, State::Faulted(Fault::BadJumpTable { pc: 2 }));
}

#[test]
fn wide_varbind_operand_names_the_constant() {
    let mut m = Machine::new();
    let s = m.intern().unwrap();
    assert!(m.set_value(s, Value::Int(1)));
    // varbind with a two-byte operand naming constant 1, varref with a one-byte operand
    let code = vec![CONSTANT, VARBIND + 7, 1, 0, VARREF + 6, 1, UNBIND + 6, 1, RETURN];
    let st = byte_code(&mut m, code, vec![Value::Int(9), s], 1, BUDGET);
    assert_eq!(st, State::Finished(Value::Int(9)));
    assert_eq!(m.symbol_value(s), Some(Value::Int(1)));
}

#[test]
fn structural_switch_matches_equal_keys() {
    let code = vec![CONSTANT, CONSTANT + 1, SWITCH, CONSTANT + 2, RETURN, RETURN, CONSTANT + 3, RETURN];
    for (structural, expected) in [(true, 2), (false, 1)] {
        let mut m = Machine::new();
        let k = string(&mut m, "key");
        let probe = string(&mut m, "key");
        let table = m
            .make_object(Object::Table { structural, entries: vec![(k, Value::Int(6))] })
            .unwrap();
        let consts = vec![probe, table, Value::Int(1), Value::Int(2)];
        assert_eq!(
            byte_code(&mut m, code.clone(), consts, 2, BUDGET),
            State::Finished(Value::Int(expected))
        );
    }
}

#[test]
fn overflow_entering_a_callee_names_the_call() {
    let mut m = Machine::new();
    // the callee may hold one operand but receives two arguments unchecked
    let g = callee(&mut m, None, vec![RETURN], 1);
    let code = vec![CONSTANT, CONSTANT + 1, CONSTANT + 2, CALL + 2, RETURN];
    let st = byte_code(&mut m, code, vec![g, Value::Int(1), Value::Int(2)], 3, BUDGET);
    assert_eq!(st, State::Faulted(Fault::StackOverflow { pc: 3 }));
}

#[test]
fn unbind_runs_the_cleanup_before_going_on() {
    let mut m = Machine::new();
    let h = Value::Subr(5);
    // 0: constant h  1: unwind-protect  2: unbind 1  3: constant 1  4: return
    let code = vec![CONSTANT, UNWIND_PROTECT, UNBIND + 1, CONSTANT + 1, RETURN];
    let st = byte_code(&mut m, code, vec![h, Value::Int(1)], 1, BUDGET);
    assert_eq!(st, State::Cleaning { handler: h, then: Resume::Unbind { depth: 0, next: 3 } });
    assert_eq!(m.pending_call(), Some((h, vec![])));
    assert!(m.env.bindings.is_empty());
    m.complete(Value::Int(99));
    assert_eq!(m.state(), State::Running);
    assert_eq!(m.frames[0].pc, 3);
    m.run(BUDGET);
    assert_eq!(m.state(), State::Finished(Value::Int(1)));
}

#[test]
fn cleanups_interleave_with_restoring_bindings() {
    let mut m = Machine::new();
    let s = m.intern().unwrap();
    assert!(m.set_value(s, Value::Int(1)));
    let (h1, h2) = (Value::Subr(1), Value::Subr(2));
    // protect h1; bind s := 5; protect h2; unbind 3; constant 5; return
    let code = vec![
        CONSTANT,
        UNWIND_PROTECT,
        CONSTANT + 2,
        VARBIND + 3,
        CONSTANT + 1,
        UNWIND_PROTECT,
        UNBIND + 3,
        CONSTANT + 2,
        RETURN,
    ];
    let st = byte_code(&mut m, code, vec![h1, h2, Value::Int(5), s], 1, BUDGET);
    assert!(matches!(st, State::Cleaning { handler, .. } if handler == h2));
    // the newest cleanup runs while the binding below it still holds
    assert_eq!(m.symbol_value(s), Some(Value::Int(5)));
    m.complete(Value::Nil);
    assert!(matches!(m.state(), State::Cleaning { handler, .. } if handler == h1));
    // the binding is undone before the older cleanup runs
    assert_eq!(m.symbol_value(s), Some(Value::Int(1)));
    m.complete(Value::Nil);
    m.run(BUDGET);
    assert_eq!(m.state(), State::Finished(Value::Int(5)));
}

#[test]
fn a_throw_runs_the_cleanup_it_passes() {
    let mut m = Machine::new();
    let tag = m.intern().unwrap();
    let h = Value::Subr(7);
    let thrower = Value::Subr(8);
    // 0: constant tag  1: pushcatch 9  4: constant h  5: unwind-protect  6: constant thrower
    // 7: call 0  8: return  9: return
    let code = vec![
        CONSTANT,
        PUSH_CATCH,
        9,
        0,
        CONSTANT + 1,
        UNWIND_PROTECT,
        CONSTANT + 2,
        CALL,
        RETURN,
        RETURN,
    ];
    let st = byte_code(&mut m, code, vec![tag, h, thrower], 2, BUDGET);
    assert_eq!(st, State::Waiting { func: thrower, nargs: 0, slots: 1 });
    let e = Exit::Throw { tag, value: Value::Int(3) };
    m.raise(e);
    assert_eq!(m.state(), State::Cleaning { handler: h, then: Resume::Raise(e) });
    assert_eq!(m.handlers.len(), 1);
    m.complete(Value::Nil);
    assert_eq!(m.state(), State::Running);
    assert_eq!(m.frames[0].pc, 9);
    assert_eq!(m.stack, vec![Value::Int(3)]);
    m.run(BUDGET);
    assert_eq!(m.state(), State::Finished(Value::Int(3)));
}

#[test]
fn returning_runs_an_open_cleanup_first() {
    let mut m = Machine::new();
    let h = Value::Subr(4);
    let code = vec![CONSTANT, UNWIND_PROTECT, CONSTANT + 1, RETURN];
    let st = byte_code(&mut m, code, vec![h, Value::Int(2)], 1, BUDGET);
    assert_eq!(
        st,
        State::Cleaning { handler: h, then: Resume::Finish(Ending::Finished(Value::Int(2))) }
    );
    m.complete(Value::Nil);
    assert_eq!(m.state(), State::Finished(Value::Int(2)));
    assert!(m.env.bindings.is_empty());
    assert!(m.frames.is_empty());
}

#[test]
fn handler_over_unbound_bindings_is_reported() {
    let mut m = Machine::new();
    let s = m.intern().unwrap();
    let tag = m.intern().unwrap();
    // bind s; pushcatch 10 (recording binding depth 1); unbind 1; call a thrower
    let code = vec![
        CONSTANT,
        VARBIND + 1,
        CONSTANT + 2,
        PUSH_CATCH,
        10,
        0,
        UNBIND + 1,
        CONSTANT + 3,
        CALL,
        RETURN,
        RETURN,
    ];
    let thrower = Value::Subr(1);
    let st = byte_code(&mut m, code, vec![Value::Int(5), s, tag, thrower], 2, BUDGET);
    assert_eq!(st, State::Waiting { func: thrower, nargs: 0, slots: 1 });
    m.raise(Exit::Throw { tag, value: Value::Nil });
    assert_eq!(m.state(), State::Faulted(Fault::BrokenHandler));
}

#[test]
fn unbind_all_undoes_the_frame_bindings() {
    let mut m = Machine::new();
    let s = m.intern().unwrap();
    assert!(m.set_value(s, Value::Int(1)));
    let code = vec![CONSTANT + 1, VARBIND, CONSTANT + 2, VARBIND, UNBIND_ALL, VARREF, RETURN];
    let st = byte_code(&mut m, code, vec![s, Value::Int(2), Value::Int(3)], 1, BUDGET);
    assert_eq!(st, State::Finished(Value::Int(1)));
}

#[test]
fn known_but_unsupported_opcodes_are_unimplemented() {
    for op in [0o213u8, 0o215, 0o217, 0o252] {
        let mut m = Machine::new();
        let st = byte_code(&mut m, vec![op, RETURN], vec![], 1, BUDGET);
        assert_eq!(st, State::Faulted(Fault::Unimplemented { pc: 0 }));
    }
}

#[test]
fn save_excursion_records_the_restorer_as_a_cleanup() {
    let mut m = Machine::new();
    let save = Value::Subr(0o212);
    let restore = Value::Subr(50);
    // 0: save-excursion  1: constant 4  2: unbind 1  3: return
    let code = vec![0o212, CONSTANT, UNBIND + 1, RETURN];
    let st = byte_code(&mut m, code, vec![Value::Int(4)], 1, BUDGET);
    assert_eq!(st, State::Saving { func: save });
    assert_eq!(m.pending_call(), Some((save, vec![])));
    m.complete(restore);
    assert_eq!(m.env.bindings.len(), 1);
    m.run(BUDGET);
    assert_eq!(
        m.state(),
        State::Cleaning { handler: restore, then: Resume::Unbind { depth: 0, next: 3 } }
    );
    m.complete(Value::Nil);
    m.run(BUDGET);
    assert_eq!(m.state(), State::Finished(Value::Int(4)));
}

#[test]
fn host_can_hand_a_call_to_compiled_code() {
    let mut m = Machine::new();
    let name = m.intern().unwrap();
    // the compiled definition returns its argument
    let g = callee(&mut m, Some(1 << 8 | 1), vec![RETURN], 1);
    let code = vec![CONSTANT, CONSTANT + 1, CALL + 1, RETURN];
    let st = byte_code(&mut m, code, vec![name, Value::Int(6)], 2, BUDGET);
    assert_eq!(st, State::Waiting { func: name, nargs: 1, slots: 2 });
    m.call_instead(g);
    assert_eq!(m.state(), State::Running);
    assert_eq!(m.frames.len(), 2);
    m.run(BUDGET);
    assert_eq!(m.state(), State::Finished(Value::Int(6)));
}

#[test]
fn host_can_redirect_a_call_to_another_primitive() {
    let mut m = Machine::new();
    let name = m.intern().unwrap();
    let code = vec![CONSTANT, CALL, RETURN];
    let st = byte_code(&mut m, code, vec![name], 1, BUDGET);
    assert_eq!(st, State::Waiting { func: name, nargs: 0, slots: 1 });
    m.call_instead(Value::Subr(3));
    assert_eq!(m.pending_call(), Some((Value::Subr(3), vec![])));
    m.complete(Value::Int(8));
    m.run(BUDGET);
    assert_eq!(m.state(), State::Finished(Value::Int(8)));
}
