//! Decoding of instructions from a byte string.
//!
//! Most opcodes are a single byte.  The families stack-ref, varref, varset, varbind, call and
//! unbind take eight consecutive values: offsets 0 to 5 carry the operand in the opcode
//! itself, offset 6 reads it from the next byte and offset 7 from the next two bytes, low
//! byte first.  The top 64 opcode values push the constant whose index is the opcode less
//! 192.  Every other byte outside the table is an invalid instruction.
use vstd::prelude::*;

verus! {

/// The first opcode of the constant range.
pub const CONSTANT_BASE: u8 = 192;

#[derive(Clone, Copy, Debug, PartialEq, Eq, Structural)]
pub enum Instr {
    StackRef(usize),
    Varref(usize),
    Varset(usize),
    Varbind(usize),
    Call(usize),
    Unbind(usize),
    Pophandler,
    PushConditionCase(usize),
    PushCatch(usize),
    Constant(usize),
    Goto(usize),
    GotoIfNil(usize),
    GotoIfNonNil(usize),
    GotoIfNilElsePop(usize),
    GotoIfNonNilElsePop(usize),
    Return,
    Discard,
    /// Discard `n` operands; with the flag set, keep the top one in place.
    DiscardN(usize, bool),
    Dup,
    /// Pop a procedure and record it as a cleanup on the binding stack.
    UnwindProtect,
    /// Unbind every entry that the current frame has bound.
    UnbindAll,
    /// Ask the host's primitive with this opcode for a procedure that restores the state it
    /// saves, and record that procedure as a cleanup (save-excursion and its kin).
    Save(u8),
    /// A known opcode that this machine does not implement.
    Unimplemented(u8),
    StackSet(usize),
    Switch,
    Symbolp,
    Consp,
    Stringp,
    Listp,
    Numberp,
    Integerp,
    Not,
    Eq,
    Equal,
    /// An opcode served by the host's primitive with that opcode, applied to the given
    /// number of operands from the top of the stack.
    Primitive(u8, usize),
}

/// An instruction and the number of bytes it takes.
#[derive(Clone, Copy, Debug, PartialEq, Eq, Structural)]
pub struct Decoded {
    pub instr: Instr,
    pub len: usize,
}

/// The number of operands of the opcodes that the host's primitives serve.
pub open spec fn primitive_arity_spec(op: u8) -> Option<usize> {
    match op {
        0o103 | 0o100 | 0o101 | 0o107 | 0o112 | 0o113 | 0o123 | 0o124 | 0o133 | 0o142 | 0o143
        | 0o146 | 0o152 | 0o161 | 0o165 | 0o166 | 0o171 | 0o172 | 0o177 | 0o224 | 0o225 | 0o226
        | 0o227 | 0o237 | 0o242 | 0o243 => Some(1),
        0o70 | 0o76 | 0o102 | 0o104 | 0o110 | 0o114 | 0o115 | 0o116 | 0o120 | 0o125 | 0o126
        | 0o127 | 0o130 | 0o131 | 0o132 | 0o134 | 0o135 | 0o136 | 0o137 | 0o167 | 0o170 | 0o173
        | 0o174 | 0o175 | 0o230 | 0o231 | 0o233 | 0o234 | 0o235 | 0o236 | 0o240 | 0o241 | 0o244
        | 0o245 | 0o246 => Some(2),
        0o105 | 0o111 | 0o117 | 0o121 | 0o223 => Some(3),
        0o106 | 0o122 => Some(4),
        0o140 | 0o144 | 0o145 | 0o147 | 0o150 | 0o151 | 0o154 | 0o155 | 0o156 | 0o157 | 0o160
        | 0o164 | 0o176 => Some(0),
        _ => None,
    }
}

/// Instructions of one byte with no operand.
pub open spec fn plain_spec(op: u8) -> Option<Instr> {
    match op {
        0o60 => Some(Instr::Pophandler),
        0o71 => Some(Instr::Symbolp),
        0o72 => Some(Instr::Consp),
        0o73 => Some(Instr::Stringp),
        0o74 => Some(Instr::Listp),
        0o75 => Some(Instr::Eq),
        0o77 => Some(Instr::Not),
        0o207 => Some(Instr::Return),
        0o210 => Some(Instr::Discard),
        0o211 => Some(Instr::Dup),
        0o216 => Some(Instr::UnwindProtect),
        0o222 => Some(Instr::UnbindAll),
        0o141 | 0o162 | 0o212 | 0o214 => Some(Instr::Save(op)),
        0o213 | 0o215 | 0o217 | 0o220 | 0o221 | 0o252 | 0o253 | 0o254 | 0o255 | 0o256 => Some(
            Instr::Unimplemented(op),
        ),
        0o232 => Some(Instr::Equal),
        0o247 => Some(Instr::Numberp),
        0o250 => Some(Instr::Integerp),
        0o267 => Some(Instr::Switch),
        _ => match primitive_arity_spec(op) {
            Some(n) => Some(Instr::Primitive(op, n)),
            None => None,
        },
    }
}

/// Instructions with a two-byte operand.
pub open spec fn wide_spec(op: u8, n: usize) -> Option<Instr> {
    match op {
        0o61 => Some(Instr::PushConditionCase(n)),
        0o62 => Some(Instr::PushCatch(n)),
        0o201 => Some(Instr::Constant(n)),
        0o202 => Some(Instr::Goto(n)),
        0o203 => Some(Instr::GotoIfNil(n)),
        0o204 => Some(Instr::GotoIfNonNil(n)),
        0o205 => Some(Instr::GotoIfNilElsePop(n)),
        0o206 => Some(Instr::GotoIfNonNilElsePop(n)),
        0o263 => Some(Instr::StackSet(n)),
        _ => None,
    }
}

/// Instructions with a one-byte operand.
pub open spec fn narrow_spec(op: u8, n: u8) -> Option<Instr> {
    match op {
        0o257 => Some(Instr::Primitive(op, n as usize)),
        0o260 => Some(Instr::Primitive(op, n as usize)),
        0o261 => Some(Instr::Primitive(op, n as usize)),
        0o262 => Some(Instr::StackSet(n as usize)),
        0o266 => Some(Instr::DiscardN((n % 128) as usize, n >= 128)),
        _ => None,
    }
}

/// The member of an operand family: `family` is the opcode divided by eight.
pub open spec fn family_spec(family: u8, n: usize) -> Instr {
    if family == 0 {
        Instr::StackRef(n)
    } else if family == 1 {
        Instr::Varref(n)
    } else if family == 2 {
        Instr::Varset(n)
    } else if family == 3 {
        Instr::Varbind(n)
    } else if family == 4 {
        Instr::Call(n)
    } else {
        Instr::Unbind(n)
    }
}

/// The two-byte little-endian operand that starts at `i`.
pub open spec fn u16_at(code: Seq<u8>, i: int) -> usize {
    (code[i] as int + 256 * code[i + 1] as int) as usize
}

/// The instruction at `pc`, or `None` where the byte there is no instruction or its
/// operand bytes run past the end.
pub open spec fn decode_spec(code: Seq<u8>, pc: int) -> Option<Decoded> {
    if !(0 <= pc < code.len()) {
        None
    } else {
        let op = code[pc];
        let has1 = code.len() - pc > 1;
        let has2 = code.len() - pc > 2;
        if op >= CONSTANT_BASE {
            Some(Decoded { instr: Instr::Constant((op - CONSTANT_BASE) as usize), len: 1 })
        } else if op < 0o60 {
            let low = op % 8;
            if low < 6 {
                Some(Decoded { instr: family_spec(op / 8, low as usize), len: 1 })
            } else if low == 6 {
                if has1 {
                    Some(Decoded { instr: family_spec(op / 8, code[pc + 1] as usize), len: 2 })
                } else {
                    None
                }
            } else if has2 {
                Some(Decoded { instr: family_spec(op / 8, u16_at(code, pc + 1)), len: 3 })
            } else {
                None
            }
        } else if let Some(i) = plain_spec(op) {
            Some(Decoded { instr: i, len: 1 })
        } else if has2 && wide_spec(op, u16_at(code, pc + 1)) is Some {
            Some(Decoded { instr: wide_spec(op, u16_at(code, pc + 1)).unwrap(), len: 3 })
        } else if has1 && narrow_spec(op, code[pc + 1]) is Some {
            Some(Decoded { instr: narrow_spec(op, code[pc + 1]).unwrap(), len: 2 })
        } else {
            None
        }
    }
}

fn primitive_arity(op: u8) -> (r: Option<usize>)
    ensures
        r == primitive_arity_spec(op),
{
    match op {
        0o103 | 0o100 | 0o101 | 0o107 | 0o112 | 0o113 | 0o123 | 0o124 | 0o133 | 0o142 | 0o143
        | 0o146 | 0o152 | 0o161 | 0o165 | 0o166 | 0o171 | 0o172 | 0o177 | 0o224 | 0o225 | 0o226
        | 0o227 | 0o237 | 0o242 | 0o243 => Some(1),
        0o70 | 0o76 | 0o102 | 0o104 | 0o110 | 0o114 | 0o115 | 0o116 | 0o120 | 0o125 | 0o126
        | 0o127 | 0o130 | 0o131 | 0o132 | 0o134 | 0o135 | 0o136 | 0o137 | 0o167 | 0o170 | 0o173
        | 0o174 | 0o175 | 0o230 | 0o231 | 0o233 | 0o234 | 0o235 | 0o236 | 0o240 | 0o241 | 0o244
        | 0o245 | 0o246 => Some(2),
        0o105 | 0o111 | 0o117 | 0o121 | 0o223 => Some(3),
        0o106 | 0o122 => Some(4),
        0o140 | 0o144 | 0o145 | 0o147 | 0o150 | 0o151 | 0o154 | 0o155 | 0o156 | 0o157 | 0o160
        | 0o164 | 0o176 => Some(0),
        _ => None,
    }
}

fn plain(op: u8) -> (r: Option<Instr>)
    ensures
        r == plain_spec(op),
{
    match op {
        0o60 => Some(Instr::Pophandler),
        0o71 => Some(Instr::Symbolp),
        0o72 => Some(Instr::Consp),
        0o73 => Some(Instr::Stringp),
        0o74 => Some(Instr::Listp),
        0o75 => Some(Instr::Eq),
        0o77 => Some(Instr::Not),
        0o207 => Some(Instr::Return),
        0o210 => Some(Instr::Discard),
        0o211 => Some(Instr::Dup),
        0o216 => Some(Instr::UnwindProtect),
        0o222 => Some(Instr::UnbindAll),
        0o141 | 0o162 | 0o212 | 0o214 => Some(Instr::Save(op)),
        0o213 | 0o215 | 0o217 | 0o220 | 0o221 | 0o252 | 0o253 | 0o254 | 0o255 | 0o256 => Some(
            Instr::Unimplemented(op),
        ),
        0o232 => Some(Instr::Equal),
        0o247 => Some(Instr::Numberp),
        0o250 => Some(Instr::Integerp),
        0o267 => Some(Instr::Switch),
        _ => match primitive_arity(op) {
            Some(n) => Some(Instr::Primitive(op, n)),
            None => None,
        },
    }
}

fn wide(op: u8, n: usize) -> (r: Option<Instr>)
    ensures
        r == wide_spec(op, n),
{
    match op {
        0o61 => Some(Instr::PushConditionCase(n)),
        0o62 => Some(Instr::PushCatch(n)),
        0o201 => Some(Instr::Constant(n)),
        0o202 => Some(Instr::Goto(n)),
        0o203 => Some(Instr::GotoIfNil(n)),
        0o204 => Some(Instr::GotoIfNonNil(n)),
        0o205 => Some(Instr::GotoIfNilElsePop(n)),
        0o206 => Some(Instr::GotoIfNonNilElsePop(n)),
        0o263 => Some(Instr::StackSet(n)),
        _ => None,
    }
}

fn narrow(op: u8, n: u8) -> (r: Option<Instr>)
    ensures
        r == narrow_spec(op, n),
{
    match op {
        0o257 => Some(Instr::Primitive(op, n as usize)),
        0o260 => Some(Instr::Primitive(op, n as usize)),
        0o261 => Some(Instr::Primitive(op, n as usize)),
        0o262 => Some(Instr::StackSet(n as usize)),
        0o266 => Some(Instr::DiscardN((n % 128) as usize, n >= 128)),
        _ => None,
    }
}

fn family(f: u8, n: usize) -> (r: Instr)
    ensures
        r == family_spec(f, n),
{
    if f == 0 {
        Instr::StackRef(n)
    } else if f == 1 {
        Instr::Varref(n)
    } else if f == 2 {
        Instr::Varset(n)
    } else if f == 3 {
        Instr::Varbind(n)
    } else if f == 4 {
        Instr::Call(n)
    } else {
        Instr::Unbind(n)
    }
}

/// Reads the two-byte little-endian operand that starts at `i`.
pub fn read_u16(code: &[u8], i: usize) -> (r: usize)
    requires
        i + 1 < code@.len(),
    ensures
        r == u16_at(code@, i as int),
        r < 65536,
{
    code[i] as usize + 256 * (code[i + 1] as usize)
}

/// Decodes the instruction at `pc`.
pub fn decode(code: &[u8], pc: usize) -> (r: Option<Decoded>)
    ensures
        r == decode_spec(code@, pc as int),
        r matches Some(d) ==> 1 <= d.len <= 3 && pc + d.len <= code@.len() && pc + d.len
            <= usize::MAX,
{
    if pc >= code.len() {
        return None;
    }
    let op = code[pc];
    let has1 = code.len() - pc > 1;
    let has2 = code.len() - pc > 2;
    if op >= CONSTANT_BASE {
        Some(Decoded { instr: Instr::Constant((op - CONSTANT_BASE) as usize), len: 1 })
    } else if op < 0o60 {
        let low = op % 8;
        if low < 6 {
            Some(Decoded { instr: family(op / 8, low as usize), len: 1 })
        } else if low == 6 {
            if has1 {
                Some(Decoded { instr: family(op / 8, code[pc + 1] as usize), len: 2 })
            } else {
                None
            }
        } else if has2 {
            Some(Decoded { instr: family(op / 8, read_u16(code, pc + 1)), len: 3 })
        } else {
            None
        }
    } else if let Some(i) = plain(op) {
        Some(Decoded { instr: i, len: 1 })
    } else {
        if has2 {
            if let Some(i) = wide(op, read_u16(code, pc + 1)) {
                return Some(Decoded { instr: i, len: 3 });
            }
        }
        if has1 {
            if let Some(i) = narrow(op, code[pc + 1]) {
                return Some(Decoded { instr: i, len: 2 });
            }
        }
        None
    }
}

} // verus!
