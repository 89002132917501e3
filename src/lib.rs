//! A byte-code interpreter for a dynamically typed Lisp-family language.
//!
//! A compiled procedure is a byte string, a constant pool, a declared stack bound and an
//! optional argument template.  The [`machine::Machine`] runs such procedures against an
//! operand stack, a dynamic binding stack and a handler stack for non-local exits.
use vstd::prelude::*;

pub mod value;
pub mod template;
pub mod opcode;
pub mod env;
pub mod state;
pub mod semantics;
pub mod machine;
pub mod laws;
