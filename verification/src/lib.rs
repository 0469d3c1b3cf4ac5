//! A small virtual machine whose instructions are disguised as printf-style
//! conversion specifiers.
//!
//! The crate decodes one instruction from a byte stream (`insn`), executes it
//! against a flat register-plus-memory machine (`state`, `exec`), renders it
//! as pseudo-code for a human audit (`render`), and carries the hand-ported
//! routines of the solved target program (`program`).

use vstd::prelude::*;

pub mod executor;
pub mod program;
pub mod render;
pub mod insn;
pub mod state;
pub mod text;

verus! {

/// Every failure the machine can surface. Decoding, memory access and
/// execution never panic; they report one of these instead.
#[derive(Clone, Copy, Debug, PartialEq, Eq, Structural)]
pub enum Error {
    /// The decoder ran past the end of the buffer while expecting more input.
    UnexpectedEndOfStream,
    /// A marker byte, conversion character or operand combination fell
    /// outside the closed grammar.
    MalformedInstruction,
    /// A memory access reached beyond the allocated buffer.
    OutOfBounds,
    /// A division or remainder with a zero source value.
    DivisionByZero,
}

} // verus!
