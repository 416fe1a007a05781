//! Core of a minimal stack-based language: a program is an append-only arena
//! of named operations, each either a primitive of the fixed instruction set
//! or a user-defined sequence of arena indices.  The same program can be
//! walked by a tree interpreter against a single operand stack, or lowered to
//! a textual assembly listing that an external assembler turns into a native
//! binary.  Both walks share the control-flow rules of the language.

pub mod builder;
pub mod emit;
pub mod interp;
pub mod laws;
pub mod num;
pub mod op;
pub mod sem;
