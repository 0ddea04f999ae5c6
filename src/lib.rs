//! A compact stack-based interpreter in the Forth family: a tokenizer, tagged
//! cells, windowed data stacks, a word store with namespaces, fixed-capacity
//! definitions and a reference-counted allocator, driven one step at a time.
//!
//! Floats travel through the library as IEEE-754 bit patterns: reading a
//! float token and float arithmetic are left to the host, which answers the
//! `Step::Float` requests of `Interpreter::run_step` with
//! `Interpreter::resume_float`. Host primitives are registered by number
//! and reported by `Step::Host`.
use vstd::prelude::*;

pub mod access;
pub mod cell;
pub mod control;
mod dictionary;
pub mod error;
pub mod interp;
pub mod laws;
pub mod memory;
pub mod name;
pub mod primitives;
pub mod stack;
pub mod step;
pub mod tib;
pub mod word;

pub use access::{mem_alloc, mem_at, mem_exlam, mem_offset};
pub use cell::{Cell, KrkInt, Literal};
pub use control::{close_curly, close_parenth, flush, from_aux, open_curly, open_parenth, size, to_aux};
pub use error::KrkErr;
pub use interp::{ArithOp, Builder, CompareOp, FloatReply, FloatRequest, Interpreter, Mode, Step};
pub use memory::{Alloc, AllocBuffer, Allocs};
pub use name::{word_name_from_str, WordName, NAME_SIZE};
pub use primitives::{
    and, equal, minus, not, or, percent, plus, slash, smaller, star, two_int_op_template,
    two_num_comp_template, two_num_op_template, BitOp,
};
pub use stack::{AuxStack, ReturnStack, Stack, CEP};
pub use tib::TIB;
pub use word::{
    DefinedWord, LexiconWord, LinkWord, Primitive, PrimitiveWord, Word, WordDefinition, WordFlavor, Words,
    DEFINITION_SIZE,
};

verus! {

} // verus!
