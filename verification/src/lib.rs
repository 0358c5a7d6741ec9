//! A small register-based virtual machine and its two-pass assembler.
//!
//! The assembler turns source text into a self-describing binary image
//! (magic prefix, constant-heap header, heap body, code); the virtual
//! machine loads such an image and executes it word by word.

pub mod assembler;
pub mod cli;
pub mod error;
pub mod events;
mod host;
pub mod instruction;
pub mod keys;
pub mod memory;
pub mod parser;
pub mod repl;
pub mod scheduler;
pub mod strutil;
pub mod symbols;
pub mod tokens;
pub mod vm;

use vstd::prelude::*;

verus! {

/// The five magic bytes that begin every image: `r o c k y`.
pub const PIE_HEADER_PREFIX: [u8; 5] = [114, 111, 99, 107, 121];

/// Total size of the image prologue: magic plus heap header plus padding.
pub const PIE_HEADER_LENGTH: usize = 64;

/// The magic bytes as a sequence, for use in contracts.
pub open spec fn spec_magic() -> Seq<u8> {
    seq![114u8, 111u8, 99u8, 107u8, 121u8]
}

} // verus!
