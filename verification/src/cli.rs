//! The plain argument records the command line parses into. The parsing
//! itself is host glue; these are the values the library is driven by.

use crate::repl::REPLMode;
use vstd::prelude::*;

verus! {

/// What the program was asked to do.
#[derive(Debug, Clone)]
pub enum Args<'a> {
    Repl(REPLArgs),
    RunFile(RunFileArgs<'a>),
    AddSshKey(AddSshKeyArgs<'a>),
}

/// Options for an interactive session.
#[derive(Debug, Clone)]
pub struct REPLArgs {
    pub mode: REPLMode,
    pub enable_ssh: bool,
    pub ssh_port: u8,
}

/// Options for assembling and running one file.
#[derive(Debug, Clone)]
pub struct RunFileArgs<'a> {
    pub num_threads: usize,
    pub filename: &'a str,
    pub debug: bool,
}

/// Options for registering a public key.
#[derive(Debug, Clone)]
pub struct AddSshKeyArgs<'a> {
    pub pub_key_file: &'a str,
}

} // verus!
