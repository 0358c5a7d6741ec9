//! The opcode table: a bidirectional map between mnemonics, numeric codes
//! and the instructions the virtual machine executes.

use vstd::prelude::*;

verus! {

/// Every instruction the virtual machine knows, plus `IGL` for anything
/// outside the table.
#[derive(Debug, PartialEq, Eq, Structural, Clone, Copy)]
pub enum Opcode {
    HLT,
    LOAD,
    ADD,
    SUB,
    MUL,
    DIV,
    JMP,
    JMPF,
    JMPB,
    EQ,
    NEQ,
    GT,
    LT,
    GTQ,
    LTQ,
    JEQ,
    ALOC,
    PRTS,
    SLP,
    SLPS,
    ASKI,
    ASKS,
    GRPS,
    IGL,
}

/// Decoding: the numeric code of each opcode; any byte outside the table
/// decodes to `IGL`.
pub open spec fn opcode_of_byte(v: u8) -> Opcode {
    if v == 0 {
        Opcode::HLT
    } else if v == 1 {
        Opcode::LOAD
    } else if v == 2 {
        Opcode::ADD
    } else if v == 3 {
        Opcode::SUB
    } else if v == 4 {
        Opcode::MUL
    } else if v == 5 {
        Opcode::DIV
    } else if v == 6 {
        Opcode::JMP
    } else if v == 7 {
        Opcode::JMPF
    } else if v == 8 {
        Opcode::JMPB
    } else if v == 9 {
        Opcode::EQ
    } else if v == 10 {
        Opcode::NEQ
    } else if v == 11 {
        Opcode::GT
    } else if v == 12 {
        Opcode::LT
    } else if v == 13 {
        Opcode::GTQ
    } else if v == 14 {
        Opcode::LTQ
    } else if v == 15 {
        Opcode::JEQ
    } else if v == 16 {
        Opcode::ALOC
    } else if v == 17 {
        Opcode::PRTS
    } else if v == 18 {
        Opcode::SLP
    } else if v == 19 {
        Opcode::SLPS
    } else if v == 20 {
        Opcode::ASKI
    } else if v == 21 {
        Opcode::ASKS
    } else if v == 22 {
        Opcode::GRPS
    } else {
        Opcode::IGL
    }
}

/// Encoding: the byte the assembler emits for each opcode.
pub open spec fn byte_of_opcode(op: Opcode) -> u8 {
    match op {
        Opcode::HLT => 0,
        Opcode::LOAD => 1,
        Opcode::ADD => 2,
        Opcode::SUB => 3,
        Opcode::MUL => 4,
        Opcode::DIV => 5,
        Opcode::JMP => 6,
        Opcode::JMPF => 7,
        Opcode::JMPB => 8,
        Opcode::EQ => 9,
        Opcode::NEQ => 10,
        Opcode::GT => 11,
        Opcode::LT => 12,
        Opcode::GTQ => 13,
        Opcode::LTQ => 14,
        Opcode::JEQ => 15,
        Opcode::ALOC => 16,
        Opcode::PRTS => 17,
        Opcode::SLP => 18,
        Opcode::SLPS => 19,
        Opcode::ASKI => 20,
        Opcode::ASKS => 21,
        Opcode::GRPS => 22,
        Opcode::IGL => 23,
    }
}

/// Decoding a byte produced by the encoder always yields the opcode it
/// was produced from, and every byte outside the table decodes to `IGL`.
pub proof fn lemma_opcode_round_trip(op: Opcode, v: u8)
    ensures
        opcode_of_byte(byte_of_opcode(op)) == op,
        v > 22 ==> opcode_of_byte(v) == Opcode::IGL,
{
}

impl Opcode {
    /// The byte the assembler writes for this opcode.
    pub fn to_byte(self) -> (r: u8)
        ensures
            r == byte_of_opcode(self),
    {
        match self {
            Opcode::HLT => 0,
            Opcode::LOAD => 1,
            Opcode::ADD => 2,
            Opcode::SUB => 3,
            Opcode::MUL => 4,
            Opcode::DIV => 5,
            Opcode::JMP => 6,
            Opcode::JMPF => 7,
            Opcode::JMPB => 8,
            Opcode::EQ => 9,
            Opcode::NEQ => 10,
            Opcode::GT => 11,
            Opcode::LT => 12,
            Opcode::GTQ => 13,
            Opcode::LTQ => 14,
            Opcode::JEQ => 15,
            Opcode::ALOC => 16,
            Opcode::PRTS => 17,
            Opcode::SLP => 18,
            Opcode::SLPS => 19,
            Opcode::ASKI => 20,
            Opcode::ASKS => 21,
            Opcode::GRPS => 22,
            Opcode::IGL => 23,
        }
    }
}

impl From<u8> for Opcode {
    fn from(v: u8) -> (r: Self) {
        if v == 0 {
            Opcode::HLT
        } else if v == 1 {
            Opcode::LOAD
        } else if v == 2 {
            Opcode::ADD
        } else if v == 3 {
            Opcode::SUB
        } else if v == 4 {
            Opcode::MUL
        } else if v == 5 {
            Opcode::DIV
        } else if v == 6 {
            Opcode::JMP
        } else if v == 7 {
            Opcode::JMPF
        } else if v == 8 {
            Opcode::JMPB
        } else if v == 9 {
            Opcode::EQ
        } else if v == 10 {
            Opcode::NEQ
        } else if v == 11 {
            Opcode::GT
        } else if v == 12 {
            Opcode::LT
        } else if v == 13 {
            Opcode::GTQ
        } else if v == 14 {
            Opcode::LTQ
        } else if v == 15 {
            Opcode::JEQ
        } else if v == 16 {
            Opcode::ALOC
        } else if v == 17 {
            Opcode::PRTS
        } else if v == 18 {
            Opcode::SLP
        } else if v == 19 {
            Opcode::SLPS
        } else if v == 20 {
            Opcode::ASKI
        } else if v == 21 {
            Opcode::ASKS
        } else if v == 22 {
            Opcode::GRPS
        } else {
            Opcode::IGL
        }
    }
}

impl vstd::std_specs::convert::FromSpecImpl<u8> for Opcode {
    open spec fn obeys_from_spec() -> bool {
        true
    }

    open spec fn from_spec(v: u8) -> Opcode {
        opcode_of_byte(v)
    }
}

/// An instruction as the assembler models it: just its opcode.
#[derive(Debug, PartialEq, Eq, Structural)]
pub struct Instruction {
    pub opcode: Opcode,
}

impl Instruction {
    pub fn new(opcode: Opcode) -> (r: Self)
        ensures
            r.opcode == opcode,
    {
        Instruction { opcode }
    }
}

} // verus!
