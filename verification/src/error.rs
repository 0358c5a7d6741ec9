//! The assembler's error taxonomy. Errors accumulate within a pass;
//! assembly fails atomically when any are present at a pass boundary.

use vstd::prelude::*;

verus! {

#[derive(Debug, Clone, PartialEq)]
pub enum AssemblerError {
    /// The parser could not consume the program text.
    ParseError { error: String },
    /// The parser consumed only part of the program text.
    UnterminatedProgram,
    /// A labelled or code-bearing line appeared before any section header.
    NoSegmentDeclarationFound { instruction: u32 },
    /// A label was declared twice.
    SymbolAlreadyDeclared,
    /// A data directive with operands had no label attached.
    StringConstantDeclaredWithoutLabel { instruction: u32 },
    /// A directive name outside the known set.
    UnknownDirectiveFound { directive: String },
    /// Fewer than two distinct section headers were declared.
    InsufficientSections,
    /// A label was used in an operand but never declared.
    UnknownLabelFound { name: String },
    /// A token that is not an operand stood in an operand slot.
    OpcodeInOperandField,
}

} // verus!

verus! {

/// The mathematical model of an assembler error: strings as character
/// sequences.
pub enum SpecAsmError {
    Parse(Seq<char>),
    Unterminated,
    NoSegment(u32),
    DupSymbol,
    NoLabel(u32),
    UnknownDirective(Seq<char>),
    Insufficient,
    UnknownLabel(Seq<char>),
    BadToken,
}

impl View for AssemblerError {
    type V = SpecAsmError;

    open spec fn view(&self) -> SpecAsmError {
        match self {
            AssemblerError::ParseError { error } => SpecAsmError::Parse(error@),
            AssemblerError::UnterminatedProgram => SpecAsmError::Unterminated,
            AssemblerError::NoSegmentDeclarationFound { instruction } => SpecAsmError::NoSegment(
                *instruction,
            ),
            AssemblerError::SymbolAlreadyDeclared => SpecAsmError::DupSymbol,
            AssemblerError::StringConstantDeclaredWithoutLabel { instruction } => {
                SpecAsmError::NoLabel(*instruction)
            },
            AssemblerError::UnknownDirectiveFound { directive } => SpecAsmError::UnknownDirective(
                directive@,
            ),
            AssemblerError::InsufficientSections => SpecAsmError::Insufficient,
            AssemblerError::UnknownLabelFound { name } => SpecAsmError::UnknownLabel(name@),
            AssemblerError::OpcodeInOperandField => SpecAsmError::BadToken,
        }
    }
}

impl DeepView for AssemblerError {
    type V = SpecAsmError;

    open spec fn deep_view(&self) -> SpecAsmError {
        self.view()
    }
}

impl AssemblerError {
    /// An identical copy, field by field.
    pub fn duplicate(&self) -> (r: AssemblerError)
        ensures
            r@ == self@,
            r == *self,
    {
        match self {
            AssemblerError::ParseError { error } => AssemblerError::ParseError {
                error: error.clone(),
            },
            AssemblerError::UnterminatedProgram => AssemblerError::UnterminatedProgram,
            AssemblerError::NoSegmentDeclarationFound { instruction } => {
                AssemblerError::NoSegmentDeclarationFound { instruction: *instruction }
            },
            AssemblerError::SymbolAlreadyDeclared => AssemblerError::SymbolAlreadyDeclared,
            AssemblerError::StringConstantDeclaredWithoutLabel { instruction } => {
                AssemblerError::StringConstantDeclaredWithoutLabel { instruction: *instruction }
            },
            AssemblerError::UnknownDirectiveFound { directive } => {
                AssemblerError::UnknownDirectiveFound { directive: directive.clone() }
            },
            AssemblerError::InsufficientSections => AssemblerError::InsufficientSections,
            AssemblerError::UnknownLabelFound { name } => AssemblerError::UnknownLabelFound {
                name: name.clone(),
            },
            AssemblerError::OpcodeInOperandField => AssemblerError::OpcodeInOperandField,
        }
    }
}

} // verus!
