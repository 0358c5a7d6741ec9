//! Tokens, the uniform instruction record the parser produces, and the
//! bytecode emitter for code instructions.

use crate::error::AssemblerError;
use crate::instruction::{byte_of_opcode, Opcode};
use crate::symbols::{spec_symbol_value, SpecSymbol, SymbolTable};
use vstd::prelude::*;

verus! {

/// A lexical token of the assembly language.
#[derive(Debug, PartialEq, Clone)]
pub enum Token {
    Opcode { code: Opcode },
    Register { reg_num: u8 },
    IntegerOperand { value: i32 },
    LabelDeclaration { name: String },
    LabelUsage { name: String },
    Directive { name: String },
    RkString { name: String },
}

/// The mathematical model of a token: names as character sequences.
pub enum SpecToken {
    Opcode { code: Opcode },
    Register { reg_num: u8 },
    IntegerOperand { value: i32 },
    LabelDeclaration { name: Seq<char> },
    LabelUsage { name: Seq<char> },
    Directive { name: Seq<char> },
    RkString { name: Seq<char> },
}

impl View for Token {
    type V = SpecToken;

    open spec fn view(&self) -> SpecToken {
        match self {
            Token::Opcode { code } => SpecToken::Opcode { code: *code },
            Token::Register { reg_num } => SpecToken::Register { reg_num: *reg_num },
            Token::IntegerOperand { value } => SpecToken::IntegerOperand { value: *value },
            Token::LabelDeclaration { name } => SpecToken::LabelDeclaration { name: name@ },
            Token::LabelUsage { name } => SpecToken::LabelUsage { name: name@ },
            Token::Directive { name } => SpecToken::Directive { name: name@ },
            Token::RkString { name } => SpecToken::RkString { name: name@ },
        }
    }
}

impl DeepView for Token {
    type V = SpecToken;

    open spec fn deep_view(&self) -> SpecToken {
        self.view()
    }
}

/// The model of an optional token slot.
pub open spec fn opt_token_view(o: Option<Token>) -> Option<SpecToken> {
    match o {
        Some(t) => Some(t@),
        None => None,
    }
}

/// One parsed line: a code instruction or a directive, optionally
/// labelled, with up to three operand tokens.
#[derive(Debug, PartialEq)]
pub struct AssemblerInstruction {
    pub opcode: Option<Token>,
    pub label: Option<Token>,
    pub directive: Option<Token>,
    pub operand1: Option<Token>,
    pub operand2: Option<Token>,
    pub operand3: Option<Token>,
}

/// The mathematical model of one parsed line.
pub struct SpecInstruction {
    pub opcode: Option<SpecToken>,
    pub label: Option<SpecToken>,
    pub directive: Option<SpecToken>,
    pub operand1: Option<SpecToken>,
    pub operand2: Option<SpecToken>,
    pub operand3: Option<SpecToken>,
}

impl View for AssemblerInstruction {
    type V = SpecInstruction;

    open spec fn view(&self) -> SpecInstruction {
        SpecInstruction {
            opcode: opt_token_view(self.opcode),
            label: opt_token_view(self.label),
            directive: opt_token_view(self.directive),
            operand1: opt_token_view(self.operand1),
            operand2: opt_token_view(self.operand2),
            operand3: opt_token_view(self.operand3),
        }
    }
}

impl DeepView for AssemblerInstruction {
    type V = SpecInstruction;

    open spec fn deep_view(&self) -> SpecInstruction {
        self.view()
    }
}

impl Default for AssemblerInstruction {
    fn default() -> (r: Self)
        ensures
            r.opcode is None,
            r.label is None,
            r.directive is None,
            r.operand1 is None,
            r.operand2 is None,
            r.operand3 is None,
    {
        AssemblerInstruction {
            opcode: None,
            label: None,
            directive: None,
            operand1: None,
            operand2: None,
            operand3: None,
        }
    }
}

/// What emitting an operand or an instruction yields: its bytes, or the
/// reason emission is a fatal assembly error.
pub enum EmitResult {
    Bytes(Seq<u8>),
    UnknownLabel(Seq<char>),
    BadToken,
}

/// The big-endian bytes of a 16-bit immediate.
pub open spec fn spec_be16(x: u16) -> Seq<u8> {
    seq![(x / 256) as u8, (x % 256) as u8]
}

/// The bytes an operand token contributes to its instruction word.
pub open spec fn spec_operand_emit(t: SpecToken, syms: Seq<SpecSymbol>) -> EmitResult {
    match t {
        SpecToken::Register { reg_num } => EmitResult::Bytes(seq![reg_num]),
        SpecToken::IntegerOperand { value } => EmitResult::Bytes(spec_be16(value as u16)),
        SpecToken::LabelUsage { name } => match spec_symbol_value(syms, name) {
            Some(value) => EmitResult::Bytes(spec_be16(value as u16)),
            None => EmitResult::UnknownLabel(name),
        },
        _ => EmitResult::BadToken,
    }
}

/// Zero padding up to the next multiple of four bytes.
pub open spec fn spec_pad_to_word(s: Seq<u8>) -> Seq<u8> {
    s + Seq::new(((4 - s.len() % 4) % 4) as nat, |i: int| 0u8)
}

/// The opcode byte of an instruction record; a record whose opcode slot
/// holds no opcode token contributes no byte.
pub open spec fn spec_opcode_byte(i: SpecInstruction) -> Seq<u8> {
    match i.opcode {
        Some(SpecToken::Opcode { code }) => seq![byte_of_opcode(code)],
        _ => Seq::empty(),
    }
}

/// The bytes of one code instruction: opcode byte, then each present
/// operand's bytes, zero-padded to a whole number of four-byte words.
pub open spec fn spec_instr_emit(i: SpecInstruction, syms: Seq<SpecSymbol>) -> EmitResult {
    let operands = seq![i.operand1, i.operand2, i.operand3];
    spec_instr_emit_rec(spec_opcode_byte(i), operands, syms)
}

pub open spec fn spec_instr_emit_rec(
    acc: Seq<u8>,
    operands: Seq<Option<SpecToken>>,
    syms: Seq<SpecSymbol>,
) -> EmitResult
    decreases operands.len(),
{
    if operands.len() == 0 {
        EmitResult::Bytes(spec_pad_to_word(acc))
    } else {
        match operands[0] {
            None => spec_instr_emit_rec(acc, operands.drop_first(), syms),
            Some(t) => match spec_operand_emit(t, syms) {
                EmitResult::Bytes(b) => spec_instr_emit_rec(acc + b, operands.drop_first(), syms),
                e => e,
            },
        }
    }
}

impl AssemblerInstruction {
    /// Whether a label is attached to this line.
    pub fn is_label(&self) -> (r: bool)
        ensures
            r == (self.label is Some),
    {
        self.label.is_some()
    }

    /// The attached label's name, when the label slot holds a label
    /// declaration token.
    pub fn label_name(&self) -> (r: Option<String>)
        ensures
            match self.spec_label_name() {
                Some(n) => r matches Some(s) && s@ == n,
                None => r is None,
            },
    {
        match &self.label {
            Some(l) => match l {
                Token::LabelDeclaration { name } => Some(name.clone()),
                _ => None,
            },
            None => None,
        }
    }

    pub open spec fn spec_label_name(&self) -> Option<Seq<char>> {
        match self@.label {
            Some(SpecToken::LabelDeclaration { name }) => Some(name),
            _ => None,
        }
    }

    /// Whether this line is a directive line.
    pub fn is_directive(&self) -> (r: bool)
        ensures
            r == (self.directive is Some),
    {
        self.directive.is_some()
    }

    /// The directive's name, when the directive slot holds a directive
    /// token.
    pub fn directive_name(&self) -> (r: Option<String>)
        ensures
            match self.spec_directive_name() {
                Some(n) => r matches Some(s) && s@ == n,
                None => r is None,
            },
    {
        match &self.directive {
            Some(d) => match d {
                Token::Directive { name } => Some(name.clone()),
                _ => None,
            },
            None => None,
        }
    }

    pub open spec fn spec_directive_name(&self) -> Option<Seq<char>> {
        match self@.directive {
            Some(SpecToken::Directive { name }) => Some(name),
            _ => None,
        }
    }

    /// Whether any operand slot is filled.
    pub fn has_operands(&self) -> (r: bool)
        ensures
            r == (self.operand1 is Some || self.operand2 is Some || self.operand3 is Some),
    {
        self.operand1.is_some() || self.operand2.is_some() || self.operand3.is_some()
    }

    /// The first operand's string contents, when it is a string token.
    pub fn string_constant(&self) -> (r: Option<String>)
        ensures
            match self.spec_string_constant() {
                Some(n) => r matches Some(s) && s@ == n,
                None => r is None,
            },
    {
        match &self.operand1 {
            Some(d) => match d {
                Token::RkString { name } => Some(name.clone()),
                _ => None,
            },
            None => None,
        }
    }

    pub open spec fn spec_string_constant(&self) -> Option<Seq<char>> {
        match self@.operand1 {
            Some(SpecToken::RkString { name }) => Some(name),
            _ => None,
        }
    }

    /// The first operand's integer value, when it is an integer token.
    pub fn integer_operand(&self) -> (r: Option<i32>)
        ensures
            r == self.spec_integer_operand(),
    {
        match &self.operand1 {
            Some(d) => match d {
                Token::IntegerOperand { value } => Some(*value),
                _ => None,
            },
            None => None,
        }
    }

    pub open spec fn spec_integer_operand(&self) -> Option<i32> {
        match self@.operand1 {
            Some(SpecToken::IntegerOperand { value }) => Some(value),
            _ => None,
        }
    }

    /// Whether this line is a code instruction.
    pub fn is_opcode(&self) -> (r: bool)
        ensures
            r == (self.opcode is Some),
    {
        self.opcode.is_some()
    }

    /// Emits this code instruction's bytes: the opcode byte and the
    /// operand bytes, zero-padded to whole four-byte words. Fails on an
    /// operand slot holding a non-operand token or an undeclared label.
    pub fn to_bytes(&self, symbols: &SymbolTable) -> (r: Result<Vec<u8>, AssemblerError>)
        ensures
            match spec_instr_emit(self@, symbols@) {
                EmitResult::Bytes(b) => r matches Ok(v) && v@ == b,
                EmitResult::UnknownLabel(n) => r matches Err(AssemblerError::UnknownLabelFound {
                    name }) && name@ == n,
                EmitResult::BadToken => r matches Err(AssemblerError::OpcodeInOperandField),
            },
    {
        let ghost syms = symbols@;
        let mut results: Vec<u8> = Vec::new();
        match &self.opcode {
            Some(token) => match token {
                Token::Opcode { code } => {
                    results.push(code.to_byte());
                },
                _ => {
                    // A non-opcode token in the opcode slot contributes no
                    // byte; the record still emits its operands.
                },
            },
            None => {},
        }
        proof {
            assert(results@ =~= spec_opcode_byte(self@));
        }
        let ghost operands = seq![self@.operand1, self@.operand2, self@.operand3];
        let ghost emit = spec_instr_emit(self@, syms);

        proof {
            assert(operands.skip(0) =~= operands);
            assert(operands[0] == self@.operand1);
            assert(operands.skip(0).drop_first() =~= operands.skip(1));
            assert(operands.skip(1)[0] == self@.operand2);
            assert(operands.skip(1).drop_first() =~= operands.skip(2));
            assert(operands.skip(2)[0] == self@.operand3);
            assert(operands.skip(2).drop_first() =~= operands.skip(3));
            assert(emit == spec_instr_emit_rec(results@, operands.skip(0), syms));
        }
        match &self.operand1 {
            Some(t) => {
                proof {
                    assert(self@.operand1 == Some(t@));
                }
                match AssemblerInstruction::extract_operand(t, &mut results, symbols) {
                    Ok(()) => {},
                    Err(e) => {
                        return Err(e);
                    },
                }
            },
            None => {},
        }
        proof {
            assert(emit == spec_instr_emit_rec(results@, operands.skip(1), syms));
        }
        match &self.operand2 {
            Some(t) => {
                proof {
                    assert(self@.operand2 == Some(t@));
                }
                match AssemblerInstruction::extract_operand(t, &mut results, symbols) {
                    Ok(()) => {},
                    Err(e) => {
                        return Err(e);
                    },
                }
            },
            None => {},
        }
        proof {
            assert(emit == spec_instr_emit_rec(results@, operands.skip(2), syms));
        }
        match &self.operand3 {
            Some(t) => {
                proof {
                    assert(self@.operand3 == Some(t@));
                }
                match AssemblerInstruction::extract_operand(t, &mut results, symbols) {
                    Ok(()) => {},
                    Err(e) => {
                        return Err(e);
                    },
                }
            },
            None => {},
        }
        proof {
            assert(emit == spec_instr_emit_rec(results@, operands.skip(3), syms));
            assert(operands.skip(3) =~= Seq::<Option<SpecToken>>::empty());
            assert(emit == EmitResult::Bytes(spec_pad_to_word(results@)));
        }
        // Zero padding to the next word boundary.
        let mut pad = results.len() % 4;
        if pad != 0 {
            pad = 4 - pad;
        }
        let ghost before = results@;
        let mut k: usize = 0;
        while k < pad
            invariant
                k <= pad,
                pad == ((4 - before.len() % 4) % 4),
                results@ == before + Seq::new(k as nat, |i: int| 0u8),
            decreases pad - k,
        {
            results.push(0);
            proof {
                assert(results@ =~= before + Seq::new((k + 1) as nat, |i: int| 0u8));
            }
            k += 1;
        }
        proof {
            assert(results@ =~= spec_pad_to_word(before));
        }
        Ok(results)
    }

    /// Appends the bytes one operand token contributes: a register's
    /// index byte, or a 16-bit big-endian immediate or resolved label
    /// index. Any other token here is a fatal assembly error.
    fn extract_operand(t: &Token, results: &mut Vec<u8>, symbols: &SymbolTable) -> (r: Result<
        (),
        AssemblerError,
    >)
        ensures
            match spec_operand_emit(t@, symbols@) {
                EmitResult::Bytes(b) => r matches Ok(()) && final(results)@ == old(results)@ + b,
                EmitResult::UnknownLabel(n) => r matches Err(AssemblerError::UnknownLabelFound {
                    name }) && name@ == n && final(results)@ == old(results)@,
                EmitResult::BadToken => r matches Err(AssemblerError::OpcodeInOperandField)
                    && final(results)@ == old(results)@,
            },
    {
        match t {
            Token::Register { reg_num } => {
                results.push(*reg_num);
                proof {
                    assert(results@ =~= old(results)@ + seq![*reg_num]);
                }
                Ok(())
            },
            Token::IntegerOperand { value } => {
                let converted: u16 = #[verifier::truncate] (*value as u16);
                results.push((converted / 256) as u8);
                results.push((converted % 256) as u8);
                proof {
                    assert(results@ =~= old(results)@ + spec_be16(converted));
                }
                Ok(())
            },
            Token::LabelUsage { name } => {
                match symbols.symbol_value(name.as_str()) {
                    Some(value) => {
                        let converted: u16 = #[verifier::truncate] (value as u16);
                        results.push((converted / 256) as u8);
                        results.push((converted % 256) as u8);
                        proof {
                            assert(results@ =~= old(results)@ + spec_be16(converted));
                        }
                        Ok(())
                    },
                    None => Err(AssemblerError::UnknownLabelFound { name: name.clone() }),
                }
            },
            _ => Err(AssemblerError::OpcodeInOperandField),
        }
    }
}

/// The bytes of a whole program: each code instruction's words in order;
/// directive lines contribute none.
pub open spec fn spec_program_emit(
    instrs: Seq<SpecInstruction>,
    syms: Seq<SpecSymbol>,
) -> EmitResult
    decreases instrs.len(),
{
    if instrs.len() == 0 {
        EmitResult::Bytes(Seq::empty())
    } else {
        match spec_program_emit(instrs.drop_last(), syms) {
            EmitResult::Bytes(b) => {
                let i = instrs.last();
                if i.opcode is Some {
                    match spec_instr_emit(i, syms) {
                        EmitResult::Bytes(x) => EmitResult::Bytes(b + x),
                        e => e,
                    }
                } else {
                    EmitResult::Bytes(b)
                }
            },
            e => e,
        }
    }
}

/// An ordered sequence of parsed instructions; parse order is preserved
/// and semantically significant.
#[derive(Debug, PartialEq)]
pub struct Program {
    pub instructions: Vec<AssemblerInstruction>,
}

impl View for Program {
    type V = Seq<SpecInstruction>;

    open spec fn view(&self) -> Seq<SpecInstruction> {
        self.instructions.deep_view()
    }
}

impl Program {
    /// Emits the bytecode of every code instruction, in program order.
    pub fn to_bytes(&self, symbols: &SymbolTable) -> (r: Result<Vec<u8>, AssemblerError>)
        ensures
            match spec_program_emit(self@, symbols@) {
                EmitResult::Bytes(b) => r matches Ok(v) && v@ == b,
                EmitResult::UnknownLabel(n) => r matches Err(AssemblerError::UnknownLabelFound {
                    name }) && name@ == n,
                EmitResult::BadToken => r matches Err(AssemblerError::OpcodeInOperandField),
            },
    {
        let mut program: Vec<u8> = Vec::new();
        let n = self.instructions.len();
        let mut i: usize = 0;
        proof {
            assert(self@.take(0) =~= Seq::<SpecInstruction>::empty());
        }
        while i < n
            invariant
                i <= n,
                n == self.instructions@.len(),
                n == self@.len(),
                spec_program_emit(self@.take(i as int), symbols@) == EmitResult::Bytes(program@),
            decreases n - i,
        {
            proof {
                assert(self@.take(i as int + 1).drop_last() =~= self@.take(i as int));
                assert(self@.take(i as int + 1).last() == self@[i as int]);
                assert(self@[i as int] == self.instructions@[i as int]@);
            }
            if self.instructions[i].is_opcode() {
                let mut bytes = match self.instructions[i].to_bytes(symbols) {
                    Ok(b) => b,
                    Err(e) => {
                        proof {
                            lemma_program_emit_error(self@, symbols@, i as int);
                        }
                        return Err(e);
                    },
                };
                program.append(&mut bytes);
            }
            i += 1;
        }
        proof {
            assert(self@.take(n as int) =~= self@);
        }
        Ok(program)
    }
}

/// Once a prefix of the program fails to emit, the whole program fails
/// with the same error.
pub proof fn lemma_program_emit_error(instrs: Seq<SpecInstruction>, syms: Seq<SpecSymbol>, i: int)
    requires
        0 <= i < instrs.len(),
        !(spec_program_emit(instrs.take(i + 1), syms) is Bytes),
    ensures
        spec_program_emit(instrs, syms) == spec_program_emit(instrs.take(i + 1), syms),
    decreases instrs.len() - i,
{
    if i + 1 == instrs.len() {
        assert(instrs.take(i + 1) =~= instrs);
    } else {
        assert(instrs.take(i + 2).drop_last() =~= instrs.take(i + 1));
        lemma_program_emit_error(instrs, syms, i + 1);
    }
}

} // verus!

verus! {

/// Every emitted instruction is a whole number of four-byte words.
pub proof fn lemma_instr_emit_rec_mult4(
    acc: Seq<u8>,
    operands: Seq<Option<SpecToken>>,
    syms: Seq<SpecSymbol>,
)
    ensures
        spec_instr_emit_rec(acc, operands, syms) matches EmitResult::Bytes(b) ==> b.len() % 4 == 0,
    decreases operands.len(),
{
    if operands.len() == 0 {
        let m = acc.len() % 4;
        assert(spec_pad_to_word(acc).len() % 4 == 0);
    } else {
        match operands[0] {
            None => {
                lemma_instr_emit_rec_mult4(acc, operands.drop_first(), syms);
            },
            Some(t) => match spec_operand_emit(t, syms) {
                EmitResult::Bytes(b) => {
                    lemma_instr_emit_rec_mult4(acc + b, operands.drop_first(), syms);
                },
                _ => {},
            },
        }
    }
}

/// Emitted code is always a whole number of four-byte instruction words.
pub proof fn lemma_program_emit_mult4(instrs: Seq<SpecInstruction>, syms: Seq<SpecSymbol>)
    ensures
        spec_program_emit(instrs, syms) matches EmitResult::Bytes(b) ==> b.len() % 4 == 0,
    decreases instrs.len(),
{
    if instrs.len() > 0 {
        lemma_program_emit_mult4(instrs.drop_last(), syms);
        match spec_program_emit(instrs.drop_last(), syms) {
            EmitResult::Bytes(b) => {
                let i = instrs.last();
                if i.opcode is Some {
                    lemma_instr_emit_rec_mult4(
                        spec_opcode_byte(i),
                        seq![i.operand1, i.operand2, i.operand3],
                        syms,
                    );
                }
            },
            _ => {},
        }
    }
}

} // verus!
