//! The two-pass assembler driver: section tracking, data directives,
//! symbol resolution, bytecode emission and image assembly.
//!
//! Pass one walks the parsed program declaring labels, collecting
//! constants into the heap and validating sections; pass two emits the
//! bytecode. The image is `magic ++ heap header ++ padding ++ heap body
//! ++ code`. Every step is mirrored by a spec function, so the whole
//! assembly is a function of the assembler's state and the source text.

use crate::error::{AssemblerError, SpecAsmError};
use crate::memory::{blobs_size, concat_blobs, descs_of_blobs, heap_blobs, spec_header, MemoryHeap};
use crate::parser::spec_parse_instrs;
use crate::strutil::str_eq;
use crate::symbols::{
    spec_has_symbol, spec_set_symbol_index, SpecSymbol, Symbol, SymbolTable, SymbolType,
};
use crate::tokens::{
    spec_program_emit, AssemblerInstruction, EmitResult, Program, SpecInstruction, SpecToken,
};
use crate::spec_magic;
use vstd::bytes::{spec_u32_to_le_bytes, u32_to_le_bytes};
use vstd::prelude::*;
use vstd::utf8::{encode_utf8, is_ascii_chars};

verus! {

#[derive(Debug, PartialEq, Eq, Structural, Clone, Copy)]
pub enum AssemblerPhase {
    First,
    Second,
}

/// The sections a program may declare; `Unknown` stands for any other
/// header name.
#[derive(Debug, PartialEq, Eq, Structural, Clone, Copy)]
pub enum AssemblerSection {
    Data { starting_instruction: Option<u32> },
    RoData { starting_instruction: Option<u32> },
    Code { starting_instruction: Option<u32> },
    Unknown,
}

/// The section a header name declares.
pub open spec fn spec_section_of_name(n: Seq<char>) -> AssemblerSection {
    if n == "data"@ {
        AssemblerSection::Data { starting_instruction: None }
    } else if n == "rodata"@ {
        AssemblerSection::RoData { starting_instruction: None }
    } else if n == "code"@ {
        AssemblerSection::Code { starting_instruction: None }
    } else {
        AssemblerSection::Unknown
    }
}

impl Default for AssemblerSection {
    fn default() -> (r: Self)
        ensures
            r is Unknown,
    {
        AssemblerSection::Unknown
    }
}

impl<'a> From<&'a str> for AssemblerSection {
    fn from(name: &str) -> (r: AssemblerSection) {
        if str_eq(name, "data") {
            AssemblerSection::Data { starting_instruction: None }
        } else if str_eq(name, "rodata") {
            AssemblerSection::RoData { starting_instruction: None }
        } else if str_eq(name, "code") {
            AssemblerSection::Code { starting_instruction: None }
        } else {
            AssemblerSection::Unknown
        }
    }
}

impl<'a> vstd::std_specs::convert::FromSpecImpl<&'a str> for AssemblerSection {
    open spec fn obeys_from_spec() -> bool {
        true
    }

    open spec fn from_spec(name: &'a str) -> AssemblerSection {
        spec_section_of_name(name@)
    }
}

/// A non-fatal condition pass one records and goes on from; front-ends
/// may surface these as printed diagnostics.
#[derive(Debug, PartialEq, Clone)]
pub enum AssemblerDiagnostic {
    /// A section header outside the known set was ignored.
    UnknownSectionHeader { name: String },
    /// A read-only data header after a mutable data header was ignored.
    RodataAfterData,
    /// A constant would overflow the `u32` offsets of the image format.
    ConstantPoolOverflow,
}

/// The mathematical model of a diagnostic.
pub enum SpecDiag {
    UnknownSectionHeader(Seq<char>),
    RodataAfterData,
    ConstantPoolOverflow,
}

impl View for AssemblerDiagnostic {
    type V = SpecDiag;

    open spec fn view(&self) -> SpecDiag {
        match self {
            AssemblerDiagnostic::UnknownSectionHeader { name } => SpecDiag::UnknownSectionHeader(
                name@,
            ),
            AssemblerDiagnostic::RodataAfterData => SpecDiag::RodataAfterData,
            AssemblerDiagnostic::ConstantPoolOverflow => SpecDiag::ConstantPoolOverflow,
        }
    }
}

impl DeepView for AssemblerDiagnostic {
    type V = SpecDiag;

    open spec fn deep_view(&self) -> SpecDiag {
        self.view()
    }
}

// --- The pass-one model ---------------------------------------------------

/// The assembler state pass one folds over: symbols, heap blobs,
/// declared sections, the current section, and the errors and
/// diagnostics gathered so far.
pub struct Pass1 {
    pub symbols: Seq<SpecSymbol>,
    pub blobs: Seq<Seq<u8>>,
    pub sections: Seq<AssemblerSection>,
    pub current_section: Option<AssemblerSection>,
    pub errors: Seq<SpecAsmError>,
    pub diags: Seq<SpecDiag>,
}

pub open spec fn spec_pass1_init() -> Pass1 {
    Pass1 {
        symbols: Seq::empty(),
        blobs: Seq::empty(),
        sections: Seq::empty(),
        current_section: None,
        errors: Seq::empty(),
        diags: Seq::empty(),
    }
}

/// The instruction counter, saturating at the `u32` limit.
pub open spec fn sat_add32(a: u32, k: int) -> u32 {
    if a + k < 0xffffffffu32 {
        (a + k) as u32
    } else {
        0xffffffffu32
    }
}

pub open spec fn with_error(st: Pass1, e: SpecAsmError) -> Pass1 {
    Pass1 {
        symbols: st.symbols,
        blobs: st.blobs,
        sections: st.sections,
        current_section: st.current_section,
        errors: st.errors.push(e),
        diags: st.diags,
    }
}

pub open spec fn with_diag(st: Pass1, d: SpecDiag) -> Pass1 {
    Pass1 {
        symbols: st.symbols,
        blobs: st.blobs,
        sections: st.sections,
        current_section: st.current_section,
        errors: st.errors,
        diags: st.diags.push(d),
    }
}

/// The attached label's name, when the label slot holds a declaration.
pub open spec fn spec_label_of(i: SpecInstruction) -> Option<Seq<char>> {
    match i.label {
        Some(SpecToken::LabelDeclaration { name }) => Some(name),
        _ => None,
    }
}

pub open spec fn spec_has_operands(i: SpecInstruction) -> bool {
    i.operand1 is Some || i.operand2 is Some || i.operand3 is Some
}

pub open spec fn spec_contains_data(sections: Seq<AssemblerSection>) -> bool {
    exists|k: int| 0 <= k < sections.len() && sections[k] is Data
}

pub open spec fn spec_contains_rodata(sections: Seq<AssemblerSection>) -> bool {
    exists|k: int| 0 <= k < sections.len() && sections[k] is RoData
}

pub open spec fn spec_contains_code(sections: Seq<AssemblerSection>) -> bool {
    exists|k: int| 0 <= k < sections.len() && sections[k] is Code
}

/// How many distinct sections have been declared.
pub open spec fn spec_distinct_sections(sections: Seq<AssemblerSection>) -> int {
    (if spec_contains_data(sections) {
        1int
    } else {
        0int
    }) + (if spec_contains_rodata(sections) {
        1int
    } else {
        0int
    }) + (if spec_contains_code(sections) {
        1int
    } else {
        0int
    })
}

/// A section header: known headers switch the current section; a
/// read-only data header after a mutable data header is ignored with a
/// diagnostic, as is an unknown header name.
pub open spec fn spec_section_header(st: Pass1, name: Seq<char>) -> Pass1 {
    let sec = spec_section_of_name(name);
    if sec is Unknown {
        with_diag(st, SpecDiag::UnknownSectionHeader(name))
    } else if name == "rodata"@ && spec_contains_data(st.sections) {
        with_diag(st, SpecDiag::RodataAfterData)
    } else {
        Pass1 {
            symbols: st.symbols,
            blobs: st.blobs,
            sections: st.sections.push(sec),
            current_section: Some(sec),
            errors: st.errors,
            diags: st.diags,
        }
    }
}

/// `.str`: the reserved blob `id` takes the string's UTF-8 bytes, and
/// the attached label resolves to `id`. A missing label is an error; a
/// non-string operand is ignored.
pub open spec fn spec_handle_str(st: Pass1, i: SpecInstruction, idx: u32, id: usize) -> Pass1 {
    match i.operand1 {
        Some(SpecToken::RkString { name }) => match spec_label_of(i) {
            Some(lname) => {
                let bytes = encode_utf8(name);
                if bytes.len() + blobs_size(st.blobs) - 256 > u32::MAX {
                    with_diag(st, SpecDiag::ConstantPoolOverflow)
                } else {
                    Pass1 {
                        symbols: spec_set_symbol_index(st.symbols, lname, id),
                        blobs: st.blobs.update(id as int, bytes),
                        sections: st.sections,
                        current_section: st.current_section,
                        errors: st.errors,
                        diags: st.diags,
                    }
                }
            },
            None => with_error(st, SpecAsmError::NoLabel(idx)),
        },
        _ => st,
    }
}

/// `.int`: the reserved blob `id` takes the integer's little-endian
/// bytes, and the attached label resolves to `id`.
pub open spec fn spec_handle_int(st: Pass1, i: SpecInstruction, idx: u32, id: usize) -> Pass1 {
    match i.operand1 {
        Some(SpecToken::IntegerOperand { value }) => match spec_label_of(i) {
            Some(lname) => Pass1 {
                symbols: spec_set_symbol_index(st.symbols, lname, id),
                blobs: st.blobs.update(id as int, spec_u32_to_le_bytes(value as u32)),
                sections: st.sections,
                current_section: st.current_section,
                errors: st.errors,
                diags: st.diags,
            },
            None => with_error(st, SpecAsmError::NoLabel(idx)),
        },
        _ => st,
    }
}

/// A directive line in pass one: `.str` and `.int` reserve and fill a
/// heap blob; any other directive with operands is an error; a directive
/// without operands is a section header.
pub open spec fn spec_process_directive(st: Pass1, i: SpecInstruction, idx: u32) -> Pass1 {
    match i.directive {
        Some(SpecToken::Directive { name }) => {
            if spec_has_operands(i) {
                if name == "str"@ {
                    if blobs_size(st.blobs) + 256 > u32::MAX {
                        with_diag(st, SpecDiag::ConstantPoolOverflow)
                    } else {
                        let id = st.blobs.len() as usize;
                        let st1 = Pass1 {
                            symbols: st.symbols,
                            blobs: st.blobs.push(Seq::new(256, |j: int| 0u8)),
                            sections: st.sections,
                            current_section: st.current_section,
                            errors: st.errors,
                            diags: st.diags,
                        };
                        spec_handle_str(st1, i, idx, id)
                    }
                } else if name == "int"@ {
                    if blobs_size(st.blobs) + 4 > u32::MAX {
                        with_diag(st, SpecDiag::ConstantPoolOverflow)
                    } else {
                        let id = st.blobs.len() as usize;
                        let st1 = Pass1 {
                            symbols: st.symbols,
                            blobs: st.blobs.push(Seq::new(4, |j: int| 0u8)),
                            sections: st.sections,
                            current_section: st.current_section,
                            errors: st.errors,
                            diags: st.diags,
                        };
                        spec_handle_int(st1, i, idx, id)
                    }
                } else {
                    with_error(st, SpecAsmError::UnknownDirective(name))
                }
            } else {
                spec_section_header(st, name)
            }
        },
        _ => st,
    }
}

/// A labelled line in pass one: before any section the label is an
/// error; otherwise it is declared, once.
pub open spec fn spec_process_label(st: Pass1, i: SpecInstruction, idx: u32) -> Pass1 {
    match spec_label_of(i) {
        Some(name) => {
            if spec_has_symbol(st.symbols, name) {
                with_error(st, SpecAsmError::DupSymbol)
            } else {
                Pass1 {
                    symbols: st.symbols.push(
                        SpecSymbol { name, index: 0, symbol_type: SymbolType::Label },
                    ),
                    blobs: st.blobs,
                    sections: st.sections,
                    current_section: st.current_section,
                    errors: st.errors,
                    diags: st.diags,
                }
            }
        },
        None => with_error(st, SpecAsmError::NoLabel(idx)),
    }
}

/// One instruction of pass one: its label, then its directive.
pub open spec fn spec_pass1_step(st: Pass1, i: SpecInstruction, idx: u32) -> Pass1 {
    let st1 = if i.label is Some {
        if st.current_section is Some {
            spec_process_label(st, i, idx)
        } else {
            with_error(st, SpecAsmError::NoSegment(idx))
        }
    } else {
        st
    };
    if i.directive is Some {
        spec_process_directive(st1, i, idx)
    } else {
        st1
    }
}

/// Pass one over the first `k` instructions, starting from state `st0`
/// and instruction counter `idx0`.
pub open spec fn spec_pass1_from(
    st0: Pass1,
    idx0: u32,
    instrs: Seq<SpecInstruction>,
    k: int,
) -> Pass1
    decreases k,
{
    if k <= 0 {
        st0
    } else {
        spec_pass1_step(spec_pass1_from(st0, idx0, instrs, k - 1), instrs[k - 1], sat_add32(
            idx0,
            k - 1,
        ))
    }
}

/// The image prologue: magic, the serialised heap header, and zero
/// padding up to the fixed prologue length.
pub open spec fn spec_pie_header(descs: Seq<(u32, u32)>) -> Seq<u8> {
    let h = spec_magic() + spec_header(descs);
    if h.len() >= 64 {
        h
    } else {
        h + Seq::new((64 - h.len()) as nat, |j: int| 0u8)
    }
}

/// The whole assembly, as a function of the assembler's state and the
/// source text: `Some(image)` exactly when assembly succeeds.
pub open spec fn spec_assemble(st0: Pass1, idx0: u32, s: Seq<char>) -> Option<Seq<u8>> {
    if !is_ascii_chars(s) {
        None
    } else {
        let (instrs, p) = spec_parse_instrs(s, 0);
        if instrs.len() == 0 || p != s.len() {
            None
        } else {
            let st = spec_pass1_from(st0, idx0, instrs, instrs.len() as int);
            if st.errors.len() > 0 {
                None
            } else if spec_distinct_sections(st.sections) < 2 {
                None
            } else {
                match spec_program_emit(instrs, st.symbols) {
                    EmitResult::Bytes(code) => Some(
                        spec_pie_header(descs_of_blobs(st.blobs)) + concat_blobs(st.blobs) + code,
                    ),
                    _ => None,
                }
            }
        }
    }
}

// --- The assembler itself -------------------------------------------------

/// The two-pass assembler. Its symbol table and heap are local to one
/// run of `assemble`; reusing the assembler carries them over.
#[derive(Debug)]
pub struct Assembler {
    phase: AssemblerPhase,
    pub symbols: SymbolTable,
    pub memory_heap: MemoryHeap,
    pub bytecode: Vec<u8>,
    sections: Vec<AssemblerSection>,
    current_section: Option<AssemblerSection>,
    current_instruction: u32,
    errors: Vec<AssemblerError>,
    pub diagnostics: Vec<AssemblerDiagnostic>,
}

impl Assembler {
    /// The assembler's heap must be well-formed.
    pub closed spec fn wf(&self) -> bool {
        self.memory_heap.wf()
    }

    /// The pass-one model of the assembler's current state.
    pub closed spec fn pass1_view(&self) -> Pass1 {
        Pass1 {
            symbols: self.symbols@,
            blobs: heap_blobs(self.memory_heap),
            sections: self.sections@,
            current_section: self.current_section,
            errors: self.errors.deep_view(),
            diags: self.diagnostics.deep_view(),
        }
    }

    pub closed spec fn spec_phase(&self) -> AssemblerPhase {
        self.phase
    }

    pub closed spec fn spec_current_instruction(&self) -> u32 {
        self.current_instruction
    }

    pub closed spec fn spec_errors(&self) -> Seq<SpecAsmError> {
        self.errors.deep_view()
    }

    pub closed spec fn spec_bytecode(&self) -> Seq<u8> {
        self.bytecode@
    }

    pub fn new() -> (a: Assembler)
        ensures
            a.wf(),
            a.pass1_view() == spec_pass1_init(),
            a.spec_phase() == AssemblerPhase::First,
            a.spec_current_instruction() == 0,
            a.spec_bytecode() =~= Seq::<u8>::empty(),
    {
        let a = Assembler {
            phase: AssemblerPhase::First,
            symbols: SymbolTable::new(),
            memory_heap: MemoryHeap::new(),
            bytecode: Vec::new(),
            sections: Vec::new(),
            current_section: None,
            current_instruction: 0,
            errors: Vec::new(),
            diagnostics: Vec::new(),
        };
        proof {
            assert(heap_blobs(a.memory_heap) =~= Seq::<Seq<u8>>::empty());
            assert(a.errors.deep_view() =~= Seq::<SpecAsmError>::empty());
            assert(a.diagnostics.deep_view() =~= Seq::<SpecDiag>::empty());
            assert(a.symbols@ =~= Seq::<SpecSymbol>::empty());
        }
        a
    }
}

} // verus!

verus! {

/// Containment in a one-longer prefix: the old prefix, or the new
/// element.
pub proof fn lemma_contains_step(sections: Seq<AssemblerSection>, k: int)
    requires
        0 <= k < sections.len(),
    ensures
        spec_contains_data(sections.take(k + 1)) == (spec_contains_data(sections.take(k))
            || sections[k] is Data),
        spec_contains_rodata(sections.take(k + 1)) == (spec_contains_rodata(sections.take(k))
            || sections[k] is RoData),
        spec_contains_code(sections.take(k + 1)) == (spec_contains_code(sections.take(k))
            || sections[k] is Code),
{
    let a = sections.take(k);
    let b = sections.take(k + 1);
    assert(b[k] == sections[k]);
    if spec_contains_data(a) {
        let j = choose|j: int| 0 <= j < a.len() && a[j] is Data;
        assert(b[j] is Data);
    }
    if sections[k] is Data {
        assert(b[k] is Data);
    }
    if spec_contains_data(b) && !(sections[k] is Data) {
        let j = choose|j: int| 0 <= j < b.len() && b[j] is Data;
        assert(a[j] is Data);
    }
    if spec_contains_rodata(a) {
        let j = choose|j: int| 0 <= j < a.len() && a[j] is RoData;
        assert(b[j] is RoData);
    }
    if sections[k] is RoData {
        assert(b[k] is RoData);
    }
    if spec_contains_rodata(b) && !(sections[k] is RoData) {
        let j = choose|j: int| 0 <= j < b.len() && b[j] is RoData;
        assert(a[j] is RoData);
    }
    if spec_contains_code(a) {
        let j = choose|j: int| 0 <= j < a.len() && a[j] is Code;
        assert(b[j] is Code);
    }
    if sections[k] is Code {
        assert(b[k] is Code);
    }
    if spec_contains_code(b) && !(sections[k] is Code) {
        let j = choose|j: int| 0 <= j < b.len() && b[j] is Code;
        assert(a[j] is Code);
    }
}

impl Assembler {
    /// Declares the instruction's label in the symbol table, rejecting
    /// duplicates; a label slot without a declaration token is recorded
    /// as a missing-label error.
    fn process_label_declaration(&mut self, i: &AssemblerInstruction)
        requires
            old(self).wf(),
        ensures
            final(self).wf(),
            final(self).pass1_view() == spec_process_label(
                old(self).pass1_view(),
                i@,
                old(self).spec_current_instruction(),
            ),
            final(self).spec_phase() == old(self).spec_phase(),
            final(self).spec_current_instruction() == old(self).spec_current_instruction(),
            final(self).spec_bytecode() == old(self).spec_bytecode(),
    {
        let name = match i.label_name() {
            Some(name) => name,
            None => {
                self.errors.push(
                    AssemblerError::StringConstantDeclaredWithoutLabel {
                        instruction: self.current_instruction,
                    },
                );
                proof {
                    assert(self.errors.deep_view() =~= old(self).errors.deep_view().push(
                        SpecAsmError::NoLabel(old(self).spec_current_instruction()),
                    ));
                }
                return ;
            },
        };

        if self.symbols.has_symbol(name.as_str()) {
            self.errors.push(AssemblerError::SymbolAlreadyDeclared);
            proof {
                assert(self.errors.deep_view() =~= old(self).errors.deep_view().push(
                    SpecAsmError::DupSymbol,
                ));
            }
            return ;
        }

        let ghost lname = name@;
        let symbol = Symbol::new(name, SymbolType::Label, 0);
        self.symbols.add_symbol(symbol);
        proof {
            assert(self.symbols@ =~= old(self).symbols@.push(
                SpecSymbol { name: lname, index: 0, symbol_type: SymbolType::Label },
            ));
        }
    }

    /// Fills the reserved blob `id` with the instruction's string
    /// constant and resolves the attached label to `id`.
    fn handle_str(&mut self, i: &AssemblerInstruction, id: usize)
        requires
            old(self).wf(),
            id < old(self).pass1_view().blobs.len(),
            old(self).pass1_view().blobs[id as int].len() == 256,
        ensures
            final(self).wf(),
            final(self).pass1_view() == spec_handle_str(
                old(self).pass1_view(),
                i@,
                old(self).spec_current_instruction(),
                id,
            ),
            final(self).spec_phase() == old(self).spec_phase(),
            final(self).spec_current_instruction() == old(self).spec_current_instruction(),
            final(self).spec_bytecode() == old(self).spec_bytecode(),
    {
        let s = match i.string_constant() {
            Some(s) => s,
            None => {
                // A data directive whose operand is not a string is
                // passed over.
                return ;
            },
        };
        let label = match i.label_name() {
            Some(l) => l,
            None => {
                self.errors.push(
                    AssemblerError::StringConstantDeclaredWithoutLabel {
                        instruction: self.current_instruction,
                    },
                );
                proof {
                    assert(self.errors.deep_view() =~= old(self).errors.deep_view().push(
                        SpecAsmError::NoLabel(old(self).spec_current_instruction()),
                    ));
                }
                return ;
            },
        };
        let bytes = s.as_str().as_bytes_vec();
        proof {
            crate::memory::lemma_heap_model(self.memory_heap);
            self.memory_heap.lemma_size_bound();
            assert(heap_blobs(self.memory_heap)[id as int] == self.memory_heap.blob(id as int));
            self.memory_heap.lemma_blob_in_bounds(id as int);
            assert(self.memory_heap.blob(id as int).len() == 256);
            assert(self.memory_heap.size() >= 256);
        }
        let size = self.memory_heap.byte_len();
        proof {
            assert(size >= 256);
            assert(size <= u32::MAX);
        }
        if bytes.len() > (u32::MAX as usize) - (size - 256) {
            self.diagnostics.push(AssemblerDiagnostic::ConstantPoolOverflow);
            proof {
                assert(self.diagnostics.deep_view() =~= old(self).diagnostics.deep_view().push(
                    SpecDiag::ConstantPoolOverflow,
                ));
            }
            return ;
        }
        let ghost pre_heap = self.memory_heap;
        self.memory_heap.edit(bytes, id);
        self.symbols.set_symbol_index(label.as_str(), id);
        proof {
            assert(heap_blobs(self.memory_heap) =~= heap_blobs(pre_heap).update(
                id as int,
                bytes@,
            ));
        }
    }

    /// Fills the reserved blob `id` with the instruction's integer
    /// constant, little-endian, and resolves the attached label to `id`.
    fn handle_int(&mut self, i: &AssemblerInstruction, id: usize)
        requires
            old(self).wf(),
            id < old(self).pass1_view().blobs.len(),
            old(self).pass1_view().blobs[id as int].len() == 4,
        ensures
            final(self).wf(),
            final(self).pass1_view() == spec_handle_int(
                old(self).pass1_view(),
                i@,
                old(self).spec_current_instruction(),
                id,
            ),
            final(self).spec_phase() == old(self).spec_phase(),
            final(self).spec_current_instruction() == old(self).spec_current_instruction(),
            final(self).spec_bytecode() == old(self).spec_bytecode(),
    {
        let v = match i.integer_operand() {
            Some(v) => v,
            None => {
                // A data directive whose operand is not an integer is
                // passed over.
                return ;
            },
        };
        let label = match i.label_name() {
            Some(l) => l,
            None => {
                self.errors.push(
                    AssemblerError::StringConstantDeclaredWithoutLabel {
                        instruction: self.current_instruction,
                    },
                );
                proof {
                    assert(self.errors.deep_view() =~= old(self).errors.deep_view().push(
                        SpecAsmError::NoLabel(old(self).spec_current_instruction()),
                    ));
                }
                return ;
            },
        };
        let bytes = u32_to_le_bytes(#[verifier::truncate] (v as u32));
        proof {
            crate::memory::lemma_heap_model(self.memory_heap);
            self.memory_heap.lemma_size_bound();
            assert(heap_blobs(self.memory_heap)[id as int] == self.memory_heap.blob(id as int));
            self.memory_heap.lemma_blob_in_bounds(id as int);
            assert(self.memory_heap.blob(id as int).len() == 4);
        }
        let ghost pre_heap = self.memory_heap;
        self.memory_heap.edit(bytes, id);
        self.symbols.set_symbol_index(label.as_str(), id);
        proof {
            assert(heap_blobs(self.memory_heap) =~= heap_blobs(pre_heap).update(
                id as int,
                bytes@,
            ));
        }
    }

    /// Whether a mutable data section has been declared.
    fn contains_data_section(&self) -> (r: bool)
        ensures
            r == spec_contains_data(self.pass1_view().sections),
    {
        let n = self.sections.len();
        let mut k: usize = 0;
        while k < n
            invariant
                k <= n,
                n == self.sections@.len(),
                !spec_contains_data(self.sections@.take(k as int)),
            decreases n - k,
        {
            proof {
                lemma_contains_step(self.sections@, k as int);
            }
            if matches!(self.sections[k], AssemblerSection::Data { .. }) {
                proof {
                    assert(self.sections@.take(k as int + 1)[k as int] is Data);
                    assert(forall|j: int|
                        0 <= j < self.sections@.len() ==> self.sections@.take(
                            self.sections@.len() as int,
                        )[j] == self.sections@[j]);
                    assert(self.sections@[k as int] is Data);
                }
                return true;
            }
            k += 1;
        }
        proof {
            assert(self.sections@.take(n as int) =~= self.sections@);
        }
        false
    }

    /// Switches the current section for a known header; unknown headers
    /// and a read-only data header after a mutable data header are
    /// recorded as diagnostics and ignored.
    fn process_section_header(&mut self, name: &str)
        requires
            old(self).wf(),
        ensures
            final(self).wf(),
            final(self).pass1_view() == spec_section_header(old(self).pass1_view(), name@),
            final(self).spec_phase() == old(self).spec_phase(),
            final(self).spec_current_instruction() == old(self).spec_current_instruction(),
            final(self).spec_bytecode() == old(self).spec_bytecode(),
    {
        let new_section = AssemblerSection::from(name);
        if matches!(new_section, AssemblerSection::Unknown) {
            self.diagnostics.push(
                AssemblerDiagnostic::UnknownSectionHeader { name: name.to_owned() },
            );
            proof {
                assert(self.diagnostics.deep_view() =~= old(self).diagnostics.deep_view().push(
                    SpecDiag::UnknownSectionHeader(name@),
                ));
            }
            return ;
        }
        if str_eq(name, "rodata") && self.contains_data_section() {
            self.diagnostics.push(AssemblerDiagnostic::RodataAfterData);
            proof {
                assert(self.diagnostics.deep_view() =~= old(self).diagnostics.deep_view().push(
                    SpecDiag::RodataAfterData,
                ));
            }
            return ;
        }
        self.sections.push(new_section);
        self.current_section = Some(new_section);
        proof {
            assert(self.sections@ =~= old(self).sections@.push(spec_section_of_name(name@)));
        }
    }

    /// Processes one directive line of pass one: data directives reserve
    /// and fill heap blobs; bare directives are section headers; other
    /// names are errors.
    fn process_directive(&mut self, i: &AssemblerInstruction)
        requires
            old(self).wf(),
        ensures
            final(self).wf(),
            final(self).pass1_view() == spec_process_directive(
                old(self).pass1_view(),
                i@,
                old(self).spec_current_instruction(),
            ),
            final(self).spec_phase() == old(self).spec_phase(),
            final(self).spec_current_instruction() == old(self).spec_current_instruction(),
            final(self).spec_bytecode() == old(self).spec_bytecode(),
    {
        let directive_name = match i.directive_name() {
            Some(n) => n,
            None => {
                // A directive slot without a directive token is passed
                // over.
                return ;
            },
        };
        if i.has_operands() {
            if str_eq(directive_name.as_str(), "str") {
                proof {
                    crate::memory::lemma_heap_model(self.memory_heap);
                    self.memory_heap.lemma_size_bound();
                }
                if self.memory_heap.byte_len() > (u32::MAX as usize) - 256 {
                    self.diagnostics.push(AssemblerDiagnostic::ConstantPoolOverflow);
                    proof {
                        assert(self.diagnostics.deep_view()
                            =~= old(self).diagnostics.deep_view().push(
                            SpecDiag::ConstantPoolOverflow,
                        ));
                    }
                    return ;
                }
                let ghost pre_heap = self.memory_heap;
                let id = self.memory_heap.allocate(256);
                proof {
                    assert(heap_blobs(self.memory_heap) =~= heap_blobs(pre_heap).push(
                        Seq::new(256, |j: int| 0u8),
                    ));
                }
                self.handle_str(i, id);
            } else if str_eq(directive_name.as_str(), "int") {
                proof {
                    crate::memory::lemma_heap_model(self.memory_heap);
                    self.memory_heap.lemma_size_bound();
                }
                if self.memory_heap.byte_len() > (u32::MAX as usize) - 4 {
                    self.diagnostics.push(AssemblerDiagnostic::ConstantPoolOverflow);
                    proof {
                        assert(self.diagnostics.deep_view()
                            =~= old(self).diagnostics.deep_view().push(
                            SpecDiag::ConstantPoolOverflow,
                        ));
                    }
                    return ;
                }
                let ghost pre_heap = self.memory_heap;
                let id = self.memory_heap.allocate(4);
                proof {
                    assert(heap_blobs(self.memory_heap) =~= heap_blobs(pre_heap).push(
                        Seq::new(4, |j: int| 0u8),
                    ));
                }
                self.handle_int(i, id);
            } else {
                self.errors.push(
                    AssemblerError::UnknownDirectiveFound { directive: directive_name },
                );
                proof {
                    assert(self.errors.deep_view() =~= old(self).errors.deep_view().push(
                        SpecAsmError::UnknownDirective(
                            match i@.directive {
                                Some(SpecToken::Directive { name }) => name,
                                _ => Seq::empty(),
                            },
                        ),
                    ));
                }
            }
        } else {
            self.process_section_header(directive_name.as_str());
        }
    }

    /// Pass one: declaration and layout. Walks the program declaring
    /// labels, collecting constants and validating sections; afterwards
    /// the assembler is in its second phase.
    fn process_first_phase(&mut self, p: &Program)
        requires
            old(self).wf(),
        ensures
            final(self).wf(),
            final(self).pass1_view() == spec_pass1_from(
                old(self).pass1_view(),
                old(self).spec_current_instruction(),
                p@,
                p@.len() as int,
            ),
            final(self).spec_phase() == AssemblerPhase::Second,
            final(self).spec_current_instruction() == sat_add32(
                old(self).spec_current_instruction(),
                p@.len() as int,
            ),
            final(self).spec_bytecode() == old(self).spec_bytecode(),
    {
        let n = p.instructions.len();
        let mut k: usize = 0;
        while k < n
            invariant
                k <= n,
                n == p.instructions@.len(),
                n == p@.len(),
                self.wf(),
                self.pass1_view() == spec_pass1_from(
                    old(self).pass1_view(),
                    old(self).spec_current_instruction(),
                    p@,
                    k as int,
                ),
                self.spec_current_instruction() == sat_add32(
                    old(self).spec_current_instruction(),
                    k as int,
                ),
                self.spec_phase() == old(self).spec_phase(),
                self.spec_bytecode() == old(self).spec_bytecode(),
            decreases n - k,
        {
            proof {
                assert(p@[k as int] == p.instructions@[k as int]@);
            }
            let i = &p.instructions[k];
            if i.is_label() {
                if self.current_section.is_some() {
                    self.process_label_declaration(i);
                } else {
                    self.errors.push(
                        AssemblerError::NoSegmentDeclarationFound {
                            instruction: self.current_instruction,
                        },
                    );
                    proof {
                        assert(self.errors.deep_view() =~= spec_pass1_from(
                            old(self).pass1_view(),
                            old(self).spec_current_instruction(),
                            p@,
                            k as int,
                        ).errors.push(
                            SpecAsmError::NoSegment(self.spec_current_instruction()),
                        ));
                    }
                }
            }
            if i.is_directive() {
                self.process_directive(i);
            }
            if self.current_instruction < u32::MAX {
                self.current_instruction = self.current_instruction + 1;
            }
            k += 1;
        }
        self.phase = AssemblerPhase::Second;
    }
}

} // verus!

verus! {

impl Assembler {
    /// How many distinct sections have been declared so far.
    fn distinct_section_count(&self) -> (r: usize)
        ensures
            r == spec_distinct_sections(self.pass1_view().sections),
    {
        let n = self.sections.len();
        let mut has_data = false;
        let mut has_rodata = false;
        let mut has_code = false;
        let mut k: usize = 0;
        while k < n
            invariant
                k <= n,
                n == self.sections@.len(),
                has_data == spec_contains_data(self.sections@.take(k as int)),
                has_rodata == spec_contains_rodata(self.sections@.take(k as int)),
                has_code == spec_contains_code(self.sections@.take(k as int)),
            decreases n - k,
        {
            proof {
                lemma_contains_step(self.sections@, k as int);
                assert(self.sections@.take(k as int + 1)[k as int] == self.sections@[k as int]);
            }
            if matches!(self.sections[k], AssemblerSection::Data { .. }) {
                has_data = true;
            }
            if matches!(self.sections[k], AssemblerSection::RoData { .. }) {
                has_rodata = true;
            }
            if matches!(self.sections[k], AssemblerSection::Code { .. }) {
                has_code = true;
            }
            k += 1;
        }
        proof {
            assert(self.sections@.take(n as int) =~= self.sections@);
        }
        let mut count: usize = 0;
        if has_data {
            count += 1;
        }
        if has_rodata {
            count += 1;
        }
        if has_code {
            count += 1;
        }
        count
    }

    /// An identical copy of the errors gathered so far.
    fn clone_errors(&self) -> (r: Vec<AssemblerError>)
        ensures
            r.deep_view() == self.pass1_view().errors,
    {
        let n = self.errors.len();
        let mut r: Vec<AssemblerError> = Vec::new();
        let mut k: usize = 0;
        while k < n
            invariant
                k <= n,
                n == self.errors@.len(),
                r.deep_view() =~= self.errors.deep_view().take(k as int),
            decreases n - k,
        {
            let ghost pre = r.deep_view();
            r.push(self.errors[k].duplicate());
            proof {
                assert(r.deep_view() =~= pre.push(self.errors@[k as int]@));
                assert(r.deep_view() =~= self.errors.deep_view().take(k as int + 1));
            }
            k += 1;
        }
        proof {
            assert(self.errors.deep_view().take(n as int) =~= self.errors.deep_view());
        }
        r
    }

    /// Pass two: emission. Walks the instruction list and emits bytecode
    /// for every code instruction, using the symbols pass one resolved.
    fn process_second_phase(&mut self, p: &Program) -> (r: Result<Vec<u8>, AssemblerError>)
        requires
            old(self).wf(),
        ensures
            final(self).wf(),
            final(self).pass1_view() == old(self).pass1_view(),
            final(self).spec_phase() == old(self).spec_phase(),
            final(self).spec_bytecode() == old(self).spec_bytecode(),
            match spec_program_emit(p@, old(self).pass1_view().symbols) {
                EmitResult::Bytes(b) => r matches Ok(v) && v@ == b,
                EmitResult::UnknownLabel(n) => r matches Err(AssemblerError::UnknownLabelFound {
                    name }) && name@ == n,
                EmitResult::BadToken => r matches Err(AssemblerError::OpcodeInOperandField),
            },
    {
        self.current_instruction = 0;
        let mut program: Vec<u8> = Vec::new();
        let n = p.instructions.len();
        let mut k: usize = 0;
        proof {
            assert(p@.take(0) =~= Seq::<SpecInstruction>::empty());
        }
        while k < n
            invariant
                k <= n,
                n == p.instructions@.len(),
                n == p@.len(),
                self.wf(),
                self.pass1_view() == old(self).pass1_view(),
                self.spec_phase() == old(self).spec_phase(),
                self.spec_bytecode() == old(self).spec_bytecode(),
                spec_program_emit(p@.take(k as int), old(self).pass1_view().symbols)
                    == EmitResult::Bytes(program@),
            decreases n - k,
        {
            proof {
                assert(p@.take(k as int + 1).drop_last() =~= p@.take(k as int));
                assert(p@.take(k as int + 1).last() == p@[k as int]);
                assert(p@[k as int] == p.instructions@[k as int]@);
            }
            if p.instructions[k].is_opcode() {
                let mut bytes = match p.instructions[k].to_bytes(&self.symbols) {
                    Ok(b) => b,
                    Err(e) => {
                        proof {
                            crate::tokens::lemma_program_emit_error(
                                p@,
                                old(self).pass1_view().symbols,
                                k as int,
                            );
                        }
                        return Err(e);
                    },
                };
                program.append(&mut bytes);
            }
            if self.current_instruction < u32::MAX {
                self.current_instruction = self.current_instruction + 1;
            }
            k += 1;
        }
        proof {
            assert(p@.take(n as int) =~= p@);
        }
        Ok(program)
    }

    /// The image prologue: the magic bytes, the serialised heap header,
    /// and zero padding up to the fixed prologue length.
    fn write_pie_header(&self) -> (r: Vec<u8>)
        ensures
            r@ == spec_pie_header(self.memory_heap.descs()),
            r@.len() >= 64,
    {
        let mut header: Vec<u8> = Vec::new();
        header.push(114);
        header.push(111);
        header.push(99);
        header.push(107);
        header.push(121);
        proof {
            assert(header@ =~= spec_magic());
        }
        let mut table = self.memory_heap.header();
        header.append(&mut table);
        let ghost base = spec_magic() + spec_header(self.memory_heap.descs());
        proof {
            assert(header@ =~= base);
        }
        while header.len() < 64
            invariant
                header@.len() >= base.len(),
                header@.len() <= 64 || header@.len() == base.len(),
                header@ == base + Seq::new((header@.len() - base.len()) as nat, |j: int| 0u8),
            decreases 64 - header@.len(),
        {
            header.push(0);
            proof {
                assert(header@ =~= base + Seq::new((header@.len() - base.len()) as nat, |j: int| 0u8));
            }
        }
        proof {
            assert(header@ =~= spec_pie_header(self.memory_heap.descs()));
        }
        header
    }

    /// Assembles source text to a complete image: magic, heap header,
    /// padding, heap body, code. Fails atomically, with the accumulated
    /// error list, when the source does not parse, any pass-one error
    /// was recorded, fewer than two distinct sections were declared, or
    /// an operand cannot be emitted.
    pub fn assemble(&mut self, raw: &str) -> (r: Result<Vec<u8>, Vec<AssemblerError>>)
        requires
            old(self).wf(),
        ensures
            final(self).wf(),
            ({
                let out = spec_assemble(
                    old(self).pass1_view(),
                    old(self).spec_current_instruction(),
                    raw@,
                );
                match r {
                    Ok(image) => {
                        &&& out == Some(image@)
                        &&& image@.len() >= 64
                        &&& image@.subrange(0, 5) == spec_magic()
                    },
                    Err(es) => out is None && es@.len() >= 1,
                }
            }),
            r matches Ok(image) ==> ({
                let (instrs, p) = spec_parse_instrs(raw@, 0);
                let st = spec_pass1_from(
                    old(self).pass1_view(),
                    old(self).spec_current_instruction(),
                    instrs,
                    instrs.len() as int,
                );
                match spec_program_emit(instrs, st.symbols) {
                    EmitResult::Bytes(code) => image@ == spec_pie_header(descs_of_blobs(st.blobs))
                        + concat_blobs(st.blobs) + code && code.len() % 4 == 0,
                    _ => false,
                }
            }),
            r matches Err(es) ==> ({
                let (instrs, p) = spec_parse_instrs(raw@, 0);
                let st = spec_pass1_from(
                    old(self).pass1_view(),
                    old(self).spec_current_instruction(),
                    instrs,
                    instrs.len() as int,
                );
                if !is_ascii_chars(raw@) || instrs.len() == 0 {
                    es.deep_view().len() == 1 && es.deep_view()[0] is Parse
                } else if p != raw@.len() {
                    es.deep_view() =~= seq![SpecAsmError::Unterminated]
                } else if st.errors.len() > 0 {
                    es.deep_view() == st.errors
                } else if spec_distinct_sections(st.sections) < 2 {
                    es.deep_view() == st.errors.push(SpecAsmError::Insufficient)
                } else {
                    match spec_program_emit(instrs, st.symbols) {
                        EmitResult::UnknownLabel(n) => es.deep_view() =~= seq![
                            SpecAsmError::UnknownLabel(n),
                        ],
                        EmitResult::BadToken => es.deep_view() =~= seq![SpecAsmError::BadToken],
                        _ => false,
                    }
                }
            }),
    {
        let p = match crate::parser::program(raw) {
            Ok(p) => p,
            Err(e) => {
                let r: Vec<AssemblerError> = vec![e];
                proof {
                    assert(r.deep_view() =~= seq![r@[0]@]);
                }
                return Err(r);
            },
        };
        self.process_first_phase(&p);
        let ghost st = spec_pass1_from(
            old(self).pass1_view(),
            old(self).spec_current_instruction(),
            p@,
            p@.len() as int,
        );
        if self.errors.len() > 0 {
            proof {
                assert(self.pass1_view().errors.len() == self.errors@.len());
            }
            return Err(self.clone_errors());
        }
        proof {
            assert(st.errors.len() == 0) by {
                assert(self.pass1_view().errors.len() == self.errors@.len());
            }
        }
        if self.distinct_section_count() < 2 {
            self.errors.push(AssemblerError::InsufficientSections);
            proof {
                assert(self.pass1_view().errors =~= st.errors.push(SpecAsmError::Insufficient));
            }
            return Err(self.clone_errors());
        }
        let body = match self.process_second_phase(&p) {
            Ok(b) => b,
            Err(e) => {
                let r: Vec<AssemblerError> = vec![e];
                proof {
                    assert(r.deep_view() =~= seq![r@[0]@]);
                }
                return Err(r);
            },
        };
        let mut image = self.write_pie_header();
        let mut heap_bytes = self.memory_heap.to_bytes();
        let ghost prologue = image@;
        let ghost heap_view = heap_bytes@;
        image.append(&mut heap_bytes);
        let mut code = body;
        let ghost code_view = code@;
        image.append(&mut code);
        proof {
            crate::memory::lemma_heap_model(self.memory_heap);
            crate::tokens::lemma_program_emit_mult4(p@, st.symbols);
            assert(image@ == prologue + heap_view + code_view);
            assert(image@.subrange(0, 5) =~= spec_magic()) by {
                assert(prologue.subrange(0, 5) =~= spec_magic());
            }
        }
        Ok(image)
    }
}

/// Determinism: the assembled image is a function of the assembler's
/// state and the source text alone, so two successive assemblies of the
/// same source from equal states produce byte-identical images.
pub proof fn lemma_assemble_deterministic(a: Pass1, b: Pass1, idx: u32, s: Seq<char>)
    requires
        a == b,
    ensures
        spec_assemble(a, idx, s) == spec_assemble(b, idx, s),
{
}

} // verus!

verus! {

/// A section header line: a directive with the given name and no
/// operands.
pub open spec fn spec_is_section_decl(i: SpecInstruction, name: Seq<char>) -> bool {
    &&& match i.directive {
        Some(SpecToken::Directive { name: n }) => n == name,
        _ => false,
    }
    &&& !spec_has_operands(i)
}

/// One pass-one step never removes a declared section or a recorded
/// diagnostic.
proof fn lemma_step_mono(st: Pass1, i: SpecInstruction, idx: u32)
    ensures
        ({
            let st2 = spec_pass1_step(st, i, idx);
            &&& (spec_contains_data(st.sections) ==> spec_contains_data(st2.sections))
            &&& (st.diags.contains(SpecDiag::RodataAfterData) ==> st2.diags.contains(
                SpecDiag::RodataAfterData,
            ))
        }),
{
    let st2 = spec_pass1_step(st, i, idx);
    assert(forall|k: int|
        0 <= k < st.sections.len() ==> #[trigger] st2.sections[k] == st.sections[k]
            && st2.sections.len() >= st.sections.len());
    assert(forall|k: int|
        0 <= k < st.diags.len() ==> #[trigger] st2.diags[k] == st.diags[k] && st2.diags.len()
            >= st.diags.len());
    if spec_contains_data(st.sections) {
        let k = choose|k: int| 0 <= k < st.sections.len() && st.sections[k] is Data;
        assert(st2.sections[k] is Data);
    }
    if st.diags.contains(SpecDiag::RodataAfterData) {
        let k = choose|k: int| 0 <= k < st.diags.len() && st.diags[k] == SpecDiag::RodataAfterData;
        assert(st2.diags[k] == SpecDiag::RodataAfterData);
    }
}

/// A bare `data` header always leaves a mutable data section declared.
proof fn lemma_step_data_header(st: Pass1, i: SpecInstruction, idx: u32)
    requires
        spec_is_section_decl(i, "data"@),
    ensures
        spec_contains_data(spec_pass1_step(st, i, idx).sections),
{
    reveal_strlit("data");
    reveal_strlit("rodata");
    let st1 = if i.label is Some {
        if st.current_section is Some {
            spec_process_label(st, i, idx)
        } else {
            with_error(st, SpecAsmError::NoSegment(idx))
        }
    } else {
        st
    };
    let st2 = spec_pass1_step(st, i, idx);
    assert("data"@.len() == 4 && "rodata"@.len() == 6);
    assert(st2 == spec_section_header(st1, "data"@));
    assert(st2.sections == st1.sections.push(AssemblerSection::Data { starting_instruction: None }));
    assert(st2.sections[st2.sections.len() - 1] is Data);
}

/// A bare `rodata` header after a declared data section records the
/// rodata-after-data diagnostic.
proof fn lemma_step_rodata_header(st: Pass1, i: SpecInstruction, idx: u32)
    requires
        spec_is_section_decl(i, "rodata"@),
        spec_contains_data(st.sections),
    ensures
        spec_pass1_step(st, i, idx).diags.contains(SpecDiag::RodataAfterData),
{
    reveal_strlit("rodata");
    reveal_strlit("data");
    reveal_strlit("code");
    let st1 = if i.label is Some {
        if st.current_section is Some {
            spec_process_label(st, i, idx)
        } else {
            with_error(st, SpecAsmError::NoSegment(idx))
        }
    } else {
        st
    };
    let st2 = spec_pass1_step(st, i, idx);
    assert(st1.sections == st.sections);
    assert("rodata"@.len() == 6 && "data"@.len() == 4 && "code"@.len() == 4);
    assert(!(spec_section_of_name("rodata"@) is Unknown));
    assert(st2 == with_diag(st1, SpecDiag::RodataAfterData));
    assert(st2.diags[st2.diags.len() - 1] == SpecDiag::RodataAfterData);
}

/// A declared data section stays declared through later instructions.
proof fn lemma_data_propagates(
    st0: Pass1,
    idx0: u32,
    instrs: Seq<SpecInstruction>,
    a: int,
    b: int,
)
    requires
        0 <= a <= b <= instrs.len(),
        spec_contains_data(spec_pass1_from(st0, idx0, instrs, a).sections),
    ensures
        spec_contains_data(spec_pass1_from(st0, idx0, instrs, b).sections),
    decreases b - a,
{
    if a < b {
        lemma_step_mono(spec_pass1_from(st0, idx0, instrs, b - 1), instrs[b - 1], sat_add32(
            idx0,
            b - 1,
        ));
        if a < b - 1 {
            lemma_data_propagates(st0, idx0, instrs, a, b - 1);
            lemma_step_mono(spec_pass1_from(st0, idx0, instrs, b - 1), instrs[b - 1], sat_add32(
                idx0,
                b - 1,
            ));
        }
    }
}

/// A recorded rodata-after-data diagnostic stays recorded.
proof fn lemma_diag_propagates(
    st0: Pass1,
    idx0: u32,
    instrs: Seq<SpecInstruction>,
    a: int,
    b: int,
)
    requires
        0 <= a <= b <= instrs.len(),
        spec_pass1_from(st0, idx0, instrs, a).diags.contains(SpecDiag::RodataAfterData),
    ensures
        spec_pass1_from(st0, idx0, instrs, b).diags.contains(SpecDiag::RodataAfterData),
    decreases b - a,
{
    if a < b {
        lemma_diag_propagates(st0, idx0, instrs, a, b - 1);
        lemma_step_mono(spec_pass1_from(st0, idx0, instrs, b - 1), instrs[b - 1], sat_add32(
            idx0,
            b - 1,
        ));
    }
}

/// Section ordering: when the parsed program declares a `data` section
/// before a `rodata` section, pass one records the rodata-after-data
/// diagnostic — the later header is ignored, so the assembly may also
/// fall short of two distinct sections and report that error instead.
pub proof fn lemma_rodata_after_data(
    st0: Pass1,
    idx0: u32,
    instrs: Seq<SpecInstruction>,
    i: int,
    j: int,
)
    requires
        0 <= i < j < instrs.len(),
        spec_is_section_decl(instrs[i], "data"@),
        spec_is_section_decl(instrs[j], "rodata"@),
    ensures
        spec_pass1_from(st0, idx0, instrs, instrs.len() as int).diags.contains(
            SpecDiag::RodataAfterData,
        ),
{
    lemma_step_data_header(spec_pass1_from(st0, idx0, instrs, i), instrs[i], sat_add32(idx0, i));
    assert(spec_contains_data(spec_pass1_from(st0, idx0, instrs, i + 1).sections));
    lemma_data_propagates(st0, idx0, instrs, i + 1, j);
    lemma_step_rodata_header(spec_pass1_from(st0, idx0, instrs, j), instrs[j], sat_add32(idx0, j));
    assert(spec_pass1_from(st0, idx0, instrs, j + 1).diags.contains(SpecDiag::RodataAfterData));
    lemma_diag_propagates(st0, idx0, instrs, j + 1, instrs.len() as int);
}

} // verus!
