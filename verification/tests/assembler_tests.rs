use rocky::assembler::{Assembler, AssemblerDiagnostic};
use rocky::error::AssemblerError;
use rocky::symbols::{Symbol, SymbolTable, SymbolType};
use rocky::vm::{RunSignal, VM};

fn run_to_end(vm: &mut VM) {
    let mut sig = vm.run();
    loop {
        match sig {
            RunSignal::Finished => break,
            _ => sig = vm.resume(),
        }
    }
}

#[test]
fn test_symbol_table() {
    let mut sym = SymbolTable::new();
    let new_symbol = Symbol::new("test".to_string(), SymbolType::Label, 12);
    sym.add_symbol(new_symbol);
    assert_eq!(sym.symbols.len(), 1);
    let v = sym.symbol_value("test");
    assert_eq!(true, v.is_some());
    let v = v.unwrap();
    assert_eq!(v, 12);
    let v = sym.symbol_value("does_not_exist");
    assert_eq!(v.is_some(), false);
}

#[test]
fn test_assemble_arithmetic() {
    // Four code instructions and an empty heap: a 64-byte prologue and
    // sixteen bytes of code.
    let mut assembler = Assembler::new();
    let source = ".data\n.code\nload $0 #50\nload $1 #25\nadd $0 $1 $0\nhlt";
    let image = assembler.assemble(source).unwrap();
    assert_eq!(image.len(), 80);
    assert_eq!(&image[0..5], &[114, 111, 99, 107, 121]);
    assert_eq!(image.len() % 4, 0);

    let mut vm = VM::new();
    vm.program = image;
    run_to_end(&mut vm);
    assert_eq!(vm.registers[0], 75);
    match vm.events[1].event {
        rocky::events::VMEventType::GracefulStop { code } => assert_eq!(code, 0),
        other => panic!("expected a graceful stop, got {:?}", other),
    }
}

#[test]
fn test_assemble_division_remainder() {
    let mut assembler = Assembler::new();
    let source = ".data\n.code\nload $0 #50\nload $1 #6\ndiv $0 $1 $0\nhlt";
    let image = assembler.assemble(source).unwrap();
    let mut vm = VM::new();
    vm.program = image;
    run_to_end(&mut vm);
    assert_eq!(vm.registers[0], 8);
    assert_eq!(vm.remainder, 2);
}

#[test]
fn test_assemble_loop_aliases() {
    // `inc` and `jmpe` are not in the opcode table and assemble as IGL
    // words; the program still assembles, to seven four-byte words.
    let mut assembler = Assembler::new();
    let source = ".data\n.code\nload $0 #100\nload $1 #1\nload $2 #0\ntest: inc $0\nneq $0 $2\njmpe @test\nhlt";
    let image = assembler.assemble(source).unwrap();
    assert_eq!(image.len(), 64 + 28);
    assert_eq!((image.len() - 64) % 4, 0);
}

#[test]
fn test_rodata_before_data() {
    // One five-byte blob: descriptor 0 has offset 0 and length 5, and
    // the code begins right after the heap body.
    let mut assembler = Assembler::new();
    let source = ".rodata\ntest1: .str 'Hello'\n.code\nhlt";
    let image = assembler.assemble(source).unwrap();
    // Heap descriptor 0, little-endian: offset 0, length 5.
    assert_eq!(&image[5..9], &[0, 0, 0, 0]);
    assert_eq!(&image[9..13], &[5, 0, 0, 0]);
    // Heap body holds the string; code begins at 64 + 5.
    assert_eq!(&image[64..69], b"Hello");
    assert_eq!(image[69], 0);
    assert_eq!(image.len(), 64 + 5 + 4);
    assert_eq!(assembler.memory_heap.get_slice(0), b"Hello".to_vec());
}

#[test]
fn test_assemble_deterministic() {
    let source = ".rodata\ngreet: .str 'Hello'\nvalue: .int #7\n.code\nload $0 #1\nprts @greet\nhlt";
    let mut first = Assembler::new();
    let mut second = Assembler::new();
    let a = first.assemble(source).unwrap();
    let b = second.assemble(source).unwrap();
    assert_eq!(a, b);
}

#[test]
fn test_int_directive_little_endian() {
    let mut assembler = Assembler::new();
    let source = ".data\nanswer: .int #300\n.code\nhlt";
    let image = assembler.assemble(source).unwrap();
    // 300 = 0x012c, little-endian in a four-byte blob.
    assert_eq!(&image[64..68], &[44, 1, 0, 0]);
    assert_eq!(assembler.symbols.symbol_value("answer"), Some(0));
}

#[test]
fn test_rodata_after_data_diagnostic() {
    // A rodata header after a data header is ignored with a diagnostic;
    // data and code still make two distinct sections.
    let mut assembler = Assembler::new();
    let source = ".data\n.rodata\n.code\nhlt";
    let image = assembler.assemble(source);
    assert!(image.is_ok());
    assert!(assembler.diagnostics.contains(&AssemblerDiagnostic::RodataAfterData));
}

#[test]
fn test_insufficient_sections() {
    let mut assembler = Assembler::new();
    let errors = assembler.assemble(".code\nhlt").unwrap_err();
    assert_eq!(errors, vec![AssemblerError::InsufficientSections]);
}

#[test]
fn test_no_segment_declaration() {
    let mut assembler = Assembler::new();
    let errors = assembler.assemble("start: hlt\n.data\n.code").unwrap_err();
    assert!(errors.contains(&AssemblerError::NoSegmentDeclarationFound { instruction: 0 }));
}

#[test]
fn test_symbol_already_declared() {
    let mut assembler = Assembler::new();
    let errors = assembler.assemble(".data\n.code\nfoo: hlt\nfoo: hlt").unwrap_err();
    assert!(errors.contains(&AssemblerError::SymbolAlreadyDeclared));
}

#[test]
fn test_string_without_label() {
    let mut assembler = Assembler::new();
    let errors = assembler.assemble(".data\n.str 'lost'\n.code\nhlt").unwrap_err();
    assert!(errors
        .iter()
        .any(|e| matches!(e, AssemblerError::StringConstantDeclaredWithoutLabel { .. })));
}

#[test]
fn test_unknown_directive() {
    let mut assembler = Assembler::new();
    let errors = assembler.assemble(".data\nx: .asciiz 'Hello'\n.code\nhlt").unwrap_err();
    assert!(errors.contains(&AssemblerError::UnknownDirectiveFound {
        directive: "asciiz".to_string()
    }));
}

#[test]
fn test_unterminated_program() {
    let mut assembler = Assembler::new();
    let errors = assembler.assemble(".data\n.code\nhlt\n???").unwrap_err();
    assert_eq!(errors, vec![AssemblerError::UnterminatedProgram]);
}

#[test]
fn test_parse_error_on_garbage() {
    let mut assembler = Assembler::new();
    let errors = assembler.assemble("???").unwrap_err();
    assert!(matches!(errors[0], AssemblerError::ParseError { .. }));
}

#[test]
fn test_unknown_label() {
    let mut assembler = Assembler::new();
    let errors = assembler.assemble(".data\n.code\njeq @missing\nhlt").unwrap_err();
    assert!(errors.contains(&AssemblerError::UnknownLabelFound { name: "missing".to_string() }));
}

#[test]
fn test_uppercase_opcodes() {
    let mut lower = Assembler::new();
    let mut upper = Assembler::new();
    let a = lower.assemble(".data\n.code\nload $0 #50\nhlt").unwrap();
    let b = upper.assemble(".data\n.code\nLOAD $0 #50\nHLT").unwrap();
    assert_eq!(a, b);
}

#[test]
fn test_assemble_not_ascii() {
    let mut assembler = Assembler::new();
    let errors = assembler.assemble(".data\n.code\nx: .str 'héllo'\nhlt").unwrap_err();
    assert!(matches!(errors[0], AssemblerError::ParseError { .. }));
}
