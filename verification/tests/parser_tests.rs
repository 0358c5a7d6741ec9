use rocky::parser::{
    directive, instruction, integer_operand, label_declaration, label_usage, opcode, operand,
    parse_i32, program, register, rkstring,
};
use rocky::symbols::SymbolTable;
use rocky::tokens::{AssemblerInstruction, Token};
use rocky::instruction::Opcode;

#[test]
fn test_opcode() {
    let result = opcode("load");
    assert!(result.is_some());
    let (token, rest) = result.unwrap();
    assert_eq!(token, Token::Opcode { code: Opcode::LOAD });
    assert_eq!(rest, "load".len());
    let result = opcode("aold");
    let (token, _) = result.unwrap();
    assert_eq!(token, Token::Opcode { code: Opcode::IGL });
}

#[test]
fn test_parse_integer_operand() {
    let result = integer_operand("#10");
    assert!(result.is_some());
    let (value, rest) = result.unwrap();
    assert_eq!(rest, 3);
    assert_eq!(value, Token::IntegerOperand { value: 10 });

    let result = integer_operand("10");
    assert!(result.is_none());
}

#[test]
fn test_parse_string_operand() {
    assert!(rkstring("'This is a test'").is_some());
    assert!(rkstring("'This is a \"test\"'").is_some());
    assert!(rkstring("\"This is a test\"").is_some());
    assert!(rkstring("\"This is a 'test'\"").is_some());
    assert!(rkstring("\"This is a test'").is_none());
    assert!(rkstring("'This is a test\"").is_none());
}

#[test]
fn test_parse_alt_operand() {
    assert!(operand("'This is a test' ").is_some());
    assert!(operand(" $1").is_some());
    assert!(operand("#1 ").is_some());
}

#[test]
fn test_register() {
    assert!(register("$0").is_some());
    assert!(register("$10").is_some());
    assert!(register("0").is_none());
    assert!(register("$a").is_none());
    assert!(register("$").is_none());
    assert!(register("0$").is_none());
}

#[test]
fn test_parse_label_declaration() {
    let result = label_declaration("test:");
    assert!(result.is_some());
    let (token, _) = result.unwrap();
    assert_eq!(token, Token::LabelDeclaration { name: "test".to_string() });
    let result = label_declaration("test");
    assert!(result.is_none());
}

#[test]
fn test_parse_label_usage() {
    let result = label_usage("@test");
    assert!(result.is_some());
    let (token, _) = result.unwrap();
    assert_eq!(token, Token::LabelUsage { name: "test".to_string() });
    let result = label_usage("test");
    assert!(result.is_none());
}

#[test]
fn directive_parser_test_directive() {
    let result = directive(".test");
    assert!(result.is_some());
    let (token, rest) = result.unwrap();
    assert_eq!(
        token,
        AssemblerInstruction {
            directive: Some(Token::Directive { name: "test".to_string() }),
            ..Default::default()
        }
    );
    assert_eq!(rest, ".test".len());
}

#[test]
fn directive_parser_test_string_directive() {
    let result = directive("test: .asciiz 'Hello'");
    assert!(result.is_some());
    let (parsed, _) = result.unwrap();

    let correct_instruction = AssemblerInstruction {
        label: Some(Token::LabelDeclaration { name: "test".to_string() }),
        directive: Some(Token::Directive { name: "asciiz".to_string() }),
        operand1: Some(Token::RkString { name: "Hello".to_string() }),
        ..Default::default()
    };

    assert_eq!(parsed, correct_instruction);
}

#[test]
fn instruction_parser_test_parse_instruction_form_one() {
    let result = instruction("hlt\n");
    assert!(result.is_some());
    let (parsed, rest) = result.unwrap();
    assert_eq!(
        parsed,
        AssemblerInstruction {
            opcode: Some(Token::Opcode { code: Opcode::HLT }),
            ..Default::default()
        }
    );
    assert_eq!(rest, "hlt\n".len());
}

#[test]
fn instruction_parser_test_parse_instruction_form_one_uppercase() {
    let result = instruction("HLT\n");
    assert!(result.is_some());
    let (parsed, _) = result.unwrap();
    assert_eq!(
        parsed,
        AssemblerInstruction {
            opcode: Some(Token::Opcode { code: Opcode::HLT }),
            ..Default::default()
        }
    );
}

#[test]
fn instruction_parser_test_parse_instruction_form_two() {
    let result = instruction("load $0 #100\n");
    assert!(result.is_some());
    let (parsed, _) = result.unwrap();
    assert_eq!(
        parsed,
        AssemblerInstruction {
            opcode: Some(Token::Opcode { code: Opcode::LOAD }),
            operand1: Some(Token::Register { reg_num: 0 }),
            operand2: Some(Token::IntegerOperand { value: 100 }),
            ..Default::default()
        }
    );
}

#[test]
fn instruction_parser_test_parse_instruction_form_three() {
    let result = instruction("add $0 $1 $2\n");
    assert!(result.is_some());
    let (parsed, _) = result.unwrap();
    assert_eq!(
        parsed,
        AssemblerInstruction {
            opcode: Some(Token::Opcode { code: Opcode::ADD }),
            operand1: Some(Token::Register { reg_num: 0 }),
            operand2: Some(Token::Register { reg_num: 1 }),
            operand3: Some(Token::Register { reg_num: 2 }),
            ..Default::default()
        }
    );
}

#[test]
fn test_parse_program() {
    let result = program("load $0 #100\n");
    assert!(result.is_ok());
    let p = result.unwrap();
    assert_eq!(p.instructions.len(), 1);
}

#[test]
fn test_program_to_bytes() {
    let result = program("load $0 #100\n");
    assert!(result.is_ok());
    let p = result.unwrap();
    let bytecode = p.to_bytes(&SymbolTable::new()).unwrap();
    assert_eq!(bytecode.len(), 4);
    assert_eq!(bytecode, vec![1, 0, 0, 100]);
}

#[test]
fn test_complete_program() {
    let test_program = ".data\nhello: .asciiz 'Hello everyone!'\n.code\nhlt";
    let result = program(test_program);
    assert!(result.is_ok());
}

#[test]
fn test_parse_i32_lines() {
    assert_eq!(parse_i32("42"), Some(42));
    assert_eq!(parse_i32("-42"), Some(-42));
    assert_eq!(parse_i32("+7"), Some(7));
    assert_eq!(parse_i32("2147483647"), Some(2147483647));
    assert_eq!(parse_i32("2147483648"), None);
    assert_eq!(parse_i32("-2147483648"), Some(-2147483648));
    assert_eq!(parse_i32("-2147483649"), None);
    assert_eq!(parse_i32(""), None);
    assert_eq!(parse_i32("4 2"), None);
    assert_eq!(parse_i32("abc"), None);
}

#[test]
fn test_register_bounds() {
    assert!(register("$255").is_some());
    assert!(register("$256").is_none());
    match register("$31") {
        Some((Token::Register { reg_num }, _)) => assert_eq!(reg_num, 31),
        other => panic!("expected a register token, got {:?}", other),
    }
}

#[test]
fn test_integer_bounds() {
    match integer_operand("#2147483647") {
        Some((Token::IntegerOperand { value }, _)) => assert_eq!(value, 2147483647),
        other => panic!("expected an integer token, got {:?}", other),
    }
    assert!(integer_operand("#2147483648").is_none());
}

#[test]
fn test_empty_source() {
    assert!(program("").is_err());
    assert!(program("   \n  ").is_err());
}
