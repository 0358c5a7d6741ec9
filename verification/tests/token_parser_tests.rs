//! Token-level parser cases.

use rocky::instruction::Opcode;
use rocky::parser::{directive, instruction, integer_operand, register, rkstring};
use rocky::tokens::{AssemblerInstruction, Token};

#[test]
fn operand_test_parse_integer_operand() {
    let result = integer_operand("#10");
    assert!(result.is_some());
    let (value, rest) = result.unwrap();
    assert_eq!(rest, 3);
    assert_eq!(value, Token::IntegerOperand { value: 10 });

    let result = integer_operand("10");
    assert!(result.is_none());
}

#[test]
fn operand_test_parse_string_operand() {
    assert!(rkstring("'This is a test'").is_some());
    assert!(rkstring("'This is a \"test\"'").is_some());
    assert!(rkstring("\"This is a test\"").is_some());
    assert!(rkstring("\"This is a 'test'\"").is_some());
    assert!(rkstring("\"This is a test'").is_none());
    assert!(rkstring("'This is a test\"").is_none());
}

#[test]
fn register_test_register() {
    assert!(register("$0").is_some());
    assert!(register("$10").is_some());
    assert!(register("0").is_none());
    assert!(register("$a").is_none());
    assert!(register("$").is_none());
    assert!(register("0$").is_none());
}

#[test]
fn directive_test_directive() {
    let result = directive(".test");
    assert!(result.is_some());
    let (token, rest) = result.unwrap();
    assert_eq!(
        token,
        AssemblerInstruction {
            directive: Some(Token::Directive { name: "test".to_string() }),
            ..Default::default()
        }
    );
    assert_eq!(rest, ".test".len());
}

#[test]
fn directive_test_string_directive() {
    let result = directive("test: .asciiz 'Hello'");
    assert!(result.is_some());
    let (parsed, _) = result.unwrap();

    let correct_instruction = AssemblerInstruction {
        label: Some(Token::LabelDeclaration { name: "test".to_string() }),
        directive: Some(Token::Directive { name: "asciiz".to_string() }),
        operand1: Some(Token::RkString { name: "Hello".to_string() }),
        ..Default::default()
    };

    assert_eq!(parsed, correct_instruction);
}

#[test]
fn instruction_test_parse_instruction_form_one() {
    let result = instruction("hlt\n");
    assert!(result.is_some());
    let (parsed, _) = result.unwrap();
    assert_eq!(
        parsed,
        AssemblerInstruction {
            opcode: Some(Token::Opcode { code: Opcode::HLT }),
            ..Default::default()
        }
    );
}

#[test]
fn instruction_test_parse_instruction_form_one_uppercase() {
    let result = instruction("HLT\n");
    assert!(result.is_some());
    let (parsed, _) = result.unwrap();
    assert_eq!(
        parsed,
        AssemblerInstruction {
            opcode: Some(Token::Opcode { code: Opcode::HLT }),
            ..Default::default()
        }
    );
}

#[test]
fn instruction_test_parse_instruction_form_two() {
    let result = instruction("load $0 #100\n");
    assert!(result.is_some());
    let (parsed, _) = result.unwrap();
    assert_eq!(
        parsed,
        AssemblerInstruction {
            opcode: Some(Token::Opcode { code: Opcode::LOAD }),
            operand1: Some(Token::Register { reg_num: 0 }),
            operand2: Some(Token::IntegerOperand { value: 100 }),
            ..Default::default()
        }
    );
}

#[test]
fn instruction_test_parse_instruction_form_three() {
    let result = instruction("add $0 $1 $2\n");
    assert!(result.is_some());
    let (parsed, _) = result.unwrap();
    assert_eq!(
        parsed,
        AssemblerInstruction {
            opcode: Some(Token::Opcode { code: Opcode::ADD }),
            operand1: Some(Token::Register { reg_num: 0 }),
            operand2: Some(Token::Register { reg_num: 1 }),
            operand3: Some(Token::Register { reg_num: 2 }),
            ..Default::default()
        }
    );
}
