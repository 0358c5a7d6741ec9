use rocky::instruction::{Instruction, Opcode};

#[test]
fn test_create_hlt() {
    let opcode = Opcode::HLT;
    assert_eq!(opcode, Opcode::HLT);
}

#[test]
fn test_create_instruction() {
    let instruction = Instruction::new(Opcode::HLT);
    assert_eq!(instruction.opcode, Opcode::HLT);
}

#[test]
fn test_str_to_opcode() {
    let opcode = Opcode::from("load".to_owned());
    assert_eq!(opcode, Opcode::LOAD);
    let opcode = Opcode::from("illegal".to_owned());
    assert_eq!(opcode, Opcode::IGL);
}

#[test]
fn test_opcode_round_trip() {
    // Every numeric code in the table decodes back to the opcode it was
    // encoded from; every byte outside the table decodes to IGL.
    for b in 0u8..=22u8 {
        let op = Opcode::from(b);
        assert_ne!(op, Opcode::IGL);
        assert_eq!(op.to_byte(), b);
    }
    for b in 23u8..=255u8 {
        assert_eq!(Opcode::from(b), Opcode::IGL);
    }
    assert_eq!(Opcode::IGL.to_byte(), 23);
}
