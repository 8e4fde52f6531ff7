use lc3_vm::opcodes::Opcode;
use lc3_vm::opcodes::OpcodeError;

#[test]
fn parse_br() -> Result<(), OpcodeError> {
    let br = Opcode::BR { n: false, z: false, p: true, offset: 4 };
    let instruction: u16 = 0b_0000_0010_0000_0100;
    assert_eq!(br, Opcode::try_from(instruction)?);
    Ok(())
}

#[test]
fn parse_add_mode_0() -> Result<(), OpcodeError> {
    let add = Opcode::ADD { dr: 1, sr1: 2, mode: false, sr2: 3 };
    let instruction: u16 = 0b_0001_0010_1000_0011;
    assert_eq!(add, Opcode::try_from(instruction)?);
    Ok(())
}

#[test]
fn parse_add_mode_1() -> Result<(), OpcodeError> {
    let add = Opcode::ADD {
        dr: 1,
        sr1: 2,
        mode: true,
        sr2: 11, //imm5
    };
    let instruction: u16 = 0b_0001_0010_1010_1011;
    assert_eq!(add, Opcode::try_from(instruction)?);
    Ok(())
}

#[test]
fn parse_ld() -> Result<(), OpcodeError> {
    let ld = Opcode::LD { dr: 4, offset: 511 };
    let instruction: u16 = 0b_0010_1001_1111_1111;
    assert_eq!(ld, Opcode::try_from(instruction)?);
    Ok(())
}

#[test]
fn parse_st() -> Result<(), OpcodeError> {
    let st = Opcode::ST { sr: 4, offset: 255 };
    let instruction: u16 = 0b_0011_1000_1111_1111;
    assert_eq!(st, Opcode::try_from(instruction)?);
    Ok(())
}

#[test]
fn parse_jsr_mode_1() -> Result<(), OpcodeError> {
    let jsr = Opcode::JSR { mode: true, offset: 2047 };
    let instruction: u16 = 0b_0100_1111_1111_1111;
    assert_eq!(jsr, Opcode::try_from(instruction)?);
    Ok(())
}

#[test]
fn parse_and_mode_0() -> Result<(), OpcodeError> {
    let and = Opcode::AND { dr: 1, sr1: 2, mode: false, sr2: 3 };
    let instruction: u16 = 0b_0101_0010_1000_0011;
    assert_eq!(and, Opcode::try_from(instruction)?);
    Ok(())
}

#[test]
fn parse_and_mode_1() -> Result<(), OpcodeError> {
    let and = Opcode::AND {
        dr: 1,
        sr1: 2,
        mode: true,
        sr2: 11, //imm5
    };
    let instruction: u16 = 0b_0101_0010_1010_1011;
    assert_eq!(and, Opcode::try_from(instruction)?);
    Ok(())
}

#[test]
fn parse_br_all_conditions() -> Result<(), OpcodeError> {
    let br = Opcode::BR { n: true, z: true, p: true, offset: 511 };
    let instruction: u16 = 0b_0000_1111_1111_1111;
    assert_eq!(br, Opcode::try_from(instruction)?);
    Ok(())
}

#[test]
fn parse_jsr_mode_0() -> Result<(), OpcodeError> {
    let jsr = Opcode::JSR { mode: false, offset: 0b_001_0100_0000 };
    let instruction: u16 = 0b_0100_0001_0100_0000;
    assert_eq!(jsr, Opcode::try_from(instruction)?);
    Ok(())
}

#[test]
fn parse_ldr() -> Result<(), OpcodeError> {
    let ldr = Opcode::LDR { dr: 1, base_r: 2, offset: 10 };
    let instruction: u16 = 0b_0110_0010_1000_1010;
    assert_eq!(ldr, Opcode::try_from(instruction)?);
    Ok(())
}

#[test]
fn parse_str() -> Result<(), OpcodeError> {
    let str_op = Opcode::STR { sr: 3, base_r: 4, offset: 63 };
    let instruction: u16 = 0b_0111_0111_0011_1111;
    assert_eq!(str_op, Opcode::try_from(instruction)?);
    Ok(())
}

#[test]
fn parse_rti() -> Result<(), OpcodeError> {
    let instruction: u16 = 0b_1000_0000_0000_0000;
    assert_eq!(Opcode::RTI {}, Opcode::try_from(instruction)?);
    Ok(())
}

#[test]
fn parse_not() -> Result<(), OpcodeError> {
    let not = Opcode::NOT { dr: 5, sr: 6 };
    let instruction: u16 = 0b_1001_1011_1011_1111;
    assert_eq!(not, Opcode::try_from(instruction)?);
    Ok(())
}

#[test]
fn parse_ldi() -> Result<(), OpcodeError> {
    let ldi = Opcode::LDI { dr: 2, offset: 496 };
    let instruction: u16 = 0b_1010_0101_1111_0000;
    assert_eq!(ldi, Opcode::try_from(instruction)?);
    Ok(())
}

#[test]
fn parse_sti() -> Result<(), OpcodeError> {
    let sti = Opcode::STI { sr: 7, offset: 1 };
    let instruction: u16 = 0b_1011_1110_0000_0001;
    assert_eq!(sti, Opcode::try_from(instruction)?);
    Ok(())
}

#[test]
fn parse_jmp() -> Result<(), OpcodeError> {
    let jmp = Opcode::JMP { base_r: 7 };
    let instruction: u16 = 0b_1100_0001_1100_0000;
    assert_eq!(jmp, Opcode::try_from(instruction)?);
    Ok(())
}

#[test]
fn parse_res() -> Result<(), OpcodeError> {
    let instruction: u16 = 0b_1101_0000_0000_0000;
    assert_eq!(Opcode::RES {}, Opcode::try_from(instruction)?);
    Ok(())
}

#[test]
fn parse_lea() -> Result<(), OpcodeError> {
    let lea = Opcode::LEA { dr: 0, offset: 256 };
    let instruction: u16 = 0b_1110_0001_0000_0000;
    assert_eq!(lea, Opcode::try_from(instruction)?);
    Ok(())
}

#[test]
fn parse_trap() -> Result<(), OpcodeError> {
    let trap = Opcode::TRAP { trap_vec: 0x25 };
    let instruction: u16 = 0b_1111_0000_0010_0101;
    assert_eq!(trap, Opcode::try_from(instruction)?);
    Ok(())
}
