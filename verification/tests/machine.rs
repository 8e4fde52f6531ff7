use lc3_vm::flags::FLAG_NEG;
use lc3_vm::flags::FLAG_POS;
use lc3_vm::flags::FLAG_ZRO;
use lc3_vm::opcodes::Opcode;
use lc3_vm::virtual_machine::ImageLoadError;
use lc3_vm::virtual_machine::VMError;
use lc3_vm::Effect;
use lc3_vm::VM;

/// The add-with-overflow program: set R0 to -1, set R1 to 1, then add them.
fn add_overflow_image() -> Vec<u8> {
    vec![
        0x30, 0x00, // origin 0x3000
        0x10, 0x3F, // ADD R0, R0, #-1
        0x12, 0x61, // ADD R1, R1, #1
        0x12, 0x40, // ADD R1, R1, R0
    ]
}

/// The counting loop: R1 starts at 10; each pass increments R0, decrements
/// R1, and branches back while R1 stays positive.
fn for_loop_image() -> Vec<u8> {
    vec![
        0x30, 0x00, // origin 0x3000
        0x12, 0x6A, // ADD R1, R1, #10
        0x10, 0x21, // ADD R0, R0, #1
        0x12, 0x7F, // ADD R1, R1, #-1
        0x03, 0xFD, // BRp #-3
    ]
}

#[test]
fn add_with_overflow() -> Result<(), VMError> {
    let mut vm = VM::default();
    vm.load_bytes(&add_overflow_image())?;
    vm.next_instruction()?;
    assert_eq!(0b_1111_1111_1111_1111, vm.get_register_value(0)?);
    vm.next_instruction()?;
    assert_eq!(0b_0000_0000_0000_0001, vm.get_register_value(1)?);
    vm.next_instruction()?;
    assert_eq!(0b_0000_0000_0000_0000, vm.get_register_value(1)?);
    Ok(())
}

#[test]
fn add_overflow_sets_zero_flag() -> Result<(), VMError> {
    let mut vm = VM::default();
    vm.load_bytes(&add_overflow_image())?;
    vm.next_instruction()?;
    vm.next_instruction()?;
    vm.next_instruction()?;
    assert_eq!(FLAG_ZRO, vm.get_flags()?);
    Ok(())
}

#[test]
fn for_loop() -> Result<(), VMError> {
    let mut vm = VM::default();
    vm.load_bytes(&for_loop_image())?;
    vm.next_instruction()?;
    for _ in 0..10 {
        vm.next_instruction()?;
        vm.next_instruction()?;
        vm.next_instruction()?;
    }
    assert_eq!(10, vm.get_register_value(0)?);
    Ok(())
}

#[test]
fn for_loop_leaves_pc_after_loop() -> Result<(), VMError> {
    let mut vm = VM::default();
    vm.load_bytes(&for_loop_image())?;
    for _ in 0..31 {
        vm.next_instruction()?;
    }
    assert_eq!(10, vm.get_register_value(0)?);
    assert_eq!(0, vm.get_register_value(1)?);
    assert_eq!(0x3004, vm.get_pc()?);
    Ok(())
}

#[test]
fn flags_track_written_sign() -> Result<(), VMError> {
    let mut vm = VM::default();
    // ADD R0, R0, #-1 writes 0xFFFF: negative.
    vm.execute(Opcode::ADD { dr: 0, sr1: 0, mode: true, sr2: 0x1F })?;
    assert_eq!(FLAG_NEG, vm.get_flags()?);
    // ADD R1, R1, #1 writes 1: positive.
    vm.execute(Opcode::ADD { dr: 1, sr1: 1, mode: true, sr2: 1 })?;
    assert_eq!(FLAG_POS, vm.get_flags()?);
    // ADD R2, R2, #0 writes 0: zero.
    vm.execute(Opcode::ADD { dr: 2, sr1: 2, mode: true, sr2: 0 })?;
    assert_eq!(FLAG_ZRO, vm.get_flags()?);
    let flags = vm.get_flags()?;
    assert!(flags == FLAG_NEG || flags == FLAG_ZRO || flags == FLAG_POS);
    Ok(())
}

#[test]
fn ldi_loads_through_pointer() -> Result<(), VMError> {
    let mut vm = VM::default();
    // LDI R2, #1 sits at 0x3000; the pointer cell is 0x3002, the payload at
    // the address the pointer names.
    vm.store_word(0x3000, 0b_1010_0100_0000_0001)?;
    vm.store_word(0x3002, 0x4000)?;
    vm.store_word(0x4000, 0x0042)?;
    vm.next_instruction()?;
    assert_eq!(0x0042, vm.get_register_value(2)?);
    assert_eq!(FLAG_POS, vm.get_flags()?);
    Ok(())
}

#[test]
fn sti_stores_through_pointer() -> Result<(), VMError> {
    let mut vm = VM::default();
    // STI R3, #1 sits at 0x3000; the pointer cell is 0x3002.
    vm.store_word(0x3000, 0b_1011_0110_0000_0001)?;
    vm.store_word(0x3002, 0x5000)?;
    vm.update_register(3, 0xBEEF)?;
    vm.next_instruction()?;
    assert_eq!(Ok(Some(0xBEEF)), vm.read_word(0x5000));
    Ok(())
}

#[test]
fn not_complements_and_sets_flags() -> Result<(), VMError> {
    let mut vm = VM::default();
    vm.update_register(4, 0x00FF)?;
    vm.execute(Opcode::NOT { dr: 5, sr: 4 })?;
    assert_eq!(0xFF00, vm.get_register_value(5)?);
    assert_eq!(FLAG_NEG, vm.get_flags()?);
    Ok(())
}

#[test]
fn and_masks_registers() -> Result<(), VMError> {
    let mut vm = VM::default();
    vm.update_register(0, 0x0F0F)?;
    vm.update_register(1, 0x00FF)?;
    vm.execute(Opcode::AND { dr: 2, sr1: 0, mode: false, sr2: 1 })?;
    assert_eq!(0x000F, vm.get_register_value(2)?);
    Ok(())
}

#[test]
fn jsr_saves_link_and_jumps() -> Result<(), VMError> {
    let mut vm = VM::default();
    // JSR #16 at 0x3000: the advanced counter 0x3001 lands in R7.
    vm.store_word(0x3000, 0b_0100_1000_0001_0000)?;
    vm.next_instruction()?;
    assert_eq!(0x3001, vm.get_register_value(7)?);
    assert_eq!(0x3011, vm.get_pc()?);
    Ok(())
}

#[test]
fn jmp_sets_pc_from_register() -> Result<(), VMError> {
    let mut vm = VM::default();
    vm.update_register(6, 0x1234)?;
    vm.execute(Opcode::JMP { base_r: 6 })?;
    assert_eq!(0x1234, vm.get_pc()?);
    Ok(())
}

#[test]
fn ldr_str_use_base_plus_offset() -> Result<(), VMError> {
    let mut vm = VM::default();
    vm.update_register(0, 0x4000)?;
    vm.update_register(1, 0x7777)?;
    vm.execute(Opcode::STR { sr: 1, base_r: 0, offset: 2 })?;
    assert_eq!(Ok(Some(0x7777)), vm.read_word(0x4002));
    vm.execute(Opcode::LDR { dr: 2, base_r: 0, offset: 2 })?;
    assert_eq!(0x7777, vm.get_register_value(2)?);
    Ok(())
}

#[test]
fn branch_taken_only_on_matching_flag() -> Result<(), VMError> {
    let mut vm = VM::default();
    // Set the zero flag, then branch on negative: not taken.
    vm.execute(Opcode::ADD { dr: 0, sr1: 0, mode: true, sr2: 0 })?;
    vm.set_pc(0x3001)?;
    vm.execute(Opcode::BR { n: true, z: false, p: false, offset: 8 })?;
    assert_eq!(0x3001, vm.get_pc()?);
    // Branch on zero: taken.
    vm.execute(Opcode::BR { n: false, z: true, p: false, offset: 8 })?;
    assert_eq!(0x3009, vm.get_pc()?);
    Ok(())
}

#[test]
fn load_rejects_empty_image() {
    let mut vm = VM::default();
    let image: Vec<u8> = vec![];
    assert_eq!(
        Err(VMError::LoadProgram(ImageLoadError::MissingOrigin)),
        vm.load_bytes(&image)
    );
}

#[test]
fn load_rejects_odd_byte_count() {
    let mut vm = VM::default();
    let image: Vec<u8> = vec![0x30, 0x00, 0x12];
    assert_eq!(
        Err(VMError::LoadProgram(ImageLoadError::OddByteCount)),
        vm.load_bytes(&image)
    );
}

#[test]
fn load_rejects_image_past_address_space() {
    let mut vm = VM::default();
    let image: Vec<u8> = vec![0xFF, 0xFF, 0x12, 0x34, 0x56, 0x78];
    assert_eq!(
        Err(VMError::LoadProgram(ImageLoadError::DoesNotFit)),
        vm.load_bytes(&image)
    );
}

#[test]
fn failed_load_leaves_machine_untouched() -> Result<(), VMError> {
    let mut vm = VM::default();
    let image: Vec<u8> = vec![0xFF, 0xFF, 0x12, 0x34, 0x56, 0x78];
    assert!(vm.load_bytes(&image).is_err());
    assert_eq!(Ok(Some(0)), vm.read_word(0x0000));
    assert_eq!(Ok(Some(0)), vm.read_word(0x3000));
    assert_eq!(Ok(Some(0)), vm.read_word(0xFFFF));
    assert_eq!(0x3000, vm.get_pc()?);
    assert_eq!(0, vm.get_register_value(0)?);
    Ok(())
}

#[test]
fn load_places_words_from_origin() -> Result<(), VMError> {
    let mut vm = VM::default();
    let image: Vec<u8> = vec![0x40, 0x00, 0x12, 0x34, 0xAB, 0xCD];
    vm.load_bytes(&image)?;
    assert_eq!(Ok(Some(0x1234)), vm.read_word(0x4000));
    assert_eq!(Ok(Some(0xABCD)), vm.read_word(0x4001));
    assert_eq!(Ok(Some(0)), vm.read_word(0x4002));
    assert_eq!(Ok(Some(0)), vm.read_word(0x3FFF));
    Ok(())
}

#[test]
fn load_accepts_origin_only_image() -> Result<(), VMError> {
    let mut vm = VM::default();
    let image: Vec<u8> = vec![0x30, 0x00];
    vm.load_bytes(&image)?;
    assert_eq!(Ok(Some(0)), vm.read_word(0x3000));
    Ok(())
}

#[test]
fn join_bytes_is_big_endian() {
    let bytes: Vec<u8> = vec![0x12, 0x34];
    assert_eq!(Some(0x1234), VM::join_bytes(&bytes));
    let short: Vec<u8> = vec![0x12];
    assert_eq!(None, VM::join_bytes(&short));
}

#[test]
fn register_indices_outside_file_are_rejected() {
    let mut vm = VM::default();
    assert_eq!(Err(VMError::ReadRegister(10)), vm.get_register_value(10));
    assert_eq!(Err(VMError::GetRegister(11)), vm.update_register(11, 1));
    assert_eq!(Err(VMError::Flags(12)), vm.update_flags(12));
}

#[test]
fn get_register_hands_out_mutable_access() -> Result<(), VMError> {
    let mut vm = VM::default();
    let register = vm.get_register(3)?;
    *register = 7;
    assert_eq!(7, vm.get_register_value(3)?);
    assert!(matches!(vm.get_register(10), Err(VMError::GetRegister(10))));
    Ok(())
}

#[test]
fn add_operand_field_outside_file_is_rejected() -> Result<(), VMError> {
    let mut vm = VM::default();
    // Register-mode ADD whose second-operand field has its junk bits set:
    // the field reads 24, which names no register.
    vm.store_word(0x3000, 0b_0001_0000_0001_1000)?;
    assert_eq!(Err(VMError::ReadRegister(24)), vm.next_instruction());
    assert_eq!(0, vm.get_register_value(0)?);
    assert_eq!(0x3001, vm.get_pc()?);
    Ok(())
}

#[test]
fn jsr_base_field_outside_file_is_rejected() -> Result<(), VMError> {
    let mut vm = VM::default();
    // Register-mode JSR whose base field has its junk bits set: the link
    // register is already written when the bad read aborts the step.
    vm.store_word(0x3000, 0b_0100_0110_0000_0000)?;
    assert_eq!(Err(VMError::ReadRegister(24)), vm.next_instruction());
    assert_eq!(0x3001, vm.get_register_value(7)?);
    assert_eq!(0x3001, vm.get_pc()?);
    Ok(())
}

#[test]
fn pc_wraps_at_end_of_address_space() -> Result<(), VMError> {
    let mut vm = VM::default();
    vm.set_pc(0xFFFF)?;
    vm.increment_pc();
    assert_eq!(0x0000, vm.get_pc()?);
    Ok(())
}

#[test]
fn rti_and_res_leave_state_alone() -> Result<(), VMError> {
    let mut vm = VM::default();
    assert_eq!(Ok(Effect::Continue), vm.execute(Opcode::RTI {}));
    assert_eq!(Ok(Effect::Continue), vm.execute(Opcode::RES {}));
    assert_eq!(0x3000, vm.get_pc()?);
    assert_eq!(0, vm.get_register_value(0)?);
    Ok(())
}
