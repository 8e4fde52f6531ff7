use lc3_vm::virtual_machine::sign_extend_11_bits;
use lc3_vm::virtual_machine::sign_extend_5_bits;
use lc3_vm::virtual_machine::sign_extend_6_bits;
use lc3_vm::virtual_machine::sign_extend_9_bits;

#[test]
fn sign_extend_5_bits_positive() {
    let num = sign_extend_5_bits(0b_0000_0001);
    assert_eq!(0b_0000_0000_0000_0001, num);
}

#[test]
fn sign_extend_5_bits_negative() {
    let num = sign_extend_5_bits(0b_0001_1111);
    assert_eq!(0b_1111_1111_1111_1111, num);
}

#[test]
fn sign_extend_6_bits_positive() {
    let num = sign_extend_6_bits(0b_0001_1111);
    assert_eq!(0b_0000_0000_0001_1111, num);
}

#[test]
fn sign_extend_6_bits_negative() {
    let num = sign_extend_6_bits(0b_0010_0000);
    assert_eq!(0b_1111_1111_1110_0000, num);
}

#[test]
fn sign_extend_9_bits_positive() {
    let num = sign_extend_9_bits(0b_0_1111_1111);
    assert_eq!(0b_0000_0000_1111_1111, num);
}

#[test]
fn sign_extend_9_bits_negative() {
    let num = sign_extend_9_bits(0b_1_0000_0000);
    assert_eq!(0b_1111_1111_0000_0000, num);
}

#[test]
fn sign_extend_11_bits_positive() {
    let num = sign_extend_11_bits(0b_011_1111_1111);
    assert_eq!(0b_0000_0011_1111_1111, num);
}

#[test]
fn sign_extend_11_bits_negative() {
    let num = sign_extend_11_bits(0b_100_0000_0000);
    assert_eq!(0b_1111_1100_0000_0000, num);
}
