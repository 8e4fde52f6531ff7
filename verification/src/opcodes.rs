use vstd::prelude::*;

verus! {

/// Failure of instruction decoding: a field of the fetched word does not fit
/// the shape the instruction-format table assigns to it.
#[derive(Clone, Copy, Debug, PartialEq, Eq, Structural)]
pub enum OpcodeError {
    InvalidOpcode,
}

/// One decoded instruction: a closed set of sixteen variants, each carrying
/// only the raw fields its opcode class defines. Register indices are three
/// bits, the mode bits select an immediate versus a register operand, and the
/// offsets are kept unextended at their encoded widths.
#[derive(Clone, Copy, Debug, PartialEq, Eq, Structural)]
#[allow(inconsistent_fields)]
pub enum Opcode {
    BR { n: bool, z: bool, p: bool, offset: u16 },
    ADD { dr: u8, sr1: u8, mode: bool, sr2: u8 },
    LD { dr: u8, offset: u16 },
    ST { sr: u8, offset: u16 },
    JSR { mode: bool, offset: u16 },
    AND { dr: u8, sr1: u8, mode: bool, sr2: u8 },
    LDR { dr: u8, base_r: u8, offset: u8 },
    STR { sr: u8, base_r: u8, offset: u8 },
    RTI {},
    NOT { dr: u8, sr: u8 },
    LDI { dr: u8, offset: u16 },
    STI { sr: u8, offset: u16 },
    JMP { base_r: u8 },
    RES {},
    LEA { dr: u8, offset: u16 },
    TRAP { trap_vec: u8 },
}

/// The instruction encoded by a 16-bit word: the top four bits select the
/// opcode class and the remaining fields sit at the fixed positions of the
/// instruction-format table. Decoding is total: every word names a class and
/// every extracted field fits its width.
pub open spec fn spec_decode(w: u16) -> Opcode {
    let op = w >> 12;
    if op == 0 {
        Opcode::BR {
            n: (w >> 11) & 1 == 1,
            z: (w >> 10) & 1 == 1,
            p: (w >> 9) & 1 == 1,
            offset: w & 0x1FF,
        }
    } else if op == 1 {
        Opcode::ADD {
            dr: ((w >> 9) & 7) as u8,
            sr1: ((w >> 6) & 7) as u8,
            mode: (w >> 5) & 1 == 1,
            sr2: (w & 0x1F) as u8,
        }
    } else if op == 2 {
        Opcode::LD { dr: ((w >> 9) & 7) as u8, offset: w & 0x1FF }
    } else if op == 3 {
        Opcode::ST { sr: ((w >> 9) & 7) as u8, offset: w & 0x1FF }
    } else if op == 4 {
        Opcode::JSR { mode: (w >> 11) & 1 == 1, offset: w & 0x7FF }
    } else if op == 5 {
        Opcode::AND {
            dr: ((w >> 9) & 7) as u8,
            sr1: ((w >> 6) & 7) as u8,
            mode: (w >> 5) & 1 == 1,
            sr2: (w & 0x1F) as u8,
        }
    } else if op == 6 {
        Opcode::LDR {
            dr: ((w >> 9) & 7) as u8,
            base_r: ((w >> 6) & 7) as u8,
            offset: (w & 0x3F) as u8,
        }
    } else if op == 7 {
        Opcode::STR {
            sr: ((w >> 9) & 7) as u8,
            base_r: ((w >> 6) & 7) as u8,
            offset: (w & 0x3F) as u8,
        }
    } else if op == 8 {
        Opcode::RTI {}
    } else if op == 9 {
        Opcode::NOT { dr: ((w >> 9) & 7) as u8, sr: ((w >> 6) & 7) as u8 }
    } else if op == 10 {
        Opcode::LDI { dr: ((w >> 9) & 7) as u8, offset: w & 0x1FF }
    } else if op == 11 {
        Opcode::STI { sr: ((w >> 9) & 7) as u8, offset: w & 0x1FF }
    } else if op == 12 {
        Opcode::JMP { base_r: ((w >> 6) & 7) as u8 }
    } else if op == 13 {
        Opcode::RES {}
    } else if op == 14 {
        Opcode::LEA { dr: ((w >> 9) & 7) as u8, offset: w & 0x1FF }
    } else {
        Opcode::TRAP { trap_vec: (w & 0xFF) as u8 }
    }
}

/// The field-width invariant of a decoded instruction: register indices fit
/// the three bits the format gives them, and every offset, operand field and
/// trap vector fits its encoded width.
pub open spec fn opcode_wf(op: Opcode) -> bool {
    match op {
        Opcode::BR { offset, .. } => offset < 0x200,
        Opcode::ADD { dr, sr1, sr2, .. } => dr < 8 && sr1 < 8 && sr2 < 0x20,
        Opcode::LD { dr, offset } => dr < 8 && offset < 0x200,
        Opcode::ST { sr, offset } => sr < 8 && offset < 0x200,
        Opcode::JSR { offset, .. } => offset < 0x800,
        Opcode::AND { dr, sr1, sr2, .. } => dr < 8 && sr1 < 8 && sr2 < 0x20,
        Opcode::LDR { dr, base_r, offset } => dr < 8 && base_r < 8 && offset < 0x40,
        Opcode::STR { sr, base_r, offset } => sr < 8 && base_r < 8 && offset < 0x40,
        Opcode::RTI {  } => true,
        Opcode::NOT { dr, sr } => dr < 8 && sr < 8,
        Opcode::LDI { dr, offset } => dr < 8 && offset < 0x200,
        Opcode::STI { sr, offset } => sr < 8 && offset < 0x200,
        Opcode::JMP { base_r } => base_r < 8,
        Opcode::RES {  } => true,
        Opcode::LEA { dr, offset } => dr < 8 && offset < 0x200,
        Opcode::TRAP { .. } => true,
    }
}

/// Decoding always yields an instruction whose fields fit their widths.
pub proof fn lemma_decode_wf(w: u16)
    ensures
        opcode_wf(spec_decode(w)),
{
    lemma_field_bounds(w);
}

/// Every field position of the instruction-format table yields a value that
/// fits its declared width, for every word.
pub proof fn lemma_field_bounds(w: u16)
    by (bit_vector)
    ensures
        (w >> 12) <= 15,
        ((w >> 9) & 7) < 8,
        ((w >> 6) & 7) < 8,
        ((w >> 11) & 1) <= 1,
        ((w >> 10) & 1) <= 1,
        ((w >> 5) & 1) <= 1,
        (w & 0x1F) < 0x20,
        (w & 0x3F) < 0x40,
        (w & 0xFF) < 0x100,
        (w & 0x1FF) < 0x200,
        (w & 0x7FF) < 0x800,
{
}

/// Extracts the three-bit register field that starts at bit `sh`.
fn reg_field(w: u16, sh: u16) -> (r: u8)
    requires
        sh < 16,
    ensures
        r == ((w >> sh) & 7) as u8,
        r < 8,
{
    proof {
        lemma_field_bounds_shifted(w, sh);
    }
    ((w >> sh) & 7) as u8
}

/// A three-bit field is below eight wherever it starts.
proof fn lemma_field_bounds_shifted(w: u16, sh: u16)
    by (bit_vector)
    requires
        sh < 16,
    ensures
        ((w >> sh) & 7) < 8,
{
}

/// Tests the single bit at position `sh`.
fn bit_set(w: u16, sh: u16) -> (r: bool)
    requires
        sh < 16,
    ensures
        r == ((w >> sh) & 1 == 1),
{
    (w >> sh) & 1 == 1
}

impl Opcode {
    /// Decodes a fetched 16-bit word into its instruction. Decoding never
    /// fails: the top four bits always name one of the sixteen classes and
    /// the masked fields always fit their widths; the error variant remains
    /// as the defensive boundary the register-width checks demand.
    pub fn try_from(instruction: u16) -> (r: Result<Opcode, OpcodeError>)
        ensures
            r == Ok::<Opcode, OpcodeError>(spec_decode(instruction)),
    {
        proof {
            lemma_field_bounds(instruction);
        }
        match instruction >> 12 {
            0 => Ok(Opcode::BR {
                n: bit_set(instruction, 11),
                z: bit_set(instruction, 10),
                p: bit_set(instruction, 9),
                offset: instruction & 0x1FF,
            }),
            1 => Ok(Opcode::ADD {
                dr: reg_field(instruction, 9),
                sr1: reg_field(instruction, 6),
                mode: bit_set(instruction, 5),
                sr2: (instruction & 0x1F) as u8,
            }),
            2 => Ok(Opcode::LD { dr: reg_field(instruction, 9), offset: instruction & 0x1FF }),
            3 => Ok(Opcode::ST { sr: reg_field(instruction, 9), offset: instruction & 0x1FF }),
            4 => Ok(Opcode::JSR { mode: bit_set(instruction, 11), offset: instruction & 0x7FF }),
            5 => Ok(Opcode::AND {
                dr: reg_field(instruction, 9),
                sr1: reg_field(instruction, 6),
                mode: bit_set(instruction, 5),
                sr2: (instruction & 0x1F) as u8,
            }),
            6 => Ok(Opcode::LDR {
                dr: reg_field(instruction, 9),
                base_r: reg_field(instruction, 6),
                offset: (instruction & 0x3F) as u8,
            }),
            7 => Ok(Opcode::STR {
                sr: reg_field(instruction, 9),
                base_r: reg_field(instruction, 6),
                offset: (instruction & 0x3F) as u8,
            }),
            8 => Ok(Opcode::RTI {}),
            9 => Ok(Opcode::NOT { dr: reg_field(instruction, 9), sr: reg_field(instruction, 6) }),
            10 => Ok(Opcode::LDI { dr: reg_field(instruction, 9), offset: instruction & 0x1FF }),
            11 => Ok(Opcode::STI { sr: reg_field(instruction, 9), offset: instruction & 0x1FF }),
            12 => Ok(Opcode::JMP { base_r: reg_field(instruction, 6) }),
            13 => Ok(Opcode::RES {}),
            14 => Ok(Opcode::LEA { dr: reg_field(instruction, 9), offset: instruction & 0x1FF }),
            15 => Ok(Opcode::TRAP { trap_vec: (instruction & 0xFF) as u8 }),
            _ => Err(OpcodeError::InvalidOpcode),
        }
    }
}

} // verus!
