use vstd::prelude::*;

verus! {

/// An eight-bit trap vector outside the recognised service table.
#[derive(Clone, Copy, Debug, PartialEq, Eq, Structural)]
pub enum TrapError {
    InvalidTrap(u8),
}

/// The six console-service routines the TRAP opcode can dispatch to.
#[derive(Clone, Copy, Debug, PartialEq, Eq, Structural)]
pub enum Trap {
    GetC,
    Out,
    Puts,
    In,
    Putsp,
    Halt,
}

impl Trap {
    /// The service named by a trap vector, or the invalid-trap error for a
    /// vector outside the table.
    pub open spec fn spec_try_from(value: u8) -> Result<Trap, TrapError> {
        if value == 0x20 {
            Ok(Trap::GetC)
        } else if value == 0x21 {
            Ok(Trap::Out)
        } else if value == 0x22 {
            Ok(Trap::Puts)
        } else if value == 0x23 {
            Ok(Trap::In)
        } else if value == 0x24 {
            Ok(Trap::Putsp)
        } else if value == 0x25 {
            Ok(Trap::Halt)
        } else {
            Err(TrapError::InvalidTrap(value))
        }
    }

    /// Looks a trap vector up in the service table; vectors outside it are
    /// rejected with the vector that failed.
    pub fn try_from(value: u8) -> (r: Result<Trap, TrapError>)
        ensures
            r == Trap::spec_try_from(value),
    {
        match value {
            0x20 => Ok(Trap::GetC),
            0x21 => Ok(Trap::Out),
            0x22 => Ok(Trap::Puts),
            0x23 => Ok(Trap::In),
            0x24 => Ok(Trap::Putsp),
            0x25 => Ok(Trap::Halt),
            _ => Err(TrapError::InvalidTrap(value)),
        }
    }
}

} // verus!
