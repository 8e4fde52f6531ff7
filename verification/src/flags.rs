use vstd::prelude::*;

verus! {

/// Word stored in the COND register when the last flag-setting write was positive.
pub const FLAG_POS: u16 = 0;

/// Word stored in the COND register when the last flag-setting write was zero.
pub const FLAG_ZRO: u16 = 2;

/// Word stored in the COND register when the last flag-setting write was negative.
pub const FLAG_NEG: u16 = 4;

/// The three mutually exclusive condition-flag states held by the COND register.
#[derive(Clone, Copy, Debug, PartialEq, Eq, Structural)]
pub enum ConditionFlags {
    POS,
    ZRO,
    NEG,
}

impl ConditionFlags {
    /// The word this flag state stores in the COND register.
    pub open spec fn spec_word(self) -> u16 {
        match self {
            ConditionFlags::POS => FLAG_POS,
            ConditionFlags::ZRO => FLAG_ZRO,
            ConditionFlags::NEG => FLAG_NEG,
        }
    }

    /// Returns the word this flag state stores in the COND register.
    pub fn word(self) -> (r: u16)
        ensures
            r == self.spec_word(),
    {
        match self {
            ConditionFlags::POS => FLAG_POS,
            ConditionFlags::ZRO => FLAG_ZRO,
            ConditionFlags::NEG => FLAG_NEG,
        }
    }
}

/// The COND word demanded by a value just written to a general register:
/// negative if its sign bit is set, zero if it is zero, positive otherwise.
pub open spec fn flag_of(value: u16) -> u16 {
    if value == 0 {
        FLAG_ZRO
    } else if value >= 0x8000 {
        FLAG_NEG
    } else {
        FLAG_POS
    }
}

/// A COND word is well formed when it holds exactly one of the three states.
pub open spec fn is_flag_word(value: u16) -> bool {
    value == FLAG_POS || value == FLAG_ZRO || value == FLAG_NEG
}

} // verus!
