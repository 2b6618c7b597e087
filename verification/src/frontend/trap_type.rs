use vstd::prelude::*;

verus! {

/// Selects the three trap-type bits of a trap packet's first byte.
pub const TRAP_TYPE_MASK: u8 = 0b1110_0000;

/// Position of the trap-type bits within the first byte.
pub const TRAP_TYPE_OFFSET: u8 = 5;

/// The kind of trap that a trap packet reports.
#[derive(Debug, Clone, Copy, PartialEq, Eq, Structural)]
pub enum TrapType {
    TNone,
    TException,
    TInterrupt,
    TReturn,
}

impl TrapType {
    /// Whether a three-bit field encodes a trap type. The encoding is
    /// sparse: `0b011` and everything above `0b100` are reserved.
    pub open spec fn valid_bits(value: u8) -> bool {
        value == 0b000 || value == 0b001 || value == 0b010 || value == 0b100
    }

    /// The trap type that a valid three-bit field encodes.
    pub open spec fn of_bits(value: u8) -> TrapType
        recommends
            Self::valid_bits(value),
    {
        if value == 0b000 {
            TrapType::TNone
        } else if value == 0b001 {
            TrapType::TException
        } else if value == 0b010 {
            TrapType::TInterrupt
        } else {
            TrapType::TReturn
        }
    }

    /// The three-bit field that encodes this trap type.
    pub open spec fn bits(self) -> u8 {
        match self {
            TrapType::TNone => 0b000,
            TrapType::TException => 0b001,
            TrapType::TInterrupt => 0b010,
            TrapType::TReturn => 0b100,
        }
    }

    /// Tells whether a three-bit field encodes a trap type.
    pub fn is_valid(value: u8) -> (valid: bool)
        ensures
            valid == Self::valid_bits(value),
    {
        value == 0b000 || value == 0b001 || value == 0b010 || value == 0b100
    }

    /// Decodes a trap-type field.
    pub fn from(value: u8) -> (trap_type: TrapType)
        requires
            Self::valid_bits(value),
        ensures
            trap_type == Self::of_bits(value),
            trap_type.bits() == value,
    {
        if value == 0b000 {
            TrapType::TNone
        } else if value == 0b001 {
            TrapType::TException
        } else if value == 0b010 {
            TrapType::TInterrupt
        } else {
            TrapType::TReturn
        }
    }
}

} // verus!
