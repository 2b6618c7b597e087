use vstd::prelude::*;
use crate::frontend::c_header::CHeader;

verus! {

/// Selects the three full-header bits of a full packet's first byte.
pub const F_HEADER_MASK: u8 = 0b0001_1100;

/// Position of the full-header bits within the first byte.
pub const FHEADER_OFFSET: u8 = 2;

/// What a packet reports.
#[derive(Debug, Clone, Copy, PartialEq, Eq, Structural)]
pub enum FHeader {
    /// Taken branch.
    FTb,
    /// Branch not taken.
    FNt,
    /// Uninferable jump: the target is transmitted.
    FUj,
    /// Inferable jump: the target is in the instruction.
    FIj,
    /// A trap was taken or returned from.
    FTrap,
    /// Synchronization: opens and closes a trace.
    FSync,
    /// Value report; reserved.
    FVal,
    /// Reserved.
    FRes,
}

impl FHeader {
    /// The header that a three-bit field encodes.
    pub open spec fn of_bits(value: u8) -> FHeader {
        if value == 0b000 {
            FHeader::FTb
        } else if value == 0b001 {
            FHeader::FNt
        } else if value == 0b010 {
            FHeader::FUj
        } else if value == 0b011 {
            FHeader::FIj
        } else if value == 0b100 {
            FHeader::FTrap
        } else if value == 0b101 {
            FHeader::FSync
        } else if value == 0b110 {
            FHeader::FVal
        } else {
            FHeader::FRes
        }
    }

    /// The three-bit field that encodes this header.
    pub open spec fn bits(self) -> u8 {
        match self {
            FHeader::FTb => 0b000,
            FHeader::FNt => 0b001,
            FHeader::FUj => 0b010,
            FHeader::FIj => 0b011,
            FHeader::FTrap => 0b100,
            FHeader::FSync => 0b101,
            FHeader::FVal => 0b110,
            FHeader::FRes => 0b111,
        }
    }

    /// What a compressed packet with the given header reports.
    pub open spec fn of_compressed(c_header: CHeader) -> FHeader
        recommends
            c_header.is_compressed(),
    {
        match c_header {
            CHeader::CTb => FHeader::FTb,
            CHeader::CNt => FHeader::FNt,
            _ => FHeader::FIj,
        }
    }

    /// Decodes a three-bit full-header field.
    pub fn from(value: u8) -> (header: FHeader)
        requires
            value <= 0b111,
        ensures
            header == Self::of_bits(value),
            header.bits() == value,
    {
        if value == 0b000 {
            FHeader::FTb
        } else if value == 0b001 {
            FHeader::FNt
        } else if value == 0b010 {
            FHeader::FUj
        } else if value == 0b011 {
            FHeader::FIj
        } else if value == 0b100 {
            FHeader::FTrap
        } else if value == 0b101 {
            FHeader::FSync
        } else if value == 0b110 {
            FHeader::FVal
        } else {
            FHeader::FRes
        }
    }

    /// The full header that a compressed header abbreviates.
    pub fn from_c_header(c_header: CHeader) -> (header: FHeader)
        requires
            c_header.is_compressed(),
        ensures
            header == Self::of_compressed(c_header),
    {
        match c_header {
            CHeader::CTb => FHeader::FTb,
            CHeader::CNt => FHeader::FNt,
            _ => FHeader::FIj,
        }
    }
}

} // verus!
