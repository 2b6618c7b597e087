use vstd::prelude::*;

verus! {

/// Selects the two header bits of a packet's first byte.
pub const C_HEADER_MASK: u8 = 0b0000_0011;

/// Selects the six timestamp bits of a compressed packet's only byte.
pub const C_TIMESTAMP_MASK: u8 = 0b1111_1100;

/// The two low bits of a packet's first byte.
#[derive(Debug, Clone, Copy, PartialEq, Eq, Structural)]
pub enum CHeader {
    /// Compressed packet: taken branch.
    CTb,
    /// Compressed packet: branch not taken.
    CNt,
    /// Not a compressed packet: a full header follows in the same byte.
    CNa,
    /// Compressed packet: inferable jump.
    CIj,
}

impl CHeader {
    /// The header that a two-bit field encodes.
    pub open spec fn of_bits(value: u8) -> CHeader {
        if value == 0b00 {
            CHeader::CTb
        } else if value == 0b01 {
            CHeader::CNt
        } else if value == 0b10 {
            CHeader::CNa
        } else {
            CHeader::CIj
        }
    }

    /// The two-bit field that encodes this header.
    pub open spec fn bits(self) -> u8 {
        match self {
            CHeader::CTb => 0b00,
            CHeader::CNt => 0b01,
            CHeader::CNa => 0b10,
            CHeader::CIj => 0b11,
        }
    }

    /// Whether a packet with this header is complete in one byte.
    pub open spec fn is_compressed(self) -> bool {
        self != CHeader::CNa
    }

    /// Decodes a two-bit header field.
    pub fn from(value: u8) -> (header: CHeader)
        requires
            value <= 0b11,
        ensures
            header == Self::of_bits(value),
            header.bits() == value,
    {
        if value == 0b00 {
            CHeader::CTb
        } else if value == 0b01 {
            CHeader::CNt
        } else if value == 0b10 {
            CHeader::CNa
        } else {
            CHeader::CIj
        }
    }
}

} // verus!
