use vstd::prelude::*;

verus! {

/// How the trace encoder reports conditional branches.
#[derive(Debug, Clone, Copy, PartialEq, Eq, Structural)]
pub enum BrMode {
    /// One packet per branch and per jump.
    BrTarget,
    /// Branch history; decoded against the predictor.
    BrHistory,
    /// Predictor hits are counted, misses reported.
    BrPredict,
    BrReserved,
}

impl BrMode {
    /// The mode that a two-bit field encodes.
    pub open spec fn of_bits(value: u64) -> BrMode {
        if value == 0b00 {
            BrMode::BrTarget
        } else if value == 0b01 {
            BrMode::BrHistory
        } else if value == 0b10 {
            BrMode::BrPredict
        } else {
            BrMode::BrReserved
        }
    }

    /// Whether branch packets are decoded against the predictor.
    pub open spec fn predicts(self) -> bool {
        self == BrMode::BrPredict || self == BrMode::BrHistory
    }

    /// Whether a walk stops at a direct jump instead of following it.
    pub open spec fn stops_on_direct_jump(self) -> bool {
        self == BrMode::BrTarget
    }

    /// Decodes a branch-mode number.
    pub fn from(value: u64) -> (mode: BrMode)
        requires
            value <= 0b11,
        ensures
            mode == Self::of_bits(value),
    {
        if value == 0b00 {
            BrMode::BrTarget
        } else if value == 0b01 {
            BrMode::BrHistory
        } else if value == 0b10 {
            BrMode::BrPredict
        } else {
            BrMode::BrReserved
        }
    }
}

} // verus!
