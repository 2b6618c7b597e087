//! The trace wire format and the branch predictor that some of its packets
//! are decoded against.

pub mod bp_double_saturating_counter;
pub mod br_mode;
pub mod c_header;
pub mod f_header;
pub mod packet;
pub mod varint;
pub mod trap_type;
