//! Reconstruction of a RISC-V program's execution from its compressed
//! instruction trace: the packet codec, the branch predictor model, the
//! program-counter walker and the call-stack unwinder.

pub mod backend;
pub mod channel;
pub mod decoder;
pub mod decoder_lemmas;
pub mod frontend;
pub mod image;
pub mod insn;
pub mod text;
pub mod useit;
