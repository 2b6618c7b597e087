//! The reconstructed execution: its events, and what is derived from them.

pub mod abstract_receiver;
pub mod atomic_receiver;
pub mod event;
pub mod foc_receiver;
pub mod perfetto_receiver;
pub mod speedscope_receiver;
pub mod stack_txt_receiver;
pub mod stack_unwinder;
pub mod stats_receiver;
pub mod symbols;
pub mod txt_receiver;
pub mod vbb_receiver;
pub mod vpp_receiver;
