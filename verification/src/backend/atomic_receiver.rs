use vstd::prelude::*;
use vstd::string::StringSliceAdditionalSpecFns;
use crate::backend::abstract_receiver::ReceiveError;
use crate::backend::event::Entry;
use crate::backend::stack_unwinder::{stepped, StackUnwinder, SymbolInfo};
use crate::insn::Insn;
use crate::text::{occurs_at, starts_with};

verus! {

/// What the log says of an atomic memory operation.
#[derive(Debug)]
pub struct AtomicReport {
    /// The time of the last timed entry before the operation.
    pub timestamp: u64,
    /// The operation's address.
    pub pc: u64,
    /// The operation, as text.
    pub text: String,
    /// The stack at the operation: each open frame's start address and
    /// symbol, outermost first.
    pub call_stack: Vec<(u64, SymbolInfo)>,
}

/// Logs the atomic memory operations of the execution, each with the
/// call stack it was executed on.
pub struct AtomicReceiver {
    pub unwinder: StackUnwinder,
    /// The time of the most recent timed entry.
    pub last_ts: u64,
}

/// Whether a mnemonic is that of a load-reserved, a store-conditional or
/// an atomic memory operation.
pub open spec fn is_atomic_name(name: Seq<char>) -> bool {
    let bytes = vstd::utf8::encode_utf8(name);
    occurs_at("lr.".spec_bytes(), bytes, 0) || occurs_at("sc.".spec_bytes(), bytes, 0)
        || occurs_at("amo".spec_bytes(), bytes, 0)
}

impl AtomicReceiver {
    pub open spec fn wf(&self) -> bool {
        self.unwinder.wf()
    }

    /// A log for a program, at time zero.
    pub fn new(unwinder: StackUnwinder) -> (receiver: Self)
        requires
            unwinder.wf(),
        ensures
            receiver.wf(),
            receiver.unwinder == unwinder,
            receiver.last_ts == 0,
    {
        Self { unwinder, last_ts: 0 }
    }

    /// Tells whether an instruction is a load-reserved, a
    /// store-conditional or an atomic memory operation.
    pub fn is_atomic_insn(insn: &Insn) -> (atomic: bool)
        ensures
            atomic == is_atomic_name(insn.name@),
    {
        let name = insn.name.as_str();
        starts_with(name, "lr.") || starts_with(name, "sc.") || starts_with(name, "amo")
    }

    /// Takes one entry. Its time, if it carries one, becomes the current
    /// time; a jump or trap is followed on the stack; and an atomic
    /// memory operation is reported with the current time and stack.
    pub fn _receive_entry(&mut self, entry: Entry) -> (result: Result<
        Option<AtomicReport>,
        ReceiveError,
    >)
        requires
            old(self).wf(),
        ensures
            final(self).wf(),
            final(self).unwinder.same_program(&old(self).unwinder),
            final(self).last_ts == match entry.timestamp {
                Some(ts) => ts,
                None => old(self).last_ts,
            },
            match stepped(
                old(self).unwinder.symbols(),
                old(self).unwinder.ranges(),
                old(self).unwinder.frames(),
                old(self).unwinder.insn_map@,
                entry,
            ) {
                Err(e) => result matches Err(failure) && failure == e && final(self).unwinder.frames() == old(self).unwinder.frames(),
                Ok(change) => final(self).unwinder.frames() == change.frames && (
                if entry.insn is Some && is_atomic_name(entry.insn.unwrap().name@) {
                    result matches Ok(Some(report)) && report.timestamp == final(self).last_ts
                        && report.pc == entry.arc.0 && report.text == entry.insn.unwrap().text
                        && report.call_stack@ == Seq::new(
                        change.frames.len(),
                        |k: int| old(self).unwinder.symbols()[change.frames[k] as int],
                    )
                } else {
                    result matches Ok(None)
                }),
            },
    {
        if let Some(ts) = entry.timestamp {
            self.last_ts = ts;
        }
        let pc = entry.arc.0;
        let atomic: Option<String> = match &entry.insn {
            Some(insn) => if AtomicReceiver::is_atomic_insn(insn) {
                Some(insn.text.clone())
            } else {
                None
            },
            None => None,
        };
        let _ = self.unwinder.step(entry)?;
        match atomic {
            Some(text) => {
                let call_stack = self.unwinder.current_frame_symbols();
                Ok(Some(AtomicReport { timestamp: self.last_ts, pc, text, call_stack }))
            },
            None => Ok(None),
        }
    }
}

} // verus!
