use vstd::prelude::*;
use crate::backend::abstract_receiver::ReceiveError;
use crate::backend::event::{Entry, Event};
use crate::backend::stack_unwinder::{
    enters,
    leaves,
    stepped,
    symbol_of,
    StackUnwinder,
    SymbolInfo,
};
use crate::backend::symbols::has_symbol;

verus! {

/// What the stack dump says of a jump or trap.
#[derive(Debug)]
pub struct StackReport {
    /// The entry's time, or zero where it carries none.
    pub timestamp: u64,
    pub event: Event,
    /// Where the jump or trap leads.
    pub target: u64,
    /// The function that the target lies in, going by start addresses:
    /// its start address and symbol.
    pub symbol: Option<(u64, SymbolInfo)>,
    /// The stack after the step: each open frame's start address and
    /// symbol, outermost first.
    pub stack: Vec<(u64, SymbolInfo)>,
}

/// Dumps the call stack after each jump and trap.
pub struct StackTxtReceiver {
    pub stack_unwinder: StackUnwinder,
}

impl StackTxtReceiver {
    pub open spec fn wf(&self) -> bool {
        self.stack_unwinder.wf()
    }

    /// A stack dump of a program.
    pub fn new(stack_unwinder: StackUnwinder) -> (receiver: Self)
        requires
            stack_unwinder.wf(),
        ensures
            receiver.wf(),
            receiver.stack_unwinder == stack_unwinder,
    {
        Self { stack_unwinder }
    }

    /// The function that starts nearest below `pc`, or at it.
    pub fn lookup_symbol(&self, pc: u64) -> (found: Option<(u64, SymbolInfo)>)
        requires
            self.wf(),
        ensures
            match found {
                Some((start, info)) => start <= pc && has_symbol(
                    self.stack_unwinder.symbols(),
                    start,
                ) && info == symbol_of(self.stack_unwinder.symbols(), start) && forall|i: int|
                    0 <= i < self.stack_unwinder.symbols().len() && (
                    #[trigger] self.stack_unwinder.symbols()[i]).0 <= pc
                        ==> self.stack_unwinder.symbols()[i].0 <= start,
                None => forall|i: int|
                    0 <= i < self.stack_unwinder.symbols().len() ==> (
                    #[trigger] self.stack_unwinder.symbols()[i]).0 > pc,
            },
    {
        self.stack_unwinder.lookup_symbol(pc)
    }

    /// The open frames to dump, outermost first.
    pub fn dump_current_stack(&self) -> (stack: Vec<(u64, SymbolInfo)>)
        requires
            self.wf(),
        ensures
            stack@ == Seq::new(
                self.stack_unwinder.frames().len(),
                |k: int| self.stack_unwinder.symbols()[self.stack_unwinder.frames()[k] as int],
            ),
    {
        self.stack_unwinder.current_frame_symbols()
    }

    /// Takes one entry. A jump or trap is followed on the stack, and
    /// reported with the function it leads into and the stack after it.
    /// Any other entry is passed over.
    pub fn _receive_entry(&mut self, entry: Entry) -> (result: Result<
        Option<StackReport>,
        ReceiveError,
    >)
        requires
            old(self).wf(),
        ensures
            final(self).wf(),
            final(self).stack_unwinder.same_program(&old(self).stack_unwinder),
            !enters(entry.event) && !leaves(entry.event) ==> (result matches Ok(None)) && final(
                self).stack_unwinder == old(self).stack_unwinder,
            enters(entry.event) || leaves(entry.event) ==> match stepped(
                old(self).stack_unwinder.symbols(),
                old(self).stack_unwinder.ranges(),
                old(self).stack_unwinder.frames(),
                old(self).stack_unwinder.insn_map@,
                entry,
            ) {
                Err(e) => result matches Err(failure) && failure == e && final(self).stack_unwinder.frames() == old(self).stack_unwinder.frames(),
                Ok(change) => result matches Ok(Some(report)) && final(
                    self).stack_unwinder.frames() == change.frames && report.timestamp
                    == entry.timestamp.unwrap_or(0) && report.event == entry.event && report.target
                    == entry.arc.1 && report.stack@ == Seq::new(
                    change.frames.len(),
                    |k: int| old(self).stack_unwinder.symbols()[change.frames[k] as int],
                ) && (match report.symbol {
                    Some((start, info)) => start <= entry.arc.1 && has_symbol(
                        old(self).stack_unwinder.symbols(),
                        start,
                    ) && info == symbol_of(old(self).stack_unwinder.symbols(), start)
                        && forall|i: int|
                        0 <= i < old(self).stack_unwinder.symbols().len() && (#[trigger] old(self).stack_unwinder.symbols()[i]).0 <= entry.arc.1 ==> old(self).stack_unwinder.symbols()[i].0 <= start,
                    None => forall|i: int|
                        0 <= i < old(self).stack_unwinder.symbols().len() ==> (#[trigger] old(self).stack_unwinder.symbols()[i]).0 > entry.arc.1,
                }),
            },
    {
        match entry.event {
            Event::InferrableJump
            | Event::TrapException
            | Event::TrapInterrupt
            | Event::UninferableJump
            | Event::TrapReturn => {
                let timestamp = match entry.timestamp {
                    Some(ts) => ts,
                    None => 0,
                };
                let event = entry.event;
                let pc = entry.arc.1;
                let _ = self.stack_unwinder.step(entry)?;
                let symbol = self.lookup_symbol(pc);
                let stack = self.dump_current_stack();
                Ok(Some(StackReport { timestamp, event, target: pc, symbol, stack }))
            },
            _ => Ok(None),
        }
    }
}

} // verus!
