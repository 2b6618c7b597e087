use vstd::prelude::*;
use crate::frontend::trap_type::TrapType;
use crate::insn::Insn;

verus! {

/// What an entry of the reconstructed execution reports.
#[derive(Debug, Clone, Copy, PartialEq, Eq, Structural)]
pub enum Event {
    /// An instruction was executed; nothing else happened.
    Instruction,
    Start,
    TakenBranch,
    NonTakenBranch,
    UninferableJump,
    InferrableJump,
    End,
    TrapException,
    TrapInterrupt,
    TrapReturn,
    BPHit,
    BPMiss,
    Panic,
}

/// One entry of the reconstructed execution.
#[derive(Debug)]
pub struct Entry {
    pub event: Event,
    /// From which address, to which.
    pub arc: (u64, u64),
    pub insn: Option<Insn>,
    pub timestamp: Option<u64>,
}

impl Event {
    /// The event that reports a trap of the given kind.
    pub open spec fn of_trap(trap_type: TrapType) -> Event
        recommends
            trap_type != TrapType::TNone,
    {
        match trap_type {
            TrapType::TException => Event::TrapException,
            TrapType::TInterrupt => Event::TrapInterrupt,
            _ => Event::TrapReturn,
        }
    }

    /// The event's name.
    pub open spec fn label(self) -> Seq<char> {
        match self {
            Event::Instruction => "None"@,
            Event::Start => "Start"@,
            Event::TakenBranch => "TakenBranch"@,
            Event::NonTakenBranch => "NonTakenBranch"@,
            Event::UninferableJump => "UninferableJump"@,
            Event::InferrableJump => "InferrableJump"@,
            Event::End => "End"@,
            Event::TrapException => "TrapException"@,
            Event::TrapInterrupt => "TrapInterrupt"@,
            Event::TrapReturn => "TrapReturn"@,
            Event::BPHit => "BPHit"@,
            Event::BPMiss => "BPMiss"@,
            Event::Panic => "Panic"@,
        }
    }

    /// Whether the event reports the outcome of a conditional branch.
    pub open spec fn is_branch(self) -> bool {
        self == Event::TakenBranch || self == Event::NonTakenBranch
    }

    /// Whether the event reports a trap or a return from one.
    pub open spec fn is_trap(self) -> bool {
        self == Event::TrapException || self == Event::TrapInterrupt || self == Event::TrapReturn
    }

    /// The event that reports a trap of the given kind.
    pub fn from_trap_type(trap_type: TrapType) -> (event: Event)
        requires
            trap_type != TrapType::TNone,
        ensures
            event == Self::of_trap(trap_type),
            event.is_trap(),
    {
        match trap_type {
            TrapType::TException => Event::TrapException,
            TrapType::TInterrupt => Event::TrapInterrupt,
            _ => Event::TrapReturn,
        }
    }

    /// The event's name, as the text outputs print it.
    pub fn to_string(&self) -> (text: String)
        ensures
            text@ == self.label(),
    {
        match self {
            Event::Instruction => "None".to_owned(),
            Event::Start => "Start".to_owned(),
            Event::TakenBranch => "TakenBranch".to_owned(),
            Event::NonTakenBranch => "NonTakenBranch".to_owned(),
            Event::UninferableJump => "UninferableJump".to_owned(),
            Event::InferrableJump => "InferrableJump".to_owned(),
            Event::End => "End".to_owned(),
            Event::TrapException => "TrapException".to_owned(),
            Event::TrapInterrupt => "TrapInterrupt".to_owned(),
            Event::TrapReturn => "TrapReturn".to_owned(),
            Event::BPHit => "BPHit".to_owned(),
            Event::BPMiss => "BPMiss".to_owned(),
            Event::Panic => "Panic".to_owned(),
        }
    }
}

impl Entry {
    /// The entry for an event at a time.
    pub open spec fn timed(event: Event, timestamp: u64, from: u64, to: u64) -> Entry {
        Entry { event, arc: (from, to), insn: None, timestamp: Some(timestamp) }
    }

    /// The entry for the execution of the instruction at `address`.
    pub open spec fn executed(insn: Insn, address: u64) -> Entry
        recommends
            address + insn.len <= u64::MAX,
    {
        Entry {
            event: Event::Instruction,
            arc: (address, (address + insn.len) as u64),
            insn: Some(insn),
            timestamp: None,
        }
    }

    /// An entry for an event at a time, between two addresses.
    pub fn new_timed_event(event: Event, timestamp: u64, from: u64, to: u64) -> (entry: Entry)
        ensures
            entry == Self::timed(event, timestamp, from, to),
    {
        Entry { event, arc: (from, to), insn: None, timestamp: Some(timestamp) }
    }

    /// The entry for the execution of an instruction: it runs from the
    /// instruction's address to the address after it, and carries no time.
    pub fn new_insn(insn: &Insn, address: u64) -> (entry: Entry)
        requires
            address + insn.len <= u64::MAX,
        ensures
            entry == Self::executed(*insn, address),
    {
        Entry {
            event: Event::Instruction,
            arc: (address, address + insn.len as u64),
            insn: Some(insn.clone()),
            timestamp: None,
        }
    }

    /// An entry for a trap of the given kind at a time.
    pub fn new_timed_trap(trap_type: TrapType, timestamp: u64, from: u64, to: u64) -> (entry:
        Entry)
        requires
            trap_type != TrapType::TNone,
        ensures
            entry == Self::timed(Event::of_trap(trap_type), timestamp, from, to),
    {
        Entry {
            event: Event::from_trap_type(trap_type),
            arc: (from, to),
            insn: None,
            timestamp: Some(timestamp),
        }
    }
}

impl Clone for Entry {
    fn clone(&self) -> (copy: Entry)
        ensures
            copy == *self,
    {
        Entry {
            event: self.event,
            arc: (self.arc.0, self.arc.1),
            insn: match &self.insn {
                Some(insn) => Some(insn.clone()),
                None => None,
            },
            timestamp: self.timestamp,
        }
    }
}

} // verus!
