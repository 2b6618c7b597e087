use vstd::prelude::*;
use crate::backend::event::{Entry, Event};

verus! {

/// A line of the text dump.
#[derive(Debug)]
pub enum TxtLine {
    /// An instruction's address and, where the entry carries it, its text.
    Executed { address: u64, text: Option<String> },
    /// A predictor hit marker with its number of hits.
    HitCount { hits: u64 },
    /// Any other event with its time and name.
    Timed { timestamp: u64, event: String },
}

/// Dumps the execution as text, one line for each entry.
pub struct TxtReceiver {}

impl TxtReceiver {
    pub fn new() -> (receiver: Self) {
        Self {  }
    }

    /// The line to write for an entry, if there is one: for an instruction
    /// its address and text; for any other entry that carries a time, the
    /// time and the event's name, or for a hit marker its number of hits.
    pub fn _receive_entry(&self, entry: Entry) -> (line: Option<TxtLine>)
        ensures
            line matches Some(TxtLine::Executed { address, text }) ==> entry.event
                == Event::Instruction && address == entry.arc.0 && (match (text, entry.insn) {
                (Some(text), Some(insn)) => text == insn.text,
                (None, None) => true,
                _ => false,
            }),
            line matches Some(TxtLine::HitCount { hits }) ==> entry.event == Event::BPHit
                && entry.timestamp == Some(hits),
            line matches Some(TxtLine::Timed { timestamp, event }) ==> entry.event
                != Event::Instruction && entry.event != Event::BPHit && entry.timestamp == Some(
                timestamp,
            ) && event@ == entry.event.label(),
            line is None <==> entry.event != Event::Instruction && entry.timestamp is None,
    {
        match entry.event {
            Event::Instruction => Some(
                TxtLine::Executed {
                    address: entry.arc.0,
                    text: match entry.insn {
                        Some(insn) => Some(insn.text),
                        None => None,
                    },
                },
            ),
            Event::BPHit => match entry.timestamp {
                Some(hits) => Some(TxtLine::HitCount { hits }),
                None => None,
            },
            _ => match entry.timestamp {
                Some(timestamp) => Some(TxtLine::Timed { timestamp, event: entry.event.to_string() }),
                None => None,
            },
        }
    }
}

} // verus!
