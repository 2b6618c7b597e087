use vstd::prelude::*;
use crate::backend::abstract_receiver::{interval, span, time_of, timestamp_of, ReceiveError};
use crate::backend::event::{Entry, Event};

verus! {

/// A basic block: from the address at which execution arrived to the
/// address of the branch or jump that left it.
#[derive(Debug, Clone, Copy, PartialEq, Eq, Hash, Structural)]
pub struct BB {
    pub start_addr: u64,
    pub end_addr: u64,
}

/// How long each execution of a basic block took.
#[derive(Debug)]
pub struct BbRecord {
    pub bb: BB,
    pub intervals: Vec<u64>,
}

/// Times the basic blocks of the execution.
pub struct VBBReceiver {
    /// One record for each basic block, in the order in which the blocks
    /// were first executed.
    pub bb_records: Vec<BbRecord>,
    /// Where the block that is being executed began.
    pub prev_addr: u64,
    /// When it began.
    pub prev_timestamp: u64,
}

/// The records as plain values.
pub open spec fn records_of(records: Seq<BbRecord>) -> Seq<(BB, Seq<u64>)> {
    Seq::new(records.len(), |i: int| (records[i].bb, records[i].intervals@))
}

/// Whether a block has a record.
pub open spec fn has_record(records: Seq<(BB, Seq<u64>)>, bb: BB) -> bool {
    exists|i: int| 0 <= i < records.len() && (#[trigger] records[i]).0 == bb
}

/// Whether no block has two records.
pub open spec fn distinct_blocks(records: Seq<(BB, Seq<u64>)>) -> bool {
    forall|i: int, j: int|
        0 <= i < records.len() && 0 <= j < records.len() && i != j ==> (#[trigger] records[i]).0
            != (#[trigger] records[j]).0
}

/// The records after one more execution of a block: its time is added to
/// the block's record, or opens one at the end.
pub open spec fn noted(records: Seq<(BB, Seq<u64>)>, bb: BB, length: u64) -> Seq<(BB, Seq<u64>)> {
    if has_record(records, bb) {
        Seq::new(
            records.len(),
            |i: int|
                if records[i].0 == bb {
                    (bb, records[i].1.push(length))
                } else {
                    records[i]
                },
        )
    } else {
        records.push((bb, seq![length]))
    }
}

/// Whether an event ends a basic block.
pub open spec fn ends_block(event: Event) -> bool {
    event == Event::InferrableJump || event == Event::UninferableJump || event
        == Event::TakenBranch || event == Event::NonTakenBranch
}

impl VBBReceiver {
    /// The records as plain values.
    pub open spec fn records(&self) -> Seq<(BB, Seq<u64>)> {
        records_of(self.bb_records@)
    }

    /// No block has two records.
    pub open spec fn wf(&self) -> bool {
        distinct_blocks(self.records())
    }

    /// A receiver that has timed nothing.
    pub fn new() -> (receiver: Self)
        ensures
            receiver.wf(),
            receiver.records() == Seq::<(BB, Seq<u64>)>::empty(),
            receiver.prev_addr == 0,
            receiver.prev_timestamp == 0,
    {
        let receiver = Self { bb_records: Vec::new(), prev_addr: 0, prev_timestamp: 0 };
        receiver
    }

    /// Where the record of a block stands, if it has one.
    fn find(&self, bb: BB) -> (found: Option<usize>)
        ensures
            match found {
                Some(at) => at < self.records().len() && self.records()[at as int].0 == bb,
                None => !has_record(self.records(), bb),
            },
    {
        let mut at: usize = 0;
        while at < self.bb_records.len()
            invariant
                at <= self.bb_records@.len(),
                forall|i: int| 0 <= i < at ==> (#[trigger] self.records()[i]).0 != bb,
            decreases self.bb_records@.len() - at,
        {
            if self.bb_records[at].bb == bb {
                return Some(at);
            }
            at += 1;
        }
        None
    }

    /// Takes one entry. The start of the trace begins the first block.
    /// A branch or a jump ends the block that is being executed, whose
    /// time is recorded, and begins the next where it leads.
    pub fn _receive_entry(&mut self, entry: Entry) -> (result: Result<(), ReceiveError>)
        requires
            old(self).wf(),
        ensures
            final(self).wf(),
            result is Err ==> *final(self) == *old(self),
            entry.event != Event::Start && !ends_block(entry.event) ==> result is Ok && *final(self) == *old(self),
            entry.event == Event::Start ==> match time_of(entry) {
                Ok(time) => result is Ok && final(self).records() == old(self).records()
                    && final(self).prev_addr == entry.arc.0 && final(self).prev_timestamp == time,
                Err(e) => result == Err::<(), ReceiveError>(e),
            },
            ends_block(entry.event) ==> match time_of(entry) {
                Ok(time) => match span(old(self).prev_timestamp, time) {
                    Ok(length) => result is Ok && final(self).records() == noted(
                        old(self).records(),
                        BB { start_addr: old(self).prev_addr, end_addr: entry.arc.0 },
                        length,
                    ) && final(self).prev_addr == entry.arc.1 && final(self).prev_timestamp
                        == time,
                    Err(e) => result == Err::<(), ReceiveError>(e),
                },
                Err(e) => result == Err::<(), ReceiveError>(e),
            },
    {
        match entry.event {
            Event::Start => {
                let time = timestamp_of(&entry)?;
                self.prev_addr = entry.arc.0;
                self.prev_timestamp = time;
                Ok(())
            },
            Event::InferrableJump | Event::UninferableJump | Event::TakenBranch
            | Event::NonTakenBranch => {
                let curr_addr = entry.arc.0;
                let curr_timestamp = timestamp_of(&entry)?;
                let length = interval(self.prev_timestamp, curr_timestamp)?;
                let bb = BB { start_addr: self.prev_addr, end_addr: curr_addr };
                let ghost before = self.records();
                match self.find(bb) {
                    Some(at) => {
                        self.bb_records[at].intervals.push(length);
                        assert(self.records() =~= noted(before, bb, length));
                    },
                    None => {
                        let mut intervals: Vec<u64> = Vec::new();
                        intervals.push(length);
                        self.bb_records.push(BbRecord { bb, intervals });
                        assert(self.records() =~= noted(before, bb, length));
                    },
                }
                self.prev_addr = entry.arc.1;
                self.prev_timestamp = curr_timestamp;
                Ok(())
            },
            _ => Ok(()),
        }
    }

    /// The records to write when the trace has ended.
    pub fn _flush(&self) -> (records: &Vec<BbRecord>)
        ensures
            *records == self.bb_records,
    {
        &self.bb_records
    }
}

} // verus!
