use vstd::prelude::*;
use crate::backend::abstract_receiver::ReceiveError;
use crate::backend::event::{Entry, Event};
use crate::frontend::br_mode::BrMode;

verus! {

/// What the statistics count.
#[derive(Debug, Clone, Copy, PartialEq, Eq, Structural)]
pub struct Counts {
    pub packet_count: u64,
    pub insn_count: u64,
    pub hit_count: u64,
    pub miss_count: u64,
}

/// What the statistics report when the trace has ended.
#[derive(Debug, Clone, Copy, PartialEq, Eq, Structural)]
pub struct StatsReport {
    pub insn_count: u64,
    pub packet_count: u64,
    /// Whether the trace was taken in predict mode, so that the hits and
    /// misses say how well the predictor did.
    pub predicted: bool,
    pub hit_count: u64,
    pub miss_count: u64,
    /// The size of the trace in bytes.
    pub file_size: u64,
}

/// Counts instructions, packets and predictor outcomes.
pub struct StatsReceiver {
    pub br_mode: BrMode,
    pub file_size: u64,
    pub packet_count: u64,
    pub insn_count: u64,
    pub hit_count: u64,
    pub miss_count: u64,
}

/// How much each count grows with an entry: packets, instructions, hits,
/// misses. An instruction counts as one. Every other entry stands for one
/// packet, but for the branch outcomes in predict mode, which come from the
/// packets that the predictor markers stand for, and for those markers
/// outside predict mode. A hit marker carries its number of hits.
pub open spec fn growth(br_mode: BrMode, entry: Entry) -> Result<(u64, u64, u64, u64), ReceiveError> {
    let predict = br_mode == BrMode::BrPredict;
    match entry.event {
        Event::Instruction => Ok((0, 1, 0, 0)),
        Event::BPHit => if !predict {
            Ok((0, 0, 0, 0))
        } else {
            match entry.timestamp {
                Some(hits) => Ok((1, 0, hits, 0)),
                None => Err(ReceiveError::MissingTimestamp),
            }
        },
        Event::BPMiss => if predict {
            Ok((1, 0, 0, 1))
        } else {
            Ok((0, 0, 0, 0))
        },
        Event::TakenBranch | Event::NonTakenBranch => if predict {
            Ok((0, 0, 0, 0))
        } else {
            Ok((1, 0, 0, 0))
        },
        _ => Ok((1, 0, 0, 0)),
    }
}

/// The counts after an entry.
pub open spec fn counted(counts: Counts, br_mode: BrMode, entry: Entry) -> Result<Counts, ReceiveError> {
    match growth(br_mode, entry) {
        Err(e) => Err(e),
        Ok((packets, insns, hits, misses)) => if counts.packet_count + packets > u64::MAX
            || counts.insn_count + insns > u64::MAX || counts.hit_count + hits > u64::MAX
            || counts.miss_count + misses > u64::MAX {
            Err(ReceiveError::CountOverflow)
        } else {
            Ok(
                Counts {
                    packet_count: (counts.packet_count + packets) as u64,
                    insn_count: (counts.insn_count + insns) as u64,
                    hit_count: (counts.hit_count + hits) as u64,
                    miss_count: (counts.miss_count + misses) as u64,
                },
            )
        },
    }
}

impl StatsReceiver {
    /// The counts so far.
    pub open spec fn counts(&self) -> Counts {
        Counts {
            packet_count: self.packet_count,
            insn_count: self.insn_count,
            hit_count: self.hit_count,
            miss_count: self.miss_count,
        }
    }

    /// Statistics for a trace of `file_size` bytes, with nothing counted.
    pub fn new(br_mode: BrMode, file_size: u64) -> (receiver: Self)
        ensures
            receiver.br_mode == br_mode,
            receiver.file_size == file_size,
            receiver.counts() == (Counts {
                packet_count: 0,
                insn_count: 0,
                hit_count: 0,
                miss_count: 0,
            }),
    {
        Self { br_mode, file_size, packet_count: 0, insn_count: 0, hit_count: 0, miss_count: 0 }
    }

    /// Counts one entry. Where it cannot be counted, nothing changes.
    pub fn _receive_entry(&mut self, entry: Entry) -> (result: Result<(), ReceiveError>)
        ensures
            final(self).br_mode == old(self).br_mode,
            final(self).file_size == old(self).file_size,
            match counted(old(self).counts(), old(self).br_mode, entry) {
                Ok(counts) => result is Ok && final(self).counts() == counts,
                Err(e) => result == Err::<(), ReceiveError>(e) && final(self).counts() == old(self).counts(),
            },
    {
        let predict = self.br_mode == BrMode::BrPredict;
        let (packets, insns, hits, misses): (u64, u64, u64, u64) = match entry.event {
            Event::Instruction => (0, 1, 0, 0),
            Event::BPHit => {
                if !predict {
                    (0, 0, 0, 0)
                } else {
                    match entry.timestamp {
                        Some(hits) => (1, 0, hits, 0),
                        None => {
                            return Err(ReceiveError::MissingTimestamp);
                        },
                    }
                }
            },
            Event::BPMiss => {
                if predict {
                    (1, 0, 0, 1)
                } else {
                    (0, 0, 0, 0)
                }
            },
            Event::TakenBranch | Event::NonTakenBranch => {
                if predict {
                    (0, 0, 0, 0)
                } else {
                    (1, 0, 0, 0)
                }
            },
            _ => (1, 0, 0, 0),
        };
        if packets > u64::MAX - self.packet_count || insns > u64::MAX - self.insn_count || hits
            > u64::MAX - self.hit_count || misses > u64::MAX - self.miss_count {
            return Err(ReceiveError::CountOverflow);
        }
        self.packet_count += packets;
        self.insn_count += insns;
        self.hit_count += hits;
        self.miss_count += misses;
        Ok(())
    }

    /// What there is to report when the trace has ended.
    pub fn _flush(&self) -> (report: StatsReport)
        ensures
            report == (StatsReport {
                insn_count: self.insn_count,
                packet_count: self.packet_count,
                predicted: self.br_mode == BrMode::BrPredict,
                hit_count: self.hit_count,
                miss_count: self.miss_count,
                file_size: self.file_size,
            }),
    {
        StatsReport {
            insn_count: self.insn_count,
            packet_count: self.packet_count,
            predicted: self.br_mode == BrMode::BrPredict,
            hit_count: self.hit_count,
            miss_count: self.miss_count,
            file_size: self.file_size,
        }
    }
}

} // verus!
