use vstd::prelude::*;
use crate::backend::event::Entry;

verus! {

/// Why a reader of the execution cannot take an entry.
#[derive(Debug, Clone, Copy, PartialEq, Eq, Structural)]
pub enum ReceiveError {
    /// An event that has to carry a time carries none.
    MissingTimestamp,
    /// A jump comes from an address at which the image has no instruction.
    MissingInstruction,
    /// An event is earlier than the one it is measured from.
    TimeRunsBackwards,
    /// A count no longer fits in 64 bits.
    CountOverflow,
    /// A path is closed where none is open.
    NoOpenPath,
    /// There is nothing to make a report from.
    NothingRecorded,
}

/// The time that an entry has to carry.
pub open spec fn time_of(entry: Entry) -> Result<u64, ReceiveError> {
    match entry.timestamp {
        Some(timestamp) => Ok(timestamp),
        None => Err(ReceiveError::MissingTimestamp),
    }
}

/// The time of an entry that has to carry one.
pub fn timestamp_of(entry: &Entry) -> (time: Result<u64, ReceiveError>)
    ensures
        time == time_of(*entry),
{
    match entry.timestamp {
        Some(timestamp) => Ok(timestamp),
        None => Err(ReceiveError::MissingTimestamp),
    }
}

/// The time from `from` to `to`.
pub open spec fn span(from: u64, to: u64) -> Result<u64, ReceiveError> {
    if from <= to {
        Ok((to - from) as u64)
    } else {
        Err(ReceiveError::TimeRunsBackwards)
    }
}

/// The time from `from` to `to`.
pub fn interval(from: u64, to: u64) -> (length: Result<u64, ReceiveError>)
    ensures
        length == span(from, to),
{
    if from <= to {
        Ok(to - from)
    } else {
        Err(ReceiveError::TimeRunsBackwards)
    }
}

} // verus!
