use vstd::prelude::*;
use crate::backend::abstract_receiver::{interval, span, time_of, ReceiveError};
use crate::backend::event::{Entry, Event};
use crate::backend::stack_unwinder::{stepped, StackUnwinder};

verus! {

/// The way that one call of a function took: the function's start
/// address, and for each branch on the way whether it was taken.
#[derive(Debug)]
pub struct Path {
    pub addr: u64,
    pub path: Vec<bool>,
}

impl View for Path {
    type V = (u64, Seq<bool>);

    open spec fn view(&self) -> (u64, Seq<bool>) {
        (self.addr, self.path@)
    }
}

impl Clone for Path {
    fn clone(&self) -> (copy: Path)
        ensures
            copy@ == self@,
    {
        let mut path: Vec<bool> = Vec::new();
        let mut at: usize = 0;
        while at < self.path.len()
            invariant
                at <= self.path@.len(),
                path@ == self.path@.take(at as int),
            decreases self.path@.len() - at,
        {
            path.push(self.path[at]);
            at += 1;
        }
        Path { addr: self.addr, path }
    }
}

/// A line of the report: one timed call of the outermost function.
#[derive(Debug)]
pub struct FocLine {
    /// How many timed calls came before the one that this one follows.
    pub place: usize,
    /// How many calls were timed in all.
    pub count: usize,
    /// How long the call took.
    pub time: u64,
    pub path: Path,
}

/// Times each call of the outermost function, and records the way it took.
pub struct FOCReceiver {
    pub stack_unwinder: StackUnwinder,
    /// The path of the call that is being executed.
    pub curr_path: Option<Path>,
    /// When that call began.
    pub start_timestamp: u64,
    /// Each call that has returned, with the time it took, in order.
    pub path_time: Vec<(Path, u64)>,
}

/// The timed calls as plain values.
pub open spec fn timed_of(path_time: Seq<(Path, u64)>) -> Seq<((u64, Seq<bool>), u64)> {
    Seq::new(path_time.len(), |i: int| (path_time[i].0@, path_time[i].1))
}

impl FOCReceiver {
    /// The path that is being followed, as plain values.
    pub open spec fn current(&self) -> Option<(u64, Seq<bool>)> {
        match self.curr_path {
            Some(path) => Some(path@),
            None => None,
        }
    }

    /// The timed calls as plain values.
    pub open spec fn timed(&self) -> Seq<((u64, Seq<bool>), u64)> {
        timed_of(self.path_time@)
    }

    pub open spec fn wf(&self) -> bool {
        self.stack_unwinder.wf()
    }

    /// A receiver for a program, with no call timed and none under way.
    pub fn new(stack_unwinder: StackUnwinder) -> (receiver: Self)
        requires
            stack_unwinder.wf(),
        ensures
            receiver.wf(),
            receiver.stack_unwinder == stack_unwinder,
            receiver.current() is None,
            receiver.start_timestamp == 0,
            receiver.timed() == Seq::<((u64, Seq<bool>), u64)>::empty(),
    {
        let receiver = Self {
            stack_unwinder,
            curr_path: None,
            start_timestamp: 0,
            path_time: Vec::new(),
        };
        receiver
    }

    /// Takes one entry. A direct jump that opens the outermost frame
    /// begins a path at the entry's time. A branch adds its outcome to
    /// the path under way. An indirect jump that leaves the stack empty
    /// ends the path, which is recorded with the time it took. Every
    /// other entry is passed over, traps too. Where the entry is refused
    /// after the stack has followed it, nothing else has changed.
    pub fn _receive_entry(&mut self, entry: Entry) -> (result: Result<(), ReceiveError>)
        requires
            old(self).wf(),
        ensures
            final(self).wf(),
            final(self).stack_unwinder.same_program(&old(self).stack_unwinder),
            entry.event == Event::TakenBranch || entry.event == Event::NonTakenBranch ==> result
                is Ok && final(self).stack_unwinder == old(self).stack_unwinder && final(self).timed() == old(self).timed() && final(self).start_timestamp == old(self).start_timestamp && final(self).current() == (match old(self).current() {
                Some((addr, path)) => Some((addr, path.push(entry.event == Event::TakenBranch))),
                None => None,
            }),
            entry.event != Event::TakenBranch && entry.event != Event::NonTakenBranch
                && entry.event != Event::InferrableJump && entry.event != Event::UninferableJump
                ==> result is Ok && final(self).stack_unwinder == old(self).stack_unwinder
                && final(self).timed() == old(self).timed() && final(self).start_timestamp == old(self).start_timestamp && final(self).current() == old(self).current(),
            entry.event == Event::InferrableJump || entry.event == Event::UninferableJump
                ==> match stepped(
                old(self).stack_unwinder.symbols(),
                old(self).stack_unwinder.ranges(),
                old(self).stack_unwinder.frames(),
                old(self).stack_unwinder.insn_map@,
                entry,
            ) {
                Err(e) => result == Err::<(), ReceiveError>(e) && final(self).stack_unwinder.frames() == old(self).stack_unwinder.frames() && final(self).timed() == old(self).timed() && final(self).current() == old(self).current()
                    && final(self).start_timestamp == old(self).start_timestamp,
                Ok(change) => final(self).stack_unwinder.frames() == change.frames && (
                if entry.event == Event::InferrableJump && change.success && change.frames.len()
                    == 1 {
                    final(self).timed() == old(self).timed() && match time_of(entry) {
                        Ok(time) => result is Ok && final(self).current() == Some(
                            (entry.arc.1, Seq::<bool>::empty()),
                        ) && final(self).start_timestamp == time,
                        Err(e) => result == Err::<(), ReceiveError>(e) && final(self).current()
                            == old(self).current() && final(self).start_timestamp == old(self).start_timestamp,
                    }
                } else if entry.event == Event::UninferableJump && change.success
                    && change.frames.len() == 0 {
                    final(self).start_timestamp == old(self).start_timestamp && match (
                        old(self).current(),
                        time_of(entry),
                    ) {
                        (None, _) => result == Err::<(), ReceiveError>(ReceiveError::NoOpenPath)
                            && final(self).timed() == old(self).timed() && final(self).current()
                            is None,
                        (Some(path), Err(e)) => result == Err::<(), ReceiveError>(e) && final(self).timed() == old(self).timed() && final(self).current() == old(self).current(),
                        (Some(path), Ok(time)) => match span(old(self).start_timestamp, time) {
                            Ok(length) => result is Ok && final(self).timed() == old(self).timed().push((path, length)) && final(self).current() is None,
                            Err(e) => result == Err::<(), ReceiveError>(e) && final(self).timed()
                                == old(self).timed() && final(self).current() == old(self).current(),
                        },
                    }
                } else {
                    result is Ok && final(self).timed() == old(self).timed() && final(self).current() == old(self).current() && final(self).start_timestamp == old(self).start_timestamp
                }),
            },
    {
        match entry.event {
            Event::InferrableJump => {
                let target = entry.arc.1;
                let timestamp = entry.timestamp;
                let (success, frame_stack_size, _) = self.stack_unwinder.step_ij(entry);
                if success && frame_stack_size == 1 {
                    let time = match timestamp {
                        Some(time) => time,
                        None => {
                            return Err(ReceiveError::MissingTimestamp);
                        },
                    };
                    self.curr_path = Some(Path { addr: target, path: Vec::new() });
                    self.start_timestamp = time;
                }
                Ok(())
            },
            Event::UninferableJump => {
                if !self.stack_unwinder.insn_map.contains_key(&entry.arc.0) {
                    return Err(ReceiveError::MissingInstruction);
                }
                let timestamp = entry.timestamp;
                let (success, frame_stack_size, _, _) = self.stack_unwinder.step_uj(entry);
                if success && frame_stack_size == 0 {
                    if self.curr_path.is_none() {
                        return Err(ReceiveError::NoOpenPath);
                    }
                    let time = match timestamp {
                        Some(time) => time,
                        None => {
                            return Err(ReceiveError::MissingTimestamp);
                        },
                    };
                    let length = interval(self.start_timestamp, time)?;
                    match self.curr_path.take() {
                        Some(path) => {
                            self.path_time.push((path, length));
                        },
                        None => {},
                    }
                }
                Ok(())
            },
            Event::TakenBranch | Event::NonTakenBranch => {
                let taken = entry.event == Event::TakenBranch;
                match self.curr_path.take() {
                    Some(mut curr_path) => {
                        curr_path.path.push(taken);
                        self.curr_path = Some(curr_path);
                    },
                    None => {},
                }
                Ok(())
            },
            _ => Ok(()),
        }
    }

    /// The lines of the report: every second timed call, from the second
    /// on, each with its place among all. The calls between them warm
    /// the caches up and are left out.
    pub fn _flush(&self) -> (lines: Vec<FocLine>)
        ensures
            lines@.len() == self.timed().len() / 2,
            forall|k: int|
                0 <= k < lines@.len() ==> (#[trigger] lines@[k]).place == 2 * k && lines@[k].count
                    == self.timed().len() && lines@[k].time == self.timed()[2 * k + 1].1
                    && lines@[k].path@ == self.timed()[2 * k + 1].0,
    {
        let mut lines: Vec<FocLine> = Vec::new();
        let count = self.path_time.len();
        let mut i: usize = 0;
        while i < count
            invariant
                count == self.path_time@.len(),
                i <= count,
                lines@.len() == i / 2,
                forall|k: int|
                    0 <= k < lines@.len() ==> (#[trigger] lines@[k]).place == 2 * k
                        && lines@[k].count == count && lines@[k].time == self.timed()[2 * k + 1].1
                        && lines@[k].path@ == self.timed()[2 * k + 1].0,
            decreases count - i,
        {
            if i % 2 == 1 {
                let (path, time) = &self.path_time[i];
                lines.push(FocLine { place: i - 1, count, time: *time, path: path.clone() });
            }
            i += 1;
        }
        lines
    }
}

} // verus!
