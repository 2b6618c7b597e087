use vstd::prelude::*;
use crate::backend::abstract_receiver::{time_of, ReceiveError};
use crate::backend::event::{Entry, Event};
use crate::backend::stack_unwinder::{stepped, symbol_of, StackUnwinder, SymbolInfo};
use crate::backend::symbols::has_symbol;

verus! {

/// The way that one call of a function took: the function's start
/// address, and for each branch on the way whether it was taken.
#[derive(Debug)]
pub struct Path {
    pub addr: u64,
    pub path: Vec<bool>,
}

impl View for Path {
    type V = (u64, Seq<bool>);

    open spec fn view(&self) -> (u64, Seq<bool>) {
        (self.addr, self.path@)
    }
}

/// The times of the calls that took one path.
#[derive(Debug)]
pub struct PathRecord {
    pub path: Path,
    /// How long each call took.
    pub intervals: Vec<u64>,
    /// For each call, when it reached each of its basic blocks, counted
    /// from its start. Empty unless basic blocks are timed.
    pub bb_intervals: Vec<Vec<u64>>,
}

/// Times every call of every function, by the path that the call took.
pub struct VPPReceiver {
    pub stack_unwinder: StackUnwinder,
    /// One record for each path, in the order in which the paths were
    /// first completed.
    pub path_records: Vec<PathRecord>,
    /// The paths of the calls under way, outermost first.
    pub curr_paths: Vec<Path>,
    /// When each of them began.
    pub start_timestamps: Vec<u64>,
    /// When each of them reached each of its basic blocks, where basic
    /// blocks are timed.
    pub bb_timestamps: Vec<Vec<u64>>,
    pub use_bb_analysis: bool,
}

/// A call under way, as plain values.
pub struct OpenPath {
    pub path: (u64, Seq<bool>),
    pub start: u64,
    /// When the call reached each of its basic blocks; empty unless
    /// basic blocks are timed.
    pub marks: Seq<u64>,
}

/// A record as plain values.
pub struct PathTimes {
    pub path: (u64, Seq<bool>),
    pub intervals: Seq<u64>,
    pub bb_intervals: Seq<Seq<u64>>,
}

/// The records as plain values.
pub open spec fn times_of(records: Seq<PathRecord>) -> Seq<PathTimes> {
    Seq::new(
        records.len(),
        |i: int|
            PathTimes {
                path: records[i].path@,
                intervals: records[i].intervals@,
                bb_intervals: Seq::new(
                    records[i].bb_intervals@.len(),
                    |j: int| records[i].bb_intervals@[j]@,
                ),
            },
    )
}

/// Whether a path has a record.
pub open spec fn has_times(records: Seq<PathTimes>, path: (u64, Seq<bool>)) -> bool {
    exists|i: int| 0 <= i < records.len() && (#[trigger] records[i]).path == path
}

/// Whether no path has two records.
pub open spec fn distinct_paths(records: Seq<PathTimes>) -> bool {
    forall|i: int, j: int|
        0 <= i < records.len() && 0 <= j < records.len() && i != j ==> (#[trigger] records[i]).path
            != (#[trigger] records[j]).path
}

/// Times counted from `start`.
pub open spec fn offsets(marks: Seq<u64>, start: u64) -> Seq<u64> {
    Seq::new(marks.len(), |j: int| (marks[j] - start) as u64)
}

/// Whether a call that began no later than `ts`, and reached none of its
/// basic blocks before it began, so that it can end at `ts`.
pub open spec fn can_close(open: OpenPath, ts: u64) -> bool {
    open.start <= ts && forall|j: int| 0 <= j < open.marks.len() ==> open.start <= open.marks[j]
}

/// Whether every call beyond the outermost `depth` can end at `ts`.
pub open spec fn all_can_close(open: Seq<OpenPath>, depth: nat, ts: u64) -> bool {
    forall|k: int| depth <= k < open.len() ==> can_close(#[trigger] open[k], ts)
}

/// The records after a call has ended at `ts`: its time is added to the
/// record of its path, or opens one at the end.
pub open spec fn closed(records: Seq<PathTimes>, open: OpenPath, ts: u64, use_bb: bool) -> Seq<
    PathTimes,
> {
    let length = (ts - open.start) as u64;
    let reached = offsets(open.marks, open.start);
    if has_times(records, open.path) {
        Seq::new(
            records.len(),
            |i: int|
                if records[i].path == open.path {
                    PathTimes {
                        path: open.path,
                        intervals: records[i].intervals.push(length),
                        bb_intervals: if use_bb {
                            records[i].bb_intervals.push(reached)
                        } else {
                            records[i].bb_intervals
                        },
                    }
                } else {
                    records[i]
                },
        )
    } else {
        records.push(
            PathTimes {
                path: open.path,
                intervals: seq![length],
                bb_intervals: if use_bb {
                    seq![reached]
                } else {
                    seq![]
                },
            },
        )
    }
}

/// The records after every call beyond the outermost `depth` has ended
/// at `ts`, innermost first.
pub open spec fn closed_down_to(
    records: Seq<PathTimes>,
    open: Seq<OpenPath>,
    depth: nat,
    ts: u64,
    use_bb: bool,
) -> Seq<PathTimes>
    decreases open.len(),
{
    if open.len() <= depth {
        records
    } else {
        closed_down_to(closed(records, open.last(), ts, use_bb), open.drop_last(), depth, ts, use_bb)
    }
}

/// Tells whether two paths are the same.
pub fn same_path(a: &Path, b: &Path) -> (same: bool)
    ensures
        same == (a@ == b@),
{
    if a.addr != b.addr || a.path.len() != b.path.len() {
        return false;
    }
    let mut at: usize = 0;
    while at < a.path.len()
        invariant
            a.path@.len() == b.path@.len(),
            at <= a.path@.len(),
            forall|i: int| 0 <= i < at ==> a.path@[i] == b.path@[i],
        decreases a.path@.len() - at,
    {
        if a.path[at] != b.path[at] {
            return false;
        }
        at += 1;
    }
    assert(a.path@ =~= b.path@);
    true
}

impl VPPReceiver {
    /// The calls under way, outermost first.
    pub open spec fn open(&self) -> Seq<OpenPath> {
        Seq::new(
            self.curr_paths@.len(),
            |k: int|
                OpenPath {
                    path: self.curr_paths@[k]@,
                    start: self.start_timestamps@[k],
                    marks: if self.use_bb_analysis {
                        self.bb_timestamps@[k]@
                    } else {
                        seq![]
                    },
                },
        )
    }

    /// The records as plain values.
    pub open spec fn records(&self) -> Seq<PathTimes> {
        times_of(self.path_records@)
    }

    /// Every call under way has its start time and, where basic blocks
    /// are timed, its marks; no path has two records; and every path is
    /// that of a function.
    pub open spec fn wf(&self) -> bool {
        &&& self.stack_unwinder.wf()
        &&& self.start_timestamps@.len() == self.curr_paths@.len()
        &&& self.use_bb_analysis ==> self.bb_timestamps@.len() == self.curr_paths@.len()
        &&& distinct_paths(self.records())
        &&& forall|i: int|
            0 <= i < self.records().len() ==> has_symbol(
                self.stack_unwinder.symbols(),
                (#[trigger] self.records()[i]).path.0,
            )
        &&& forall|k: int|
            0 <= k < self.open().len() ==> has_symbol(
                self.stack_unwinder.symbols(),
                (#[trigger] self.open()[k]).path.0,
            )
    }

    /// A receiver for a program, with no call timed and none under way.
    pub fn new(stack_unwinder: StackUnwinder, use_bb_analysis: bool) -> (receiver: Self)
        requires
            stack_unwinder.wf(),
        ensures
            receiver.wf(),
            receiver.stack_unwinder == stack_unwinder,
            receiver.use_bb_analysis == use_bb_analysis,
            receiver.open() == Seq::<OpenPath>::empty(),
            receiver.records() == Seq::<PathTimes>::empty(),
    {
        let receiver = Self {
            stack_unwinder,
            path_records: Vec::new(),
            curr_paths: Vec::new(),
            start_timestamps: Vec::new(),
            bb_timestamps: Vec::new(),
            use_bb_analysis,
        };
        receiver
    }

    /// Where the record of a path stands, if it has one.
    fn find(&self, path: &Path) -> (found: Option<usize>)
        ensures
            match found {
                Some(at) => at < self.records().len() && self.records()[at as int].path == path@,
                None => !has_times(self.records(), path@),
            },
    {
        let mut at: usize = 0;
        while at < self.path_records.len()
            invariant
                at <= self.path_records@.len(),
                forall|i: int| 0 <= i < at ==> (#[trigger] self.records()[i]).path != path@,
            decreases self.path_records@.len() - at,
        {
            if same_path(&self.path_records[at].path, path) {
                return Some(at);
            }
            at += 1;
        }
        None
    }

    /// Tells whether every call beyond the outermost `depth` can end at
    /// `ts`.
    fn closable(&self, depth: usize, ts: u64) -> (ok: bool)
        requires
            self.wf(),
        ensures
            ok == all_can_close(self.open(), depth as nat, ts),
    {
        let mut k: usize = depth;
        while k < self.curr_paths.len()
            invariant
                self.wf(),
                depth <= k,
                forall|i: int|
                    depth <= i < k && i < self.open().len() ==> can_close(
                        #[trigger] self.open()[i],
                        ts,
                    ),
            decreases self.curr_paths@.len() - k,
        {
            let start = self.start_timestamps[k];
            if start > ts {
                assert(!can_close(self.open()[k as int], ts));
                return false;
            }
            if self.use_bb_analysis {
                let marks = &self.bb_timestamps[k];
                let mut j: usize = 0;
                while j < marks.len()
                    invariant
                        j <= marks@.len(),
                        depth <= k < self.open().len(),
                        marks@ == self.open()[k as int].marks,
                        start == self.open()[k as int].start,
                        forall|i: int| 0 <= i < j ==> start <= marks@[i],
                    decreases marks@.len() - j,
                {
                    if marks[j] < start {
                        return false;
                    }
                    j += 1;
                }
            }
            k += 1;
        }
        true
    }

    /// Ends the innermost call at `ts` and records it.
    fn close_innermost(&mut self, ts: u64)
        requires
            old(self).wf(),
            old(self).open().len() > 0,
            can_close(old(self).open().last(), ts),
        ensures
            final(self).wf(),
            final(self).stack_unwinder == old(self).stack_unwinder,
            final(self).use_bb_analysis == old(self).use_bb_analysis,
            final(self).open() == old(self).open().drop_last(),
            final(self).records() == closed(
                old(self).records(),
                old(self).open().last(),
                ts,
                old(self).use_bb_analysis,
            ),
    {
        let ghost open = self.open();
        let ghost last = open.last();
        let ghost before = self.records();
        // A call is under way, and it has its start time and its marks.
        let curr_path = match self.curr_paths.pop() {
            Some(path) => path,
            None => Path { addr: 0, path: Vec::new() },
        };
        let start_timestamp = match self.start_timestamps.pop() {
            Some(start) => start,
            None => 0,
        };
        let mut reached: Vec<u64> = Vec::new();
        if self.use_bb_analysis {
            let bb_timestamp = match self.bb_timestamps.pop() {
                Some(marks) => marks,
                None => Vec::new(),
            };
            let mut j: usize = 0;
            while j < bb_timestamp.len()
                invariant
                    j <= bb_timestamp@.len(),
                    bb_timestamp@ == last.marks,
                    start_timestamp == last.start,
                    forall|i: int| 0 <= i < last.marks.len() ==> last.start <= last.marks[i],
                    reached@ == offsets(last.marks, last.start).take(j as int),
                decreases bb_timestamp@.len() - j,
            {
                reached.push(bb_timestamp[j] - start_timestamp);
                j += 1;
            }
            assert(reached@ =~= offsets(last.marks, last.start));
        }
        let length = ts - start_timestamp;
        let use_bb = self.use_bb_analysis;
        match self.find(&curr_path) {
            Some(at) => {
                self.path_records[at].intervals.push(length);
                if use_bb {
                    self.path_records[at].bb_intervals.push(reached);
                }
                assert(self.records()[at as int].bb_intervals =~= closed(
                    before,
                    last,
                    ts,
                    use_bb,
                )[at as int].bb_intervals);
                assert(self.records() =~= closed(before, last, ts, use_bb));
            },
            None => {
                let mut intervals: Vec<u64> = Vec::new();
                intervals.push(length);
                let mut bb_intervals: Vec<Vec<u64>> = Vec::new();
                if use_bb {
                    bb_intervals.push(reached);
                }
                self.path_records.push(PathRecord { path: curr_path, intervals, bb_intervals });
                assert(self.records().last().bb_intervals =~= closed(
                    before,
                    last,
                    ts,
                    use_bb,
                ).last().bb_intervals);
                assert(self.records() =~= closed(before, last, ts, use_bb));
            },
        }
        assert forall|k: int| 0 <= k < self.open().len() implies has_symbol(
            self.stack_unwinder.symbols(),
            (#[trigger] self.open()[k]).path.0,
        ) by {
            assert(self.open()[k] == old(self).open()[k]);
        }
    }

    /// Takes one entry. A direct jump into a function begins a path at
    /// the entry's time. A branch adds its outcome to the innermost path
    /// under way and, where basic blocks are timed, its time. An indirect
    /// jump that is followed ends the paths of the calls that the stack no
    /// longer has room for, innermost first, and records each with the
    /// time it took. Every other entry is passed over, traps too. Where
    /// the entry is refused, the stack may have followed it, and nothing
    /// else has changed.
    pub fn _receive_entry(&mut self, entry: Entry) -> (result: Result<(), ReceiveError>)
        requires
            old(self).wf(),
        ensures
            final(self).wf(),
            final(self).use_bb_analysis == old(self).use_bb_analysis,
            final(self).stack_unwinder.same_program(&old(self).stack_unwinder),
            result is Err ==> final(self).open() == old(self).open() && final(self).records()
                == old(self).records(),
            entry.event == Event::TakenBranch || entry.event == Event::NonTakenBranch ==> final(self).stack_unwinder == old(self).stack_unwinder && final(self).records() == old(self).records() && (if old(self).open().len() == 0 {
                result is Ok && final(self).open() == old(self).open()
            } else if !old(self).use_bb_analysis {
                result is Ok && final(self).open() == old(self).open().drop_last().push(
                    OpenPath {
                        path: (
                            old(self).open().last().path.0,
                            old(self).open().last().path.1.push(entry.event == Event::TakenBranch),
                        ),
                        ..old(self).open().last()
                    },
                )
            } else {
                match time_of(entry) {
                    Ok(time) => result is Ok && final(self).open() == old(self).open().drop_last().push(
                        OpenPath {
                            path: (
                                old(self).open().last().path.0,
                                old(self).open().last().path.1.push(
                                    entry.event == Event::TakenBranch,
                                ),
                            ),
                            start: old(self).open().last().start,
                            marks: old(self).open().last().marks.push(time),
                        },
                    ),
                    Err(e) => result == Err::<(), ReceiveError>(e),
                }
            }),
            entry.event != Event::TakenBranch && entry.event != Event::NonTakenBranch
                && entry.event != Event::InferrableJump && entry.event != Event::UninferableJump
                ==> result is Ok && final(self).stack_unwinder == old(self).stack_unwinder
                && final(self).records() == old(self).records() && final(self).open() == old(self).open(),
            entry.event == Event::InferrableJump || entry.event == Event::UninferableJump
                ==> match stepped(
                old(self).stack_unwinder.symbols(),
                old(self).stack_unwinder.ranges(),
                old(self).stack_unwinder.frames(),
                old(self).stack_unwinder.insn_map@,
                entry,
            ) {
                Err(e) => result == Err::<(), ReceiveError>(e) && final(self).stack_unwinder.frames() == old(self).stack_unwinder.frames(),
                Ok(change) => final(self).stack_unwinder.frames() == change.frames && (
                if !change.success {
                    result is Ok && final(self).open() == old(self).open() && final(self).records() == old(self).records()
                } else if entry.event == Event::InferrableJump {
                    final(self).records() == old(self).records() && match time_of(entry) {
                        Ok(time) => result is Ok && final(self).open() == old(self).open().push(
                            OpenPath {
                                path: (entry.arc.1, Seq::<bool>::empty()),
                                start: time,
                                marks: if old(self).use_bb_analysis {
                                    seq![time]
                                } else {
                                    seq![]
                                },
                            },
                        ),
                        Err(e) => result == Err::<(), ReceiveError>(e),
                    }
                } else if old(self).open().len() <= change.frames.len() {
                    result is Ok && final(self).open() == old(self).open() && final(self).records() == old(self).records()
                } else {
                    match time_of(entry) {
                        Ok(time) => if all_can_close(
                            old(self).open(),
                            change.frames.len(),
                            time,
                        ) {
                            result is Ok && final(self).open() == old(self).open().take(
                                change.frames.len() as int,
                            ) && final(self).records() == closed_down_to(
                                old(self).records(),
                                old(self).open(),
                                change.frames.len(),
                                time,
                                old(self).use_bb_analysis,
                            )
                        } else {
                            result == Err::<(), ReceiveError>(ReceiveError::TimeRunsBackwards)
                        },
                        Err(e) => result == Err::<(), ReceiveError>(e),
                    }
                }),
            },
    {
        match entry.event {
            Event::InferrableJump => {
                let target = entry.arc.1;
                let timestamp = entry.timestamp;
                let ghost open = self.open();
                let (success, _, _) = self.stack_unwinder.step_ij(entry);
                if success {
                    let time = match timestamp {
                        Some(time) => time,
                        None => {
                            return Err(ReceiveError::MissingTimestamp);
                        },
                    };
                    self.curr_paths.push(Path { addr: target, path: Vec::new() });
                    self.start_timestamps.push(time);
                    if self.use_bb_analysis {
                        let mut marks: Vec<u64> = Vec::new();
                        marks.push(time);
                        self.bb_timestamps.push(marks);
                    }
                    assert(self.open() =~= open.push(
                        OpenPath {
                            path: (target, Seq::<bool>::empty()),
                            start: time,
                            marks: if self.use_bb_analysis {
                                seq![time]
                            } else {
                                seq![]
                            },
                        },
                    ));
                }
                Ok(())
            },
            Event::UninferableJump => {
                if !self.stack_unwinder.insn_map.contains_key(&entry.arc.0) {
                    return Err(ReceiveError::MissingInstruction);
                }
                let timestamp = entry.timestamp;
                let ghost open = self.open();
                let ghost records = self.records();
                let (success, frame_stack_size, _, _) = self.stack_unwinder.step_uj(entry);
                let ghost frames = self.stack_unwinder.frames();
                if success && self.curr_paths.len() > frame_stack_size {
                    let time = match timestamp {
                        Some(time) => time,
                        None => {
                            return Err(ReceiveError::MissingTimestamp);
                        },
                    };
                    if !self.closable(frame_stack_size, time) {
                        return Err(ReceiveError::TimeRunsBackwards);
                    }
                    while self.curr_paths.len() > frame_stack_size
                        invariant
                            self.wf(),
                            self.use_bb_analysis == old(self).use_bb_analysis,
                            self.stack_unwinder.same_program(&old(self).stack_unwinder),
                            self.stack_unwinder.frames() == frames,
                            frames.len() == frame_stack_size,
                            frame_stack_size <= self.open().len() <= open.len(),
                            self.open() == open.take(self.open().len() as int),
                            all_can_close(open, frame_stack_size as nat, time),
                            closed_down_to(
                                records,
                                open,
                                frame_stack_size as nat,
                                time,
                                self.use_bb_analysis,
                            ) == closed_down_to(
                                self.records(),
                                self.open(),
                                frame_stack_size as nat,
                                time,
                                self.use_bb_analysis,
                            ),
                        decreases self.curr_paths@.len(),
                    {
                        self.close_innermost(time);
                    }
                }
                Ok(())
            },
            Event::TakenBranch | Event::NonTakenBranch => {
                let taken = entry.event == Event::TakenBranch;
                let depth = self.curr_paths.len();
                if depth == 0 {
                    return Ok(());
                }
                let ghost open = self.open();
                if self.use_bb_analysis {
                    let time = match entry.timestamp {
                        Some(time) => time,
                        None => {
                            return Err(ReceiveError::MissingTimestamp);
                        },
                    };
                    self.bb_timestamps[depth - 1].push(time);
                }
                self.curr_paths[depth - 1].path.push(taken);
                assert forall|k: int| 0 <= k < self.open().len() implies has_symbol(
                    self.stack_unwinder.symbols(),
                    (#[trigger] self.open()[k]).path.0,
                ) by {
                    assert(self.open()[k].path.0 == open[k].path.0);
                }
                Ok(())
            },
            _ => Ok(()),
        }
    }

    /// The symbol of each record's function, in the order of the records:
    /// what the report says of a path besides its times.
    pub fn _flush(&self) -> (symbols: Vec<SymbolInfo>)
        requires
            self.wf(),
        ensures
            symbols@ == Seq::new(
                self.records().len(),
                |i: int| symbol_of(self.stack_unwinder.symbols(), self.records()[i].path.0),
            ),
    {
        let mut symbols: Vec<SymbolInfo> = Vec::new();
        let mut at: usize = 0;
        while at < self.path_records.len()
            invariant
                self.wf(),
                at <= self.path_records@.len(),
                symbols@ == Seq::new(
                    at as nat,
                    |i: int| symbol_of(self.stack_unwinder.symbols(), self.records()[i].path.0),
                ),
            decreases self.path_records@.len() - at,
        {
            assert(has_symbol(self.stack_unwinder.symbols(), self.records()[at as int].path.0));
            let symbol_info = self.stack_unwinder.get_symbol_info(self.path_records[at].path.addr);
            symbols.push(symbol_info);
            at += 1;
        }
        symbols
    }
}

} // verus!
