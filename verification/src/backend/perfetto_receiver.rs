use vstd::prelude::*;
use crate::backend::abstract_receiver::ReceiveError;
use crate::backend::event::{Entry, Event};
use crate::backend::stack_unwinder::{
    enters,
    leaves,
    stepped,
    symbol_of,
    StackUnwinder,
    SymbolInfo,
};
use crate::backend::symbols::has_symbol;

verus! {

/// A duration event of the timeline: a function begins or ends.
#[derive(Debug)]
pub struct PerfettoEvent {
    /// The function's name.
    pub name: String,
    /// Whether the function begins; it ends where not.
    pub begins: bool,
    pub ts: u64,
    /// The function's start address.
    pub addr: u64,
}

/// Builds a timeline of the functions executed, from the stack as the
/// unwinder sees it.
pub struct PerfettoReceiver {
    pub unwinder: StackUnwinder,
    pub events: Vec<PerfettoEvent>,
    pub start_ts: u64,
    pub end_ts: u64,
    /// The start address of each frame that the timeline has open.
    pub last_frames: Vec<u64>,
}

/// A timeline event as plain values: the function's name, whether the
/// function begins, the time, and the function's start address.
pub type TimelineEvent = (Seq<char>, bool, u64, u64);

/// How many frames two stacks have in common, from the outermost on.
pub open spec fn common_prefix(old_frames: Seq<u64>, new_frames: Seq<u64>) -> nat
    decreases old_frames.len(),
{
    if old_frames.len() == 0 || new_frames.len() == 0 || old_frames[0] != new_frames[0] {
        0
    } else {
        1 + common_prefix(old_frames.drop_first(), new_frames.drop_first())
    }
}

/// The events that bring a timeline with the frames `old_frames` open to
/// the frames `new_frames`: the frames beyond what the two have in common
/// end, innermost first, and the new ones begin, outermost first.
pub open spec fn stack_diff(
    symbols: Seq<(u64, SymbolInfo)>,
    old_frames: Seq<u64>,
    new_frames: Seq<u64>,
    ts: u64,
) -> Seq<TimelineEvent> {
    let common = common_prefix(old_frames, new_frames);
    Seq::new(
        (old_frames.len() - common) as nat,
        |i: int|
            (
                symbol_of(symbols, old_frames[old_frames.len() - 1 - i]).name@,
                false,
                ts,
                old_frames[old_frames.len() - 1 - i],
            ),
    ) + Seq::new(
        (new_frames.len() - common) as nat,
        |i: int|
            (symbol_of(symbols, new_frames[common + i]).name@, true, ts, new_frames[common + i]),
    )
}

/// Where two stacks agree on their first `agreed` frames, what they have
/// in common is those and what the rest have in common.
proof fn lemma_common_prefix_skip(old_frames: Seq<u64>, new_frames: Seq<u64>, agreed: nat)
    requires
        agreed <= old_frames.len(),
        agreed <= new_frames.len(),
        forall|i: int| 0 <= i < agreed ==> old_frames[i] == new_frames[i],
    ensures
        common_prefix(old_frames, new_frames) == agreed + common_prefix(
            old_frames.skip(agreed as int),
            new_frames.skip(agreed as int),
        ),
    decreases agreed,
{
    if agreed == 0 {
        assert(old_frames.skip(0) =~= old_frames);
        assert(new_frames.skip(0) =~= new_frames);
    } else {
        lemma_common_prefix_skip(old_frames.drop_first(), new_frames.drop_first(), (agreed - 1) as nat);
        assert(old_frames.drop_first().skip(agreed - 1) =~= old_frames.skip(agreed as int));
        assert(new_frames.drop_first().skip(agreed - 1) =~= new_frames.skip(agreed as int));
    }
}

impl PerfettoReceiver {
    /// The timeline's events as plain values.
    pub open spec fn timeline(&self) -> Seq<TimelineEvent> {
        Seq::new(
            self.events@.len(),
            |i: int|
                (
                    self.events@[i].name@,
                    self.events@[i].begins,
                    self.events@[i].ts,
                    self.events@[i].addr,
                ),
        )
    }

    /// The unwinder is well formed, and each frame that the timeline has
    /// open is a function's.
    pub open spec fn wf(&self) -> bool {
        &&& self.unwinder.wf()
        &&& forall|k: int|
            0 <= k < self.last_frames@.len() ==> has_symbol(
                self.unwinder.symbols(),
                #[trigger] self.last_frames@[k],
            )
    }

    /// A timeline of a program, with no event.
    pub fn new(unwinder: StackUnwinder) -> (receiver: Self)
        requires
            unwinder.wf(),
        ensures
            receiver.wf(),
            receiver.unwinder == unwinder,
            receiver.timeline() == Seq::<TimelineEvent>::empty(),
            receiver.last_frames@.len() == 0,
            receiver.start_ts == 0,
            receiver.end_ts == 0,
    {
        let receiver = Self {
            unwinder,
            events: Vec::new(),
            start_ts: 0,
            end_ts: 0,
            last_frames: Vec::new(),
        };
        receiver
    }

    /// Brings the timeline up to the unwinder's stack: ends the frames
    /// that the stack no longer has, innermost first, and begins those
    /// that are new, outermost first, all at the time `ts`.
    pub fn diff_stack(&mut self, ts: u64)
        requires
            old(self).wf(),
        ensures
            final(self).wf(),
            final(self).unwinder == old(self).unwinder,
            final(self).start_ts == old(self).start_ts,
            final(self).end_ts == old(self).end_ts,
            final(self).last_frames@ == Seq::new(
                old(self).unwinder.frames().len(),
                |k: int| old(self).unwinder.ranges()[old(self).unwinder.frames()[k] as int].1.0,
            ),
            final(self).timeline() == old(self).timeline() + stack_diff(
                old(self).unwinder.symbols(),
                old(self).last_frames@,
                final(self).last_frames@,
                ts,
            ),
    {
        let new_frames = self.unwinder.current_frame_addrs();
        let ghost symbols = self.unwinder.symbols();
        let ghost old_frames = self.last_frames@;
        let mut i: usize = 0;
        while i < self.last_frames.len() && i < new_frames.len() && self.last_frames[i]
            == new_frames[i]
            invariant
                *self == *old(self),
                i <= old_frames.len(),
                i <= new_frames@.len(),
                old_frames == self.last_frames@,
                forall|k: int| 0 <= k < i ==> old_frames[k] == new_frames@[k],
            decreases old_frames.len() - i,
        {
            i += 1;
        }
        proof {
            lemma_common_prefix_skip(old_frames, new_frames@, i as nat);
        }
        let ghost diff = stack_diff(symbols, old_frames, new_frames@, ts);
        let ghost before = self.timeline();
        let mut at: usize = self.last_frames.len();
        while at > i
            invariant
                self.wf(),
                self.unwinder == old(self).unwinder,
                self.start_ts == old(self).start_ts,
                self.end_ts == old(self).end_ts,
                self.last_frames@ == old_frames,
                symbols == self.unwinder.symbols(),
                i <= at <= old_frames.len(),
                i == common_prefix(old_frames, new_frames@),
                i <= new_frames@.len(),
                diff == stack_diff(symbols, old_frames, new_frames@, ts),
                self.timeline() == before + diff.take(old_frames.len() - at),
            decreases at,
        {
            at -= 1;
            let addr = self.last_frames[at];
            let sym = self.unwinder.get_symbol_info(addr);
            let ghost so_far = self.timeline();
            self.events.push(PerfettoEvent { name: sym.name, begins: false, ts, addr });
            assert(self.timeline() =~= so_far.push((sym.name@, false, ts, addr)));
        }
        let mut at: usize = i;
        let ghost ended = (old_frames.len() - i) as int;
        while at < new_frames.len()
            invariant
                self.wf(),
                self.unwinder == old(self).unwinder,
                self.start_ts == old(self).start_ts,
                self.end_ts == old(self).end_ts,
                symbols == self.unwinder.symbols(),
                i <= at <= new_frames@.len(),
                i == common_prefix(old_frames, new_frames@),
                i <= old_frames.len(),
                ended == old_frames.len() - i,
                diff == stack_diff(symbols, old_frames, new_frames@, ts),
                forall|k: int|
                    0 <= k < new_frames@.len() ==> has_symbol(symbols, #[trigger] new_frames@[k]),
                self.timeline() == before + diff.take(ended + at - i),
            decreases new_frames@.len() - at,
        {
            let addr = new_frames[at];
            let sym = self.unwinder.get_symbol_info(addr);
            let ghost so_far = self.timeline();
            self.events.push(PerfettoEvent { name: sym.name, begins: true, ts, addr });
            assert(self.timeline() =~= so_far.push((sym.name@, true, ts, addr)));
            at += 1;
        }
        self.last_frames = new_frames;
    }

    /// Takes one entry. The start and the end of the trace give the
    /// timeline its bounds. A jump or trap is followed on the stack, and
    /// the timeline is brought up to the stack at the entry's time, or at
    /// time zero where it carries none.
    pub fn _receive_entry(&mut self, entry: Entry) -> (result: Result<(), ReceiveError>)
        requires
            old(self).wf(),
        ensures
            final(self).wf(),
            final(self).unwinder.same_program(&old(self).unwinder),
            final(self).start_ts == if entry.event == Event::Start {
                entry.timestamp.unwrap_or(0)
            } else {
                old(self).start_ts
            },
            final(self).end_ts == if entry.event == Event::End {
                entry.timestamp.unwrap_or(0)
            } else {
                old(self).end_ts
            },
            !enters(entry.event) && !leaves(entry.event) ==> result is Ok && final(self).unwinder
                == old(self).unwinder && final(self).events == old(self).events && final(self).last_frames == old(self).last_frames,
            enters(entry.event) || leaves(entry.event) ==> match stepped(
                old(self).unwinder.symbols(),
                old(self).unwinder.ranges(),
                old(self).unwinder.frames(),
                old(self).unwinder.insn_map@,
                entry,
            ) {
                Err(e) => result == Err::<(), ReceiveError>(e) && final(self).unwinder.frames()
                    == old(self).unwinder.frames() && final(self).events == old(self).events
                    && final(self).last_frames == old(self).last_frames,
                Ok(change) => result is Ok && final(self).unwinder.frames() == change.frames
                    && final(self).last_frames@ == Seq::new(
                    change.frames.len(),
                    |k: int| old(self).unwinder.ranges()[change.frames[k] as int].1.0,
                ) && final(self).timeline() == old(self).timeline() + stack_diff(
                    old(self).unwinder.symbols(),
                    old(self).last_frames@,
                    final(self).last_frames@,
                    entry.timestamp.unwrap_or(0),
                ),
            },
    {
        let ts = match entry.timestamp {
            Some(ts) => ts,
            None => 0,
        };
        match entry.event {
            Event::Start => {
                self.start_ts = ts;
                Ok(())
            },
            Event::End => {
                self.end_ts = ts;
                Ok(())
            },
            Event::InferrableJump
            | Event::TrapException
            | Event::TrapInterrupt
            | Event::UninferableJump
            | Event::TrapReturn => {
                let _ = self.unwinder.step(entry)?;
                self.diff_stack(ts);
                Ok(())
            },
            _ => Ok(()),
        }
    }

    /// Ends the timeline: a timeline without an end ends where it
    /// started, and is brought up to the stack once more at its end.
    pub fn _flush(&mut self)
        requires
            old(self).wf(),
        ensures
            final(self).wf(),
            final(self).unwinder == old(self).unwinder,
            final(self).start_ts == old(self).start_ts,
            final(self).end_ts == if old(self).end_ts == 0 {
                old(self).start_ts
            } else {
                old(self).end_ts
            },
            final(self).last_frames@ == Seq::new(
                old(self).unwinder.frames().len(),
                |k: int| old(self).unwinder.ranges()[old(self).unwinder.frames()[k] as int].1.0,
            ),
            final(self).timeline() == old(self).timeline() + stack_diff(
                old(self).unwinder.symbols(),
                old(self).last_frames@,
                final(self).last_frames@,
                final(self).end_ts,
            ),
    {
        if self.end_ts == 0 {
            self.end_ts = self.start_ts;
        }
        let end_ts = self.end_ts;
        self.diff_stack(end_ts);
    }
}

} // verus!
