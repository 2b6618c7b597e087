use vstd::prelude::*;
use crate::backend::abstract_receiver::{time_of, ReceiveError};
use crate::backend::event::{Entry, Event};
use crate::backend::stack_unwinder::{
    closed_above,
    stepped,
    StackUnwinder,
    SymbolInfo,
    Unwound,
};

verus! {

/// An event of the profile: a frame opens or closes at a time.
#[derive(Debug)]
pub struct ProfileEntry {
    /// `O` where the frame opens, `C` where it closes.
    pub kind: String,
    /// The ordinal of the frame's symbol.
    pub frame: u32,
    pub at: u64,
}

/// Builds an evented profile of the execution: which function was entered
/// and left when.
pub struct SpeedscopeReceiver {
    pub start: u64,
    pub end: u64,
    pub profile_entries: Vec<ProfileEntry>,
    pub stack_unwinder: StackUnwinder,
}

/// A profile event as plain values: whether the frame opens, the frame,
/// and the time.
pub type ProfileEvent = (bool, u32, u64);

/// The profile events that the entries stand for.
pub open spec fn events_of(entries: Seq<ProfileEntry>) -> Seq<ProfileEvent> {
    Seq::new(entries.len(), |i: int| (entries[i].kind@ == "O"@, entries[i].frame, entries[i].at))
}

/// Whether each entry is marked as opening or as closing.
pub open spec fn marked(entries: Seq<ProfileEntry>) -> bool {
    forall|i: int|
        0 <= i < entries.len() ==> (#[trigger] entries[i]).kind@ == "O"@ || entries[i].kind@
            == "C"@
}

/// The events that close the given frames at a time.
pub open spec fn closings(closed: Seq<SymbolInfo>, at: u64) -> Seq<ProfileEvent> {
    Seq::new(closed.len(), |i: int| (false, closed[i].index, at))
}

/// The events of a change of the stack at a time: the frames closed, then
/// the frame opened.
pub open spec fn change_events(change: Unwound, at: u64) -> Seq<ProfileEvent> {
    if !change.success {
        seq![]
    } else {
        closings(change.closed, at) + match change.opened {
            Some(info) => seq![(true, info.index, at)],
            None => seq![],
        }
    }
}

impl SpeedscopeReceiver {
    /// The profile's events so far.
    pub open spec fn events(&self) -> Seq<ProfileEvent> {
        events_of(self.profile_entries@)
    }

    /// The unwinder is well formed, and each entry is marked.
    pub open spec fn wf(&self) -> bool {
        self.stack_unwinder.wf() && marked(self.profile_entries@)
    }

    /// A profile of a program, with no event.
    pub fn new(stack_unwinder: StackUnwinder) -> (receiver: Self)
        requires
            stack_unwinder.wf(),
        ensures
            receiver.wf(),
            receiver.stack_unwinder == stack_unwinder,
            receiver.events() == Seq::<ProfileEvent>::empty(),
            receiver.start == 0,
            receiver.end == 0,
    {
        let receiver = Self { start: 0, end: 0, profile_entries: Vec::new(), stack_unwinder };
        receiver
    }

    /// The frames of the profile: every function symbol, by its ordinal.
    pub fn frames(&self) -> (frames: Vec<SymbolInfo>)
        requires
            self.wf(),
        ensures
            frames@ == Seq::new(
                self.stack_unwinder.symbols().len(),
                |i: int| self.stack_unwinder.symbols()[i].1,
            ),
    {
        self.stack_unwinder.frames_table()
    }

    /// Adds an event to the profile.
    fn record(&mut self, opens: bool, frame: u32, at: u64)
        requires
            old(self).wf(),
        ensures
            final(self).wf(),
            final(self).stack_unwinder == old(self).stack_unwinder,
            final(self).start == old(self).start,
            final(self).end == old(self).end,
            final(self).events() == old(self).events().push((opens, frame, at)),
    {
        proof {
            reveal_strlit("O");
            reveal_strlit("C");
        }
        let kind = if opens {
            "O".to_owned()
        } else {
            "C".to_owned()
        };
        assert(opens <==> kind@ == "O"@) by {
            if !opens {
                assert("C"@[0] != "O"@[0]);
            }
        }
        self.profile_entries.push(ProfileEntry { kind, frame, at });
    }

    /// Adds to the profile the closing of the given frames at a time.
    fn record_closed(&mut self, closed: &Vec<SymbolInfo>, at: u64)
        requires
            old(self).wf(),
        ensures
            final(self).wf(),
            final(self).stack_unwinder == old(self).stack_unwinder,
            final(self).start == old(self).start,
            final(self).end == old(self).end,
            final(self).events() == old(self).events() + closings(closed@, at),
    {
        let mut done: usize = 0;
        while done < closed.len()
            invariant
                self.wf(),
                self.stack_unwinder == old(self).stack_unwinder,
                self.start == old(self).start,
                self.end == old(self).end,
                done <= closed@.len(),
                self.events() == old(self).events() + closings(closed@, at).take(done as int),
            decreases closed@.len() - done,
        {
            self.record(false, closed[done].index, at);
            done += 1;
        }
    }

    /// Takes one entry. A jump or trap is followed on the stack, and the
    /// frames that it closes and opens become events of the profile at
    /// the entry's time. The start and the end of the trace give the
    /// profile its bounds. An entry that would add an event and carries no
    /// time is refused, after the stack has followed it.
    pub fn _receive_entry(&mut self, entry: Entry) -> (result: Result<(), ReceiveError>)
        requires
            old(self).wf(),
        ensures
            final(self).wf(),
            final(self).stack_unwinder.same_program(&old(self).stack_unwinder),
            entry.event == Event::Start || entry.event == Event::End ==> final(self).stack_unwinder == old(self).stack_unwinder && final(self).events() == old(self).events() && match time_of(entry) {
                Ok(time) => result is Ok && final(self).start == (if entry.event == Event::Start {
                    time
                } else {
                    old(self).start
                }) && final(self).end == (if entry.event == Event::End {
                    time
                } else {
                    old(self).end
                }),
                Err(e) => result == Err::<(), ReceiveError>(e) && final(self).start == old(self).start && final(self).end == old(self).end,
            },
            entry.event != Event::Start && entry.event != Event::End ==> final(self).start == old(self).start && final(self).end == old(self).end && match stepped(
                old(self).stack_unwinder.symbols(),
                old(self).stack_unwinder.ranges(),
                old(self).stack_unwinder.frames(),
                old(self).stack_unwinder.insn_map@,
                entry,
            ) {
                Err(e) => result == Err::<(), ReceiveError>(e) && final(self).events() == old(self).events() && final(self).stack_unwinder.frames() == old(self).stack_unwinder.frames(),
                Ok(change) => final(self).stack_unwinder.frames() == change.frames && (
                match entry.timestamp {
                    Some(at) => result is Ok && final(self).events() == old(self).events()
                        + change_events(change, at),
                    None => final(self).events() == old(self).events() && (result is Ok
                        <==> change_events(change, 0).len() == 0) && (result is Err ==> result
                        == Err::<(), ReceiveError>(ReceiveError::MissingTimestamp)),
                }),
            },
    {
        match entry.event {
            Event::Start => {
                match entry.timestamp {
                    Some(time) => {
                        self.start = time;
                        Ok(())
                    },
                    None => Err(ReceiveError::MissingTimestamp),
                }
            },
            Event::End => {
                match entry.timestamp {
                    Some(time) => {
                        self.end = time;
                        Ok(())
                    },
                    None => Err(ReceiveError::MissingTimestamp),
                }
            },
            _ => {
                let timestamp = entry.timestamp;
                let (success, _frame_stack_size, closed_frames, opened_frame) =
                    self.stack_unwinder.step(entry)?;
                if !success || (closed_frames.len() == 0 && opened_frame.is_none()) {
                    return Ok(());
                }
                let at = match timestamp {
                    Some(at) => at,
                    None => {
                        return Err(ReceiveError::MissingTimestamp);
                    },
                };
                self.record_closed(&closed_frames, at);
                if let Some(opened) = opened_frame {
                    self.record(true, opened.index, at);
                }
                Ok(())
            },
        }
    }

    /// Ends the profile: every frame still open is closed at the end of
    /// the trace. Where the trace gave no end, the profile ends with its
    /// last event; a profile without any event and without an end cannot
    /// be ended.
    pub fn _flush(&mut self) -> (result: Result<(), ReceiveError>)
        requires
            old(self).wf(),
        ensures
            final(self).wf(),
            final(self).stack_unwinder.same_program(&old(self).stack_unwinder),
            final(self).start == old(self).start,
            old(self).end == 0 && old(self).events().len() == 0 ==> result == Err::<
                (),
                ReceiveError,
            >(ReceiveError::NothingRecorded) && *final(self) == *old(self),
            old(self).end != 0 || old(self).events().len() > 0 ==> result is Ok && final(self).end
                == (if old(self).end == 0 {
                old(self).events().last().2
            } else {
                old(self).end
            }) && final(self).events() == old(self).events() + closings(
                closed_above(
                    old(self).stack_unwinder.symbols(),
                    old(self).stack_unwinder.frames(),
                    0,
                ),
                final(self).end,
            ) && final(self).stack_unwinder.frames().len() == 0,
    {
        if self.end == 0 {
            if self.profile_entries.len() == 0 {
                return Err(ReceiveError::NothingRecorded);
            }
            self.end = self.profile_entries[self.profile_entries.len() - 1].at;
        }
        let closed_frames = self.stack_unwinder.flush();
        let end = self.end;
        self.record_closed(&closed_frames, end);
        Ok(())
    }
}

} // verus!
