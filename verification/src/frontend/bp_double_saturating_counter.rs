use vstd::prelude::*;

verus! {

/// One two-bit saturating counter.
#[derive(Debug, Clone, Copy, PartialEq, Eq, Structural)]
pub enum BpState {
    StrongNotTaken,
    WeakNotTaken,
    WeakTaken,
    StrongTaken,
}

impl BpState {
    /// The counter's value, from 0 (strongly not taken) to 3 (strongly taken).
    pub open spec fn level(self) -> int {
        match self {
            BpState::StrongNotTaken => 0,
            BpState::WeakNotTaken => 1,
            BpState::WeakTaken => 2,
            BpState::StrongTaken => 3,
        }
    }

    /// The state with the given counter value.
    pub open spec fn of_level(level: int) -> BpState {
        if level <= 0 {
            BpState::StrongNotTaken
        } else if level == 1 {
            BpState::WeakNotTaken
        } else if level == 2 {
            BpState::WeakTaken
        } else {
            BpState::StrongTaken
        }
    }

    /// The prediction: bit 1 of the counter.
    pub open spec fn predicts_taken(self) -> bool {
        self.level() >= 2
    }

    /// The state after the outcome of a prediction is known. A prediction
    /// that held moves the counter further to the side it predicted, one
    /// that failed moves it towards the other side; both stop at the ends.
    pub open spec fn after(self, hit: bool) -> BpState {
        if hit == self.predicts_taken() {
            Self::of_level(self.level() + 1)
        } else {
            Self::of_level(self.level() - 1)
        }
    }

    /// Decodes a two-bit counter value.
    pub fn from(value: u8) -> (state: BpState)
        requires
            value <= 0b11,
        ensures
            state == Self::of_level(value as int),
            state.level() == value,
    {
        if value == 0b00 {
            BpState::StrongNotTaken
        } else if value == 0b01 {
            BpState::WeakNotTaken
        } else if value == 0b10 {
            BpState::WeakTaken
        } else {
            BpState::StrongTaken
        }
    }

    /// One step towards taken, saturating.
    pub fn _increment(self) -> (state: BpState)
        ensures
            state == Self::of_level(self.level() + 1),
    {
        match self {
            BpState::StrongNotTaken => BpState::WeakNotTaken,
            BpState::WeakNotTaken => BpState::WeakTaken,
            BpState::WeakTaken => BpState::StrongTaken,
            BpState::StrongTaken => BpState::StrongTaken,
        }
    }

    /// One step towards not taken, saturating.
    pub fn _decrement(self) -> (state: BpState)
        ensures
            state == Self::of_level(self.level() - 1),
    {
        match self {
            BpState::StrongNotTaken => BpState::StrongNotTaken,
            BpState::WeakNotTaken => BpState::StrongNotTaken,
            BpState::WeakTaken => BpState::WeakNotTaken,
            BpState::StrongTaken => BpState::WeakTaken,
        }
    }

    /// Whether the counter predicts a taken branch.
    pub fn judge(self) -> (taken: bool)
        ensures
            taken == self.predicts_taken(),
    {
        match self {
            BpState::StrongNotTaken => false,
            BpState::WeakNotTaken => false,
            BpState::WeakTaken => true,
            BpState::StrongTaken => true,
        }
    }
}

/// The counter that a branch at `pc` uses in a table of `entries` counters.
pub open spec fn counter_index(pc: u64, entries: nat) -> int
    recommends
        entries > 0,
{
    (pc as int / 2) % (entries as int)
}

/// The table after the branch at `pc` resolved, `hit` telling whether its
/// prediction held.
pub open spec fn table_after(table: Seq<BpState>, pc: u64, hit: bool) -> Seq<BpState>
    recommends
        table.len() > 0,
{
    let index = counter_index(pc, table.len());
    table.update(index, table[index].after(hit))
}

/// What a table predicts for the branch at `pc`.
pub open spec fn table_prediction(table: Seq<BpState>, pc: u64) -> bool
    recommends
        table.len() > 0,
{
    table[counter_index(pc, table.len())].predicts_taken()
}

/// A branch predictor: a table of two-bit saturating counters indexed by
/// the branch's address.
pub struct BpDoubleSaturatingCounter {
    num_entries: u64,
    counters: Vec<BpState>,
}

impl View for BpDoubleSaturatingCounter {
    type V = Seq<BpState>;

    closed spec fn view(&self) -> Seq<BpState> {
        self.counters@
    }
}

impl BpDoubleSaturatingCounter {
    /// The table is as long as it was made, and not empty.
    pub closed spec fn wf(&self) -> bool {
        &&& self.num_entries > 0
        &&& self.counters@.len() == self.num_entries
    }

    /// A table of `num_entries` counters, each weakly not taken.
    pub fn new(num_entries: u64) -> (table: Self)
        requires
            0 < num_entries <= usize::MAX,
        ensures
            table.wf(),
            table@ == Seq::new(num_entries as nat, |i: int| BpState::WeakNotTaken),
    {
        let mut counters: Vec<BpState> = Vec::new();
        let mut filled: u64 = 0;
        while filled < num_entries
            invariant
                filled <= num_entries,
                counters@ == Seq::new(filled as nat, |i: int| BpState::WeakNotTaken),
            decreases num_entries - filled,
        {
            counters.push(BpState::WeakNotTaken);
            filled += 1;
        }
        Self { num_entries, counters }
    }

    /// Returns the prediction for the branch at `pc`, then trains the
    /// counter it came from with the outcome.
    pub fn predict(&mut self, pc: u64, hit: bool) -> (prediction: bool)
        requires
            old(self).wf(),
        ensures
            final(self).wf(),
            old(self)@.len() > 0,
            prediction == table_prediction(old(self)@, pc),
            final(self)@ == table_after(old(self)@, pc, hit),
    {
        assert(pc >> 1 == pc / 2) by (bit_vector);
        let index = (pc >> 1) % self.num_entries;
        assert(index < self.counters.len());
        let state = self.counters[index as usize];
        let prediction = state.judge();
        if hit == false {
            if prediction == true {
                self.counters.set(index as usize, state._decrement());
            } else {
                self.counters.set(index as usize, state._increment());
            }
        } else {
            if prediction == true {
                self.counters.set(index as usize, state._increment());
            } else {
                self.counters.set(index as usize, state._decrement());
            }
        }
        prediction
    }
}

} // verus!
