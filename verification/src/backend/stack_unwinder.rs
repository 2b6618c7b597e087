use std::collections::HashMap;
use indexmap::IndexMap;
use vstd::prelude::*;
use vstd::string::StringSliceAdditionalSpecFns;
use crate::backend::abstract_receiver::ReceiveError;
use crate::backend::event::{Entry, Event};
use crate::backend::symbols::{
    has_symbol,
    new_range_map,
    new_symbol_map,
    range_entries,
    range_get,
    range_insert,
    symbol_at,
    symbol_count,
    symbol_entries,
    symbol_get,
    symbol_insert,
    symbols_with,
};
use crate::insn::Insn;
use crate::text::{contains, occurs};

verus! {

broadcast use vstd::std_specs::hash::group_hash_axioms;

/// A model of the call stack of the traced program, kept up to date from
/// the jumps and traps of its reconstructed execution.
pub struct StackUnwinder {
    /// Function start address to symbol.
    pub func_symbol_map: IndexMap<u64, SymbolInfo>,
    /// Symbol ordinal to the function's address range.
    pub idx_2_addr_range: IndexMap<u32, (u64, u64)>,
    /// Address to instruction.
    pub insn_map: HashMap<u64, Insn>,
    /// The open frames, outermost first, each by its symbol's ordinal.
    pub frame_stack: Vec<u32>,
}

/// What is known of a function symbol.
#[derive(Debug)]
pub struct SymbolInfo {
    pub name: String,
    /// The symbol's ordinal among the known function start addresses.
    pub index: u32,
    pub line: u32,
    pub file: String,
}

impl Clone for SymbolInfo {
    fn clone(&self) -> (copy: SymbolInfo)
        ensures
            copy == *self,
    {
        SymbolInfo {
            name: self.name.clone(),
            index: self.index,
            line: self.line,
            file: self.file.clone(),
        }
    }
}

/// Where in the source a function is defined.
#[derive(Debug)]
pub struct SourceLine {
    pub file: String,
    pub line: u32,
}

/// A function symbol of the program, with its place in the source where
/// the debug information gives one.
#[derive(Debug)]
pub struct LocatedSymbol {
    pub name: String,
    pub address: u64,
    pub location: Option<SourceLine>,
}

/// The table after one more symbol was read. A symbol without a place in
/// the source is passed over. The first symbol at an address gives the
/// address its ordinal; a later one at the same address replaces it, under
/// the same ordinal, where it has a name and the one in the table has none.
pub open spec fn admitted(table: Seq<(u64, SymbolInfo)>, symbol: LocatedSymbol) -> Seq<
    (u64, SymbolInfo),
> {
    match symbol.location {
        None => table,
        Some(location) => if has_symbol(table, symbol.address) {
            let existing = symbol_of(table, symbol.address);
            if existing.name@.len() == 0 && symbol.name@.len() > 0 {
                symbols_with(
                    table,
                    symbol.address,
                    SymbolInfo {
                        name: symbol.name,
                        index: existing.index,
                        line: location.line,
                        file: location.file,
                    },
                )
            } else {
                table
            }
        } else {
            table.push(
                (
                    symbol.address,
                    SymbolInfo {
                        name: symbol.name,
                        index: table.len() as u32,
                        line: location.line,
                        file: location.file,
                    },
                ),
            )
        },
    }
}

/// The symbol table of a program whose function symbols are the given
/// ones, in this order.
pub open spec fn symbol_table(symbols: Seq<LocatedSymbol>) -> Seq<(u64, SymbolInfo)>
    decreases symbols.len(),
{
    if symbols.len() == 0 {
        seq![]
    } else {
        admitted(symbol_table(symbols.drop_last()), symbols.last())
    }
}

/// Whether the symbol in place `i` has the ordinal `i`, and no address
/// occurs twice.
pub open spec fn keyed(symbols: Seq<(u64, SymbolInfo)>) -> bool {
    &&& forall|i: int| 0 <= i < symbols.len() ==> (#[trigger] symbols[i]).1.index == i
    &&& forall|i: int, j: int|
        0 <= i < symbols.len() && 0 <= j < symbols.len() && i != j ==> (#[trigger] symbols[i]).0
            != (#[trigger] symbols[j]).0
}

/// Reading one more symbol keeps the table keyed, and adds at most one
/// entry.
pub proof fn lemma_admitted_keyed(table: Seq<(u64, SymbolInfo)>, symbol: LocatedSymbol)
    requires
        keyed(table),
        table.len() < u32::MAX,
    ensures
        keyed(admitted(table, symbol)),
        table.len() <= admitted(table, symbol).len() <= table.len() + 1,
{
    if symbol.location is Some && has_symbol(table, symbol.address) {
        let at = choose|i: int| 0 <= i < table.len() && (#[trigger] table[i]).0 == symbol.address;
        lemma_symbol_of(table, at);
    }
}

/// The table of at most 2^32 - 1 symbols is keyed, and no longer than the
/// list it was read from.
pub proof fn lemma_symbol_table_keyed(symbols: Seq<LocatedSymbol>)
    requires
        symbols.len() <= u32::MAX,
    ensures
        keyed(symbol_table(symbols)),
        symbol_table(symbols).len() <= symbols.len(),
    decreases symbols.len(),
{
    if symbols.len() > 0 {
        lemma_symbol_table_keyed(symbols.drop_last());
        lemma_admitted_keyed(symbol_table(symbols.drop_last()), symbols.last());
    }
}

/// Whether `end` closes the range of the function that starts at `start`:
/// it is the least function start above `start` or, where `start` is the
/// highest, the least of all.
pub open spec fn closes_range(symbols: Seq<(u64, SymbolInfo)>, start: u64, end: u64) -> bool {
    &&& has_symbol(symbols, end)
    &&& forall|i: int|
        0 <= i < symbols.len() && (#[trigger] symbols[i]).0 > start ==> start < end
            <= symbols[i].0
    &&& end <= start ==> forall|i: int| 0 <= i < symbols.len() ==> end <= (#[trigger] symbols[i]).0
}

/// Whether the two tables describe one set of functions: the symbol in
/// place `i` has the ordinal `i`, no address occurs twice, and the range in
/// place `i` is that of the symbol in place `i`.
pub open spec fn tables_wf(symbols: Seq<(u64, SymbolInfo)>, ranges: Seq<(u32, (u64, u64))>) -> bool {
    &&& symbols.len() == ranges.len()
    &&& symbols.len() <= u32::MAX
    &&& forall|i: int| 0 <= i < symbols.len() ==> (#[trigger] symbols[i]).1.index == i
    &&& forall|i: int, j: int|
        0 <= i < symbols.len() && 0 <= j < symbols.len() && i != j ==> (#[trigger] symbols[i]).0
            != (#[trigger] symbols[j]).0
    &&& forall|i: int|
        0 <= i < ranges.len() ==> (#[trigger] ranges[i]).0 == i && ranges[i].1.0 == symbols[i].0
    &&& forall|i: int|
        0 <= i < ranges.len() ==> closes_range(symbols, symbols[i].0, (#[trigger] ranges[i]).1.1)
}

/// The symbol of the function that starts at `addr`.
pub open spec fn symbol_of(symbols: Seq<(u64, SymbolInfo)>, addr: u64) -> SymbolInfo
    recommends
        has_symbol(symbols, addr),
{
    symbols[choose|i: int| 0 <= i < symbols.len() && (#[trigger] symbols[i]).0 == addr].1
}

/// Whether `target` lies in the address range of the frame's function.
pub open spec fn in_frame(ranges: Seq<(u32, (u64, u64))>, frame: u32, target: u64) -> bool {
    ranges[frame as int].1.0 <= target < ranges[frame as int].1.1
}

/// How many frames a return to `target` leaves open: frames are closed
/// from the innermost on, up to the first whose function holds `target`.
pub open spec fn kept(ranges: Seq<(u32, (u64, u64))>, frames: Seq<u32>, target: u64) -> nat
    decreases frames.len(),
{
    if frames.len() == 0 {
        0
    } else if in_frame(ranges, frames.last(), target) {
        frames.len()
    } else {
        kept(ranges, frames.drop_last(), target)
    }
}

/// The symbols of the frames above the outermost `depth`, innermost first.
pub open spec fn closed_above(symbols: Seq<(u64, SymbolInfo)>, frames: Seq<u32>, depth: nat) -> Seq<
    SymbolInfo,
>
    recommends
        depth <= frames.len(),
{
    Seq::new(
        (frames.len() - depth) as nat,
        |i: int| symbols[frames[frames.len() - 1 - i] as int].1,
    )
}

/// What a step of the unwinder comes to: the frames after it, whether the
/// stack was followed, and the frames it closed and opened.
pub struct Unwound {
    pub frames: Seq<u32>,
    pub success: bool,
    pub closed: Seq<SymbolInfo>,
    pub opened: Option<SymbolInfo>,
}

/// Nothing happens to the stack.
pub open spec fn unchanged(frames: Seq<u32>) -> Unwound {
    Unwound { frames, success: false, closed: seq![], opened: None }
}

/// A call to `target`: where a function starts there, its frame is opened.
pub open spec fn called(symbols: Seq<(u64, SymbolInfo)>, frames: Seq<u32>, target: u64) -> Unwound {
    if has_symbol(symbols, target) {
        Unwound {
            frames: frames.push(symbol_of(symbols, target).index),
            success: true,
            closed: seq![],
            opened: Some(symbol_of(symbols, target)),
        }
    } else {
        unchanged(frames)
    }
}

/// A return from a trap: the innermost frame is closed, if there is one.
pub open spec fn trap_returned(symbols: Seq<(u64, SymbolInfo)>, frames: Seq<u32>) -> Unwound {
    if frames.len() > 0 {
        Unwound {
            frames: frames.drop_last(),
            success: true,
            closed: seq![symbols[frames.last() as int].1],
            opened: None,
        }
    } else {
        unchanged(frames)
    }
}

/// A return to `target`: frames are closed up to the first whose function
/// holds `target`. Where none does, the stack is left empty, or, where a
/// function starts at `target`, with that function's frame: a tail call.
pub open spec fn returned(
    symbols: Seq<(u64, SymbolInfo)>,
    ranges: Seq<(u32, (u64, u64))>,
    frames: Seq<u32>,
    target: u64,
) -> Unwound {
    let depth = kept(ranges, frames, target);
    if depth > 0 {
        Unwound {
            frames: frames.take(depth as int),
            success: true,
            closed: closed_above(symbols, frames, depth),
            opened: None,
        }
    } else if has_symbol(symbols, target) {
        Unwound {
            frames: seq![symbol_of(symbols, target).index],
            success: true,
            closed: closed_above(symbols, frames, 0),
            opened: Some(symbol_of(symbols, target)),
        }
    } else {
        Unwound {
            frames: seq![],
            success: true,
            closed: closed_above(symbols, frames, 0),
            opened: None,
        }
    }
}

/// The bytes of the mnemonic part that marks an indirect jump as a call.
pub open spec fn call_mark() -> Seq<u8> {
    "jalr".spec_bytes()
}

/// Whether the instruction is an indirect jump that links: a call through
/// a register.
pub open spec fn is_indirect_call(insn: Insn) -> bool {
    insn.is_indirect_jump && occurs(call_mark(), vstd::utf8::encode_utf8(insn.name@))
}

/// What an uninferable jump or a return from a trap does to the stack,
/// `prev` being the instruction that jumped.
pub open spec fn jumped(
    symbols: Seq<(u64, SymbolInfo)>,
    ranges: Seq<(u32, (u64, u64))>,
    frames: Seq<u32>,
    prev: Insn,
    entry: Entry,
) -> Unwound {
    if entry.event == Event::TrapReturn {
        trap_returned(symbols, frames)
    } else if is_indirect_call(prev) {
        called(symbols, frames, entry.arc.1)
    } else if prev.is_indirect_jump && frames.len() > 0 {
        returned(symbols, ranges, frames, entry.arc.1)
    } else {
        unchanged(frames)
    }
}

/// Whether an event opens a frame where it leads to a function.
pub open spec fn enters(event: Event) -> bool {
    event == Event::InferrableJump || event == Event::TrapException || event
        == Event::TrapInterrupt
}

/// Whether an event is followed as an indirect jump.
pub open spec fn leaves(event: Event) -> bool {
    event == Event::UninferableJump || event == Event::TrapReturn
}

/// What an entry does to the stack. An indirect jump cannot be followed
/// where the image has no instruction at the address it comes from.
pub open spec fn stepped(
    symbols: Seq<(u64, SymbolInfo)>,
    ranges: Seq<(u32, (u64, u64))>,
    frames: Seq<u32>,
    image: Map<u64, Insn>,
    entry: Entry,
) -> Result<Unwound, ReceiveError> {
    if enters(entry.event) {
        Ok(called(symbols, frames, entry.arc.1))
    } else if !leaves(entry.event) {
        Ok(unchanged(frames))
    } else if image.contains_key(entry.arc.0) {
        Ok(jumped(symbols, ranges, frames, image[entry.arc.0], entry))
    } else {
        Err(ReceiveError::MissingInstruction)
    }
}

/// With no address twice in the table, an entry found for an address is
/// the address's symbol.
pub proof fn lemma_symbol_of(symbols: Seq<(u64, SymbolInfo)>, at: int)
    requires
        0 <= at < symbols.len(),
        forall|i: int, j: int|
            0 <= i < symbols.len() && 0 <= j < symbols.len() && i != j ==> (#[trigger] symbols[i]).0
                != (#[trigger] symbols[j]).0,
    ensures
        has_symbol(symbols, symbols[at].0),
        symbol_of(symbols, symbols[at].0) == symbols[at].1,
{
}

impl StackUnwinder {
    /// The function symbols, in the order of their ordinals.
    pub open spec fn symbols(&self) -> Seq<(u64, SymbolInfo)> {
        symbol_entries(self.func_symbol_map)
    }

    /// The functions' address ranges, in the order of their ordinals.
    pub open spec fn ranges(&self) -> Seq<(u32, (u64, u64))> {
        range_entries(self.idx_2_addr_range)
    }

    /// The open frames, outermost first.
    pub open spec fn frames(&self) -> Seq<u32> {
        self.frame_stack@
    }

    /// The tables describe one set of functions, and every open frame is
    /// one of them.
    pub open spec fn wf(&self) -> bool {
        &&& tables_wf(self.symbols(), self.ranges())
        &&& forall|k: int|
            0 <= k < self.frames().len() ==> (#[trigger] self.frames()[k]) < self.symbols().len()
    }

    /// Whether two unwinders hold the same tables and instructions.
    pub open spec fn same_program(&self, other: &StackUnwinder) -> bool {
        &&& self.func_symbol_map == other.func_symbol_map
        &&& self.idx_2_addr_range == other.idx_2_addr_range
        &&& self.insn_map == other.insn_map
    }

    /// Where the range of the function that starts at `start` ends.
    fn range_end(func_symbol_map: &IndexMap<u64, SymbolInfo>, start: u64) -> (end: u64)
        requires
            has_symbol(symbol_entries(*func_symbol_map), start),
        ensures
            closes_range(symbol_entries(*func_symbol_map), start, end),
    {
        let ghost symbols = symbol_entries(*func_symbol_map);
        let count = symbol_count(func_symbol_map);
        let mut least: u64 = start;
        let mut above: Option<u64> = None;
        let mut at: usize = 0;
        while at < count
            invariant
                symbols == symbol_entries(*func_symbol_map),
                count == symbols.len(),
                at <= count,
                has_symbol(symbols, start),
                has_symbol(symbols, least),
                least <= start,
                forall|i: int| 0 <= i < at ==> least <= (#[trigger] symbols[i]).0,
                above matches Some(next) ==> has_symbol(symbols, next) && start < next,
                forall|i: int|
                    0 <= i < at && (#[trigger] symbols[i]).0 > start ==> above is Some
                        && above.unwrap() <= symbols[i].0,
            decreases count - at,
        {
            let addr = match symbol_at(func_symbol_map, at) {
                Some((addr, _info)) => addr,
                None => start,
            };
            if addr < least {
                least = addr;
            }
            if addr > start {
                above = match above {
                    Some(next) => if addr < next {
                        Some(addr)
                    } else {
                        Some(next)
                    },
                    None => Some(addr),
                };
            }
            at += 1;
        }
        match above {
            Some(next) => next,
            None => least,
        }
    }

    /// An unwinder for a program: its instructions, and its function
    /// symbols in the order of the symbol table. The stack starts empty.
    pub fn new(insn_map: HashMap<u64, Insn>, symbols: Vec<LocatedSymbol>) -> (unwinder: Self)
        requires
            symbols@.len() <= u32::MAX,
        ensures
            unwinder.wf(),
            unwinder.symbols() == symbol_table(symbols@),
            unwinder.insn_map == insn_map,
            unwinder.frames().len() == 0,
    {
        let mut func_symbol_map = new_symbol_map();
        let mut read: usize = 0;
        while read < symbols.len()
            invariant
                read <= symbols@.len() <= u32::MAX,
                symbol_entries(func_symbol_map) == symbol_table(symbols@.take(read as int)),
                keyed(symbol_entries(func_symbol_map)),
                symbol_entries(func_symbol_map).len() <= read,
            decreases symbols@.len() - read,
        {
            let ghost table = symbol_entries(func_symbol_map);
            let symbol = &symbols[read];
            proof {
                assert(symbols@.take(read + 1).drop_last() =~= symbols@.take(read as int));
                lemma_admitted_keyed(table, *symbol);
            }
            match &symbol.location {
                Some(location) => {
                    let replaced: Option<u32> = match symbol_get(&func_symbol_map, symbol.address) {
                        Some(existing) => {
                            proof {
                                let at = choose|i: int|
                                    0 <= i < table.len() && #[trigger] table[i] == (
                                        symbol.address,
                                        *existing,
                                    );
                                lemma_symbol_of(table, at);
                            }
                            if existing.name.as_str().is_empty() && !symbol.name.as_str().is_empty() {
                                Some(existing.index)
                            } else {
                                None
                            }
                        },
                        None => Some(symbol_count(&func_symbol_map) as u32),
                    };
                    match replaced {
                        Some(index) => {
                            let info = SymbolInfo {
                                name: symbol.name.clone(),
                                index,
                                line: location.line,
                                file: location.file.clone(),
                            };
                            symbol_insert(&mut func_symbol_map, symbol.address, info);
                        },
                        None => {},
                    }
                },
                None => {},
            }
            read += 1;
        }
        assert(symbols@.take(read as int) =~= symbols@);
        let ghost table = symbol_entries(func_symbol_map);
        let count = symbol_count(&func_symbol_map);
        let mut idx_2_addr_range = new_range_map();
        let mut done: usize = 0;
        while done < count
            invariant
                table == symbol_entries(func_symbol_map),
                keyed(table),
                count == table.len() <= u32::MAX,
                done <= count,
                range_entries(idx_2_addr_range).len() == done,
                forall|i: int|
                    0 <= i < done ==> (#[trigger] range_entries(idx_2_addr_range)[i]).0 == i
                        && range_entries(idx_2_addr_range)[i].1.0 == table[i].0,
                forall|i: int|
                    0 <= i < done ==> closes_range(
                        table,
                        table[i].0,
                        (#[trigger] range_entries(idx_2_addr_range)[i]).1.1,
                    ),
            decreases count - done,
        {
            let (addr, index) = match symbol_at(&func_symbol_map, done) {
                Some((addr, info)) => (addr, info.index),
                None => (0, 0),
            };
            let next_addr = Self::range_end(&func_symbol_map, addr);
            range_insert(&mut idx_2_addr_range, index, (addr, next_addr));
            done += 1;
        }
        Self { func_symbol_map, idx_2_addr_range, insn_map, frame_stack: Vec::new() }
    }

    /// The symbols by their start addresses.
    pub fn func_symbol_map(&self) -> (map: &IndexMap<u64, SymbolInfo>)
        ensures
            *map == self.func_symbol_map,
    {
        &self.func_symbol_map
    }

    /// The symbol of the function that starts at `addr`, if there is one.
    fn lookup(&self, addr: u64) -> (found: Option<SymbolInfo>)
        requires
            self.wf(),
        ensures
            found == if has_symbol(self.symbols(), addr) {
                Some(symbol_of(self.symbols(), addr))
            } else {
                None
            },
            found matches Some(info) ==> info.index < self.symbols().len(),
    {
        match symbol_get(&self.func_symbol_map, addr) {
            Some(info) => {
                proof {
                    let at = choose|i: int|
                        0 <= i < self.symbols().len() && #[trigger] self.symbols()[i] == (
                            addr,
                            *info,
                        );
                    lemma_symbol_of(self.symbols(), at);
                }
                Some(info.clone())
            },
            None => None,
        }
    }

    /// The address range of an open frame's function.
    fn frame_range(&self, frame: u32) -> (range: (u64, u64))
        requires
            self.wf(),
            frame < self.symbols().len(),
        ensures
            range == self.ranges()[frame as int].1,
    {
        match range_get(&self.idx_2_addr_range, frame) {
            Some(range) => range,
            // Every frame's function has its range.
            None => (0, 0),
        }
    }

    /// The symbol of an open frame's function.
    fn frame_symbol(&self, frame: u32) -> (info: SymbolInfo)
        requires
            self.wf(),
            frame < self.symbols().len(),
        ensures
            info == self.symbols()[frame as int].1,
    {
        let start = self.frame_range(frame).0;
        proof {
            lemma_symbol_of(self.symbols(), frame as int);
        }
        match self.lookup(start) {
            Some(info) => info,
            // Every range starts at its function's symbol.
            None => SymbolInfo { name: String::new(), index: 0, line: 0, file: String::new() },
        }
    }

    /// Follows a direct jump or a trap: where a function starts at the
    /// address jumped to, its frame is opened. Returns whether one was,
    /// the depth of the stack, and the symbol of the frame opened.
    pub fn step_ij(&mut self, entry: Entry) -> (result: (bool, usize, Option<SymbolInfo>))
        requires
            old(self).wf(),
            entry.event == Event::InferrableJump || entry.event == Event::TrapException
                || entry.event == Event::TrapInterrupt,
        ensures
            final(self).wf(),
            final(self).same_program(old(self)),
            final(self).frames() == called(old(self).symbols(), old(self).frames(), entry.arc.1).frames,
            result.0 == called(old(self).symbols(), old(self).frames(), entry.arc.1).success,
            result.2 == called(old(self).symbols(), old(self).frames(), entry.arc.1).opened,
            result.1 == final(self).frames().len(),
            final(self).frames().len() == old(self).frames().len() + if result.0 {
                1int
            } else {
                0int
            },
    {
        match self.lookup(entry.arc.1) {
            Some(info) => {
                self.frame_stack.push(info.index);
                (true, self.frame_stack.len(), Some(info))
            },
            None => (false, self.frame_stack.len(), None),
        }
    }

    /// Follows an indirect jump or a return from a trap. A return from a
    /// trap closes the innermost frame. An indirect jump that links opens
    /// the frame of the function it jumps to. Any other indirect jump is
    /// a return: it closes frames up to the first whose function holds
    /// the target and, where none does, opens the frame of the function
    /// that starts at the target, if there is one. Returns whether the
    /// stack was followed, its depth, the symbols of the frames closed,
    /// innermost first, and the symbol of the frame opened.
    pub fn step_uj(&mut self, entry: Entry) -> (result: (
        bool,
        usize,
        Vec<SymbolInfo>,
        Option<SymbolInfo>,
    ))
        requires
            old(self).wf(),
            entry.event == Event::UninferableJump || entry.event == Event::TrapReturn,
            old(self).insn_map@.contains_key(entry.arc.0),
        ensures
            final(self).wf(),
            final(self).same_program(old(self)),
            final(self).frames() == jumped(
                old(self).symbols(),
                old(self).ranges(),
                old(self).frames(),
                old(self).insn_map@[entry.arc.0],
                entry,
            ).frames,
            result.0 == jumped(
                old(self).symbols(),
                old(self).ranges(),
                old(self).frames(),
                old(self).insn_map@[entry.arc.0],
                entry,
            ).success,
            result.2@ == jumped(
                old(self).symbols(),
                old(self).ranges(),
                old(self).frames(),
                old(self).insn_map@[entry.arc.0],
                entry,
            ).closed,
            result.3 == jumped(
                old(self).symbols(),
                old(self).ranges(),
                old(self).frames(),
                old(self).insn_map@[entry.arc.0],
                entry,
            ).opened,
            result.1 == final(self).frames().len(),
            final(self).frames().len() == old(self).frames().len() + if result.3 is Some {
                1int
            } else {
                0int
            } - result.2@.len(),
    {
        let (indirect, links) = match self.insn_map.get(&entry.arc.0) {
            Some(prev_insn) => (
                prev_insn.is_indirect_jump,
                contains(prev_insn.name.as_str(), "jalr"),
            ),
            None => (false, false),
        };
        let target = entry.arc.1;
        let mut closed: Vec<SymbolInfo> = Vec::new();
        if entry.event == Event::TrapReturn {
            if self.frame_stack.len() > 0 {
                let idx = self.frame_stack[self.frame_stack.len() - 1];
                let sym = self.frame_symbol(idx);
                self.frame_stack.pop();
                closed.push(sym);
                return (true, self.frame_stack.len(), closed, None);
            } else {
                return (false, 0, closed, None);
            }
        }
        if indirect && links {
            return match self.lookup(target) {
                Some(info) => {
                    self.frame_stack.push(info.index);
                    (true, self.frame_stack.len(), closed, Some(info))
                },
                None => (false, self.frame_stack.len(), closed, None),
            };
        }
        if indirect && self.frame_stack.len() > 0 {
            loop
                invariant
                    self.wf(),
                    self.same_program(old(self)),
                    0 < self.frames().len() <= old(self).frames().len(),
                    self.frames() == old(self).frames().take(self.frames().len() as int),
                    closed@ == closed_above(
                        old(self).symbols(),
                        old(self).frames(),
                        self.frames().len(),
                    ),
                    kept(self.ranges(), old(self).frames(), target) == kept(
                        self.ranges(),
                        self.frames(),
                        target,
                    ),
                    target == entry.arc.1,
                    entry.event != Event::TrapReturn,
                    old(self).insn_map@.contains_key(entry.arc.0),
                    old(self).insn_map@[entry.arc.0].is_indirect_jump,
                    !is_indirect_call(old(self).insn_map@[entry.arc.0]),
                decreases self.frames().len(),
            {
                let idx = self.frame_stack[self.frame_stack.len() - 1];
                let (start, end) = self.frame_range(idx);
                if target >= start && target < end {
                    return (true, self.frame_stack.len(), closed, None);
                }
                let sym = self.frame_symbol(idx);
                let ghost open = self.frames();
                self.frame_stack.pop();
                closed.push(sym);
                assert(kept(self.ranges(), open, target) == kept(
                    self.ranges(),
                    self.frames(),
                    target,
                ));
                if self.frame_stack.len() == 0 {
                    return match self.lookup(target) {
                        Some(info) => {
                            self.frame_stack.push(info.index);
                            (true, self.frame_stack.len(), closed, Some(info))
                        },
                        None => {
                            (true, 0, closed, None)
                        },
                    };
                }
            }
        }
        (false, self.frame_stack.len(), closed, None)
    }

    /// Follows an entry of any kind: a direct jump or a trap as `step_ij`
    /// does, an indirect jump or a return from a trap as `step_uj` does,
    /// and nothing else at all. Returns what the step returns.
    pub fn step(&mut self, entry: Entry) -> (result: Result<
        (bool, usize, Vec<SymbolInfo>, Option<SymbolInfo>),
        ReceiveError,
    >)
        requires
            old(self).wf(),
        ensures
            final(self).wf(),
            final(self).same_program(old(self)),
            match stepped(
                old(self).symbols(),
                old(self).ranges(),
                old(self).frames(),
                old(self).insn_map@,
                entry,
            ) {
                Ok(change) => result matches Ok(done) && done.0 == change.success && done.1
                    == change.frames.len() && done.2@ == change.closed && done.3 == change.opened
                    && final(self).frames() == change.frames,
                Err(e) => result matches Err(failure) && failure == e && final(self).frames()
                    == old(self).frames(),
            },
    {
        match entry.event {
            Event::InferrableJump | Event::TrapException | Event::TrapInterrupt => {
                let (success, depth, opened) = self.step_ij(entry);
                Ok((success, depth, Vec::new(), opened))
            },
            Event::UninferableJump | Event::TrapReturn => {
                if !self.insn_map.contains_key(&entry.arc.0) {
                    return Err(ReceiveError::MissingInstruction);
                }
                Ok(self.step_uj(entry))
            },
            _ => Ok((false, self.frame_stack.len(), Vec::new(), None)),
        }
    }

    /// The symbol of each open frame's function with its start address,
    /// outermost first.
    pub fn current_frame_symbols(&self) -> (stack: Vec<(u64, SymbolInfo)>)
        requires
            self.wf(),
        ensures
            stack@ == Seq::new(
                self.frames().len(),
                |k: int| self.symbols()[self.frames()[k] as int],
            ),
    {
        let mut stack: Vec<(u64, SymbolInfo)> = Vec::new();
        let mut k: usize = 0;
        while k < self.frame_stack.len()
            invariant
                self.wf(),
                k <= self.frames().len(),
                stack@ == Seq::new(k as nat, |k: int| self.symbols()[self.frames()[k] as int]),
            decreases self.frames().len() - k,
        {
            let frame = self.frame_stack[k];
            let (start, _end) = self.frame_range(frame);
            let info = self.frame_symbol(frame);
            stack.push((start, info));
            k += 1;
        }
        stack
    }

    /// The function that starts nearest below `pc`, or at it: its start
    /// address and symbol. `None` where every function starts above.
    pub fn lookup_symbol(&self, pc: u64) -> (found: Option<(u64, SymbolInfo)>)
        requires
            self.wf(),
        ensures
            match found {
                Some((start, info)) => start <= pc && has_symbol(self.symbols(), start) && info
                    == symbol_of(self.symbols(), start) && forall|i: int|
                    0 <= i < self.symbols().len() && (#[trigger] self.symbols()[i]).0 <= pc
                        ==> self.symbols()[i].0 <= start,
                None => forall|i: int|
                    0 <= i < self.symbols().len() ==> (#[trigger] self.symbols()[i]).0 > pc,
            },
    {
        let count = symbol_count(&self.func_symbol_map);
        let mut best: Option<(u64, usize)> = None;
        let mut at: usize = 0;
        while at < count
            invariant
                self.wf(),
                count == self.symbols().len(),
                at <= count,
                match best {
                    Some((start, place)) => place < at && self.symbols()[place as int].0 == start
                        && start <= pc && forall|i: int|
                        0 <= i < at && (#[trigger] self.symbols()[i]).0 <= pc
                            ==> self.symbols()[i].0 <= start,
                    None => forall|i: int| 0 <= i < at ==> (#[trigger] self.symbols()[i]).0 > pc,
                },
            decreases count - at,
        {
            match symbol_at(&self.func_symbol_map, at) {
                Some((addr, _info)) => {
                    if addr <= pc {
                        best = match best {
                            Some((start, place)) => if start < addr {
                                Some((addr, at))
                            } else {
                                Some((start, place))
                            },
                            None => Some((addr, at)),
                        };
                    }
                },
                None => {},
            }
            at += 1;
        }
        match best {
            Some((start, place)) => {
                proof {
                    lemma_symbol_of(self.symbols(), place as int);
                }
                match symbol_at(&self.func_symbol_map, place) {
                    Some((_addr, info)) => Some((start, info.clone())),
                    None => None,
                }
            },
            None => None,
        }
    }

    /// The symbols in the order of their ordinals.
    pub fn frames_table(&self) -> (table: Vec<SymbolInfo>)
        requires
            self.wf(),
        ensures
            table@ == Seq::new(self.symbols().len(), |i: int| self.symbols()[i].1),
    {
        let count = symbol_count(&self.func_symbol_map);
        let mut table: Vec<SymbolInfo> = Vec::new();
        let mut at: usize = 0;
        while at < count
            invariant
                count == self.symbols().len(),
                at <= count,
                table@ == Seq::new(at as nat, |i: int| self.symbols()[i].1),
            decreases count - at,
        {
            match symbol_at(&self.func_symbol_map, at) {
                Some((_addr, info)) => {
                    table.push(info.clone());
                },
                None => {},
            }
            at += 1;
        }
        table
    }

    /// Closes every open frame, innermost first, and returns their symbols.
    pub fn flush(&mut self) -> (closed_frames: Vec<SymbolInfo>)
        requires
            old(self).wf(),
        ensures
            final(self).wf(),
            final(self).same_program(old(self)),
            final(self).frames().len() == 0,
            closed_frames@ == closed_above(old(self).symbols(), old(self).frames(), 0),
            closed_frames@.len() == old(self).frames().len(),
    {
        let mut closed_frames: Vec<SymbolInfo> = Vec::new();
        while self.frame_stack.len() > 0
            invariant
                self.wf(),
                self.same_program(old(self)),
                self.frames().len() <= old(self).frames().len(),
                self.frames() == old(self).frames().take(self.frames().len() as int),
                closed_frames@ == closed_above(
                    old(self).symbols(),
                    old(self).frames(),
                    self.frames().len(),
                ),
            decreases self.frames().len(),
        {
            let frame_idx = self.frame_stack[self.frame_stack.len() - 1];
            let info = self.frame_symbol(frame_idx);
            self.frame_stack.pop();
            closed_frames.push(info);
        }
        closed_frames
    }

    /// The symbol of the function that starts at `addr`.
    pub fn get_symbol_info(&self, addr: u64) -> (info: SymbolInfo)
        requires
            self.wf(),
            has_symbol(self.symbols(), addr),
        ensures
            info == symbol_of(self.symbols(), addr),
    {
        match self.lookup(addr) {
            Some(info) => info,
            // The caller has made sure that a function starts at `addr`.
            None => SymbolInfo { name: String::new(), index: 0, line: 0, file: String::new() },
        }
    }

    /// The start address of each open frame's function, outermost first.
    pub fn current_frame_addrs(&self) -> (addrs: Vec<u64>)
        requires
            self.wf(),
        ensures
            addrs@ == Seq::new(
                self.frames().len(),
                |k: int| self.ranges()[self.frames()[k] as int].1.0,
            ),
    {
        let mut addrs: Vec<u64> = Vec::new();
        let mut k: usize = 0;
        while k < self.frame_stack.len()
            invariant
                self.wf(),
                k <= self.frames().len(),
                addrs@ == Seq::new(k as nat, |k: int| self.ranges()[self.frames()[k] as int].1.0),
            decreases self.frames().len() - k,
        {
            let (start, _end) = self.frame_range(self.frame_stack[k]);
            addrs.push(start);
            k += 1;
        }
        addrs
    }
}

} // verus!
