use vstd::prelude::*;
use crate::backend::event::{Entry, Event};
use crate::decoder::{
    block_walk,
    DecodeError,
    decode,
    fetch,
    initial_machine,
    is_boundary,
    packet_step,
    panic_entry,
    predicted_run,
    predicted_step,
    refund,
    run_from,
    successor,
    walk,
    Machine,
};
use crate::frontend::br_mode::BrMode;
use crate::frontend::f_header::FHeader;
use crate::frontend::packet::{first_packet_at, packet_at, Packet};
use crate::insn::Insn;

verus! {

/// How many of the entries report the given event.
pub open spec fn count_event(entries: Seq<Entry>, event: Event) -> nat
    decreases entries.len(),
{
    if entries.len() == 0 {
        0
    } else {
        count_event(entries.drop_last(), event) + if entries.last().event == event {
            1nat
        } else {
            0nat
        }
    }
}

/// How many of the entries report the outcome of a branch.
pub open spec fn count_branches(entries: Seq<Entry>) -> nat {
    count_event(entries, Event::TakenBranch) + count_event(entries, Event::NonTakenBranch)
}

/// Counting goes entry by entry.
pub proof fn lemma_count_push(entries: Seq<Entry>, entry: Entry, event: Event)
    ensures
        count_event(entries.push(entry), event) == count_event(entries, event) + if entry.event
            == event {
            1nat
        } else {
            0nat
        },
{
    assert(entries.push(entry).drop_last() =~= entries);
}

/// The count of a sequence in two parts is the sum of the parts' counts.
pub proof fn lemma_count_concat(a: Seq<Entry>, b: Seq<Entry>, event: Event)
    ensures
        count_event(a + b, event) == count_event(a, event) + count_event(b, event),
    decreases b.len(),
{
    if b.len() > 0 {
        lemma_count_concat(a, b.drop_last(), event);
        assert((a + b).drop_last() =~= a + b.drop_last());
    }
}

proof fn lemma_count_one(entry: Entry, event: Event)
    ensures
        count_event(seq![entry], event) == if entry.event == event {
            1nat
        } else {
            0nat
        },
{
    lemma_count_push(Seq::empty(), entry, event);
}

/// A walk emits one entry for each instruction it passes and, where it
/// fails, one that says so: nothing else.
pub proof fn lemma_walk_events(
    image: Map<u64, Insn>,
    pc: u64,
    follow_direct: bool,
    target: Option<u64>,
    fuel: nat,
    event: Event,
)
    ensures
        count_event(walk(image, pc, follow_direct, target, fuel).entries, event) == if event
            == Event::Instruction {
            if walk(image, pc, follow_direct, target, fuel).stop is Ok {
                walk(image, pc, follow_direct, target, fuel).entries.len()
            } else {
                (walk(image, pc, follow_direct, target, fuel).entries.len() - 1) as nat
            }
        } else if event == Event::Panic && walk(image, pc, follow_direct, target, fuel).stop
            is Err {
            1nat
        } else {
            0nat
        },
    decreases fuel,
{
    let w = walk(image, pc, follow_direct, target, fuel);
    match fetch(image, pc) {
        None => {
            lemma_count_one(panic_entry(pc), event);
        },
        Some(insn) => {
            let here = Entry::executed(insn, pc);
            lemma_count_one(here, event);
            if !goes_on(image, pc, follow_direct, target) {
                // The walk stops here, with this one entry.
            } else if fuel == 0 || successor(insn, pc) is None {
                assert(w.entries =~= seq![here].push(panic_entry(pc)));
                lemma_count_push(seq![here], panic_entry(pc), event);
            } else {
                let next = successor(insn, pc).unwrap();
                let rest = walk(image, next, follow_direct, target, (fuel - 1) as nat);
                lemma_walk_events(image, next, follow_direct, target, (fuel - 1) as nat, event);
                lemma_count_concat(seq![here], rest.entries, event);
            }
        },
    }
}

/// Outside the predicting modes a packet yields, besides the entries for
/// the instructions passed, exactly one entry: the event it reports, the
/// end of the trace, or the failure.
pub proof fn lemma_one_event_per_packet(
    image: Map<u64, Insn>,
    mode: BrMode,
    machine: Machine,
    packet: Packet,
)
    requires
        !mode.predicts() || (packet.f_header != FHeader::FTb && packet.f_header != FHeader::FNt),
    ensures
        packet_step(image, mode, machine, packet).entries.len() == count_event(
            packet_step(image, mode, machine, packet).entries,
            Event::Instruction,
        ) + 1,
        count_event(packet_step(image, mode, machine, packet).entries, Event::Start) == 0,
        count_event(packet_step(image, mode, machine, packet).entries, Event::End) == if packet_step(
            image,
            mode,
            machine,
            packet,
        ).outcome is Finished {
            1nat
        } else {
            0nat
        },
{
    let step = packet_step(image, mode, machine, packet);
    let target = if packet.f_header == FHeader::FSync {
        Some(refund(packet.target_address))
    } else if packet.f_header == FHeader::FTrap {
        Some(packet.trap_address)
    } else {
        None
    };
    let w = block_walk(image, mode, machine, target);
    lemma_walk_events(image, machine.pc, !mode.stops_on_direct_jump(), target, image.len(), Event::Instruction);
    lemma_walk_events(image, machine.pc, !mode.stops_on_direct_jump(), target, image.len(), Event::Start);
    lemma_walk_events(image, machine.pc, !mode.stops_on_direct_jump(), target, image.len(), Event::End);
    if w.stop is Ok {
        let last = step.entries.last();
        lemma_count_push(w.entries, last, Event::Instruction);
        lemma_count_push(w.entries, last, Event::Start);
        lemma_count_push(w.entries, last, Event::End);
    }
}

/// The entries of a run of predicted branches: one for each instruction
/// passed, one for each branch resolved, and one for the failure where the
/// run fails.
pub proof fn lemma_predicted_run_events(
    image: Map<u64, Insn>,
    mode: BrMode,
    machine: Machine,
    count: nat,
)
    ensures
        predicted_run(image, mode, machine, count).outcome is Continue ==> count_branches(
            predicted_run(image, mode, machine, count).entries,
        ) == count,
        predicted_run(image, mode, machine, count).outcome is Continue ==> predicted_run(
            image,
            mode,
            machine,
            count,
        ).entries.len() == count_event(
            predicted_run(image, mode, machine, count).entries,
            Event::Instruction,
        ) + count,
        !(predicted_run(image, mode, machine, count).outcome is Finished),
        count_event(predicted_run(image, mode, machine, count).entries, Event::Start) == 0,
        count_event(predicted_run(image, mode, machine, count).entries, Event::End) == 0,
    decreases count,
{
    if count > 0 {
        let first = predicted_step(image, mode, machine, true);
        lemma_predicted_step_events(image, mode, machine, true);
        if first.outcome is Continue {
            let rest = predicted_run(image, mode, first.machine, (count - 1) as nat);
            lemma_predicted_run_events(image, mode, first.machine, (count - 1) as nat);
            lemma_count_concat(first.entries, rest.entries, Event::Instruction);
            lemma_count_concat(first.entries, rest.entries, Event::TakenBranch);
            lemma_count_concat(first.entries, rest.entries, Event::NonTakenBranch);
            lemma_count_concat(first.entries, rest.entries, Event::Start);
            lemma_count_concat(first.entries, rest.entries, Event::End);
        }
    }
}

/// The entries of one predicted branch: one for each instruction passed,
/// then the branch's outcome or the failure.
pub proof fn lemma_predicted_step_events(
    image: Map<u64, Insn>,
    mode: BrMode,
    machine: Machine,
    hit: bool,
)
    ensures
        predicted_step(image, mode, machine, hit).outcome is Continue ==> count_branches(
            predicted_step(image, mode, machine, hit).entries,
        ) == 1,
        predicted_step(image, mode, machine, hit).entries.len() == count_event(
            predicted_step(image, mode, machine, hit).entries,
            Event::Instruction,
        ) + 1,
        !(predicted_step(image, mode, machine, hit).outcome is Finished),
        count_event(predicted_step(image, mode, machine, hit).entries, Event::Start) == 0,
        count_event(predicted_step(image, mode, machine, hit).entries, Event::End) == 0,
{
    let step = predicted_step(image, mode, machine, hit);
    let w = block_walk(image, mode, machine, None);
    let follow = !mode.stops_on_direct_jump();
    lemma_walk_events(image, machine.pc, follow, None, image.len(), Event::Instruction);
    lemma_walk_events(image, machine.pc, follow, None, image.len(), Event::TakenBranch);
    lemma_walk_events(image, machine.pc, follow, None, image.len(), Event::NonTakenBranch);
    lemma_walk_events(image, machine.pc, follow, None, image.len(), Event::Start);
    lemma_walk_events(image, machine.pc, follow, None, image.len(), Event::End);
    if w.stop is Ok {
        let last = step.entries.last();
        lemma_count_push(w.entries, last, Event::Instruction);
        lemma_count_push(w.entries, last, Event::TakenBranch);
        lemma_count_push(w.entries, last, Event::NonTakenBranch);
        lemma_count_push(w.entries, last, Event::Start);
        lemma_count_push(w.entries, last, Event::End);
    }
}

/// In a predicting mode a taken-branch packet with count `k` that is
/// handled without failure yields the hit marker, then `k` branch outcomes
/// and, between them, nothing but the instructions passed.
pub proof fn lemma_hit_packet_branches(
    image: Map<u64, Insn>,
    mode: BrMode,
    machine: Machine,
    packet: Packet,
)
    requires
        mode.predicts(),
        packet.f_header == FHeader::FTb,
        packet_step(image, mode, machine, packet).outcome is Continue,
    ensures
        packet_step(image, mode, machine, packet).entries[0] == Entry::timed(
            Event::BPHit,
            packet.timestamp,
            machine.pc,
            machine.pc,
        ),
        count_branches(packet_step(image, mode, machine, packet).entries) == packet.timestamp,
        packet_step(image, mode, machine, packet).entries.len() == 1 + packet.timestamp
            + count_event(packet_step(image, mode, machine, packet).entries, Event::Instruction),
{
    let run = predicted_run(image, mode, machine, packet.timestamp as nat);
    let marker = Entry::timed(Event::BPHit, packet.timestamp, machine.pc, machine.pc);
    lemma_predicted_run_events(image, mode, machine, packet.timestamp as nat);
    lemma_count_one(marker, Event::Instruction);
    lemma_count_one(marker, Event::TakenBranch);
    lemma_count_one(marker, Event::NonTakenBranch);
    lemma_count_concat(seq![marker], run.entries, Event::Instruction);
    lemma_count_concat(seq![marker], run.entries, Event::TakenBranch);
    lemma_count_concat(seq![marker], run.entries, Event::NonTakenBranch);
}

/// Every packet but the first yields at most one end of trace, which ends
/// the run, and no start.
proof fn lemma_step_start_end(image: Map<u64, Insn>, mode: BrMode, machine: Machine, packet: Packet)
    ensures
        count_event(packet_step(image, mode, machine, packet).entries, Event::Start) == 0,
        count_event(packet_step(image, mode, machine, packet).entries, Event::End) == if packet_step(
            image,
            mode,
            machine,
            packet,
        ).outcome is Finished {
            1nat
        } else {
            0nat
        },
{
    if mode.predicts() && packet.f_header == FHeader::FTb {
        let run = predicted_run(image, mode, machine, packet.timestamp as nat);
        let marker = Entry::timed(Event::BPHit, packet.timestamp, machine.pc, machine.pc);
        lemma_predicted_run_events(image, mode, machine, packet.timestamp as nat);
        lemma_count_one(marker, Event::Start);
        lemma_count_one(marker, Event::End);
        lemma_count_concat(seq![marker], run.entries, Event::Start);
        lemma_count_concat(seq![marker], run.entries, Event::End);
    } else if mode.predicts() && packet.f_header == FHeader::FNt {
        if machine.timestamp + packet.timestamp > u64::MAX {
            let failure = panic_entry(machine.pc);
            lemma_count_push(Seq::empty(), failure, Event::Start);
            lemma_count_push(Seq::empty(), failure, Event::End);
        } else {
            let timestamp = (machine.timestamp + packet.timestamp) as u64;
            let moved = Machine { timestamp, ..machine };
            let one = predicted_step(image, mode, moved, false);
            let marker = Entry::timed(Event::BPMiss, timestamp, machine.pc, machine.pc);
            lemma_predicted_step_events(image, mode, moved, false);
            lemma_count_one(marker, Event::Start);
            lemma_count_one(marker, Event::End);
            lemma_count_concat(seq![marker], one.entries, Event::Start);
            lemma_count_concat(seq![marker], one.entries, Event::End);
        }
    } else {
        lemma_one_event_per_packet(image, mode, machine, packet);
    }
}

/// The entries of the packets from `pos` on hold no start and at most one
/// end; outside the predicting modes they are one for each instruction
/// passed and one for each packet.
pub proof fn lemma_run_events(
    image: Map<u64, Insn>,
    mode: BrMode,
    machine: Machine,
    stream: Seq<u8>,
    pos: int,
)
    ensures
        count_event(run_from(image, mode, machine, stream, pos).entries, Event::Start) == 0,
        count_event(run_from(image, mode, machine, stream, pos).entries, Event::End) <= 1,
        !mode.predicts() ==> run_from(image, mode, machine, stream, pos).entries.len()
            == count_event(run_from(image, mode, machine, stream, pos).entries, Event::Instruction)
            + run_from(image, mode, machine, stream, pos).packets,
    decreases stream.len() - pos,
{
    match packet_at(stream, pos) {
        Ok((packet, end)) => {
            let step = packet_step(image, mode, machine, packet);
            lemma_step_start_end(image, mode, machine, packet);
            if !mode.predicts() {
                lemma_one_event_per_packet(image, mode, machine, packet);
            }
            if step.outcome is Continue && pos < end <= stream.len() {
                let rest = run_from(image, mode, step.machine, stream, end);
                lemma_run_events(image, mode, step.machine, stream, end);
                lemma_count_concat(step.entries, rest.entries, Event::Start);
                lemma_count_concat(step.entries, rest.entries, Event::End);
                lemma_count_concat(step.entries, rest.entries, Event::Instruction);
            }
        },
        Err(_) => {},
    }
}

/// What a decoded trace consists of: it opens with the one start; it
/// holds at most one end; and outside the predicting modes it has, besides
/// the start and one entry for each instruction executed, exactly one
/// entry for each packet after the first.
pub proof fn lemma_decoded_events(
    image: Map<u64, Insn>,
    mode: BrMode,
    bp_entries: nat,
    stream: Seq<u8>,
)
    requires
        first_packet_at(stream, 0) is Ok,
    ensures
        decode(image, mode, bp_entries, stream).entries[0].event == Event::Start,
        count_event(decode(image, mode, bp_entries, stream).entries, Event::Start) == 1,
        count_event(decode(image, mode, bp_entries, stream).entries, Event::End) <= 1,
        !mode.predicts() ==> decode(image, mode, bp_entries, stream).entries.len() == 1
            + count_event(decode(image, mode, bp_entries, stream).entries, Event::Instruction)
            + decode(image, mode, bp_entries, stream).packets,
{
    let (first, end) = first_packet_at(stream, 0).unwrap();
    let machine = initial_machine(first, bp_entries);
    let rest = run_from(image, mode, machine, stream, end);
    let start = Entry::timed(Event::Start, first.timestamp, machine.pc, 0);
    lemma_run_events(image, mode, machine, stream, end);
    lemma_count_one(start, Event::Start);
    lemma_count_one(start, Event::End);
    lemma_count_one(start, Event::Instruction);
    lemma_count_concat(seq![start], rest.entries, Event::Start);
    lemma_count_concat(seq![start], rest.entries, Event::End);
    lemma_count_concat(seq![start], rest.entries, Event::Instruction);
}

/// The target of an uninferable jump: the packet's address field combined
/// by exclusive or with the jump's own address without its low bit, and
/// the low bit restored.
pub proof fn lemma_uninferable_jump_target(
    image: Map<u64, Insn>,
    mode: BrMode,
    machine: Machine,
    packet: Packet,
)
    requires
        packet.f_header == FHeader::FUj,
        packet_step(image, mode, machine, packet).outcome is Continue,
    ensures
        block_walk(image, mode, machine, None).stop is Ok,
        packet_step(image, mode, machine, packet).machine.pc == refund(
            packet.target_address ^ (block_walk(image, mode, machine, None).stop.unwrap() >> 1),
        ),
        packet_step(image, mode, machine, packet).entries.last() == Entry::timed(
            Event::UninferableJump,
            (machine.timestamp + packet.timestamp) as u64,
            block_walk(image, mode, machine, None).stop.unwrap(),
            packet_step(image, mode, machine, packet).machine.pc,
        ),
{
}

/// Whether a walk goes on from `pc`: the image has an instruction there
/// at which the walk does not stop.
pub open spec fn goes_on(image: Map<u64, Insn>, pc: u64, follow_direct: bool, target: Option<u64>) -> bool {
    fetch(image, pc) matches Some(insn) && !is_boundary(insn, follow_direct) && target != Some(pc)
}

/// Where a walk is after `steps` steps from `pc`; `None` where it has
/// stopped or failed before.
pub open spec fn walked(
    image: Map<u64, Insn>,
    pc: u64,
    follow_direct: bool,
    target: Option<u64>,
    steps: nat,
) -> Option<u64>
    decreases steps,
{
    if steps == 0 {
        Some(pc)
    } else {
        match walked(image, pc, follow_direct, target, (steps - 1) as nat) {
            Some(at) => if goes_on(image, at, follow_direct, target) {
                successor(image[at], at)
            } else {
                None
            },
            None => None,
        }
    }
}

/// Whether a walk from `pc` is still going on after `steps` steps.
pub open spec fn still_going(
    image: Map<u64, Insn>,
    pc: u64,
    follow_direct: bool,
    target: Option<u64>,
    steps: nat,
) -> bool {
    match walked(image, pc, follow_direct, target, steps) {
        Some(at) => goes_on(image, at, follow_direct, target),
        None => false,
    }
}

/// Steps add up: `more` steps after `steps` steps are `steps + more`
/// steps.
proof fn lemma_walked_on(
    image: Map<u64, Insn>,
    pc: u64,
    follow_direct: bool,
    target: Option<u64>,
    steps: nat,
    more: nat,
)
    ensures
        walked(image, pc, follow_direct, target, steps + more) == match walked(
            image,
            pc,
            follow_direct,
            target,
            steps,
        ) {
            Some(at) => walked(image, at, follow_direct, target, more),
            None => None,
        },
    decreases more,
{
    if more > 0 {
        lemma_walked_on(image, pc, follow_direct, target, steps, (more - 1) as nat);
    }
}

/// A walk runs out of fuel exactly if it goes on at every step that the
/// fuel allows.
proof fn lemma_endless_is_going_on(
    image: Map<u64, Insn>,
    pc: u64,
    follow_direct: bool,
    target: Option<u64>,
    fuel: nat,
)
    ensures
        walk(image, pc, follow_direct, target, fuel).stop == Err::<u64, DecodeError>(
            DecodeError::EndlessWalk,
        ) <==> forall|k: nat|
            k <= fuel ==> #[trigger] still_going(image, pc, follow_direct, target, k),
    decreases fuel,
{
    let going = forall|k: nat|
        k <= fuel ==> #[trigger] still_going(image, pc, follow_direct, target, k);
    if !goes_on(image, pc, follow_direct, target) {
        assert(!still_going(image, pc, follow_direct, target, 0));
    } else if fuel > 0 {
        assert(walked(image, pc, follow_direct, target, 1) == successor(image[pc], pc)) by {
            assert(walked(image, pc, follow_direct, target, 0) == Some(pc));
        }
        match successor(image[pc], pc) {
            Some(next) => {
                lemma_endless_is_going_on(image, next, follow_direct, target, (fuel - 1) as nat);
                assert forall|k: nat| 0 < k <= fuel implies still_going(
                    image,
                    pc,
                    follow_direct,
                    target,
                    k,
                ) == still_going(image, next, follow_direct, target, (k - 1) as nat) by {
                    lemma_walked_on(image, pc, follow_direct, target, 1, (k - 1) as nat);
                }
                if going {
                    assert forall|k: nat| k <= fuel - 1 implies #[trigger] still_going(
                        image,
                        next,
                        follow_direct,
                        target,
                        k,
                    ) by {
                        assert(still_going(image, pc, follow_direct, target, k + 1));
                    }
                }
            },
            None => {
                assert(!still_going(image, pc, follow_direct, target, 1));
            },
        }
    }
}

/// A walk that goes through as many instructions as the image has never
/// ends: it runs out of fuel however much it gets. So the decoder gives
/// up only on a walk that would go on for ever.
pub proof fn lemma_endless_walk_never_stops(
    image: Map<u64, Insn>,
    pc: u64,
    follow_direct: bool,
    target: Option<u64>,
    fuel: nat,
)
    requires
        image.dom().finite(),
        walk(image, pc, follow_direct, target, image.len()).stop == Err::<u64, DecodeError>(
            DecodeError::EndlessWalk,
        ),
    ensures
        walk(image, pc, follow_direct, target, fuel).stop == Err::<u64, DecodeError>(
            DecodeError::EndlessWalk,
        ),
{
    let count = image.len();
    lemma_endless_is_going_on(image, pc, follow_direct, target, count);
    let visited = Seq::new(
        count + 1,
        |k: int| walked(image, pc, follow_direct, target, k as nat).unwrap(),
    );
    assert forall|k: int| 0 <= k <= count implies image.dom().contains(#[trigger] visited[k]) by {
        assert(still_going(image, pc, follow_direct, target, k as nat));
    }
    if visited.no_duplicates() {
        visited.unique_seq_to_set();
        vstd::set_lib::lemma_len_subset(visited.to_set(), image.dom());
    }
    let (first, again) = choose|i: int, j: int|
        0 <= i < visited.len() && 0 <= j < visited.len() && i != j && visited[i] == visited[j];
    let (early, late) = if first < again {
        (first as nat, again as nat)
    } else {
        (again as nat, first as nat)
    };
    assert(walked(image, pc, follow_direct, target, early) == walked(
        image,
        pc,
        follow_direct,
        target,
        late,
    )) by {
        assert(still_going(image, pc, follow_direct, target, early));
        assert(still_going(image, pc, follow_direct, target, late));
    }
    assert forall|k: nat| k <= fuel implies #[trigger] still_going(
        image,
        pc,
        follow_direct,
        target,
        k,
    ) by {
        lemma_walk_goes_round(image, pc, follow_direct, target, early, late, k);
    }
    lemma_endless_is_going_on(image, pc, follow_direct, target, fuel);
}

/// A walk that is at the same address after `early` and after `late`
/// steps, and has gone on all the way there, goes on for ever.
proof fn lemma_walk_goes_round(
    image: Map<u64, Insn>,
    pc: u64,
    follow_direct: bool,
    target: Option<u64>,
    early: nat,
    late: nat,
    steps: nat,
)
    requires
        early < late,
        walked(image, pc, follow_direct, target, early) == walked(
            image,
            pc,
            follow_direct,
            target,
            late,
        ),
        forall|k: nat| k <= late ==> #[trigger] still_going(image, pc, follow_direct, target, k),
    ensures
        still_going(image, pc, follow_direct, target, steps),
    decreases steps,
{
    if steps > late {
        let more = (steps - late) as nat;
        lemma_walked_on(image, pc, follow_direct, target, late, more);
        lemma_walked_on(image, pc, follow_direct, target, early, more);
        lemma_walk_goes_round(image, pc, follow_direct, target, early, late, early + more);
    }
}

/// Time never runs backwards: the handling of a packet leaves the decoder
/// at a time no earlier than it found it.
pub proof fn lemma_time_never_decreases(
    image: Map<u64, Insn>,
    mode: BrMode,
    machine: Machine,
    packet: Packet,
)
    ensures
        packet_step(image, mode, machine, packet).machine.timestamp >= machine.timestamp,
{
    if mode.predicts() && packet.f_header == FHeader::FTb {
        lemma_predicted_run_keeps_time(image, mode, machine, packet.timestamp as nat);
    }
}

/// A run of predicted branches takes no time.
proof fn lemma_predicted_run_keeps_time(
    image: Map<u64, Insn>,
    mode: BrMode,
    machine: Machine,
    count: nat,
)
    ensures
        predicted_run(image, mode, machine, count).machine.timestamp == machine.timestamp,
    decreases count,
{
    if count > 0 {
        let first = predicted_step(image, mode, machine, true);
        if first.outcome is Continue {
            lemma_predicted_run_keeps_time(image, mode, first.machine, (count - 1) as nat);
        }
    }
}

/// Whether every instruction of the image lies at an even address, has
/// an even length and, where it has an immediate, an even one.
pub open spec fn aligned(image: Map<u64, Insn>) -> bool {
    forall|pc: u64| #[trigger]
        image.contains_key(pc) ==> pc % 2 == 0 && image[pc].len % 2 == 0 && (image[pc].imm
            matches Some(offset) ==> offset % 2 == 0)
}

/// Whether the addresses that an entry reports are even. The address at
/// which a trap was taken is left out: it is the packet's field as it came.
pub open spec fn even_entry(entry: Entry) -> bool {
    entry.arc.1 % 2 == 0 && (entry.event.is_trap() || entry.arc.0 % 2 == 0)
}

/// Whether the addresses that the entries report are even.
pub open spec fn all_even(entries: Seq<Entry>) -> bool {
    forall|i: int| 0 <= i < entries.len() ==> even_entry(#[trigger] entries[i])
}

/// An address with its low bit restored is even.
pub proof fn lemma_refund_even(addr: u64)
    ensures
        refund(addr) % 2 == 0,
{
    assert((addr << 1) % 2 == 0) by (bit_vector);
}

/// In an aligned image a walk from an even address reports even addresses
/// only, and stops at one.
pub proof fn lemma_walk_even(
    image: Map<u64, Insn>,
    pc: u64,
    follow_direct: bool,
    target: Option<u64>,
    fuel: nat,
)
    requires
        aligned(image),
        pc % 2 == 0,
    ensures
        all_even(walk(image, pc, follow_direct, target, fuel).entries),
        walk(image, pc, follow_direct, target, fuel).stop matches Ok(at) ==> at % 2 == 0
            && image.contains_key(at) && fetch(image, at) is Some,
    decreases fuel,
{
    if goes_on(image, pc, follow_direct, target) && fuel > 0 && successor(image[pc], pc) is Some {
        let next = successor(image[pc], pc).unwrap();
        lemma_walk_even(image, next, follow_direct, target, (fuel - 1) as nat);
    }
}

/// In an aligned image one predicted branch from an even address reports
/// even addresses only, and leads to one.
pub proof fn lemma_predicted_step_even(
    image: Map<u64, Insn>,
    mode: BrMode,
    machine: Machine,
    hit: bool,
)
    requires
        aligned(image),
        machine.pc % 2 == 0,
    ensures
        all_even(predicted_step(image, mode, machine, hit).entries),
        predicted_step(image, mode, machine, hit).machine.pc % 2 == 0,
{
    lemma_walk_even(image, machine.pc, !mode.stops_on_direct_jump(), None, image.len());
}

/// In an aligned image a run of predicted branches from an even address
/// reports even addresses only, and leads to one.
pub proof fn lemma_predicted_run_even(
    image: Map<u64, Insn>,
    mode: BrMode,
    machine: Machine,
    count: nat,
)
    requires
        aligned(image),
        machine.pc % 2 == 0,
    ensures
        all_even(predicted_run(image, mode, machine, count).entries),
        predicted_run(image, mode, machine, count).machine.pc % 2 == 0,
    decreases count,
{
    if count > 0 {
        let first = predicted_step(image, mode, machine, true);
        lemma_predicted_step_even(image, mode, machine, true);
        if first.outcome is Continue {
            lemma_predicted_run_even(image, mode, first.machine, (count - 1) as nat);
        }
    }
}

/// In an aligned image the handling of a packet from an even address
/// reports even addresses only, and leads to one.
pub proof fn lemma_step_even(image: Map<u64, Insn>, mode: BrMode, machine: Machine, packet: Packet)
    requires
        aligned(image),
        machine.pc % 2 == 0,
    ensures
        all_even(packet_step(image, mode, machine, packet).entries),
        packet_step(image, mode, machine, packet).machine.pc % 2 == 0,
{
    let follow = !mode.stops_on_direct_jump();
    if packet.f_header == FHeader::FSync {
        lemma_walk_even(image, machine.pc, follow, Some(refund(packet.target_address)), image.len());
    } else if packet.f_header == FHeader::FTrap {
        let w = block_walk(image, mode, machine, Some(packet.trap_address));
        lemma_walk_even(image, machine.pc, follow, Some(packet.trap_address), image.len());
        if w.stop is Ok {
            lemma_refund_even(packet.target_address ^ (w.stop.unwrap() >> 1));
        }
    } else if mode.predicts() && packet.f_header == FHeader::FTb {
        lemma_predicted_run_even(image, mode, machine, packet.timestamp as nat);
    } else if mode.predicts() && packet.f_header == FHeader::FNt {
        if machine.timestamp + packet.timestamp <= u64::MAX {
            let timestamp = (machine.timestamp + packet.timestamp) as u64;
            lemma_predicted_step_even(image, mode, Machine { timestamp, ..machine }, false);
        }
    } else {
        let w = block_walk(image, mode, machine, None);
        lemma_walk_even(image, machine.pc, follow, None, image.len());
        if w.stop is Ok {
            lemma_refund_even(packet.target_address ^ (w.stop.unwrap() >> 1));
        }
    }
}

/// In an aligned image the packets from `pos` on, handled from an even
/// address, report even addresses only.
pub proof fn lemma_run_even(
    image: Map<u64, Insn>,
    mode: BrMode,
    machine: Machine,
    stream: Seq<u8>,
    pos: int,
)
    requires
        aligned(image),
        machine.pc % 2 == 0,
    ensures
        all_even(run_from(image, mode, machine, stream, pos).entries),
    decreases stream.len() - pos,
{
    match packet_at(stream, pos) {
        Ok((packet, end)) => {
            let step = packet_step(image, mode, machine, packet);
            lemma_step_even(image, mode, machine, packet);
            if step.outcome is Continue && pos < end <= stream.len() {
                lemma_run_even(image, mode, step.machine, stream, end);
            }
        },
        Err(_) => {},
    }
}

/// Every address that the decoder reports for an aligned image is even:
/// where the trace starts and ends, each instruction and the one after it,
/// and each branch, jump and trap target.
pub proof fn lemma_decoded_addresses_even(
    image: Map<u64, Insn>,
    mode: BrMode,
    bp_entries: nat,
    stream: Seq<u8>,
)
    requires
        aligned(image),
    ensures
        all_even(decode(image, mode, bp_entries, stream).entries),
{
    match first_packet_at(stream, 0) {
        Ok((first, end)) => {
            let machine = initial_machine(first, bp_entries);
            lemma_refund_even(first.target_address);
            lemma_run_even(image, mode, machine, stream, end);
        },
        Err(_) => {},
    }
}

} // verus!
