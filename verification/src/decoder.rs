use std::collections::HashMap;
use vstd::prelude::*;
use crate::backend::event::{Entry, Event};
use crate::channel::{broadcast, broadcast_log};
use crate::frontend::bp_double_saturating_counter::{
    table_after,
    table_prediction,
    BpDoubleSaturatingCounter,
    BpState,
};
use crate::frontend::br_mode::BrMode;
use crate::frontend::f_header::FHeader;
use crate::frontend::packet::{
    first_packet_at,
    packet_at,
    read_first_packet,
    read_packet,
    Packet,
    PacketError,
    TraceStream,
};
use crate::frontend::trap_type::TrapType;
use crate::insn::Insn;

verus! {

broadcast use vstd::std_specs::hash::group_hash_axioms;

/// How many entries the bus between the decoder and its readers holds
/// unless told otherwise.
pub const BUS_SIZE: usize = 1024;

/// Why a trace could not be decoded to its end.
#[derive(Debug, Clone, Copy, PartialEq, Eq, Structural)]
pub enum DecodeError {
    /// A packet has a reserved header or kind, or the stream ends within it.
    MalformedPacket,
    /// The trace does not open with a synchronization packet.
    MissingSync,
    /// The walk reached an address at which the image has no instruction.
    MissingInstruction,
    /// The instruction that a packet resolves is not of the packet's kind.
    ControlFlowMismatch,
    /// A walk went through as many instructions as the image has without
    /// reaching one that a packet resolves: it would never end.
    EndlessWalk,
    /// The time no longer fits in 64 bits.
    TimestampOverflow,
}

/// The address that a transmitted address field stands for: trace packets
/// carry addresses without their low bit, which is always zero.
pub open spec fn refund(addr: u64) -> u64 {
    addr << 1
}

/// The target of a jump or trap as transmitted for the address `pc`: the
/// field is the target combined with the address by exclusive or, both
/// without their low bit.
pub open spec fn xor_target(field: u64, pc: u64) -> u64 {
    refund(field ^ (pc >> 1))
}

/// The instruction at `pc`, where the image has one that ends within the
/// address space.
pub open spec fn fetch(image: Map<u64, Insn>, pc: u64) -> Option<Insn> {
    if image.contains_key(pc) && pc + image[pc].len <= u64::MAX {
        Some(image[pc])
    } else {
        None
    }
}

/// The address after the instruction at `pc`.
pub open spec fn fall_through(insn: Insn, pc: u64) -> u64
    recommends
        pc + insn.len <= u64::MAX,
{
    (pc + insn.len) as u64
}

/// Where the branch or direct jump at `pc` leads when taken: `None` where
/// the instruction has no immediate or the sum is no address.
pub open spec fn jump_target(insn: Insn, pc: u64) -> Option<u64> {
    match insn.imm {
        Some(offset) => if 0 <= pc + offset <= u64::MAX {
            Some((pc + offset) as u64)
        } else {
            None
        },
        None => None,
    }
}

/// Whether a walk stops at the instruction: at a branch or an indirect
/// jump, and at a direct jump unless direct jumps are followed.
pub open spec fn is_boundary(insn: Insn, follow_direct: bool) -> bool {
    insn.is_branch || insn.is_indirect_jump || (insn.is_direct_jump && !follow_direct)
}

/// Where a walk goes on after an instruction that is no boundary.
pub open spec fn successor(insn: Insn, pc: u64) -> Option<u64> {
    if insn.is_direct_jump {
        jump_target(insn, pc)
    } else {
        Some(fall_through(insn, pc))
    }
}

/// The entry that reports a failure at `pc`.
pub open spec fn panic_entry(pc: u64) -> Entry {
    Entry::timed(Event::Panic, 0, pc, 0)
}

/// What a walk emits, and the address at which it stops or why it fails.
pub struct Walk {
    pub entries: Seq<Entry>,
    pub stop: Result<u64, DecodeError>,
}

/// The walk from `pc`: one entry for each instruction, up to and including
/// the first boundary or the instruction at `target`, where the walk stops.
/// It fails, with a last entry that says so, where an address has no
/// instruction, or after `fuel` steps.
pub open spec fn walk(
    image: Map<u64, Insn>,
    pc: u64,
    follow_direct: bool,
    target: Option<u64>,
    fuel: nat,
) -> Walk
    decreases fuel,
{
    match fetch(image, pc) {
        None => Walk { entries: seq![panic_entry(pc)], stop: Err(DecodeError::MissingInstruction) },
        Some(insn) => {
            let here = Entry::executed(insn, pc);
            if is_boundary(insn, follow_direct) || target == Some(pc) {
                Walk { entries: seq![here], stop: Ok(pc) }
            } else if fuel == 0 {
                Walk { entries: seq![here, panic_entry(pc)], stop: Err(DecodeError::EndlessWalk) }
            } else {
                match successor(insn, pc) {
                    None => Walk {
                        entries: seq![here, panic_entry(pc)],
                        stop: Err(DecodeError::MissingInstruction),
                    },
                    Some(next) => {
                        let rest = walk(image, next, follow_direct, target, (fuel - 1) as nat);
                        Walk { entries: seq![here] + rest.entries, stop: rest.stop }
                    },
                }
            }
        },
    }
}

/// The decoder's state between two packets.
pub struct Machine {
    pub pc: u64,
    pub timestamp: u64,
    pub table: Seq<BpState>,
}

/// How the handling of a packet ends.
pub enum Outcome {
    /// The next packet is due.
    Continue,
    /// The trace is complete.
    Finished,
    Failed(DecodeError),
}

/// What the handling of one packet does: the state after it, the entries
/// it emits, and how it ends.
pub struct Step {
    pub machine: Machine,
    pub entries: Seq<Entry>,
    pub outcome: Outcome,
}

/// A step that fails at `pc` after the given entries.
pub open spec fn failed(machine: Machine, entries: Seq<Entry>, pc: u64, error: DecodeError) -> Step {
    Step { machine, entries: entries.push(panic_entry(pc)), outcome: Outcome::Failed(error) }
}

/// The walk that a step starts with.
pub open spec fn block_walk(
    image: Map<u64, Insn>,
    mode: BrMode,
    machine: Machine,
    target: Option<u64>,
) -> Walk {
    walk(image, machine.pc, !mode.stops_on_direct_jump(), target, image.len())
}

/// A synchronization packet after the first ends the trace: the walk goes
/// on to the packet's address, and the end is reported.
pub open spec fn sync_step(image: Map<u64, Insn>, mode: BrMode, machine: Machine, packet: Packet) -> Step {
    let w = block_walk(image, mode, machine, Some(refund(packet.target_address)));
    match w.stop {
        Ok(pc) => Step {
            machine: Machine { pc, ..machine },
            entries: w.entries.push(Entry::timed(Event::End, packet.timestamp, pc, 0)),
            outcome: Outcome::Finished,
        },
        Err(e) => Step { machine, entries: w.entries, outcome: Outcome::Failed(e) },
    }
}

/// A trap packet: the walk goes on to the address at which the trap was
/// taken, and execution continues at the transmitted target.
pub open spec fn trap_step(image: Map<u64, Insn>, mode: BrMode, machine: Machine, packet: Packet) -> Step {
    let w = block_walk(image, mode, machine, Some(packet.trap_address));
    match w.stop {
        Ok(pc) => {
            let to = xor_target(packet.target_address, pc);
            if packet.trap_type == TrapType::TNone {
                failed(machine, w.entries, pc, DecodeError::MalformedPacket)
            } else if machine.timestamp + packet.timestamp > u64::MAX {
                failed(machine, w.entries, pc, DecodeError::TimestampOverflow)
            } else {
                let timestamp = (machine.timestamp + packet.timestamp) as u64;
                Step {
                    machine: Machine { pc: to, timestamp, ..machine },
                    entries: w.entries.push(
                        Entry::timed(
                            Event::of_trap(packet.trap_type),
                            timestamp,
                            packet.trap_address,
                            to,
                        ),
                    ),
                    outcome: Outcome::Continue,
                }
            }
        },
        Err(e) => Step { machine, entries: w.entries, outcome: Outcome::Failed(e) },
    }
}

/// One predicted branch: the walk to the next branch, then the direction
/// that the predictor gives where `hit` holds, and the other where not.
/// The predictor is trained with `hit`.
pub open spec fn predicted_step(image: Map<u64, Insn>, mode: BrMode, machine: Machine, hit: bool) -> Step {
    let w = block_walk(image, mode, machine, None);
    match w.stop {
        Ok(pc) => {
            let insn = image[pc];
            let taken = table_prediction(machine.table, pc) == hit;
            let to = if taken {
                jump_target(insn, pc)
            } else {
                Some(fall_through(insn, pc))
            };
            if !insn.is_branch {
                failed(machine, w.entries, pc, DecodeError::ControlFlowMismatch)
            } else if to is None {
                failed(machine, w.entries, pc, DecodeError::MissingInstruction)
            } else {
                Step {
                    machine: Machine {
                        pc: to.unwrap(),
                        table: table_after(machine.table, pc, hit),
                        ..machine
                    },
                    entries: w.entries.push(
                        Entry::timed(
                            if taken {
                                Event::TakenBranch
                            } else {
                                Event::NonTakenBranch
                            },
                            machine.timestamp,
                            pc,
                            to.unwrap(),
                        ),
                    ),
                    outcome: Outcome::Continue,
                }
            }
        },
        Err(e) => Step { machine, entries: w.entries, outcome: Outcome::Failed(e) },
    }
}

/// `count` branches in a row, each as predicted. Stops at the first that
/// fails.
pub open spec fn predicted_run(image: Map<u64, Insn>, mode: BrMode, machine: Machine, count: nat) -> Step
    decreases count,
{
    if count == 0 {
        Step { machine, entries: seq![], outcome: Outcome::Continue }
    } else {
        let first = predicted_step(image, mode, machine, true);
        if first.outcome is Continue {
            let rest = predicted_run(image, mode, first.machine, (count - 1) as nat);
            Step { entries: first.entries + rest.entries, ..rest }
        } else {
            first
        }
    }
}

/// A taken-branch packet in a predicting mode: its count tells how many
/// branches in a row went as predicted.
pub open spec fn hit_step(image: Map<u64, Insn>, mode: BrMode, machine: Machine, packet: Packet) -> Step {
    let run = predicted_run(image, mode, machine, packet.timestamp as nat);
    Step {
        entries: seq![Entry::timed(Event::BPHit, packet.timestamp, machine.pc, machine.pc)]
            + run.entries,
        ..run
    }
}

/// A not-taken packet in a predicting mode: the next branch went against
/// its prediction.
pub open spec fn miss_step(image: Map<u64, Insn>, mode: BrMode, machine: Machine, packet: Packet) -> Step {
    if machine.timestamp + packet.timestamp > u64::MAX {
        failed(machine, seq![], machine.pc, DecodeError::TimestampOverflow)
    } else {
        let timestamp = (machine.timestamp + packet.timestamp) as u64;
        let one = predicted_step(image, mode, Machine { timestamp, ..machine }, false);
        Step {
            entries: seq![Entry::timed(Event::BPMiss, timestamp, machine.pc, machine.pc)]
                + one.entries,
            ..one
        }
    }
}

/// Whether a packet of the given kind resolves the instruction.
pub open spec fn resolves(f_header: FHeader, insn: Insn) -> bool {
    match f_header {
        FHeader::FTb | FHeader::FNt => insn.is_branch,
        FHeader::FIj => insn.is_direct_jump,
        FHeader::FUj => insn.is_indirect_jump,
        _ => false,
    }
}

/// Where execution continues after the instruction at `pc` that the packet
/// resolves.
pub open spec fn resolved_target(packet: Packet, insn: Insn, pc: u64) -> Option<u64> {
    match packet.f_header {
        FHeader::FNt => Some(fall_through(insn, pc)),
        FHeader::FUj => Some(xor_target(packet.target_address, pc)),
        _ => jump_target(insn, pc),
    }
}

/// The event that a packet of the given kind reports.
pub open spec fn resolved_event(f_header: FHeader) -> Event {
    match f_header {
        FHeader::FTb => Event::TakenBranch,
        FHeader::FNt => Event::NonTakenBranch,
        FHeader::FIj => Event::InferrableJump,
        _ => Event::UninferableJump,
    }
}

/// A branch or jump packet: the walk to the next boundary, whose
/// instruction the packet resolves.
pub open spec fn plain_step(image: Map<u64, Insn>, mode: BrMode, machine: Machine, packet: Packet) -> Step {
    let w = block_walk(image, mode, machine, None);
    match w.stop {
        Ok(pc) => {
            let insn = image[pc];
            let to = resolved_target(packet, insn, pc);
            if machine.timestamp + packet.timestamp > u64::MAX {
                failed(machine, w.entries, pc, DecodeError::TimestampOverflow)
            } else if packet.f_header == FHeader::FVal || packet.f_header == FHeader::FRes {
                failed(machine, w.entries, pc, DecodeError::MalformedPacket)
            } else if !resolves(packet.f_header, insn) {
                failed(machine, w.entries, pc, DecodeError::ControlFlowMismatch)
            } else if to is None {
                failed(machine, w.entries, pc, DecodeError::MissingInstruction)
            } else {
                let timestamp = (machine.timestamp + packet.timestamp) as u64;
                Step {
                    machine: Machine { pc: to.unwrap(), timestamp, ..machine },
                    entries: w.entries.push(
                        Entry::timed(resolved_event(packet.f_header), timestamp, pc, to.unwrap()),
                    ),
                    outcome: Outcome::Continue,
                }
            }
        },
        Err(e) => Step { machine, entries: w.entries, outcome: Outcome::Failed(e) },
    }
}

/// What the decoder does with a packet after the first.
pub open spec fn packet_step(image: Map<u64, Insn>, mode: BrMode, machine: Machine, packet: Packet) -> Step {
    if packet.f_header == FHeader::FSync {
        sync_step(image, mode, machine, packet)
    } else if packet.f_header == FHeader::FTrap {
        trap_step(image, mode, machine, packet)
    } else if mode.predicts() && packet.f_header == FHeader::FTb {
        hit_step(image, mode, machine, packet)
    } else if mode.predicts() && packet.f_header == FHeader::FNt {
        miss_step(image, mode, machine, packet)
    } else {
        plain_step(image, mode, machine, packet)
    }
}

/// What decoding does: the entries it emits, how many packets it handles
/// after the first, and whether it ends well.
pub struct Run {
    pub entries: Seq<Entry>,
    pub packets: nat,
    pub result: Result<(), DecodeError>,
}

/// The decoding of the packets from `pos` on.
pub open spec fn run_from(
    image: Map<u64, Insn>,
    mode: BrMode,
    machine: Machine,
    stream: Seq<u8>,
    pos: int,
) -> Run
    decreases stream.len() - pos,
{
    match packet_at(stream, pos) {
        Err(PacketError::EndOfStream) => Run { entries: seq![], packets: 0, result: Ok(()) },
        Err(_) => Run { entries: seq![], packets: 0, result: Err(DecodeError::MalformedPacket) },
        Ok((packet, end)) => {
            let step = packet_step(image, mode, machine, packet);
            match step.outcome {
                Outcome::Continue => if pos < end <= stream.len() {
                    let rest = run_from(image, mode, step.machine, stream, end);
                    Run {
                        entries: step.entries + rest.entries,
                        packets: 1 + rest.packets,
                        result: rest.result,
                    }
                } else {
                    Run { entries: step.entries, packets: 1, result: Ok(()) }
                },
                Outcome::Finished => Run { entries: step.entries, packets: 1, result: Ok(()) },
                Outcome::Failed(e) => Run { entries: step.entries, packets: 1, result: Err(e) },
            }
        },
    }
}

/// The error that the decoder reports where the first packet cannot be
/// read.
pub open spec fn opening_error(e: PacketError) -> DecodeError {
    match e {
        PacketError::MalformedPacket => DecodeError::MalformedPacket,
        _ => DecodeError::MissingSync,
    }
}

/// The state in which decoding starts.
pub open spec fn initial_machine(first: Packet, bp_entries: nat) -> Machine {
    Machine {
        pc: refund(first.target_address),
        timestamp: first.timestamp,
        table: Seq::new(bp_entries, |i: int| BpState::WeakNotTaken),
    }
}

/// The decoding of a whole trace against an image.
pub open spec fn decode(image: Map<u64, Insn>, mode: BrMode, bp_entries: nat, stream: Seq<u8>) -> Run {
    match first_packet_at(stream, 0) {
        Err(e) => Run { entries: seq![], packets: 0, result: Err(opening_error(e)) },
        Ok((first, end)) => {
            let machine = initial_machine(first, bp_entries);
            let rest = run_from(image, mode, machine, stream, end);
            Run {
                entries: seq![Entry::timed(Event::Start, first.timestamp, machine.pc, 0)]
                    + rest.entries,
                ..rest
            }
        },
    }
}

/// The decoder's state between two packets.
pub struct DecoderState {
    /// The address at which execution continues.
    pub pc: u64,
    /// The time of the last timed event.
    pub timestamp: u64,
    pub predictor: BpDoubleSaturatingCounter,
}

impl DecoderState {
    /// The state as the specification sees it.
    pub open spec fn machine(&self) -> Machine {
        Machine { pc: self.pc, timestamp: self.timestamp, table: self.predictor@ }
    }
}

/// Restores the low bit that the wire format leaves out of an address.
pub fn refund_addr(addr: u64) -> (pc: u64)
    ensures
        pc == refund(addr),
        pc % 2 == 0,
{
    assert((addr << 1) % 2 == 0) by (bit_vector);
    addr << 1
}

/// Looks up the instruction at `pc`.
fn insn_at<'a>(insn_map: &'a HashMap<u64, Insn>, pc: u64) -> (found: Option<&'a Insn>)
    ensures
        match found {
            Some(insn) => fetch(insn_map@, pc) == Some(*insn),
            None => fetch(insn_map@, pc) is None,
        },
{
    match insn_map.get(&pc) {
        Some(insn) => {
            if insn.len as u64 <= u64::MAX - pc {
                Some(insn)
            } else {
                None
            }
        },
        None => None,
    }
}

/// Where the branch or direct jump at `pc` leads when taken.
fn taken_target(insn: &Insn, pc: u64) -> (to: Option<u64>)
    ensures
        to == jump_target(*insn, pc),
{
    match insn.imm {
        Some(offset) => {
            let sum: i128 = pc as i128 + offset as i128;
            if 0 <= sum && sum <= u64::MAX as i128 {
                Some(sum as u64)
            } else {
                None
            }
        },
        None => None,
    }
}

/// Reports a failure at `pc` to the readers.
fn broadcast_panic(bus: &mut ::bus::Bus<Entry>, pc: u64)
    ensures
        broadcast_log(*final(bus)) == broadcast_log(*old(bus)).push(panic_entry(pc)),
{
    broadcast(bus, Entry::new_timed_event(Event::Panic, 0, pc, 0));
}

/// Walks from `from` to the next boundary or to `target`, and broadcasts an
/// entry for each instruction on the way.
fn walk_block(
    from: u64,
    insn_map: &HashMap<u64, Insn>,
    follow_direct: bool,
    target: Option<u64>,
    bus: &mut ::bus::Bus<Entry>,
) -> (stop: Result<u64, DecodeError>)
    ensures
        stop == walk(insn_map@, from, follow_direct, target, insn_map@.len()).stop,
        broadcast_log(*final(bus)) == broadcast_log(*old(bus)) + walk(
            insn_map@,
            from,
            follow_direct,
            target,
            insn_map@.len(),
        ).entries,
        stop matches Ok(at) ==> fetch(insn_map@, at) is Some,
{
    let ghost whole = walk(insn_map@, from, follow_direct, target, insn_map@.len());
    let ghost mut emitted: Seq<Entry> = Seq::empty();
    let mut pc = from;
    let mut fuel: usize = insn_map.len();
    loop
        invariant
            whole == walk(insn_map@, from, follow_direct, target, insn_map@.len()),
            whole.stop == walk(insn_map@, pc, follow_direct, target, fuel as nat).stop,
            whole.entries == emitted + walk(insn_map@, pc, follow_direct, target, fuel as nat).entries,
            broadcast_log(*bus) == broadcast_log(*old(bus)) + emitted,
        decreases fuel,
    {
        let insn = match insn_at(insn_map, pc) {
            Some(insn) => insn,
            None => {
                broadcast_panic(bus, pc);
                return Err(DecodeError::MissingInstruction);
            },
        };
        broadcast(bus, Entry::new_insn(insn, pc));
        let ghost here = Entry::executed(*insn, pc);
        let at_target = match target {
            Some(t) => t == pc,
            None => false,
        };
        if insn.is_branch || insn.is_indirect_jump || (insn.is_direct_jump && !follow_direct)
            || at_target {
            return Ok(pc);
        }
        let next = if insn.is_direct_jump {
            taken_target(insn, pc)
        } else {
            Some(pc + insn.len as u64)
        };
        if fuel == 0 || next.is_none() {
            broadcast_panic(bus, pc);
            return Err(
                if fuel == 0 {
                    DecodeError::EndlessWalk
                } else {
                    DecodeError::MissingInstruction
                },
            );
        }
        proof {
            emitted = emitted.push(here);
        }
        pc = next.unwrap();
        fuel -= 1;
    }
}

/// Steps through a basic block: walks from `pc` to the next instruction
/// that a packet has to resolve, and broadcasts an entry for each
/// instruction on the way, that one included. Direct jumps are such
/// instructions in `BrTarget` mode and are followed in the other modes.
pub fn step_bb(
    pc: u64,
    insn_map: &HashMap<u64, Insn>,
    bus: &mut ::bus::Bus<Entry>,
    br_mode: &BrMode,
) -> (stop: Result<u64, DecodeError>)
    ensures
        stop == walk(insn_map@, pc, !br_mode.stops_on_direct_jump(), None, insn_map@.len()).stop,
        broadcast_log(*final(bus)) == broadcast_log(*old(bus)) + walk(
            insn_map@,
            pc,
            !br_mode.stops_on_direct_jump(),
            None,
            insn_map@.len(),
        ).entries,
        stop matches Ok(at) ==> fetch(insn_map@, at) is Some,
{
    let stop_on_ij = *br_mode == BrMode::BrTarget;
    walk_block(pc, insn_map, !stop_on_ij, None, bus)
}

/// Steps through a basic block as `step_bb` does, and stops at
/// `target_pc` too.
pub fn step_bb_until(
    pc: u64,
    insn_map: &HashMap<u64, Insn>,
    target_pc: u64,
    bus: &mut ::bus::Bus<Entry>,
    br_mode: &BrMode,
) -> (stop: Result<u64, DecodeError>)
    ensures
        stop == walk(
            insn_map@,
            pc,
            !br_mode.stops_on_direct_jump(),
            Some(target_pc),
            insn_map@.len(),
        ).stop,
        broadcast_log(*final(bus)) == broadcast_log(*old(bus)) + walk(
            insn_map@,
            pc,
            !br_mode.stops_on_direct_jump(),
            Some(target_pc),
            insn_map@.len(),
        ).entries,
        stop matches Ok(at) ==> fetch(insn_map@, at) is Some,
{
    let stop_on_ij = *br_mode == BrMode::BrTarget;
    walk_block(pc, insn_map, !stop_on_ij, Some(target_pc), bus)
}

/// Resolves the next branch against the predictor: steps to it, asks the
/// predictor while training it with `hit`, and continues in the predicted
/// direction where `hit` holds and in the other where not.
fn predicted_branch(
    state: &mut DecoderState,
    insn_map: &HashMap<u64, Insn>,
    br_mode: &BrMode,
    hit: bool,
    bus: &mut ::bus::Bus<Entry>,
) -> (outcome: Outcome)
    requires
        old(state).predictor.wf(),
    ensures
        final(state).predictor.wf(),
        outcome == predicted_step(insn_map@, *br_mode, old(state).machine(), hit).outcome,
        broadcast_log(*final(bus)) == broadcast_log(*old(bus)) + predicted_step(
            insn_map@,
            *br_mode,
            old(state).machine(),
            hit,
        ).entries,
        outcome is Continue ==> final(state).machine() == predicted_step(
            insn_map@,
            *br_mode,
            old(state).machine(),
            hit,
        ).machine,
{
    let pc = match step_bb(state.pc, insn_map, bus, br_mode) {
        Ok(pc) => pc,
        Err(e) => {
            return Outcome::Failed(e);
        },
    };
    let insn_to_resolve = match insn_at(insn_map, pc) {
        Some(insn) => insn,
        None => {
            return Outcome::Failed(DecodeError::MissingInstruction);
        },
    };
    if !insn_to_resolve.is_branch {
        broadcast_panic(bus, pc);
        return Outcome::Failed(DecodeError::ControlFlowMismatch);
    }
    let prediction = state.predictor.predict(pc, hit);
    let taken = prediction == hit;
    let to = if taken {
        taken_target(insn_to_resolve, pc)
    } else {
        Some(pc + insn_to_resolve.len as u64)
    };
    let new_pc = match to {
        Some(new_pc) => new_pc,
        None => {
            broadcast_panic(bus, pc);
            return Outcome::Failed(DecodeError::MissingInstruction);
        },
    };
    let event = if taken {
        Event::TakenBranch
    } else {
        Event::NonTakenBranch
    };
    broadcast(bus, Entry::new_timed_event(event, state.timestamp, pc, new_pc));
    state.pc = new_pc;
    Outcome::Continue
}

/// Handles one packet after the first: walks to the instruction that the
/// packet is about, broadcasts what happened there, and moves on to where
/// execution continues.
pub fn handle_packet(
    state: &mut DecoderState,
    insn_map: &HashMap<u64, Insn>,
    br_mode: &BrMode,
    packet: &Packet,
    bus: &mut ::bus::Bus<Entry>,
) -> (outcome: Outcome)
    requires
        old(state).predictor.wf(),
    ensures
        final(state).predictor.wf(),
        outcome == packet_step(insn_map@, *br_mode, old(state).machine(), *packet).outcome,
        broadcast_log(*final(bus)) == broadcast_log(*old(bus)) + packet_step(
            insn_map@,
            *br_mode,
            old(state).machine(),
            *packet,
        ).entries,
        !(outcome is Failed) ==> final(state).machine() == packet_step(
            insn_map@,
            *br_mode,
            old(state).machine(),
            *packet,
        ).machine,
{
    let ghost before = broadcast_log(*bus);
    let ghost start = state.machine();
    let mode_is_predict = *br_mode == BrMode::BrPredict || *br_mode == BrMode::BrHistory;
    if packet.f_header == FHeader::FSync {
        let target = refund_addr(packet.target_address);
        match step_bb_until(state.pc, insn_map, target, bus, br_mode) {
            Ok(pc) => {
                state.pc = pc;
                let end = Entry::new_timed_event(Event::End, packet.timestamp, pc, 0);
                broadcast(bus, end);
                Outcome::Finished
            },
            Err(e) => Outcome::Failed(e),
        }
    } else if packet.f_header == FHeader::FTrap {
        let pc = match step_bb_until(state.pc, insn_map, packet.trap_address, bus, br_mode) {
            Ok(pc) => pc,
            Err(e) => {
                return Outcome::Failed(e);
            },
        };
        let new_pc = refund_addr(packet.target_address ^ (pc >> 1));
        let failure = if packet.trap_type == TrapType::TNone {
            Some(DecodeError::MalformedPacket)
        } else if packet.timestamp > u64::MAX - state.timestamp {
            Some(DecodeError::TimestampOverflow)
        } else {
            None
        };
        match failure {
            Some(e) => {
                broadcast_panic(bus, pc);
                Outcome::Failed(e)
            },
            None => {
                let timestamp = state.timestamp + packet.timestamp;
                let trap = Entry::new_timed_trap(
                    packet.trap_type,
                    timestamp,
                    packet.trap_address,
                    new_pc,
                );
                broadcast(bus, trap);
                state.pc = new_pc;
                state.timestamp = timestamp;
                Outcome::Continue
            },
        }
    } else if mode_is_predict && packet.f_header == FHeader::FTb {
        let marker = Entry::new_timed_event(Event::BPHit, packet.timestamp, state.pc, state.pc);
        broadcast(bus, marker);
        let ghost whole = predicted_run(insn_map@, *br_mode, start, packet.timestamp as nat);
        let ghost mut emitted: Seq<Entry> = Seq::empty();
        let mut left: u64 = packet.timestamp;
        while left > 0
            invariant
                state.predictor.wf(),
                br_mode.predicts(),
                packet.f_header == FHeader::FTb,
                start == old(state).machine(),
                before == broadcast_log(*old(bus)),
                marker == Entry::timed(Event::BPHit, packet.timestamp, start.pc, start.pc),
                whole == predicted_run(insn_map@, *br_mode, start, packet.timestamp as nat),
                whole.outcome == predicted_run(
                    insn_map@,
                    *br_mode,
                    state.machine(),
                    left as nat,
                ).outcome,
                whole.machine == predicted_run(
                    insn_map@,
                    *br_mode,
                    state.machine(),
                    left as nat,
                ).machine,
                whole.entries == emitted + predicted_run(
                    insn_map@,
                    *br_mode,
                    state.machine(),
                    left as nat,
                ).entries,
                broadcast_log(*bus) == before.push(marker) + emitted,
            decreases left,
        {
            let ghost one = predicted_step(insn_map@, *br_mode, state.machine(), true);
            let outcome = predicted_branch(state, insn_map, br_mode, true, bus);
            match outcome {
                Outcome::Continue => {
                    proof {
                        emitted = emitted + one.entries;
                    }
                    left -= 1;
                },
                _ => {
                    return outcome;
                },
            }
        }
        Outcome::Continue
    } else if mode_is_predict && packet.f_header == FHeader::FNt {
        if packet.timestamp > u64::MAX - state.timestamp {
            broadcast_panic(bus, state.pc);
            return Outcome::Failed(DecodeError::TimestampOverflow);
        }
        state.timestamp = state.timestamp + packet.timestamp;
        let marker = Entry::new_timed_event(Event::BPMiss, state.timestamp, state.pc, state.pc);
        broadcast(bus, marker);
        let outcome = predicted_branch(state, insn_map, br_mode, false, bus);
        outcome
    } else {
        let pc = match step_bb(state.pc, insn_map, bus, br_mode) {
            Ok(pc) => pc,
            Err(e) => {
                return Outcome::Failed(e);
            },
        };
        let insn_to_resolve = match insn_at(insn_map, pc) {
            Some(insn) => insn,
            None => {
                return Outcome::Failed(DecodeError::MissingInstruction);
            },
        };
        let expected = match packet.f_header {
            FHeader::FTb | FHeader::FNt => insn_to_resolve.is_branch,
            FHeader::FIj => insn_to_resolve.is_direct_jump,
            FHeader::FUj => insn_to_resolve.is_indirect_jump,
            _ => false,
        };
        let to = match packet.f_header {
            FHeader::FNt => Some(pc + insn_to_resolve.len as u64),
            FHeader::FUj => Some(refund_addr(packet.target_address ^ (pc >> 1))),
            _ => taken_target(insn_to_resolve, pc),
        };
        let failure = if packet.timestamp > u64::MAX - state.timestamp {
            Some(DecodeError::TimestampOverflow)
        } else if packet.f_header == FHeader::FVal || packet.f_header == FHeader::FRes {
            Some(DecodeError::MalformedPacket)
        } else if !expected {
            Some(DecodeError::ControlFlowMismatch)
        } else if to.is_none() {
            Some(DecodeError::MissingInstruction)
        } else {
            None
        };
        match failure {
            Some(e) => {
                broadcast_panic(bus, pc);
                Outcome::Failed(e)
            },
            None => {
                let timestamp = state.timestamp + packet.timestamp;
                let new_pc = to.unwrap();
                let event = match packet.f_header {
                    FHeader::FTb => Event::TakenBranch,
                    FHeader::FNt => Event::NonTakenBranch,
                    FHeader::FIj => Event::InferrableJump,
                    _ => Event::UninferableJump,
                };
                let resolved = Entry::new_timed_event(event, timestamp, pc, new_pc);
                broadcast(bus, resolved);
                state.pc = new_pc;
                state.timestamp = timestamp;
                Outcome::Continue
            },
        }
    }
}

/// Decodes a trace against the image of the program that it was taken
/// from, and broadcasts the execution that it stands for: the start, every
/// instruction executed, every branch, jump and trap, and the end. Returns
/// how many packets followed the first.
pub fn trace_decoder(
    insn_map: &HashMap<u64, Insn>,
    trace: Vec<u8>,
    br_mode: BrMode,
    bp_entries: u64,
    bus: &mut ::bus::Bus<Entry>,
) -> (result: Result<u64, DecodeError>)
    requires
        0 < bp_entries <= usize::MAX,
    ensures
        broadcast_log(*final(bus)) == broadcast_log(*old(bus)) + decode(
            insn_map@,
            br_mode,
            bp_entries as nat,
            trace@,
        ).entries,
        match result {
            Ok(packets) => decode(insn_map@, br_mode, bp_entries as nat, trace@).result is Ok
                && packets == decode(insn_map@, br_mode, bp_entries as nat, trace@).packets,
            Err(e) => decode(insn_map@, br_mode, bp_entries as nat, trace@).result == Err::<
                (),
                DecodeError,
            >(e),
        },
{
    let ghost before = broadcast_log(*bus);
    let mut stream = TraceStream::new(trace);
    let packet = match read_first_packet(&mut stream) {
        Ok(packet) => packet,
        Err(e) => {
            return Err(
                match e {
                    PacketError::MalformedPacket => DecodeError::MalformedPacket,
                    _ => DecodeError::MissingSync,
                },
            );
        },
    };
    let mut state = DecoderState {
        pc: refund_addr(packet.target_address),
        timestamp: packet.timestamp,
        predictor: BpDoubleSaturatingCounter::new(bp_entries),
    };
    let start = Entry::new_timed_event(Event::Start, packet.timestamp, state.pc, 0);
    broadcast(bus, start);
    let mut packet_count: u64 = 0;
    let ghost whole = run_from(insn_map@, br_mode, state.machine(), trace@, stream.pos as int);
    let ghost mut emitted: Seq<Entry> = Seq::empty();
    loop
        invariant
            state.predictor.wf(),
            stream.bytes@ == trace@,
            packet_count <= stream.pos <= trace@.len(),
            whole.result == run_from(
                insn_map@,
                br_mode,
                state.machine(),
                trace@,
                stream.pos as int,
            ).result,
            whole.packets == packet_count + run_from(
                insn_map@,
                br_mode,
                state.machine(),
                trace@,
                stream.pos as int,
            ).packets,
            whole.entries == emitted + run_from(
                insn_map@,
                br_mode,
                state.machine(),
                trace@,
                stream.pos as int,
            ).entries,
            broadcast_log(*bus) == before.push(start) + emitted,
            before + decode(insn_map@, br_mode, bp_entries as nat, trace@).entries
                == before.push(start) + whole.entries,
            decode(insn_map@, br_mode, bp_entries as nat, trace@).result == whole.result,
            decode(insn_map@, br_mode, bp_entries as nat, trace@).packets == whole.packets,
            before == broadcast_log(*old(bus)),
        decreases trace@.len() - stream.pos,
    {
        let ghost machine = state.machine();
        let packet = match read_packet(&mut stream) {
            Ok(packet) => packet,
            Err(e) => {
                return match e {
                    PacketError::EndOfStream => Ok(packet_count),
                    _ => Err(DecodeError::MalformedPacket),
                };
            },
        };
        packet_count += 1;
        let ghost step = packet_step(insn_map@, br_mode, machine, packet);
        let outcome = handle_packet(&mut state, insn_map, &br_mode, &packet, bus);
        assert(before.push(start) + emitted + step.entries == before.push(start) + (emitted
            + step.entries));
        match outcome {
            Outcome::Continue => {
                proof {
                    emitted = emitted + step.entries;
                }
            },
            Outcome::Finished => {
                return Ok(packet_count);
            },
            Outcome::Failed(e) => {
                return Err(e);
            },
        }
    }
}

} // verus!
