use std::collections::HashMap;

use bus::{Bus, BusReader};
use trace_decoder::backend::event::{Entry, Event};
use trace_decoder::decoder::{
    handle_packet, refund_addr, step_bb, step_bb_until, trace_decoder, DecodeError, DecoderState,
    Outcome,
};
use trace_decoder::frontend::bp_double_saturating_counter::BpDoubleSaturatingCounter;
use trace_decoder::frontend::br_mode::BrMode;
use trace_decoder::frontend::packet::Packet;
use trace_decoder::frontend::f_header::FHeader;
use trace_decoder::frontend::trap_type::TrapType;
use trace_decoder::frontend::varint::encode_varint;
use trace_decoder::insn::Insn;

fn plain(name: &str, len: u8) -> Insn {
    Insn {
        len,
        is_branch: false,
        is_direct_jump: false,
        is_indirect_jump: false,
        imm: None,
        name: name.to_string(),
        text: name.to_string(),
    }
}

fn branch(name: &str, len: u8, imm: i32) -> Insn {
    Insn { is_branch: true, imm: Some(imm), ..plain(name, len) }
}

fn direct(name: &str, len: u8, imm: i32) -> Insn {
    Insn { is_direct_jump: true, imm: Some(imm), ..plain(name, len) }
}

fn indirect(name: &str, len: u8) -> Insn {
    Insn { is_indirect_jump: true, ..plain(name, len) }
}

/// 0x1000 addi; 0x1004 beq +0x10; 0x1008 c.addi; 0x100a jal -0xa; 0x100e ret;
/// 0x1014 addi; 0x1018 ret.
fn image() -> HashMap<u64, Insn> {
    let mut map = HashMap::new();
    map.insert(0x1000, plain("addi", 4));
    map.insert(0x1004, branch("beq", 4, 0x10));
    map.insert(0x1008, plain("c.addi", 2));
    map.insert(0x100a, direct("jal", 4, -0xa));
    map.insert(0x100e, indirect("ret", 2));
    map.insert(0x1014, plain("addi", 4));
    map.insert(0x1018, indirect("ret", 2));
    map
}

fn full_header(f_header: u8, trap_type: u8) -> u8 {
    (trap_type << 5) | (f_header << 2) | 0b10
}

fn sync(target: u64, timestamp: u64) -> Vec<u8> {
    let mut bytes = vec![full_header(0b101, 0)];
    bytes.extend(encode_varint(0));
    bytes.extend(encode_varint(target));
    bytes.extend(encode_varint(timestamp));
    bytes
}

fn full(f_header: u8, timestamp: u64) -> Vec<u8> {
    let mut bytes = vec![full_header(f_header, 0)];
    bytes.extend(encode_varint(timestamp));
    bytes
}

fn uninferable(target: u64, timestamp: u64) -> Vec<u8> {
    let mut bytes = vec![full_header(0b010, 0)];
    bytes.extend(encode_varint(target));
    bytes.extend(encode_varint(timestamp));
    bytes
}

fn trap(trap_type: u8, trap_address: u64, target: u64, timestamp: u64) -> Vec<u8> {
    let mut bytes = vec![full_header(0b100, trap_type)];
    bytes.extend(encode_varint(trap_address));
    bytes.extend(encode_varint(target));
    bytes.extend(encode_varint(timestamp));
    bytes
}

fn drain(rx: &mut BusReader<Entry>) -> Vec<Entry> {
    let mut entries = Vec::new();
    while let Ok(entry) = rx.try_recv() {
        entries.push(entry);
    }
    entries
}

fn run(
    map: &HashMap<u64, Insn>,
    trace: Vec<u8>,
    mode: BrMode,
) -> (Result<u64, DecodeError>, Vec<Entry>) {
    let mut bus: Bus<Entry> = Bus::new(4096);
    let mut rx = bus.add_rx();
    let result = trace_decoder(map, trace, mode, 16, &mut bus);
    (result, drain(&mut rx))
}

fn shape(entries: &[Entry]) -> Vec<(Event, u64, u64, Option<u64>)> {
    entries.iter().map(|e| (e.event, e.arc.0, e.arc.1, e.timestamp)).collect()
}

#[test]
fn refund_doubles() {
    assert_eq!(refund_addr(0x2000), 0x4000);
    assert_eq!(refund_addr(0), 0);
    assert_eq!(refund_addr(0x8000_0000_0000_0001), 2);
}

#[test]
fn two_syncs_start_and_end_at_the_refunded_address() {
    let mut map = HashMap::new();
    map.insert(0x4000, plain("addi", 4));
    let mut trace = sync(0x2000, 0);
    trace.extend(sync(0x2000, 10));
    let (result, entries) = run(&map, trace, BrMode::BrTarget);
    assert_eq!(result, Ok(1));
    assert_eq!(
        shape(&entries),
        vec![
            (Event::Start, 0x4000, 0, Some(0)),
            (Event::Instruction, 0x4000, 0x4004, None),
            (Event::End, 0x4000, 0, Some(10)),
        ]
    );
    assert_eq!(entries[1].insn.as_ref().unwrap().name, "addi");
    assert!(entries[0].insn.is_none());
}

#[test]
fn compressed_taken_branch_goes_to_the_branch_target() {
    let mut trace = sync(0x800, 0);
    trace.push(0b0000_0000);
    let (result, entries) = run(&image(), trace, BrMode::BrTarget);
    assert_eq!(result, Ok(1));
    assert_eq!(
        shape(&entries),
        vec![
            (Event::Start, 0x1000, 0, Some(0)),
            (Event::Instruction, 0x1000, 0x1004, None),
            (Event::Instruction, 0x1004, 0x1008, None),
            (Event::TakenBranch, 0x1004, 0x1014, Some(0)),
        ]
    );
}

#[test]
fn compressed_timestamp_is_the_six_bit_field() {
    let mut trace = sync(0x800, 100);
    trace.push(0x14);
    let (result, entries) = run(&image(), trace, BrMode::BrTarget);
    assert_eq!(result, Ok(1));
    let branches: Vec<&Entry> =
        entries.iter().filter(|e| e.event == Event::TakenBranch).collect();
    assert_eq!(branches.len(), 1);
    assert_eq!(branches[0].timestamp, Some(105));
    assert_eq!(branches[0].arc, (0x1004, 0x1014));
    let mut trace = sync(0x800, 0);
    trace.push(0x14);
    let (_, entries) = run(&image(), trace, BrMode::BrTarget);
    assert_eq!(entries.last().unwrap().event, Event::TakenBranch);
    assert_eq!(entries.last().unwrap().timestamp, Some(5));
}

#[test]
fn not_taken_branch_falls_through() {
    let mut trace = sync(0x800, 0);
    trace.push(0b0000_1001);
    let (result, entries) = run(&image(), trace, BrMode::BrTarget);
    assert_eq!(result, Ok(1));
    assert_eq!(
        shape(&entries).last().unwrap(),
        &(Event::NonTakenBranch, 0x1004, 0x1008, Some(2))
    );
}

#[test]
fn uninferable_jump_target_is_xored_with_the_jump_address() {
    // Start at the ret at 0x1018: the jump resolves there.
    let mut map = HashMap::new();
    map.insert(0x1000, indirect("ret", 2));
    let mut trace = sync(0x800, 0);
    trace.extend(uninferable(0, 3));
    let (result, entries) = run(&map, trace, BrMode::BrTarget);
    assert_eq!(result, Ok(1));
    assert_eq!(
        shape(&entries),
        vec![
            (Event::Start, 0x1000, 0, Some(0)),
            (Event::Instruction, 0x1000, 0x1002, None),
            (Event::UninferableJump, 0x1000, 0x1000, Some(3)),
        ]
    );
    // A field of 0x800 ^ 0xa0c leads from 0x1000 to 0x1418.
    let mut trace = sync(0x800, 0);
    trace.extend(uninferable(0x800 ^ 0xa0c, 3));
    let (_, entries) = run(&map, trace, BrMode::BrTarget);
    assert_eq!(entries.last().unwrap().arc, (0x1000, 0x1418));
}

#[test]
fn inferable_jump_follows_the_immediate() {
    let mut trace = sync(0x804, 0);
    trace.push(0b0000_0111);
    let (result, entries) = run(&image(), trace, BrMode::BrTarget);
    assert_eq!(result, Ok(1));
    assert_eq!(
        shape(&entries),
        vec![
            (Event::Start, 0x1008, 0, Some(0)),
            (Event::Instruction, 0x1008, 0x100a, None),
            (Event::Instruction, 0x100a, 0x100e, None),
            (Event::InferrableJump, 0x100a, 0x1000, Some(1)),
        ]
    );
}

#[test]
fn direct_jumps_are_followed_outside_target_mode() {
    // From 0x1008 the walk passes the jal and reaches the beq at 0x1004.
    let mut trace = sync(0x804, 0);
    trace.extend(uninferable(0, 1));
    let (result, entries) = run(&image(), trace, BrMode::BrReserved);
    assert_eq!(result, Err(DecodeError::ControlFlowMismatch));
    assert_eq!(
        shape(&entries),
        vec![
            (Event::Start, 0x1008, 0, Some(0)),
            (Event::Instruction, 0x1008, 0x100a, None),
            (Event::Instruction, 0x100a, 0x100e, None),
            (Event::Instruction, 0x1000, 0x1004, None),
            (Event::Instruction, 0x1004, 0x1008, None),
            (Event::Panic, 0x1004, 0, Some(0)),
        ]
    );
}

#[test]
fn trap_walks_to_the_trap_address() {
    let mut trace = sync(0x800, 5);
    // Taken at 0x1000, continuing at 0x1014.
    trace.extend(trap(0b001, 0x1000, 0x800 ^ 0x80a, 7));
    trace.extend(trap(0b100, 0x1014, 0x80a ^ 0x800, 1));
    let (result, entries) = run(&image(), trace, BrMode::BrTarget);
    assert_eq!(result, Ok(2));
    assert_eq!(
        shape(&entries),
        vec![
            (Event::Start, 0x1000, 0, Some(5)),
            (Event::Instruction, 0x1000, 0x1004, None),
            (Event::TrapException, 0x1000, 0x1014, Some(12)),
            (Event::Instruction, 0x1014, 0x1018, None),
            (Event::TrapReturn, 0x1014, 0x1000, Some(13)),
        ]
    );
}

#[test]
fn trap_without_a_kind_fails() {
    let mut trace = sync(0x800, 5);
    trace.extend(trap(0b000, 0x1000, 0, 7));
    let (result, entries) = run(&image(), trace, BrMode::BrTarget);
    assert_eq!(result, Err(DecodeError::MalformedPacket));
    assert_eq!(entries.last().unwrap().event, Event::Panic);
}

#[test]
fn wrong_instruction_class_fails_with_a_panic_event() {
    let mut trace = sync(0x800, 0);
    trace.push(0b0000_0011);
    let (result, entries) = run(&image(), trace, BrMode::BrTarget);
    assert_eq!(result, Err(DecodeError::ControlFlowMismatch));
    assert_eq!(shape(&entries).last().unwrap(), &(Event::Panic, 0x1004, 0, Some(0)));
}

#[test]
fn missing_instruction_fails_with_a_panic_event() {
    let mut trace = sync(0x900, 0);
    trace.push(0);
    let (result, entries) = run(&image(), trace, BrMode::BrTarget);
    assert_eq!(result, Err(DecodeError::MissingInstruction));
    assert_eq!(
        shape(&entries),
        vec![(Event::Start, 0x1200, 0, Some(0)), (Event::Panic, 0x1200, 0, Some(0))]
    );
}

#[test]
fn endless_walk_is_reported() {
    let mut map = HashMap::new();
    map.insert(0x1000, plain("addi", 4));
    map.insert(0x1004, direct("j", 4, -4));
    let mut trace = sync(0x800, 0);
    trace.push(0b0000_0011);
    let (result, entries) = run(&map, trace, BrMode::BrPredict);
    assert_eq!(result, Err(DecodeError::EndlessWalk));
    assert_eq!(entries.last().unwrap().event, Event::Panic);
    // The same image in target mode stops at the jump.
    let mut trace = sync(0x800, 0);
    trace.push(0b0000_0011);
    let (result, _) = run(&map, trace, BrMode::BrTarget);
    assert_eq!(result, Ok(1));
}

#[test]
fn timestamp_overflow_is_reported() {
    let mut trace = sync(0x800, u64::MAX);
    trace.extend(full(0b000, 1));
    let (result, entries) = run(&image(), trace, BrMode::BrTarget);
    assert_eq!(result, Err(DecodeError::TimestampOverflow));
    assert_eq!(entries.last().unwrap().event, Event::Panic);
}

#[test]
fn trace_without_sync_is_refused() {
    let (result, entries) = run(&image(), vec![0x14], BrMode::BrTarget);
    assert_eq!(result, Err(DecodeError::MissingSync));
    assert!(entries.is_empty());
    let (result, _) = run(&image(), Vec::new(), BrMode::BrTarget);
    assert_eq!(result, Err(DecodeError::MissingSync));
    let (result, _) = run(&image(), vec![full_header(0b101, 0), 0x80], BrMode::BrTarget);
    assert_eq!(result, Err(DecodeError::MalformedPacket));
}

#[test]
fn truncated_later_packet_is_malformed() {
    let mut trace = sync(0x800, 0);
    trace.push(full_header(0b010, 0));
    trace.push(0x01);
    let (result, entries) = run(&image(), trace, BrMode::BrTarget);
    assert_eq!(result, Err(DecodeError::MalformedPacket));
    assert_eq!(entries.len(), 1);
}

#[test]
fn one_event_per_packet_outside_predict_modes() {
    let mut trace = sync(0x800, 0);
    trace.push(0b0000_0101); // not taken at 0x1004
    trace.push(0b0000_0111); // jal at 0x100a back to 0x1000
    trace.push(0b0000_0000); // taken at 0x1004 to 0x1014
    trace.extend(uninferable(0x80c ^ 0x800, 2)); // ret at 0x1018 to 0x1000
    trace.extend(sync(0x800, 9));
    let (result, entries) = run(&image(), trace, BrMode::BrTarget);
    assert_eq!(result, Ok(5));
    let instructions = entries.iter().filter(|e| e.event == Event::Instruction).count();
    assert_eq!(entries.len(), 1 + 5 + instructions);
    assert_eq!(entries.iter().filter(|e| e.event == Event::Start).count(), 1);
    assert_eq!(entries.iter().filter(|e| e.event == Event::End).count(), 1);
    assert_eq!(entries[0].event, Event::Start);
    assert_eq!(entries.last().unwrap().event, Event::End);
    for entry in &entries {
        assert_eq!(entry.arc.0 % 2, 0);
        assert_eq!(entry.arc.1 % 2, 0);
    }
}

#[test]
fn predicted_hits_emit_one_branch_each() {
    // 0x2000 beq +8; 0x2004 addi; 0x2008 bne -8: a loop of two branches.
    let mut map = HashMap::new();
    map.insert(0x2000, branch("beq", 4, 8));
    map.insert(0x2004, plain("addi", 4));
    map.insert(0x2008, branch("bne", 4, -8));
    let mut trace = sync(0x1000, 0);
    trace.extend(full(0b000, 3));
    let (result, entries) = run(&map, trace, BrMode::BrPredict);
    // Every counter starts not taken: each branch falls through, and the
    // third walk leaves the image.
    assert_eq!(result, Err(DecodeError::MissingInstruction));
    assert_eq!(
        shape(&entries),
        vec![
            (Event::Start, 0x2000, 0, Some(0)),
            (Event::BPHit, 0x2000, 0x2000, Some(3)),
            (Event::Instruction, 0x2000, 0x2004, None),
            (Event::NonTakenBranch, 0x2000, 0x2004, Some(0)),
            (Event::Instruction, 0x2004, 0x2008, None),
            (Event::Instruction, 0x2008, 0x200c, None),
            (Event::NonTakenBranch, 0x2008, 0x200c, Some(0)),
            (Event::Panic, 0x200c, 0, Some(0)),
        ]
    );
}

#[test]
fn predicted_hit_count_of_branches() {
    let mut map = HashMap::new();
    map.insert(0x2000, branch("beq", 4, 8));
    map.insert(0x2004, plain("addi", 4));
    map.insert(0x2008, branch("bne", 4, -8));
    map.insert(0x200c, branch("bne", 4, -12));
    let mut trace = sync(0x1000, 0);
    trace.extend(full(0b001, 4)); // miss at 0x2000: taken, to 0x2008
    trace.extend(full(0b000, 2)); // two hits: 0x2008 and 0x200c fall through
    let (result, entries) = run(&map, trace, BrMode::BrPredict);
    assert_eq!(result, Ok(2));
    let hit = entries.iter().position(|e| e.event == Event::BPHit).unwrap();
    let after: Vec<Event> = entries[hit + 1..].iter().map(|e| e.event).collect();
    assert_eq!(
        after,
        vec![
            Event::Instruction,
            Event::NonTakenBranch,
            Event::Instruction,
            Event::NonTakenBranch,
        ]
    );
    assert_eq!(
        shape(&entries[..hit]),
        vec![
            (Event::Start, 0x2000, 0, Some(0)),
            (Event::BPMiss, 0x2000, 0x2000, Some(4)),
            (Event::Instruction, 0x2000, 0x2004, None),
            (Event::TakenBranch, 0x2000, 0x2008, Some(4)),
        ]
    );
    assert_eq!(entries[hit].timestamp, Some(2));
}

#[test]
fn miss_trains_the_predictor() {
    // A branch to itself: the first miss makes it weakly taken.
    let mut map = HashMap::new();
    map.insert(0x2000, branch("beq", 4, 0));
    let mut trace = sync(0x1000, 0);
    trace.extend(full(0b001, 1));
    trace.extend(full(0b000, 2));
    let (result, entries) = run(&map, trace, BrMode::BrHistory);
    assert_eq!(result, Ok(2));
    let events: Vec<Event> = entries.iter().map(|e| e.event).collect();
    assert_eq!(
        events,
        vec![
            Event::Start,
            Event::BPMiss,
            Event::Instruction,
            Event::TakenBranch,
            Event::BPHit,
            Event::Instruction,
            Event::TakenBranch,
            Event::Instruction,
            Event::TakenBranch,
        ]
    );
}

#[test]
fn step_bb_stops_at_the_first_boundary() {
    let map = image();
    let mut bus: Bus<Entry> = Bus::new(64);
    let mut rx = bus.add_rx();
    assert_eq!(step_bb(0x1000, &map, &mut bus, &BrMode::BrTarget), Ok(0x1004));
    assert_eq!(drain(&mut rx).len(), 2);
    assert_eq!(step_bb(0x1008, &map, &mut bus, &BrMode::BrTarget), Ok(0x100a));
    assert_eq!(drain(&mut rx).len(), 2);
    assert_eq!(step_bb(0x1008, &map, &mut bus, &BrMode::BrPredict), Ok(0x1004));
    assert_eq!(drain(&mut rx).len(), 4);
    assert_eq!(step_bb(0x1014, &map, &mut bus, &BrMode::BrTarget), Ok(0x1018));
    assert_eq!(
        step_bb(0x3000, &map, &mut bus, &BrMode::BrTarget),
        Err(DecodeError::MissingInstruction)
    );
}

#[test]
fn step_bb_until_stops_at_the_target() {
    let map = image();
    let mut bus: Bus<Entry> = Bus::new(64);
    let mut rx = bus.add_rx();
    assert_eq!(step_bb_until(0x1000, &map, 0x1000, &mut bus, &BrMode::BrTarget), Ok(0x1000));
    assert_eq!(shape(&drain(&mut rx)), vec![(Event::Instruction, 0x1000, 0x1004, None)]);
    assert_eq!(step_bb_until(0x1014, &map, 0x1018, &mut bus, &BrMode::BrTarget), Ok(0x1018));
    assert_eq!(drain(&mut rx).len(), 2);
    // A boundary before the target stops the walk.
    assert_eq!(step_bb_until(0x1000, &map, 0x1008, &mut bus, &BrMode::BrTarget), Ok(0x1004));
}

#[test]
fn instruction_beyond_the_address_space_is_missing() {
    let mut map = HashMap::new();
    map.insert(u64::MAX - 1, plain("addi", 4));
    let mut bus: Bus<Entry> = Bus::new(64);
    let mut rx = bus.add_rx();
    assert_eq!(
        step_bb(u64::MAX - 1, &map, &mut bus, &BrMode::BrTarget),
        Err(DecodeError::MissingInstruction)
    );
    assert_eq!(shape(&drain(&mut rx)), vec![(Event::Panic, u64::MAX - 1, 0, Some(0))]);
}

#[test]
fn branch_target_outside_the_address_space_is_missing() {
    let mut map = HashMap::new();
    map.insert(0x10, branch("beq", 4, -0x20));
    let mut trace = sync(0x8, 0);
    trace.push(0);
    let (result, _) = run(&map, trace, BrMode::BrTarget);
    assert_eq!(result, Err(DecodeError::MissingInstruction));
}

#[test]
fn handle_packet_moves_the_state() {
    let map = image();
    let mut bus: Bus<Entry> = Bus::new(64);
    let mut rx = bus.add_rx();
    let mut state = DecoderState {
        pc: 0x1000,
        timestamp: 40,
        predictor: BpDoubleSaturatingCounter::new(4),
    };
    let packet = Packet { f_header: FHeader::FTb, timestamp: 2, ..Packet::new() };
    let outcome = handle_packet(&mut state, &map, &BrMode::BrTarget, &packet, &mut bus);
    assert!(matches!(outcome, Outcome::Continue));
    assert_eq!((state.pc, state.timestamp), (0x1014, 42));
    let packet = Packet {
        f_header: FHeader::FTrap,
        trap_type: TrapType::TInterrupt,
        trap_address: 0x1014,
        target_address: 0x80a ^ 0x800,
        timestamp: 1,
        ..Packet::new()
    };
    let outcome = handle_packet(&mut state, &map, &BrMode::BrTarget, &packet, &mut bus);
    assert!(matches!(outcome, Outcome::Continue));
    assert_eq!((state.pc, state.timestamp), (0x1000, 43));
    let packet = Packet { f_header: FHeader::FSync, target_address: 0x802, ..Packet::new() };
    let outcome = handle_packet(&mut state, &map, &BrMode::BrTarget, &packet, &mut bus);
    assert!(matches!(outcome, Outcome::Finished));
    let events: Vec<Event> = drain(&mut rx).iter().map(|e| e.event).collect();
    assert_eq!(events.last(), Some(&Event::End));
    let packet = Packet::new();
    let outcome = handle_packet(&mut state, &map, &BrMode::BrTarget, &packet, &mut bus);
    assert!(matches!(outcome, Outcome::Failed(DecodeError::MalformedPacket)));
}

#[test]
fn every_reader_sees_the_same_entries() {
    let mut bus: Bus<Entry> = Bus::new(4096);
    let mut first = bus.add_rx();
    let mut second = bus.add_rx();
    let mut trace = sync(0x800, 0);
    trace.push(0b0000_0101);
    trace.push(0b0000_0111);
    trace.extend(sync(0x800, 9));
    assert_eq!(trace_decoder(&image(), trace, BrMode::BrTarget, 16, &mut bus), Ok(3));
    let seen_first = shape(&drain(&mut first));
    let seen_second = shape(&drain(&mut second));
    assert!(seen_first.len() > 4);
    assert_eq!(seen_first, seen_second);
}
