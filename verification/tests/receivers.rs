use std::collections::HashMap;

use trace_decoder::backend::abstract_receiver::{interval, timestamp_of, ReceiveError};
use trace_decoder::backend::atomic_receiver::AtomicReceiver;
use trace_decoder::backend::event::{Entry, Event};
use trace_decoder::backend::foc_receiver::FOCReceiver;
use trace_decoder::backend::perfetto_receiver::PerfettoReceiver;
use trace_decoder::backend::speedscope_receiver::SpeedscopeReceiver;
use trace_decoder::backend::stack_txt_receiver::StackTxtReceiver;
use trace_decoder::backend::stack_unwinder::{LocatedSymbol, SourceLine, StackUnwinder};
use trace_decoder::backend::stats_receiver::StatsReceiver;
use trace_decoder::backend::txt_receiver::{TxtLine, TxtReceiver};
use trace_decoder::backend::vbb_receiver::{VBBReceiver, BB};
use trace_decoder::backend::vpp_receiver::{same_path, Path, VPPReceiver};
use trace_decoder::frontend::br_mode::BrMode;
use trace_decoder::insn::Insn;

fn insn(name: &str, indirect: bool) -> Insn {
    Insn {
        len: 4,
        is_branch: false,
        is_direct_jump: false,
        is_indirect_jump: indirect,
        imm: None,
        name: name.to_string(),
        text: format!("{} operands", name),
    }
}

fn symbol(name: &str, address: u64, line: u32) -> LocatedSymbol {
    LocatedSymbol {
        name: name.to_string(),
        address,
        location: Some(SourceLine { file: "main.c".to_string(), line }),
    }
}

/// a at 0x1000, b at 0x2000, c at 0x3000; `ret` at 0x1ffc, 0x2ffc and
/// 0x3ffc; `jalr` at 0x1004.
fn unwinder() -> StackUnwinder {
    let mut insn_map = HashMap::new();
    insn_map.insert(0x1ffc, insn("ret", true));
    insn_map.insert(0x2ffc, insn("ret", true));
    insn_map.insert(0x3ffc, insn("ret", true));
    insn_map.insert(0x1004, insn("jalr", true));
    StackUnwinder::new(
        insn_map,
        vec![symbol("a", 0x1000, 1), symbol("b", 0x2000, 2), symbol("c", 0x3000, 3)],
    )
}

fn timed(event: Event, ts: u64, from: u64, to: u64) -> Entry {
    Entry::new_timed_event(event, ts, from, to)
}

fn untimed(event: Event, from: u64, to: u64) -> Entry {
    Entry { event, arc: (from, to), insn: None, timestamp: None }
}

fn executed(name: &str, address: u64) -> Entry {
    Entry::new_insn(&insn(name, false), address)
}

#[test]
fn timestamps_and_intervals() {
    assert_eq!(timestamp_of(&timed(Event::Start, 4, 0, 0)), Ok(4));
    assert_eq!(timestamp_of(&executed("addi", 0)), Err(ReceiveError::MissingTimestamp));
    assert_eq!(interval(3, 10), Ok(7));
    assert_eq!(interval(10, 10), Ok(0));
    assert_eq!(interval(11, 10), Err(ReceiveError::TimeRunsBackwards));
}

#[test]
fn stats_count_packets_and_instructions() {
    let mut stats = StatsReceiver::new(BrMode::BrTarget, 100);
    for entry in [
        timed(Event::Start, 0, 0x1000, 0),
        executed("addi", 0x1000),
        executed("beq", 0x1004),
        timed(Event::TakenBranch, 1, 0x1004, 0x1010),
        timed(Event::BPHit, 5, 0, 0),
        timed(Event::BPMiss, 5, 0, 0),
        executed("ret", 0x1010),
        timed(Event::UninferableJump, 2, 0x1010, 0x2000),
        timed(Event::End, 3, 0x2000, 0),
    ] {
        assert_eq!(stats._receive_entry(entry), Ok(()));
    }
    let report = stats._flush();
    assert_eq!(report.insn_count, 3);
    assert_eq!(report.packet_count, 4);
    assert_eq!((report.hit_count, report.miss_count), (0, 0));
    assert!(!report.predicted);
    assert_eq!(report.file_size, 100);
}

#[test]
fn stats_in_predict_mode_count_markers() {
    let mut stats = StatsReceiver::new(BrMode::BrPredict, 7);
    for entry in [
        timed(Event::Start, 0, 0x1000, 0),
        timed(Event::BPHit, 5, 0, 0),
        timed(Event::TakenBranch, 1, 0x1004, 0x1010),
        timed(Event::NonTakenBranch, 1, 0x1004, 0x1010),
        timed(Event::BPMiss, 9, 0, 0),
        timed(Event::TakenBranch, 1, 0x1004, 0x1010),
        timed(Event::BPHit, 2, 0, 0),
    ] {
        assert_eq!(stats._receive_entry(entry), Ok(()));
    }
    let report = stats._flush();
    assert!(report.predicted);
    assert_eq!(report.packet_count, 4);
    assert_eq!(report.hit_count, 7);
    assert_eq!(report.miss_count, 1);
    assert_eq!(report.insn_count, 0);
    assert_eq!(
        stats._receive_entry(untimed(Event::BPHit, 0, 0)),
        Err(ReceiveError::MissingTimestamp)
    );
    assert_eq!(
        stats._receive_entry(timed(Event::BPHit, u64::MAX, 0, 0)),
        Err(ReceiveError::CountOverflow)
    );
    assert_eq!(stats._flush().hit_count, 7);
    assert_eq!(stats._flush().packet_count, 4);
}

#[test]
fn text_lines() {
    let txt = TxtReceiver::new();
    match txt._receive_entry(executed("addi", 0x1000)) {
        Some(TxtLine::Executed { address, text }) => {
            assert_eq!(address, 0x1000);
            assert_eq!(text.as_deref(), Some("addi operands"));
        }
        other => panic!("{:?}", other),
    }
    match txt._receive_entry(untimed(Event::Instruction, 0x1000, 0)) {
        Some(TxtLine::Executed { address, text }) => {
            assert_eq!(address, 0x1000);
            assert!(text.is_none());
        }
        other => panic!("{:?}", other),
    }
    match txt._receive_entry(timed(Event::BPHit, 12, 0, 0)) {
        Some(TxtLine::HitCount { hits }) => assert_eq!(hits, 12),
        other => panic!("{:?}", other),
    }
    match txt._receive_entry(timed(Event::TrapReturn, 40, 0, 0)) {
        Some(TxtLine::Timed { timestamp, event }) => {
            assert_eq!(timestamp, 40);
            assert_eq!(event, "TrapReturn");
        }
        other => panic!("{:?}", other),
    }
    assert!(txt._receive_entry(untimed(Event::TakenBranch, 0, 0)).is_none());
    assert!(txt._receive_entry(untimed(Event::BPHit, 0, 0)).is_none());
}

#[test]
fn basic_blocks_are_timed() {
    let mut vbb = VBBReceiver::new();
    for entry in [
        timed(Event::Start, 10, 0x1000, 0),
        executed("addi", 0x1000),
        timed(Event::TakenBranch, 14, 0x1008, 0x1000),
        timed(Event::TakenBranch, 20, 0x1008, 0x1000),
        timed(Event::NonTakenBranch, 21, 0x1008, 0x100c),
        timed(Event::InferrableJump, 30, 0x1010, 0x2000),
        timed(Event::TrapException, 31, 0x2000, 0x8000),
        timed(Event::UninferableJump, 35, 0x2004, 0x1000),
        timed(Event::End, 99, 0x1000, 0),
    ] {
        assert_eq!(vbb._receive_entry(entry), Ok(()));
    }
    let records: Vec<(BB, Vec<u64>)> =
        vbb._flush().iter().map(|r| (r.bb, r.intervals.clone())).collect();
    assert_eq!(
        records,
        vec![
            (BB { start_addr: 0x1000, end_addr: 0x1008 }, vec![4, 6, 1]),
            (BB { start_addr: 0x100c, end_addr: 0x1010 }, vec![9]),
            (BB { start_addr: 0x2000, end_addr: 0x2004 }, vec![5]),
        ]
    );
    assert_eq!((vbb.prev_addr, vbb.prev_timestamp), (0x1000, 35));
    assert_eq!(
        vbb._receive_entry(timed(Event::TakenBranch, 34, 0x1008, 0x1000)),
        Err(ReceiveError::TimeRunsBackwards)
    );
    assert_eq!(
        vbb._receive_entry(untimed(Event::TakenBranch, 0x1008, 0x1000)),
        Err(ReceiveError::MissingTimestamp)
    );
    assert_eq!(vbb._receive_entry(untimed(Event::Start, 0, 0)), Err(ReceiveError::MissingTimestamp));
    assert_eq!(vbb._flush().len(), 3);
    assert_eq!((vbb.prev_addr, vbb.prev_timestamp), (0x1000, 35));
}

#[test]
fn profile_opens_and_closes_frames() {
    let mut profile = SpeedscopeReceiver::new(unwinder());
    let frames: Vec<(String, u32, String)> =
        profile.frames().into_iter().map(|s| (s.name, s.line, s.file)).collect();
    assert_eq!(
        frames,
        vec![
            ("a".to_string(), 1, "main.c".to_string()),
            ("b".to_string(), 2, "main.c".to_string()),
            ("c".to_string(), 3, "main.c".to_string()),
        ]
    );
    for entry in [
        timed(Event::Start, 5, 0x1000, 0),
        timed(Event::InferrableJump, 6, 0x100, 0x1000),
        timed(Event::InferrableJump, 7, 0x1010, 0x2000),
        timed(Event::InferrableJump, 8, 0x2010, 0x2020),
        timed(Event::TrapInterrupt, 9, 0x2020, 0x3000),
        timed(Event::TrapReturn, 10, 0x1004, 0x2020),
        timed(Event::UninferableJump, 11, 0x2ffc, 0x1014),
        executed("addi", 0x1014),
        timed(Event::UninferableJump, 12, 0x1ffc, 0x3000),
    ] {
        assert_eq!(profile._receive_entry(entry), Ok(()));
    }
    let events: Vec<(String, u32, u64)> =
        profile.profile_entries.iter().map(|e| (e.kind.clone(), e.frame, e.at)).collect();
    let o = "O".to_string();
    let c = "C".to_string();
    assert_eq!(
        events,
        vec![
            (o.clone(), 0, 6),
            (o.clone(), 1, 7),
            (o.clone(), 2, 9),
            (c.clone(), 2, 10),
            (c.clone(), 1, 11),
            (c.clone(), 0, 12),
            (o.clone(), 2, 12),
        ]
    );
    assert_eq!(profile.start, 5);
    assert_eq!(profile.end, 0);
    assert_eq!(profile._flush(), Ok(()));
    assert_eq!(profile.end, 12);
    let last = profile.profile_entries.last().unwrap();
    assert_eq!((last.kind.as_str(), last.frame, last.at), ("C", 2, 12));
    assert_eq!(profile.profile_entries.len(), 8);
    assert!(profile.stack_unwinder.frame_stack.is_empty());
}

#[test]
fn profile_bounds_and_errors() {
    let mut profile = SpeedscopeReceiver::new(unwinder());
    assert_eq!(profile._flush(), Err(ReceiveError::NothingRecorded));
    assert_eq!(profile._receive_entry(timed(Event::End, 50, 0, 0)), Ok(()));
    assert_eq!(profile._receive_entry(timed(Event::InferrableJump, 6, 0x100, 0x2000)), Ok(()));
    assert_eq!(
        profile._receive_entry(untimed(Event::InferrableJump, 0x100, 0x1000)),
        Err(ReceiveError::MissingTimestamp)
    );
    assert_eq!(profile.stack_unwinder.frame_stack, vec![1, 0]);
    assert_eq!(profile._receive_entry(untimed(Event::InferrableJump, 0x100, 0x1234)), Ok(()));
    assert_eq!(
        profile._receive_entry(timed(Event::UninferableJump, 7, 0x5000, 0x1000)),
        Err(ReceiveError::MissingInstruction)
    );
    assert_eq!(profile._receive_entry(untimed(Event::Start, 0, 0)), Err(ReceiveError::MissingTimestamp));
    assert_eq!(profile.profile_entries.len(), 1);
    assert_eq!(profile._flush(), Ok(()));
    let events: Vec<(String, u32, u64)> =
        profile.profile_entries.iter().map(|e| (e.kind.clone(), e.frame, e.at)).collect();
    assert_eq!(
        events,
        vec![
            ("O".to_string(), 1, 6),
            ("C".to_string(), 0, 50),
            ("C".to_string(), 1, 50),
        ]
    );
}

#[test]
fn timeline_follows_the_stack() {
    let mut timeline = PerfettoReceiver::new(unwinder());
    for entry in [
        timed(Event::Start, 5, 0x1000, 0),
        timed(Event::InferrableJump, 6, 0x100, 0x1000),
        timed(Event::InferrableJump, 7, 0x1010, 0x2000),
        untimed(Event::TrapInterrupt, 0x2020, 0x3000),
        timed(Event::UninferableJump, 11, 0x3ffc, 0x1014),
        timed(Event::UninferableJump, 12, 0x1ffc, 0x3000),
        timed(Event::TakenBranch, 13, 0x3000, 0x3008),
        timed(Event::End, 20, 0x3008, 0),
    ] {
        assert_eq!(timeline._receive_entry(entry), Ok(()));
    }
    let events: Vec<(String, bool, u64, u64)> =
        timeline.events.iter().map(|e| (e.name.clone(), e.begins, e.ts, e.addr)).collect();
    assert_eq!(
        events,
        vec![
            ("a".to_string(), true, 6, 0x1000),
            ("b".to_string(), true, 7, 0x2000),
            ("c".to_string(), true, 0, 0x3000),
            ("c".to_string(), false, 11, 0x3000),
            ("b".to_string(), false, 11, 0x2000),
            ("a".to_string(), false, 12, 0x1000),
            ("c".to_string(), true, 12, 0x3000),
        ]
    );
    assert_eq!(timeline.last_frames, vec![0x3000]);
    assert_eq!((timeline.start_ts, timeline.end_ts), (5, 20));
    timeline._flush();
    assert_eq!(timeline.events.len(), 7);
    assert_eq!(timeline.end_ts, 20);
    assert_eq!(
        timeline._receive_entry(timed(Event::TrapReturn, 7, 0x5000, 0x1000)),
        Err(ReceiveError::MissingInstruction)
    );
}

#[test]
fn timeline_diff_ends_before_it_begins() {
    let mut timeline = PerfettoReceiver::new(unwinder());
    timeline.unwinder.step_ij(timed(Event::InferrableJump, 0, 0, 0x1000));
    timeline.unwinder.step_ij(timed(Event::InferrableJump, 0, 0, 0x2000));
    timeline.diff_stack(3);
    timeline.unwinder.frame_stack.pop();
    timeline.unwinder.step_ij(timed(Event::InferrableJump, 0, 0, 0x3000));
    timeline.unwinder.step_ij(timed(Event::InferrableJump, 0, 0, 0x2000));
    timeline.diff_stack(9);
    let events: Vec<(String, bool, u64)> =
        timeline.events.iter().map(|e| (e.name.clone(), e.begins, e.ts)).collect();
    assert_eq!(
        events,
        vec![
            ("a".to_string(), true, 3),
            ("b".to_string(), true, 3),
            ("b".to_string(), false, 9),
            ("c".to_string(), true, 9),
            ("b".to_string(), true, 9),
        ]
    );
    let mut fresh = PerfettoReceiver::new(unwinder());
    fresh.start_ts = 4;
    fresh._flush();
    assert_eq!(fresh.end_ts, 4);
    assert!(fresh.events.is_empty());
}

#[test]
fn stack_dump_reports_jumps() {
    let mut dump = StackTxtReceiver::new(unwinder());
    assert!(dump._receive_entry(executed("addi", 0x1000)).unwrap().is_none());
    assert!(dump._receive_entry(timed(Event::TakenBranch, 1, 0, 0)).unwrap().is_none());
    let report = dump._receive_entry(timed(Event::InferrableJump, 6, 0x100, 0x1000)).unwrap().unwrap();
    assert_eq!(report.timestamp, 6);
    assert_eq!(report.event, Event::InferrableJump);
    assert_eq!(report.target, 0x1000);
    let (start, info) = report.symbol.unwrap();
    assert_eq!((start, info.name.as_str()), (0x1000, "a"));
    let stack: Vec<(u64, String)> = report.stack.into_iter().map(|(a, s)| (a, s.name)).collect();
    assert_eq!(stack, vec![(0x1000, "a".to_string())]);
    let report = dump._receive_entry(untimed(Event::TrapException, 0x1010, 0x2abc)).unwrap().unwrap();
    assert_eq!(report.timestamp, 0);
    let (start, info) = report.symbol.unwrap();
    assert_eq!((start, info.name.as_str()), (0x2000, "b"));
    assert_eq!(report.stack.len(), 1);
    let report = dump._receive_entry(timed(Event::UninferableJump, 9, 0x1004, 0x3000)).unwrap().unwrap();
    let stack: Vec<(u64, String)> = report.stack.into_iter().map(|(a, s)| (a, s.name)).collect();
    assert_eq!(stack, vec![(0x1000, "a".to_string()), (0x3000, "c".to_string())]);
    let report = dump._receive_entry(timed(Event::UninferableJump, 9, 0x3ffc, 0x800)).unwrap().unwrap();
    assert!(report.symbol.is_none());
    assert!(report.stack.is_empty());
    assert_eq!(report.event, Event::UninferableJump);
    assert_eq!(
        dump._receive_entry(timed(Event::UninferableJump, 9, 0x7777, 0x800)).err(),
        Some(ReceiveError::MissingInstruction)
    );
    assert_eq!(dump.lookup_symbol(0xfff).map(|(a, _)| a), None);
    assert_eq!(dump.lookup_symbol(0x2fff).map(|(a, _)| a), Some(0x2000));
    assert_eq!(dump.lookup_symbol(u64::MAX).map(|(a, s)| (a, s.index)), Some((0x3000, 2)));
    assert!(dump.dump_current_stack().is_empty());
}

#[test]
fn atomic_operations_are_logged_with_the_stack() {
    let mut log = AtomicReceiver::new(unwinder());
    assert!(log._receive_entry(timed(Event::Start, 3, 0x1000, 0)).unwrap().is_none());
    assert!(log._receive_entry(timed(Event::InferrableJump, 6, 0x100, 0x1000)).unwrap().is_none());
    assert!(log._receive_entry(timed(Event::InferrableJump, 8, 0x100, 0x2000)).unwrap().is_none());
    assert!(log._receive_entry(executed("addi", 0x2000)).unwrap().is_none());
    let report = log._receive_entry(executed("amoadd.w", 0x2004)).unwrap().unwrap();
    assert_eq!(report.timestamp, 8);
    assert_eq!(report.pc, 0x2004);
    assert_eq!(report.text, "amoadd.w operands");
    let stack: Vec<(u64, String)> =
        report.call_stack.into_iter().map(|(a, s)| (a, s.name)).collect();
    assert_eq!(stack, vec![(0x1000, "a".to_string()), (0x2000, "b".to_string())]);
    assert!(log._receive_entry(timed(Event::UninferableJump, 12, 0x2ffc, 0x1008)).unwrap().is_none());
    let report = log._receive_entry(executed("lr.w", 0x1008)).unwrap().unwrap();
    assert_eq!(report.timestamp, 12);
    assert_eq!(report.call_stack.len(), 1);
    assert!(log._receive_entry(executed("sc.d", 0x100c)).unwrap().is_some());
    assert!(log._receive_entry(executed("lrx", 0x100c)).unwrap().is_none());
    assert!(log._receive_entry(executed("xamo", 0x100c)).unwrap().is_none());
    assert!(AtomicReceiver::is_atomic_insn(&insn("amoswap.d.aqrl", false)));
    assert!(!AtomicReceiver::is_atomic_insn(&insn("sc", false)));
    assert_eq!(
        log._receive_entry(timed(Event::TrapReturn, 13, 0x7777, 0)).err(),
        Some(ReceiveError::MissingInstruction)
    );
    assert_eq!(log.last_ts, 13);
}

#[test]
fn outermost_calls_are_timed() {
    let mut foc = FOCReceiver::new(unwinder());
    let call = |foc: &mut FOCReceiver, start: u64, branches: &[bool], end: u64| {
        assert_eq!(foc._receive_entry(timed(Event::InferrableJump, start, 0x100, 0x1000)), Ok(()));
        for taken in branches {
            let event = if *taken { Event::TakenBranch } else { Event::NonTakenBranch };
            assert_eq!(foc._receive_entry(timed(event, start, 0x1000, 0x1008)), Ok(()));
        }
        assert_eq!(foc._receive_entry(timed(Event::UninferableJump, end, 0x1ffc, 0x100)), Ok(()));
    };
    assert_eq!(foc._receive_entry(timed(Event::TakenBranch, 1, 0, 0)), Ok(()));
    assert!(foc.curr_path.is_none());
    call(&mut foc, 10, &[true, false], 15);
    call(&mut foc, 20, &[true, true], 29);
    call(&mut foc, 30, &[], 31);
    call(&mut foc, 40, &[false], 44);
    call(&mut foc, 50, &[false], 51);
    let timed_calls: Vec<(u64, Vec<bool>, u64)> =
        foc.path_time.iter().map(|(p, t)| (p.addr, p.path.clone(), *t)).collect();
    assert_eq!(
        timed_calls,
        vec![
            (0x1000, vec![true, false], 5),
            (0x1000, vec![true, true], 9),
            (0x1000, vec![], 1),
            (0x1000, vec![false], 4),
            (0x1000, vec![false], 1),
        ]
    );
    let lines: Vec<(usize, usize, u64, Vec<bool>)> =
        foc._flush().into_iter().map(|l| (l.place, l.count, l.time, l.path.path)).collect();
    assert_eq!(lines, vec![(0, 5, 9, vec![true, true]), (2, 5, 4, vec![false])]);
}

#[test]
fn outermost_call_nesting_and_errors() {
    let mut foc = FOCReceiver::new(unwinder());
    assert_eq!(foc._receive_entry(timed(Event::InferrableJump, 10, 0x100, 0x1000)), Ok(()));
    // A nested call does not begin a path of its own.
    assert_eq!(foc._receive_entry(timed(Event::InferrableJump, 11, 0x1010, 0x2000)), Ok(()));
    assert_eq!(foc._receive_entry(timed(Event::TakenBranch, 12, 0, 0)), Ok(()));
    assert_eq!(foc._receive_entry(timed(Event::UninferableJump, 13, 0x2ffc, 0x1014)), Ok(()));
    assert_eq!(foc.curr_path.as_ref().unwrap().path, vec![true]);
    assert_eq!(foc.curr_path.as_ref().unwrap().addr, 0x1000);
    // Traps are passed over.
    assert_eq!(foc._receive_entry(timed(Event::TrapInterrupt, 13, 0x1014, 0x3000)), Ok(()));
    assert_eq!(foc.stack_unwinder.frame_stack, vec![0]);
    assert_eq!(
        foc._receive_entry(timed(Event::UninferableJump, 9, 0x1ffc, 0x100)),
        Err(ReceiveError::TimeRunsBackwards)
    );
    assert!(foc.path_time.is_empty());
    assert!(foc.curr_path.is_some());
    // The stack is empty now, and so a second return closes nothing.
    assert_eq!(foc._receive_entry(timed(Event::UninferableJump, 20, 0x1ffc, 0x100)), Ok(()));
    assert!(foc.path_time.is_empty());
    let mut foc = FOCReceiver::new(unwinder());
    foc.stack_unwinder.step_ij(timed(Event::InferrableJump, 0, 0, 0x1000));
    assert_eq!(
        foc._receive_entry(timed(Event::UninferableJump, 20, 0x1ffc, 0x100)),
        Err(ReceiveError::NoOpenPath)
    );
    assert_eq!(
        foc._receive_entry(untimed(Event::InferrableJump, 0x100, 0x1000)),
        Err(ReceiveError::MissingTimestamp)
    );
    assert_eq!(
        foc._receive_entry(timed(Event::UninferableJump, 20, 0x9999, 0x100)),
        Err(ReceiveError::MissingInstruction)
    );
}

fn path_records(vpp: &VPPReceiver) -> Vec<(u64, Vec<bool>, Vec<u64>, Vec<Vec<u64>>)> {
    vpp.path_records
        .iter()
        .map(|r| (r.path.addr, r.path.path.clone(), r.intervals.clone(), r.bb_intervals.clone()))
        .collect()
}

#[test]
fn paths_are_timed_by_call() {
    let mut vpp = VPPReceiver::new(unwinder(), false);
    for entry in [
        timed(Event::TakenBranch, 1, 0, 0),
        timed(Event::InferrableJump, 10, 0x100, 0x1000),
        timed(Event::TakenBranch, 11, 0x1000, 0x1008),
        timed(Event::InferrableJump, 12, 0x1010, 0x2000),
        timed(Event::NonTakenBranch, 13, 0x2000, 0x2004),
        timed(Event::InferrableJump, 14, 0x2010, 0x2345),
        timed(Event::UninferableJump, 15, 0x2ffc, 0x1014),
        timed(Event::InferrableJump, 16, 0x1010, 0x2000),
        timed(Event::NonTakenBranch, 17, 0x2000, 0x2004),
        timed(Event::InferrableJump, 18, 0x2010, 0x3000),
        timed(Event::TrapInterrupt, 18, 0x3000, 0x1000),
        timed(Event::UninferableJump, 25, 0x3ffc, 0x1018),
        timed(Event::TakenBranch, 26, 0x1018, 0x1020),
        timed(Event::UninferableJump, 30, 0x1ffc, 0x100),
    ] {
        assert_eq!(vpp._receive_entry(entry), Ok(()));
    }
    assert_eq!(
        path_records(&vpp),
        vec![
            (0x2000, vec![false], vec![3, 9], vec![]),
            (0x3000, vec![], vec![7], vec![]),
            (0x1000, vec![true, true], vec![20], vec![]),
        ]
    );
    assert!(vpp.curr_paths.is_empty());
    assert!(vpp.start_timestamps.is_empty());
    let symbols: Vec<String> = vpp._flush().into_iter().map(|s| s.name).collect();
    assert_eq!(symbols, vec!["b", "c", "a"]);
}

#[test]
fn basic_blocks_of_paths_are_timed() {
    let mut vpp = VPPReceiver::new(unwinder(), true);
    for entry in [
        timed(Event::InferrableJump, 10, 0x100, 0x1000),
        timed(Event::TakenBranch, 12, 0x1000, 0x1008),
        timed(Event::NonTakenBranch, 15, 0x1008, 0x100c),
        timed(Event::UninferableJump, 20, 0x1ffc, 0x100),
        timed(Event::InferrableJump, 30, 0x100, 0x1000),
        timed(Event::TakenBranch, 31, 0x1000, 0x1008),
        timed(Event::NonTakenBranch, 32, 0x1008, 0x100c),
        timed(Event::UninferableJump, 33, 0x1ffc, 0x100),
        timed(Event::InferrableJump, 40, 0x100, 0x1000),
        timed(Event::UninferableJump, 41, 0x1ffc, 0x100),
    ] {
        assert_eq!(vpp._receive_entry(entry), Ok(()));
    }
    assert_eq!(
        path_records(&vpp),
        vec![
            (0x1000, vec![true, false], vec![10, 3], vec![vec![0, 2, 5], vec![0, 1, 2]]),
            (0x1000, vec![], vec![1], vec![vec![0]]),
        ]
    );
    assert!(vpp.bb_timestamps.is_empty());
}

#[test]
fn path_errors_leave_the_records_alone() {
    let mut vpp = VPPReceiver::new(unwinder(), true);
    assert_eq!(vpp._receive_entry(timed(Event::InferrableJump, 10, 0x100, 0x1000)), Ok(()));
    assert_eq!(
        vpp._receive_entry(untimed(Event::TakenBranch, 0x1000, 0x1008)),
        Err(ReceiveError::MissingTimestamp)
    );
    assert!(vpp.curr_paths[0].path.is_empty());
    assert_eq!(vpp.bb_timestamps, vec![vec![10]]);
    assert_eq!(
        vpp._receive_entry(untimed(Event::InferrableJump, 0x100, 0x2000)),
        Err(ReceiveError::MissingTimestamp)
    );
    assert_eq!(vpp.curr_paths.len(), 1);
    assert_eq!(
        vpp._receive_entry(timed(Event::UninferableJump, 20, 0x9999, 0x100)),
        Err(ReceiveError::MissingInstruction)
    );
    assert_eq!(
        vpp._receive_entry(timed(Event::UninferableJump, 9, 0x2ffc, 0x100)),
        Err(ReceiveError::TimeRunsBackwards)
    );
    assert!(vpp.path_records.is_empty());
    assert_eq!(vpp.curr_paths.len(), 1);
    let mut vpp = VPPReceiver::new(unwinder(), true);
    assert_eq!(vpp._receive_entry(timed(Event::InferrableJump, 10, 0x100, 0x1000)), Ok(()));
    assert_eq!(vpp._receive_entry(timed(Event::TakenBranch, 5, 0x1000, 0x1008)), Ok(()));
    assert_eq!(
        vpp._receive_entry(timed(Event::UninferableJump, 20, 0x1ffc, 0x100)),
        Err(ReceiveError::TimeRunsBackwards)
    );
    assert!(vpp.path_records.is_empty());
}

#[test]
fn paths_compare_by_address_and_outcomes() {
    let a = Path { addr: 1, path: vec![true, false] };
    assert!(same_path(&a, &Path { addr: 1, path: vec![true, false] }));
    assert!(!same_path(&a, &Path { addr: 2, path: vec![true, false] }));
    assert!(!same_path(&a, &Path { addr: 1, path: vec![true, true] }));
    assert!(!same_path(&a, &Path { addr: 1, path: vec![true] }));
    assert!(same_path(&Path { addr: 0, path: vec![] }, &Path { addr: 0, path: vec![] }));
}
