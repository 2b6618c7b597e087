use std::collections::HashMap;

use trace_decoder::backend::event::{Entry, Event};
use trace_decoder::backend::stack_unwinder::{LocatedSymbol, SourceLine, StackUnwinder};
use trace_decoder::insn::Insn;
use trace_decoder::text::{contains, matches_at, starts_with};

fn insn(name: &str, indirect: bool) -> Insn {
    Insn {
        len: 4,
        is_branch: false,
        is_direct_jump: false,
        is_indirect_jump: indirect,
        imm: None,
        name: name.to_string(),
        text: name.to_string(),
    }
}

fn symbol(name: &str, address: u64, line: u32) -> LocatedSymbol {
    LocatedSymbol {
        name: name.to_string(),
        address,
        location: Some(SourceLine { file: "main.c".to_string(), line }),
    }
}

/// A at 0x1000, B at 0x2000, C at 0x3000; a `ret` at 0x3004 and at 0x2004, a
/// `jalr` at 0x1004, an `addi` at 0x1008.
fn unwinder() -> StackUnwinder {
    let mut insn_map = HashMap::new();
    insn_map.insert(0x3004, insn("ret", true));
    insn_map.insert(0x2004, insn("c.jr", true));
    insn_map.insert(0x1004, insn("jalr", true));
    insn_map.insert(0x1010, insn("c.jalr", true));
    insn_map.insert(0x1008, insn("addi", false));
    StackUnwinder::new(
        insn_map,
        vec![symbol("a", 0x1000, 1), symbol("b", 0x2000, 2), symbol("c", 0x3000, 3)],
    )
}

fn jump(to: u64) -> Entry {
    Entry::new_timed_event(Event::InferrableJump, 0, 0x1008, to)
}

fn names(closed: &[trace_decoder::backend::stack_unwinder::SymbolInfo]) -> Vec<String> {
    closed.iter().map(|s| s.name.clone()).collect()
}

#[test]
fn symbols_get_ordinals_in_table_order() {
    let unwinder = StackUnwinder::new(
        HashMap::new(),
        vec![symbol("late", 0x3000, 30), symbol("early", 0x1000, 10), symbol("mid", 0x2000, 20)],
    );
    let map = unwinder.func_symbol_map();
    assert_eq!(map.len(), 3);
    let listed: Vec<(u64, String, u32, u32)> =
        map.iter().map(|(a, s)| (*a, s.name.clone(), s.index, s.line)).collect();
    assert_eq!(
        listed,
        vec![
            (0x3000, "late".to_string(), 0, 30),
            (0x1000, "early".to_string(), 1, 10),
            (0x2000, "mid".to_string(), 2, 20),
        ]
    );
    assert_eq!(unwinder.idx_2_addr_range[&0], (0x3000, 0x1000));
    assert_eq!(unwinder.idx_2_addr_range[&1], (0x1000, 0x2000));
    assert_eq!(unwinder.idx_2_addr_range[&2], (0x2000, 0x3000));
    assert_eq!(unwinder.get_symbol_info(0x1000).name, "early");
    assert_eq!(unwinder.get_symbol_info(0x1000).file, "main.c");
}

#[test]
fn aliases_are_merged_preferring_names() {
    let unwinder = StackUnwinder::new(
        HashMap::new(),
        vec![
            symbol("", 0x1000, 1),
            symbol("first", 0x2000, 2),
            symbol("named", 0x1000, 3),
            symbol("second", 0x2000, 4),
            symbol("", 0x2000, 5),
            LocatedSymbol { name: "nowhere".to_string(), address: 0x4000, location: None },
            symbol("last", 0x3000, 6),
        ],
    );
    let listed: Vec<(u64, String, u32, u32)> = unwinder
        .func_symbol_map()
        .iter()
        .map(|(a, s)| (*a, s.name.clone(), s.index, s.line))
        .collect();
    assert_eq!(
        listed,
        vec![
            (0x1000, "named".to_string(), 0, 3),
            (0x2000, "first".to_string(), 1, 2),
            (0x3000, "last".to_string(), 2, 6),
        ]
    );
    assert_eq!(unwinder.idx_2_addr_range.len(), 3);
    assert_eq!(unwinder.idx_2_addr_range[&2], (0x3000, 0x1000));
}

#[test]
fn single_function_has_an_empty_range() {
    let unwinder = StackUnwinder::new(HashMap::new(), vec![symbol("only", 0x1000, 1)]);
    assert_eq!(unwinder.idx_2_addr_range[&0], (0x1000, 0x1000));
    let empty = StackUnwinder::new(HashMap::new(), Vec::new());
    assert_eq!(empty.func_symbol_map().len(), 0);
    assert!(empty.current_frame_addrs().is_empty());
}

#[test]
fn jump_to_a_function_opens_a_frame() {
    let mut unwinder = unwinder();
    let (opened, depth, info) = unwinder.step_ij(jump(0x2000));
    assert!(opened);
    assert_eq!(depth, 1);
    assert_eq!(info.unwrap().name, "b");
    let (opened, depth, info) = unwinder.step_ij(jump(0x2008));
    assert!(!opened);
    assert_eq!(depth, 1);
    assert!(info.is_none());
    let (opened, depth, _) =
        unwinder.step_ij(Entry::new_timed_event(Event::TrapInterrupt, 0, 0x2008, 0x3000));
    assert!(opened);
    assert_eq!(depth, 2);
    assert_eq!(unwinder.frame_stack, vec![1, 2]);
    assert_eq!(unwinder.current_frame_addrs(), vec![0x2000, 0x3000]);
}

#[test]
fn return_into_an_outer_function_closes_the_frames_above() {
    let mut unwinder = unwinder();
    unwinder.step_ij(jump(0x1000));
    unwinder.step_ij(jump(0x2000));
    unwinder.step_ij(jump(0x3000));
    assert_eq!(unwinder.frame_stack, vec![0, 1, 2]);
    let ret = Entry::new_timed_event(Event::UninferableJump, 5, 0x3004, 0x1008);
    let (followed, depth, closed, opened) = unwinder.step_uj(ret);
    assert!(followed);
    assert_eq!(depth, 1);
    assert_eq!(names(&closed), vec!["c", "b"]);
    assert!(opened.is_none());
    assert_eq!(unwinder.frame_stack, vec![0]);
}

#[test]
fn return_within_the_same_function_closes_nothing() {
    let mut unwinder = unwinder();
    unwinder.step_ij(jump(0x1000));
    unwinder.step_ij(jump(0x2000));
    let ret = Entry::new_timed_event(Event::UninferableJump, 5, 0x2004, 0x2ffe);
    let (followed, depth, closed, opened) = unwinder.step_uj(ret);
    assert!(followed);
    assert_eq!(depth, 2);
    assert!(closed.is_empty());
    assert!(opened.is_none());
}

#[test]
fn return_out_of_every_frame_into_a_function_is_a_tail_call() {
    let mut unwinder = unwinder();
    unwinder.step_ij(jump(0x1000));
    unwinder.step_ij(jump(0x2000));
    let ret = Entry::new_timed_event(Event::UninferableJump, 5, 0x2004, 0x3000);
    let (followed, depth, closed, opened) = unwinder.step_uj(ret);
    assert!(followed);
    assert_eq!(depth, 1);
    assert_eq!(names(&closed), vec!["b", "a"]);
    assert_eq!(opened.unwrap().name, "c");
    assert_eq!(unwinder.frame_stack, vec![2]);
}

#[test]
fn return_out_of_every_frame_leaves_the_stack_empty() {
    let mut unwinder = unwinder();
    unwinder.step_ij(jump(0x2000));
    let ret = Entry::new_timed_event(Event::UninferableJump, 5, 0x2004, 0x0800);
    let (followed, depth, closed, opened) = unwinder.step_uj(ret);
    assert!(followed);
    assert_eq!(depth, 0);
    assert_eq!(names(&closed), vec!["b"]);
    assert!(opened.is_none());
    assert!(unwinder.frame_stack.is_empty());
}

#[test]
fn the_last_function_never_holds_a_return_target() {
    let mut unwinder = unwinder();
    unwinder.step_ij(jump(0x3000));
    // 0x3008 lies behind the start of `c`, whose range wraps round.
    let ret = Entry::new_timed_event(Event::UninferableJump, 5, 0x3004, 0x3008);
    let (followed, depth, closed, _) = unwinder.step_uj(ret);
    assert!(followed);
    assert_eq!(depth, 0);
    assert_eq!(names(&closed), vec!["c"]);
}

#[test]
fn linking_indirect_jump_is_a_call() {
    let mut unwinder = unwinder();
    unwinder.step_ij(jump(0x1000));
    let call = Entry::new_timed_event(Event::UninferableJump, 5, 0x1004, 0x2000);
    let (followed, depth, closed, opened) = unwinder.step_uj(call);
    assert!(followed);
    assert_eq!(depth, 2);
    assert!(closed.is_empty());
    assert_eq!(opened.unwrap().index, 1);
    let call = Entry::new_timed_event(Event::UninferableJump, 5, 0x1010, 0x3000);
    let (followed, depth, _, opened) = unwinder.step_uj(call);
    assert!(followed);
    assert_eq!(depth, 3);
    assert_eq!(opened.unwrap().name, "c");
    let unknown = Entry::new_timed_event(Event::UninferableJump, 5, 0x1004, 0x2222);
    let (followed, depth, closed, opened) = unwinder.step_uj(unknown);
    assert!(!followed);
    assert_eq!(depth, 3);
    assert!(closed.is_empty());
    assert!(opened.is_none());
}

#[test]
fn return_from_a_trap_closes_one_frame() {
    let mut unwinder = unwinder();
    let mret = Entry::new_timed_event(Event::TrapReturn, 5, 0x1008, 0x2000);
    let (followed, depth, closed, opened) = unwinder.step_uj(mret.clone());
    assert!(!followed);
    assert_eq!(depth, 0);
    assert!(closed.is_empty());
    assert!(opened.is_none());
    unwinder.step_ij(jump(0x1000));
    unwinder.step_ij(jump(0x2000));
    let (followed, depth, closed, opened) = unwinder.step_uj(mret);
    assert!(followed);
    assert_eq!(depth, 1);
    assert_eq!(names(&closed), vec!["b"]);
    assert!(opened.is_none());
}

#[test]
fn jump_that_is_no_return_changes_nothing() {
    let mut unwinder = unwinder();
    // Not an indirect jump at all.
    unwinder.step_ij(jump(0x1000));
    let entry = Entry::new_timed_event(Event::UninferableJump, 5, 0x1008, 0x2000);
    let (followed, depth, closed, opened) = unwinder.step_uj(entry);
    assert!(!followed);
    assert_eq!(depth, 1);
    assert!(closed.is_empty());
    assert!(opened.is_none());
    // An indirect jump with no frame open.
    let mut unwinder = self::unwinder();
    let entry = Entry::new_timed_event(Event::UninferableJump, 5, 0x3004, 0x2000);
    let (followed, depth, _, _) = unwinder.step_uj(entry);
    assert!(!followed);
    assert_eq!(depth, 0);
}

#[test]
fn depth_follows_pushes_and_pops() {
    let mut unwinder = unwinder();
    let steps: Vec<Entry> = vec![
        jump(0x1000),
        jump(0x2000),
        Entry::new_timed_event(Event::UninferableJump, 1, 0x1004, 0x3000),
        Entry::new_timed_event(Event::UninferableJump, 2, 0x3004, 0x2010),
        Entry::new_timed_event(Event::TrapReturn, 3, 0x1008, 0),
        Entry::new_timed_event(Event::UninferableJump, 4, 0x2004, 0x3000),
    ];
    for entry in steps {
        let before = unwinder.frame_stack.len();
        if entry.event == Event::InferrableJump {
            let (opened, depth, _) = unwinder.step_ij(entry);
            assert_eq!(depth, before + opened as usize);
            assert_eq!(depth, unwinder.frame_stack.len());
        } else {
            let (_, depth, closed, opened) = unwinder.step_uj(entry);
            assert_eq!(depth + closed.len(), before + opened.is_some() as usize);
            assert_eq!(depth, unwinder.frame_stack.len());
        }
    }
}

#[test]
fn flush_closes_every_frame() {
    let mut unwinder = unwinder();
    unwinder.step_ij(jump(0x1000));
    unwinder.step_ij(jump(0x3000));
    unwinder.step_ij(jump(0x2000));
    let closed = unwinder.flush();
    assert_eq!(names(&closed), vec!["b", "c", "a"]);
    assert!(unwinder.frame_stack.is_empty());
    assert!(unwinder.flush().is_empty());
}

#[test]
fn byte_matching() {
    assert!(contains("c.jalr", "jalr"));
    assert!(contains("jalr", "jalr"));
    assert!(!contains("jal", "jalr"));
    assert!(!contains("jr", "jalr"));
    assert!(contains("anything", ""));
    assert!(starts_with("$x.12", "$x"));
    assert!(!starts_with("x$x", "$x"));
    assert!(!starts_with("$", "$x"));
    assert!(matches_at(b"amoadd.w", 3, b"add"));
    assert!(!matches_at(b"amoadd.w", 6, b".wx"));
    assert!(!matches_at(b"abc", 4, b""));
}
