use snake_runtime::AggregateState;
use snake_runtime::RunError;
use snake_runtime::SetupError;
use snake_runtime::SeedCursor;
use snake_runtime::SnakeRuntime;
use snake_runtime::Winner;
use snake_runtime::run_tournament;

// A minimal support module implementing the boundary ABI, assembled by
// hand so the whole invoke/read/release protocol runs against a real VM.
//
// Its game is deterministic in the seed: the winner code is `seed % 3`
// (or 3 / 4 when the red / blue competitor has no bytes at all, standing
// in for a failed structural check), ticks are `2 * seed`, cycles are
// `seed + 5`, and the losing side always "collided with wall".

fn leb(mut v: u32) -> Vec<u8> {
    let mut out = Vec::new();
    loop {
        let b = (v & 0x7f) as u8;
        v >>= 7;
        if v == 0 {
            out.push(b);
            return out;
        }
        out.push(b | 0x80);
    }
}

fn section(id: u8, payload: Vec<u8>) -> Vec<u8> {
    let mut out = vec![id];
    out.extend(leb(payload.len() as u32));
    out.extend(payload);
    out
}

fn vector(entries: Vec<Vec<u8>>) -> Vec<u8> {
    let mut out = leb(entries.len() as u32);
    for e in entries {
        out.extend(e);
    }
    out
}

fn name(s: &str) -> Vec<u8> {
    let mut out = leb(s.len() as u32);
    out.extend(s.as_bytes());
    out
}

fn export(s: &str, kind: u8, index: u8) -> Vec<u8> {
    let mut out = name(s);
    out.push(kind);
    out.push(index);
    out
}

fn body(locals_i32: u8, code: Vec<u8>) -> Vec<u8> {
    let mut inner = Vec::new();
    if locals_i32 == 0 {
        inner.push(0x00);
    } else {
        inner.extend(vec![0x01, locals_i32, 0x7f]);
    }
    inner.extend(code);
    inner.push(0x0b);
    let mut out = leb(inner.len() as u32);
    out.extend(inner);
    out
}

fn build_module_full(alloc_code: Vec<u8>, ticks_code: Vec<u8>, reason_len_code: Vec<u8>, trapping_start: bool) -> Vec<u8> {
    let mut m = vec![0x00, 0x61, 0x73, 0x6d, 0x01, 0x00, 0x00, 0x00];

    // (i32) -> i32 | (i32 x5) -> i32 | (i32, i32) -> i32 | (i32) -> () | () -> ()
    m.extend(section(1, vector(vec![
        vec![0x60, 0x01, 0x7f, 0x01, 0x7f],
        vec![0x60, 0x05, 0x7f, 0x7f, 0x7f, 0x7f, 0x7f, 0x01, 0x7f],
        vec![0x60, 0x02, 0x7f, 0x7f, 0x01, 0x7f],
        vec![0x60, 0x01, 0x7f, 0x00],
        vec![0x60, 0x00, 0x00],
    ])));
    let mut signatures = vec![
        vec![0x00], // allocate_bytes
        vec![0x01], // run_game
        vec![0x00], // result_get_winner
        vec![0x00], // result_get_ticks
        vec![0x00], // result_get_cycles
        vec![0x00], // result_get_reason_len
        vec![0x02], // result_get_reason_byte
        vec![0x03], // result_drop
    ];
    if trapping_start {
        signatures.push(vec![0x04]);
    }
    m.extend(section(3, vector(signatures)));
    // one linear memory of one page
    m.extend(section(5, vector(vec![vec![0x00, 0x01]])));
    // mutable globals: bump-allocation cursor, last seed, last winner code
    m.extend(section(6, vector(vec![
        vec![0x7f, 0x01, 0x41, 0x80, 0x08, 0x0b],
        vec![0x7f, 0x01, 0x41, 0x00, 0x0b],
        vec![0x7f, 0x01, 0x41, 0x00, 0x0b],
    ])));
    m.extend(section(7, vector(vec![
        export("memory", 0x02, 0),
        export("allocate_bytes", 0x00, 0),
        export("run_game", 0x00, 1),
        export("result_get_winner", 0x00, 2),
        export("result_get_ticks", 0x00, 3),
        export("result_get_cycles", 0x00, 4),
        export("result_get_reason_len", 0x00, 5),
        export("result_get_reason_byte", 0x00, 6),
        export("result_drop", 0x00, 7),
    ])));
    if trapping_start {
        m.extend(section(8, vec![0x08]));
    }
    let mut bodies = vec![
        // allocate_bytes
        body(1, alloc_code),
        // run_game: remember the seed and the winner code, return handle 7
        body(0, vec![
            0x20, 0x04, 0x24, 0x01, // seed global = seed
            0x20, 0x01, 0x45, // len_a == 0 ?
            0x04, 0x7f, 0x41, 0x03, // then code 3
            0x05, 0x20, 0x03, 0x45, // else: len_b == 0 ?
            0x04, 0x7f, 0x41, 0x04, // then code 4
            0x05, 0x20, 0x04, 0x41, 0x03, 0x70, // else seed % 3
            0x0b, 0x0b,
            0x24, 0x02, // code global
            0x41, 0x07, // handle
        ]),
        // result_get_winner: the remembered code
        body(0, vec![0x23, 0x02]),
        // result_get_ticks
        body(0, ticks_code),
        // result_get_cycles: seed + 5
        body(0, vec![0x23, 0x01, 0x41, 0x05, 0x6a]),
        // result_get_reason_len
        body(0, reason_len_code),
        // result_get_reason_byte: one byte of the reason text
        body(0, vec![0x20, 0x01, 0x2d, 0x00, 0x00]),
        // result_drop: nothing to free
        body(0, vec![]),
    ];
    if trapping_start {
        bodies.push(body(0, vec![0x00]));
    }
    m.extend(section(10, vector(bodies)));
    let reason = b"collided with wall";
    let mut data = vec![0x00, 0x41, 0x00, 0x0b];
    data.extend(leb(reason.len() as u32));
    data.extend(reason.as_slice());
    m.extend(section(11, vector(vec![data])));
    m
}

// allocate_bytes: bump the cursor, hand back the old offset
fn bump_allocator() -> Vec<u8> {
    vec![
        0x23, 0x00, 0x21, 0x01, // save cursor
        0x23, 0x00, 0x20, 0x00, 0x6a, 0x24, 0x00, // cursor += size
        0x20, 0x01, // old cursor
    ]
}

// result_get_ticks: 2 * seed
fn doubling_ticks() -> Vec<u8> {
    vec![0x23, 0x01, 0x41, 0x02, 0x6c]
}

// result_get_reason_len: length of the stored reason text
fn full_reason_len() -> Vec<u8> {
    vec![0x41, 0x12]
}

fn build_module(alloc_code: Vec<u8>, ticks_code: Vec<u8>, trapping_start: bool) -> Vec<u8> {
    build_module_full(alloc_code, ticks_code, full_reason_len(), trapping_start)
}

fn support_module() -> Vec<u8> {
    build_module(bump_allocator(), doubling_ticks(), false)
}

fn runtime_with(red: &[u8], blue: &[u8]) -> SnakeRuntime {
    let module = support_module();
    SnakeRuntime::new(&module, &red.to_vec(), &blue.to_vec()).expect("setup must succeed")
}

#[test]
fn one_game_reads_all_fields() {
    let mut runtime = runtime_with(&[9, 9], &[8, 8]);
    let result = runtime.run_game(4).unwrap();
    assert_eq!(result.winner, Winner::Blue);
    assert_eq!(result.tick, 8);
    assert_eq!(result.cycle, 9);
    assert_eq!(result.lose_reason, "collided with wall");
}

#[test]
fn same_seed_on_two_instances_gives_the_same_result() {
    let mut first = runtime_with(&[1, 2, 3], &[4, 5, 6]);
    let mut second = runtime_with(&[1, 2, 3], &[4, 5, 6]);
    for seed in [0u32, 1, 2, 41] {
        let a = first.run_game(seed).unwrap();
        let b = second.run_game(seed).unwrap();
        assert_eq!(a.winner, b.winner);
        assert_eq!(a.tick, b.tick);
        assert_eq!(a.cycle, b.cycle);
        assert_eq!(a.lose_reason, b.lose_reason);
    }
}

#[test]
fn invalid_competitor_is_an_error_not_a_winner() {
    let mut red_invalid = runtime_with(&[], &[4, 5, 6]);
    assert!(matches!(red_invalid.run_game(0), Err(RunError::RedInvalid)));

    let mut blue_invalid = runtime_with(&[1, 2, 3], &[]);
    assert!(matches!(blue_invalid.run_game(0), Err(RunError::BlueInvalid)));
}

#[test]
fn invalid_competitor_aborts_the_run_without_recording() {
    let mut runtime = runtime_with(&[], &[4, 5, 6]);
    let mut cursor = SeedCursor::new(0, 10).unwrap();
    let mut stats = AggregateState::new();
    let r = run_tournament(&mut runtime, &mut cursor, &mut stats);
    assert!(matches!(r, Err(RunError::RedInvalid)));
    assert_eq!(stats.total_recorded(), 0);
}

#[test]
fn ten_games_complete_and_are_all_accounted_for() {
    let mut runtime = runtime_with(&[1], &[2]);
    let mut cursor = SeedCursor::new(0, 10).unwrap();
    let mut stats = AggregateState::new();
    run_tournament(&mut runtime, &mut cursor, &mut stats).unwrap();

    assert_eq!(stats.total_recorded(), 10);
    // seeds 0..10 by winner code seed % 3
    assert_eq!(stats.wins(Winner::Red), 4);
    assert_eq!(stats.wins(Winner::Blue), 3);
    assert_eq!(stats.wins(Winner::Tie), 3);
    assert_eq!(
        stats.wins(Winner::Red) + stats.wins(Winner::Blue) + stats.wins(Winner::Tie),
        10
    );

    let red_entries = stats.reasons(Winner::Red);
    assert_eq!(red_entries.len(), 1);
    assert_eq!(red_entries[0].reason, "collided with wall");
    assert_eq!(red_entries[0].count, 4);
    assert_eq!(red_entries[0].examples, vec![0, 3, 6, 9]);
}

#[test]
fn trap_during_a_field_read_is_a_call_failure() {
    let module = build_module(bump_allocator(), vec![0x00], false);
    let mut runtime =
        SnakeRuntime::new(&module, &vec![1, 2], &vec![3, 4]).expect("setup must succeed");
    assert!(matches!(runtime.run_game(0), Err(RunError::CallFailed(_))));
}

#[test]
fn trap_during_allocation_fails_setup() {
    let module = build_module(vec![0x00], doubling_ticks(), false);
    match SnakeRuntime::new(&module, &vec![1, 2], &vec![3, 4]) {
        Err(SetupError::AllocateFailed(_)) => {}
        _ => panic!("a trapping allocator must fail setup at the allocation stage"),
    }
}

#[test]
fn trap_in_the_start_section_fails_instantiation() {
    let module = build_module(bump_allocator(), doubling_ticks(), true);
    match SnakeRuntime::new(&module, &vec![1, 2], &vec![3, 4]) {
        Err(SetupError::Instantiate(_)) => {}
        _ => panic!("a trapping start section must fail setup at instantiation"),
    }
}

#[test]
fn competitor_larger_than_linear_memory_fails_the_write() {
    let module = support_module();
    let oversized = vec![0u8; 70000];
    match SnakeRuntime::new(&module, &oversized, &vec![3, 4]) {
        Err(SetupError::MemoryWrite(_)) => {}
        _ => panic!("writing past the linear memory must fail setup at the write stage"),
    }
}

#[test]
fn zero_reason_length_gives_the_empty_string() {
    let module = build_module_full(bump_allocator(), doubling_ticks(), vec![0x41, 0x00], false);
    let mut runtime =
        SnakeRuntime::new(&module, &vec![1, 2], &vec![3, 4]).expect("setup must succeed");
    let result = runtime.run_game(1).unwrap();
    assert_eq!(result.lose_reason, "");
    assert_eq!(result.winner, Winner::Blue);
}
