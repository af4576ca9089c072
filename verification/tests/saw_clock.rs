use glicol_wasm::saw::{Action, BlockInputs, Rate, SawClock};

fn inputs(count: usize, last_is_clock: bool, tick: usize) -> BlockInputs {
    BlockInputs { count, last_is_clock, tick }
}

#[test]
fn fresh_state_is_silent_at_tick_zero() {
    let s = SawClock::<64>::new();
    assert_eq!(s.tick(), 0);
    assert_eq!(s.block().len(), 64);
    assert!(s.block().iter().all(|&b| b == 0));
}

#[test]
fn no_input_runs_at_own_frequency() {
    let s = SawClock::<64>::new();
    assert_eq!(s.plan(inputs(0, false, 0)), Action::Render { rate: Rate::Frequency, record: false });
}

#[test]
fn single_modulation_input_is_not_cached() {
    let mut s = SawClock::<4>::new();
    s.record(256, vec![1, 2, 3, 4]);
    assert_eq!(s.plan(inputs(1, false, 256)), Action::Render { rate: Rate::Modulation, record: false });
}

#[test]
fn lone_clock_renders_then_replays() {
    let mut s = SawClock::<4>::new();
    let first = s.plan(inputs(1, true, 128));
    assert_eq!(first, Action::Render { rate: Rate::Frequency, record: true });
    s.record(128, vec![10, 20, 30, 40]);
    assert_eq!(s.plan(inputs(1, true, 128)), Action::Replay);
    assert_eq!(s.block(), &[10, 20, 30, 40]);
    assert_eq!(s.plan(inputs(1, true, 256)), Action::Render { rate: Rate::Frequency, record: true });
}

#[test]
fn modulation_with_clock_renders_then_replays() {
    let mut s = SawClock::<2>::new();
    assert_eq!(s.plan(inputs(2, false, 384)), Action::Render { rate: Rate::Modulation, record: true });
    s.record(384, vec![7, 8]);
    assert_eq!(s.tick(), 384);
    // the second input is taken as the clock whether or not it looks like one
    assert_eq!(s.plan(inputs(2, false, 384)), Action::Replay);
    assert_eq!(s.plan(inputs(2, true, 512)), Action::Render { rate: Rate::Modulation, record: true });
}

#[test]
fn tick_zero_never_replays() {
    let mut s = SawClock::<2>::new();
    s.record(0, vec![5, 6]);
    assert_eq!(s.plan(inputs(1, true, 0)), Action::Render { rate: Rate::Frequency, record: true });
    assert_eq!(s.plan(inputs(2, false, 0)), Action::Render { rate: Rate::Modulation, record: true });
}

#[test]
fn more_than_two_inputs_are_skipped() {
    let mut s = SawClock::<2>::new();
    s.record(128, vec![1, 1]);
    assert_eq!(s.plan(inputs(3, true, 128)), Action::Skip);
    assert_eq!(s.plan(inputs(7, false, 0)), Action::Skip);
}

#[test]
fn same_clocked_block_twice_renders_once() {
    let mut s = SawClock::<3>::new();
    let e = inputs(1, true, 1024);
    let mut renders = 0;
    for _ in 0..2 {
        match s.plan(e) {
            Action::Render { record: true, .. } => {
                renders += 1;
                s.record(e.tick, vec![9, 9, 9]);
            }
            Action::Replay => {}
            other => panic!("unexpected {:?}", other),
        }
    }
    assert_eq!(renders, 1);
}
