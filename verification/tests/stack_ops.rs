use operand_stack::{ExecutionError, Felt, Stack, STACK_TOP_SIZE};

/// Runs one full push cycle: make room, slide everything up, write the new
/// top, and move the clock.
fn push_value(stack: &mut Stack, value: u64) {
    stack.ensure_trace_capacity();
    stack.shift_right(0);
    stack.set(0, Felt::new(value));
    stack.advance_clock();
}

/// Runs one full pop cycle: make room, slide everything down, and move the
/// clock.
fn pop_value(stack: &mut Stack) {
    stack.ensure_trace_capacity();
    stack.shift_left(1);
    stack.advance_clock();
}

#[test]
fn new_places_initial_values_in_row_zero() {
    let inits = vec![Felt::new(7), Felt::new(8), Felt::new(9)];
    let stack = Stack::new(&inits, 4);
    assert_eq!(stack.depth(), 0);
    assert_eq!(stack.current_step(), 0);
    assert_eq!(stack.trace_length(), 4);
    let state = stack.trace_state();
    assert_eq!(state[0], Felt::new(7));
    assert_eq!(state[1], Felt::new(8));
    assert_eq!(state[2], Felt::new(9));
    for p in 3..STACK_TOP_SIZE {
        assert_eq!(state[p], Felt::new(0));
    }
    let trace = stack.trace();
    assert_eq!(trace.len(), 16);
    for column in trace.iter() {
        assert_eq!(column.len(), 4);
        for s in 1..4 {
            assert_eq!(column[s], Felt::new(0));
        }
    }
}

#[test]
fn push_then_set_from_empty_stack() {
    // Construct with depth 0 and trace length 2, shift right at position 0,
    // set the new top, advance: depth 1 and column 0 at step 1 holds it.
    let inits: Vec<Felt> = Vec::new();
    let mut stack = Stack::new(&inits, 2);
    stack.shift_right(0);
    stack.set(0, Felt::new(42));
    stack.advance_clock();
    assert_eq!(stack.depth(), 1);
    assert_eq!(stack.current_step(), 1);
    assert_eq!(stack.get(0), Felt::new(42));
    assert_eq!(stack.peek(), Ok(Felt::new(42)));
}

#[test]
fn matched_push_pop_restores_stack() {
    let inits: Vec<Felt> = Vec::new();
    let mut stack = Stack::new(&inits, 2);
    for v in [10, 11, 12] {
        push_value(&mut stack, v);
    }
    let depth_before = stack.depth();
    let state_before = stack.trace_state();
    push_value(&mut stack, 99);
    pop_value(&mut stack);
    assert_eq!(stack.depth(), depth_before);
    // After the pop cycle the untouched lower columns must be carried by the
    // shift itself: positions 0..depth slid up then back down.
    let state_after = stack.trace_state();
    for p in 0..depth_before {
        assert_eq!(state_after[p], state_before[p]);
    }
}

#[test]
fn crossing_top_window_spills_and_refills() {
    // Push 17 values: the 17th push must spill the then-bottom of the top
    // window onto the overflow list; the next pop must bring it back.
    let inits: Vec<Felt> = Vec::new();
    let mut stack = Stack::new(&inits, 2);
    for v in 1..=17u64 {
        push_value(&mut stack, v);
    }
    assert_eq!(stack.depth(), 17);
    // Top of stack is 17, 16, ..., 1; column 15 holds 2, the overflow holds 1.
    let state = stack.trace_state();
    for p in 0..16 {
        assert_eq!(state[p], Felt::new(17 - p as u64));
    }
    pop_value(&mut stack);
    assert_eq!(stack.depth(), 16);
    // The spilled value 1 is back in column 15.
    let state = stack.trace_state();
    for p in 0..16 {
        assert_eq!(state[p], Felt::new(16 - p as u64));
    }
}

#[test]
fn shift_left_at_depth_seventeen_matches_expected_row() {
    // Simulate depth 17 with overflow holding 99 and the top window holding
    // 0, 1, ..., 15 from the top down, then pop once.
    let inits: Vec<Felt> = Vec::new();
    let mut stack = Stack::new(&inits, 4);
    push_value(&mut stack, 99);
    for v in (0..16u64).rev() {
        push_value(&mut stack, v);
    }
    assert_eq!(stack.depth(), 17);
    let state = stack.trace_state();
    for p in 0..16 {
        assert_eq!(state[p], Felt::new(p as u64));
    }
    stack.ensure_trace_capacity();
    stack.shift_left(1);
    stack.advance_clock();
    assert_eq!(stack.depth(), 16);
    let state = stack.trace_state();
    for p in 0..15 {
        assert_eq!(state[p], Felt::new(p as u64 + 1));
    }
    assert_eq!(state[15], Felt::new(99));
}

#[test]
fn trace_state_always_has_sixteen_values() {
    let inits: Vec<Felt> = Vec::new();
    let mut stack = Stack::new(&inits, 2);
    assert_eq!(stack.trace_state().len(), STACK_TOP_SIZE);
    for v in 1..=20u64 {
        push_value(&mut stack, v);
        assert_eq!(stack.trace_state().len(), STACK_TOP_SIZE);
    }
}

#[test]
fn copy_state_carries_live_columns_forward() {
    let inits: Vec<Felt> = Vec::new();
    let mut stack = Stack::new(&inits, 8);
    for v in [5, 6] {
        push_value(&mut stack, v);
    }
    let before = stack.trace_state();
    stack.ensure_trace_capacity();
    stack.copy_state(0);
    stack.advance_clock();
    let after = stack.trace_state();
    assert_eq!(after[0], before[0]);
    assert_eq!(after[1], before[1]);
}

#[test]
fn peek_on_empty_stack_underflows() {
    let inits: Vec<Felt> = Vec::new();
    let mut stack = Stack::new(&inits, 2);
    assert_eq!(stack.peek(), Err(ExecutionError::StackUnderflow("peek", 0)));
    push_value(&mut stack, 3);
    pop_value(&mut stack);
    // The reported step is the one current at the failing call.
    assert_eq!(stack.peek(), Err(ExecutionError::StackUnderflow("peek", 2)));
}

#[test]
fn check_depth_reports_operation_and_step() {
    let inits: Vec<Felt> = Vec::new();
    let mut stack = Stack::new(&inits, 2);
    push_value(&mut stack, 1);
    assert_eq!(stack.depth(), 1);
    assert_eq!(
        stack.check_depth(3, "foo"),
        Err(ExecutionError::StackUnderflow("foo", 1))
    );
    assert_eq!(stack.check_depth(1, "foo"), Ok(()));
    assert_eq!(stack.check_depth(0, "foo"), Ok(()));
}

#[test]
fn capacity_doubles_and_keeps_prior_rows() {
    let inits = vec![Felt::new(4)];
    let mut stack = Stack::new(&inits, 2);
    push_value(&mut stack, 1);
    assert_eq!(stack.trace_length(), 2);
    // step is 1 now; the next cycle needs row 2, so capacity must double.
    let before: Vec<Vec<Felt>> = stack.trace().to_vec();
    stack.ensure_trace_capacity();
    stack.advance_clock();
    assert_eq!(stack.trace_length(), 4);
    let after = stack.trace();
    for p in 0..16 {
        for s in 0..2 {
            assert_eq!(after[p][s], before[p][s]);
        }
        for s in 2..4 {
            assert_eq!(after[p][s], Felt::new(0));
        }
    }
}

#[test]
fn ensure_trace_capacity_without_need_changes_nothing() {
    let inits: Vec<Felt> = Vec::new();
    let mut stack = Stack::new(&inits, 8);
    push_value(&mut stack, 1);
    let before: Vec<Vec<Felt>> = stack.trace().to_vec();
    stack.ensure_trace_capacity();
    assert_eq!(stack.trace_length(), 8);
    assert_eq!(stack.trace().to_vec(), before);
}

#[test]
fn finalize_pads_and_is_idempotent() {
    let inits: Vec<Felt> = Vec::new();
    let mut stack = Stack::new(&inits, 8);
    push_value(&mut stack, 21);
    push_value(&mut stack, 22);
    let live = stack.trace_state();
    let step_before = stack.current_step();
    stack.finalize();
    assert_eq!(stack.current_step(), stack.trace_length() - 1);
    let padded: Vec<Vec<Felt>> = stack.trace().to_vec();
    // Every row from the last real cycle to the end repeats the live state
    // in the live columns.
    for s in step_before..stack.trace_length() {
        assert_eq!(padded[0][s], live[0]);
        assert_eq!(padded[1][s], live[1]);
    }
    stack.finalize();
    assert_eq!(stack.current_step(), stack.trace_length() - 1);
    assert_eq!(stack.trace().to_vec(), padded);
}

#[test]
fn get_reads_current_row() {
    let inits: Vec<Felt> = Vec::new();
    let mut stack = Stack::new(&inits, 2);
    push_value(&mut stack, 30);
    push_value(&mut stack, 31);
    assert_eq!(stack.get(0), Felt::new(31));
    assert_eq!(stack.get(1), Felt::new(30));
}
