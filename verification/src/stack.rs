use crate::errors::ExecutionError;
use crate::felt::Felt;
use crate::model::StackView;
use crate::model::after_advance;
use crate::model::after_copy;
use crate::model::after_grow;
use crate::model::after_pad;
use crate::model::after_set;
use crate::model::after_shift_left;
use crate::model::after_shift_right;
use crate::model::col_extended;
use vstd::pervasive::VecAdditionalExecFns;
use vstd::prelude::*;

verus! {

/// Number of stack-top slots the trace matrix records per cycle.
pub const STACK_TOP_SIZE: usize = 16;

/// The operand-stack engine.
///
/// Sixteen equal-length trace columns record the top of the stack at every
/// clock cycle; the overflow list holds the stack entries below the top
/// window. Mutators write to row `step + 1` and never to row `step`; the
/// clock then moves with `advance_clock`.
pub struct Stack {
    step: usize,
    trace: Vec<Vec<Felt>>,
    overflow: Vec<Felt>,
    depth: usize,
}

impl View for Stack {
    type V = StackView;

    closed spec fn view(&self) -> StackView {
        StackView {
            step: self.step as int,
            depth: self.depth as int,
            cols: Seq::new(16, |p: int| self.trace@[p]@),
            overflow: self.overflow@,
        }
    }
}

impl Stack {
    /// Well-formedness of the concrete state; it carries the abstract
    /// invariant `self@.wf()` with it.
    pub closed spec fn wf(self) -> bool {
        &&& self.trace@.len() == 16
        &&& self@.wf()
    }

    /// Creates a stack whose sixteen columns have length
    /// `init_trace_length`, zero-filled except that row 0 of column `i`
    /// holds `init_values[i]`. The clock starts at cycle 0 and the depth at 0.
    pub fn new(init_values: &Vec<Felt>, init_trace_length: usize) -> (stack: Stack)
        requires
            init_values@.len() <= STACK_TOP_SIZE,
            1 <= init_trace_length,
        ensures
            stack.wf(),
            stack@.wf(),
            stack@.step == 0,
            stack@.depth == 0,
            stack@.overflow == Seq::<Felt>::empty(),
            stack@.trace_len() == init_trace_length,
            forall|p: int, s: int|
                0 <= p < 16 && 0 <= s < init_trace_length ==> (#[trigger] stack@.at(p, s)) == (
                if s == 0 && p < init_values@.len() {
                    init_values@[p]
                } else {
                    Felt::spec_zero()
                }),
    {
        let mut trace: Vec<Vec<Felt>> = Vec::new();
        let mut i: usize = 0;
        while i < STACK_TOP_SIZE
            invariant
                i <= 16,
                trace@.len() == i,
                init_values@.len() <= 16,
                1 <= init_trace_length,
                forall|p: int|
                    0 <= p < i ==> (#[trigger] trace@[p])@.len() == init_trace_length,
                forall|p: int, s: int|
                    0 <= p < i && 0 <= s < init_trace_length ==> (#[trigger] trace@[p]@[s]) == (
                    if s == 0 && p < init_values@.len() {
                        init_values@[p]
                    } else {
                        Felt::spec_zero()
                    }),
            decreases 16 - i,
        {
            let mut column: Vec<Felt> = Vec::new();
            while column.len() < init_trace_length
                invariant
                    column@.len() <= init_trace_length,
                    forall|s: int|
                        0 <= s < column@.len() ==> column@[s] == Felt::spec_zero(),
                decreases init_trace_length - column.len(),
            {
                column.push(Felt::zero());
            }
            if i < init_values.len() {
                column.set(0, init_values[i]);
            }
            trace.push(column);
            i = i + 1;
        }
        let stack = Stack { step: 0, trace, overflow: Vec::new(), depth: 0 };
        proof {
            assert(stack@.overflow =~= Seq::<Felt>::empty());
            assert(stack@.cols[0].len() == init_trace_length);
        }
        stack
    }

    /// Returns the depth of the stack at the current step.
    pub fn depth(&self) -> (d: usize)
        ensures
            d == self@.depth,
    {
        self.depth
    }

    /// Returns the current step of the execution trace.
    pub fn current_step(&self) -> (s: usize)
        ensures
            s == self@.step,
    {
        self.step
    }

    /// Returns the execution trace length for this stack.
    pub fn trace_length(&self) -> (len: usize)
        requires
            self.wf(),
        ensures
            len == self@.trace_len(),
    {
        self.trace[0].len()
    }

    /// Returns a copy of the item currently at the top of the stack, or an
    /// underflow error naming `"peek"` and the current step when the stack
    /// is empty.
    pub fn peek(&self) -> (r: Result<Felt, ExecutionError>)
        requires
            self.wf(),
        ensures
            self@.depth > 0 ==> r == Ok::<Felt, ExecutionError>(self@.at(0, self@.step)),
            self@.depth == 0 ==> (r matches Err(e) && e matches ExecutionError::StackUnderflow(
                op,
                s,
            ) && op@ == "peek"@ && s == self@.step),
    {
        if self.depth == 0 {
            return Err(ExecutionError::StackUnderflow("peek", self.step));
        }
        Ok(self.trace[0][self.step])
    }

    /// Returns the trace state at the current step: the sixteen values of
    /// the top-window columns, the snapshot the constraint system sees.
    /// Slots at positions beyond the current depth carry whatever raw value
    /// the column holds.
    pub fn trace_state(&self) -> (state: Vec<Felt>)
        requires
            self.wf(),
        ensures
            state@.len() == STACK_TOP_SIZE,
            forall|p: int| 0 <= p < 16 ==> state@[p] == self@.at(p, self@.step),
    {
        let mut state: Vec<Felt> = Vec::new();
        let mut p: usize = 0;
        while p < STACK_TOP_SIZE
            invariant
                self.wf(),
                p <= 16,
                state@.len() == p,
                forall|q: int| 0 <= q < p ==> state@[q] == self@.at(q, self@.step),
            decreases 16 - p,
        {
            proof {
                assert(self@.cols[p as int].len() == self@.trace_len());
            }
            state.push(self.trace[p][self.step]);
            p = p + 1;
        }
        state
    }

    /// Read-only access to the trace matrix: sixteen equal-length columns,
    /// column `p` at row `s` holding the value of stack position `p` at
    /// clock cycle `s`.
    pub fn trace(&self) -> (t: &Vec<Vec<Felt>>)
        requires
            self.wf(),
        ensures
            t@.len() == 16,
            forall|p: int| 0 <= p < 16 ==> (#[trigger] t@[p])@ == self@.cols[p],
    {
        &self.trace
    }

    /// Returns the value at position `pos` on the stack at the current
    /// clock cycle.
    pub fn get(&self, pos: usize) -> (value: Felt)
        requires
            self.wf(),
            pos < self@.depth,
            pos < STACK_TOP_SIZE,
        ensures
            value == self@.at(pos as int, self@.step),
    {
        proof {
            assert(self@.cols[pos as int].len() == self@.trace_len());
        }
        self.trace[pos][self.step]
    }

    /// Writes `value` into column `pos` at row `step + 1`. This is the one
    /// place a trace cell is written; every mutator goes through it.
    fn put_next(&mut self, pos: usize, value: Felt)
        requires
            old(self).wf(),
            pos < STACK_TOP_SIZE,
            old(self)@.step + 1 < old(self)@.trace_len(),
        ensures
            final(self).wf(),
            final(self)@ == after_set(old(self)@, pos as int, value),
    {
        proof {
            assert(self@.cols[pos as int] == self.trace@[pos as int]@);
            assert(self@.cols[pos as int].len() == self@.trace_len());
        }
        let step = self.step;
        let column = &mut self.trace[pos];
        // The column's length is a usize and bounds step + 1, so the sum
        // cannot overflow.
        let len = column.len();
        column.set(step + 1, value);
        proof {
            assert(self@ =~~= after_set(old(self)@, pos as int, value));
        }
    }

    /// Writes `value` into position `pos` at the next clock cycle.
    pub fn set(&mut self, pos: usize, value: Felt)
        requires
            old(self).wf(),
            pos == 0 || pos < old(self)@.depth,
            pos < STACK_TOP_SIZE,
            old(self)@.step + 1 < old(self)@.trace_len(),
        ensures
            final(self).wf(),
            final(self)@.wf(),
            final(self)@ == after_set(old(self)@, pos as int, value),
    {
        self.put_next(pos, value);
    }

    /// Copies stack values starting at position `start_pos` at the current
    /// clock cycle to the same position at the next clock cycle, for every
    /// live top-window column.
    pub fn copy_state(&mut self, start_pos: usize)
        requires
            old(self).wf(),
            start_pos < STACK_TOP_SIZE,
            start_pos <= old(self)@.depth,
            old(self)@.step + 1 < old(self)@.trace_len(),
        ensures
            final(self).wf(),
            final(self)@.wf(),
            final(self)@ == after_copy(old(self)@, start_pos as int),
    {
        let end_pos = if self.depth < STACK_TOP_SIZE {
            self.depth
        } else {
            STACK_TOP_SIZE
        };
        let mut i = start_pos;
        while i < end_pos
            invariant
                self.wf(),
                start_pos <= i <= 16,
                i <= end_pos,
                end_pos == old(self)@.live_top(),
                self@.step == old(self)@.step,
                self@.depth == old(self)@.depth,
                self@.overflow == old(self)@.overflow,
                self@.trace_len() == old(self)@.trace_len(),
                old(self)@.step + 1 < old(self)@.trace_len(),
                forall|p: int|
                    0 <= p < 16 ==> #[trigger] self@.cols[p] == (if start_pos <= p < i {
                        old(self)@.cols[p].update(
                            old(self)@.step + 1,
                            old(self)@.cols[p][old(self)@.step],
                        )
                    } else {
                        old(self)@.cols[p]
                    }),
            decreases end_pos - i,
        {
            proof {
                assert(self@.cols[i as int].len() == self@.trace_len());
            }
            let value = self.trace[i][self.step];
            self.put_next(i, value);
            i = i + 1;
        }
        proof {
            assert(self@ =~~= after_copy(old(self)@, start_pos as int));
        }
    }

    /// Copies stack values starting at position `start_pos` at the current
    /// clock cycle to position minus one at the next clock cycle, and drops
    /// the depth by one. When the stack depth is greater than sixteen, the
    /// last overflow item refills column 15.
    pub fn shift_left(&mut self, start_pos: usize)
        requires
            old(self).wf(),
            0 < start_pos,
            start_pos < STACK_TOP_SIZE,
            start_pos <= old(self)@.depth,
            old(self)@.depth > 0,
            old(self)@.step + 1 < old(self)@.trace_len(),
        ensures
            final(self).wf(),
            final(self)@.wf(),
            final(self)@ == after_shift_left(old(self)@, start_pos as int),
    {
        if self.depth <= STACK_TOP_SIZE {
            let mut i = start_pos;
            while i < self.depth
                invariant
                    self.wf(),
                    1 <= start_pos <= i,
                    i <= self@.depth || i == start_pos,
                    self@.depth <= 16,
                    self@.step == old(self)@.step,
                    self@.depth == old(self)@.depth,
                    self@.overflow == old(self)@.overflow,
                    self@.trace_len() == old(self)@.trace_len(),
                    old(self)@.step + 1 < old(self)@.trace_len(),
                    forall|p: int|
                        0 <= p < 16 ==> #[trigger] self@.cols[p] == (if start_pos - 1 <= p < i
                            - 1 {
                            old(self)@.cols[p].update(
                                old(self)@.step + 1,
                                old(self)@.cols[p + 1][old(self)@.step],
                            )
                        } else {
                            old(self)@.cols[p]
                        }),
                decreases self@.depth - i,
            {
                proof {
                    assert(self@.cols[i as int].len() == self@.trace_len());
                }
                let value = self.trace[i][self.step];
                self.put_next(i - 1, value);
                i = i + 1;
            }
        } else {
            let mut i = start_pos;
            while i < STACK_TOP_SIZE
                invariant
                    self.wf(),
                    1 <= start_pos <= i <= 16,
                    self@.depth > 16,
                    self@.step == old(self)@.step,
                    self@.depth == old(self)@.depth,
                    self@.overflow == old(self)@.overflow,
                    self@.trace_len() == old(self)@.trace_len(),
                    old(self)@.step + 1 < old(self)@.trace_len(),
                    forall|p: int|
                        0 <= p < 16 ==> #[trigger] self@.cols[p] == (if start_pos - 1 <= p < i
                            - 1 {
                            old(self)@.cols[p].update(
                                old(self)@.step + 1,
                                old(self)@.cols[p + 1][old(self)@.step],
                            )
                        } else {
                            old(self)@.cols[p]
                        }),
                decreases 16 - i,
            {
                proof {
                    assert(self@.cols[i as int].len() == self@.trace_len());
                }
                let value = self.trace[i][self.step];
                self.put_next(i - 1, value);
                i = i + 1;
            }
            let last = self.overflow.len() - 1;
            let from_overflow = self.overflow[last];
            self.put_next(STACK_TOP_SIZE - 1, from_overflow);
            self.overflow.pop();
        }
        self.depth = self.depth - 1;
        proof {
            assert(self@ =~~= after_shift_left(old(self)@, start_pos as int));
        }
    }

    /// Copies stack values starting at position `start_pos` at the current
    /// clock cycle to position plus one at the next clock cycle, and grows
    /// the depth by one. When the stack already fills the top window, the
    /// outgoing column-15 value is pushed onto the overflow list.
    pub fn shift_right(&mut self, start_pos: usize)
        requires
            old(self).wf(),
            start_pos < STACK_TOP_SIZE,
            start_pos <= old(self)@.depth,
            old(self)@.step + 1 < old(self)@.trace_len(),
            old(self)@.depth < usize::MAX,
        ensures
            final(self).wf(),
            final(self)@.wf(),
            final(self)@ == after_shift_right(old(self)@, start_pos as int),
    {
        if self.depth == 0 {
            // Only the depth grows; the caller supplies the new top via `set`.
        } else if self.depth < STACK_TOP_SIZE {
            let mut i = start_pos;
            while i < self.depth
                invariant
                    old(self).wf(),
                    self.wf(),
                    start_pos <= i,
                    i <= self@.depth || i == start_pos,
                    0 < self@.depth < 16,
                    self@.step == old(self)@.step,
                    self@.depth == old(self)@.depth,
                    self@.overflow == old(self)@.overflow,
                    self@.trace_len() == old(self)@.trace_len(),
                    old(self)@.step + 1 < old(self)@.trace_len(),
                    forall|p: int|
                        0 <= p < 16 ==> #[trigger] self@.cols[p] == (if start_pos + 1 <= p < i
                            + 1 {
                            old(self)@.cols[p].update(
                                old(self)@.step + 1,
                                old(self)@.cols[p - 1][old(self)@.step],
                            )
                        } else {
                            old(self)@.cols[p]
                        }),
                decreases self@.depth - i,
            {
                proof {
                    assert(self@.cols[i as int].len() == self@.trace_len());
                }
                let value = self.trace[i][self.step];
                self.put_next(i + 1, value);
                i = i + 1;
            }
        } else {
            let mut i = start_pos;
            while i < STACK_TOP_SIZE - 1
                invariant
                    old(self).wf(),
                    self.wf(),
                    start_pos <= i <= 15,
                    self@.depth >= 16,
                    self@.step == old(self)@.step,
                    self@.depth == old(self)@.depth,
                    self@.overflow == old(self)@.overflow,
                    self@.trace_len() == old(self)@.trace_len(),
                    old(self)@.step + 1 < old(self)@.trace_len(),
                    forall|p: int|
                        0 <= p < 16 ==> #[trigger] self@.cols[p] == (if start_pos + 1 <= p < i
                            + 1 {
                            old(self)@.cols[p].update(
                                old(self)@.step + 1,
                                old(self)@.cols[p - 1][old(self)@.step],
                            )
                        } else {
                            old(self)@.cols[p]
                        }),
                decreases 16 - i,
            {
                proof {
                    assert(self@.cols[i as int].len() == self@.trace_len());
                }
                let value = self.trace[i][self.step];
                self.put_next(i + 1, value);
                i = i + 1;
            }
            proof {
                assert(self@.cols[15].len() == self@.trace_len());
            }
            let to_overflow = self.trace[STACK_TOP_SIZE - 1][self.step];
            self.overflow.push(to_overflow);
        }
        self.depth = self.depth + 1;
        proof {
            assert(self@ =~~= after_shift_right(old(self)@, start_pos as int));
        }
    }

    /// Moves the clock to the next cycle; nothing else changes.
    pub fn advance_clock(&mut self)
        requires
            old(self).wf(),
            old(self)@.step + 1 < old(self)@.trace_len(),
        ensures
            final(self).wf(),
            final(self)@.wf(),
            final(self)@ == after_advance(old(self)@),
    {
        // The trace length is a usize and bounds step + 1, so the sum
        // cannot overflow.
        let len = self.trace_length();
        self.step = self.step + 1;
        proof {
            assert(self@ =~~= after_advance(old(self)@));
        }
    }

    /// Extends column `p` with zeros up to length `new_length`; the other
    /// columns and the rest of the state stay as they are.
    fn grow_column(&mut self, p: usize, new_length: usize)
        requires
            p < STACK_TOP_SIZE,
            old(self).trace@.len() == 16,
            old(self).trace@[p as int]@.len() <= new_length,
        ensures
            final(self).step == old(self).step,
            final(self).depth == old(self).depth,
            final(self).overflow == old(self).overflow,
            final(self).trace@.len() == 16,
            forall|q: int|
                0 <= q < 16 && q != p ==> #[trigger] final(self).trace@[q] == old(self).trace@[q],
            final(self).trace@[p as int]@ == col_extended(
                old(self).trace@[p as int]@,
                new_length as int,
            ),
    {
        while self.trace[p].len() < new_length
            invariant
                p < 16,
                self.trace@.len() == 16,
                self.step == old(self).step,
                self.depth == old(self).depth,
                self.overflow == old(self).overflow,
                forall|q: int|
                    0 <= q < 16 && q != p ==> #[trigger] self.trace@[q] == old(self).trace@[q],
                old(self).trace@[p as int]@.len() <= self.trace@[p as int]@.len() <= new_length,
                forall|s: int|
                    0 <= s < self.trace@[p as int]@.len() ==> (#[trigger] self.trace@[p as int]@[s])
                        == (if s < old(self).trace@[p as int]@.len() {
                        old(self).trace@[p as int]@[s]
                    } else {
                        Felt::spec_zero()
                    }),
            decreases new_length - self.trace@[p as int]@.len(),
        {
            let column = &mut self.trace[p];
            column.push(Felt::zero());
        }
        proof {
            assert(self.trace@[p as int]@ =~= col_extended(
                old(self).trace@[p as int]@,
                new_length as int,
            ));
        }
    }

    /// Makes sure the trace has room for a new row: when row `step + 1`
    /// would fall outside the trace, every column is extended with zeros to
    /// twice the current trace length.
    pub fn ensure_trace_capacity(&mut self)
        requires
            old(self).wf(),
            2 * old(self)@.trace_len() <= usize::MAX,
        ensures
            final(self).wf(),
            final(self)@.wf(),
            final(self)@ == after_grow(old(self)@),
            final(self)@.step + 1 < final(self)@.trace_len(),
    {
        if self.step + 1 >= self.trace_length() {
            let new_length = self.trace_length() * 2;
            let mut p: usize = 0;
            while p < STACK_TOP_SIZE
                invariant
                    old(self).wf(),
                    p <= 16,
                    self.trace@.len() == 16,
                    self.step == old(self).step,
                    self.depth == old(self).depth,
                    self.overflow == old(self).overflow,
                    new_length == 2 * old(self)@.trace_len(),
                    forall|q: int|
                        0 <= q < 16 ==> #[trigger] self.trace@[q]@ == (if q < p {
                            col_extended(old(self)@.cols[q], new_length as int)
                        } else {
                            old(self)@.cols[q]
                        }),
                decreases 16 - p,
            {
                proof {
                    assert(old(self)@.cols[p as int].len() == old(self)@.trace_len());
                }
                self.grow_column(p, new_length);
                p = p + 1;
            }
        }
        proof {
            assert(self@ =~~= after_grow(old(self)@));
        }
    }

    /// Pads the trace: repeats the current live stack state into every
    /// remaining row, cycle by cycle, until the clock stands on the last row.
    /// Running it again once the clock is already there changes nothing.
    pub fn finalize(&mut self)
        requires
            old(self).wf(),
        ensures
            final(self).wf(),
            final(self)@.wf(),
            final(self)@ == after_pad(old(self)@),
    {
        while self.step < self.trace_length() - 1
            invariant
                old(self).wf(),
                self.wf(),
                self@.depth == old(self)@.depth,
                self@.overflow == old(self)@.overflow,
                self@.trace_len() == old(self)@.trace_len(),
                old(self)@.step <= self@.step,
                forall|q: int|
                    0 <= q < 16 ==> #[trigger] self@.cols[q] == (if q < old(self)@.live_top() {
                        Seq::new(
                            old(self)@.cols[q].len(),
                            |s: int|
                                if old(self)@.step < s <= self@.step {
                                    old(self)@.cols[q][old(self)@.step]
                                } else {
                                    old(self)@.cols[q][s]
                                },
                        )
                    } else {
                        old(self)@.cols[q]
                    }),
            decreases self@.trace_len() - self@.step,
        {
            let ghost prev = self@;
            self.copy_state(0);
            self.advance_clock();
            proof {
                assert forall|q: int| 0 <= q < 16 implies #[trigger] self@.cols[q] == (if q
                    < old(self)@.live_top() {
                    Seq::new(
                        old(self)@.cols[q].len(),
                        |s: int|
                            if old(self)@.step < s <= self@.step {
                                old(self)@.cols[q][old(self)@.step]
                            } else {
                                old(self)@.cols[q][s]
                            },
                    )
                } else {
                    old(self)@.cols[q]
                }) by {
                    assert(old(self)@.cols[q].len() == old(self)@.trace_len());
                    if q < old(self)@.live_top() {
                        assert(self@.cols[q] =~= Seq::new(
                            old(self)@.cols[q].len(),
                            |s: int|
                                if old(self)@.step < s <= self@.step {
                                    old(self)@.cols[q][old(self)@.step]
                                } else {
                                    old(self)@.cols[q][s]
                                },
                        ));
                    }
                }
            }
        }
        proof {
            assert(self@ =~~= after_pad(old(self)@));
        }
    }

    /// Returns an underflow error naming `op` and the current step when the
    /// current stack depth is smaller than `req_depth`; succeeds otherwise.
    pub fn check_depth(&self, req_depth: usize, op: &'static str) -> (r: Result<
        (),
        ExecutionError,
    >)
        ensures
            self@.depth >= req_depth ==> r == Ok::<(), ExecutionError>(()),
            self@.depth < req_depth ==> (r matches Err(e) && e matches
                ExecutionError::StackUnderflow(name, s) && name == op && s == self@.step),
    {
        if self.depth < req_depth {
            Err(ExecutionError::StackUnderflow(op, self.step))
        } else {
            Ok(())
        }
    }
}

} // verus!
