use crate::felt::Felt;
use vstd::prelude::*;

verus! {

/// Mathematical model of the stack engine's state.
///
/// `cols` is the trace matrix: sixteen columns, each a sequence of field
/// values indexed by clock cycle. `overflow` is the auxiliary last-in,
/// first-out list holding logical stack positions sixteen and above. `step`
/// is the current clock cycle and `depth` the total number of live operand
/// slots (top window and overflow combined).
#[verifier::ext_equal]
pub ghost struct StackView {
    pub step: int,
    pub depth: int,
    pub cols: Seq<Seq<Felt>>,
    pub overflow: Seq<Felt>,
}

impl StackView {
    /// The shared length of every trace column.
    pub open spec fn trace_len(self) -> int {
        self.cols[0].len() as int
    }

    /// How many stack slots live in the top window: `min(depth, 16)`.
    pub open spec fn live_top(self) -> int {
        if self.depth < 16 {
            self.depth
        } else {
            16
        }
    }

    /// Well-formedness: sixteen columns of one positive length, the clock in
    /// range, and the overflow list holding exactly the stack entries beyond
    /// the top window.
    pub open spec fn wf(self) -> bool {
        &&& self.cols.len() == 16
        &&& forall|p: int| 0 <= p < 16 ==> (#[trigger] self.cols[p]).len() == self.trace_len()
        &&& 1 <= self.trace_len()
        &&& 0 <= self.step < self.trace_len()
        &&& 0 <= self.depth
        &&& self.overflow.len() == (if self.depth > 16 { self.depth - 16 } else { 0int })
    }

    /// The value of stack position `p` at clock cycle `s`.
    pub open spec fn at(self, p: int, s: int) -> Felt {
        self.cols[p][s]
    }
}

/// Writes row `step + 1` of columns `lo <= p < hi` with `f(p)`, leaving every
/// other cell, and every other field of the state, unchanged.
pub open spec fn row_written(v: StackView, lo: int, hi: int, f: spec_fn(int) -> Felt) -> StackView {
    StackView {
        cols: Seq::new(
            v.cols.len(),
            |p: int|
                if lo <= p < hi {
                    v.cols[p].update(v.step + 1, f(p))
                } else {
                    v.cols[p]
                },
        ),
        ..v
    }
}

/// The state after `set(pos, x)`: cell `(pos, step + 1)` holds `x`.
pub open spec fn after_set(v: StackView, pos: int, x: Felt) -> StackView {
    StackView { cols: v.cols.update(pos, v.cols[pos].update(v.step + 1, x)), ..v }
}

/// The state after `copy_state(start)`: columns `start..min(depth, 16)` carry
/// their current-cycle value forward into row `step + 1`.
pub open spec fn after_copy(v: StackView, start: int) -> StackView {
    row_written(v, start, v.live_top(), |p: int| v.cols[p][v.step])
}

/// The state after `shift_left(start)`: positions slide down one slot into
/// row `step + 1`, the depth drops by one, and when the overflow list is
/// non-empty its last element refills column 15.
pub open spec fn after_shift_left(v: StackView, start: int) -> StackView {
    if v.depth <= 16 {
        let w = row_written(v, start - 1, v.depth - 1, |p: int| v.cols[p + 1][v.step]);
        StackView { depth: v.depth - 1, ..w }
    } else {
        let w = row_written(
            v,
            start - 1,
            16,
            |p: int|
                if p == 15 {
                    v.overflow.last()
                } else {
                    v.cols[p + 1][v.step]
                },
        );
        StackView { depth: v.depth - 1, overflow: v.overflow.drop_last(), ..w }
    }
}

/// The state after `shift_right(start)`: positions slide up one slot into row
/// `step + 1`, the depth grows by one, and when the stack already fills the
/// top window the outgoing column-15 value is pushed onto the overflow list.
pub open spec fn after_shift_right(v: StackView, start: int) -> StackView {
    if v.depth == 0 {
        StackView { depth: 1, ..v }
    } else if v.depth <= 15 {
        let w = row_written(v, start + 1, v.depth + 1, |p: int| v.cols[p - 1][v.step]);
        StackView { depth: v.depth + 1, ..w }
    } else {
        let w = row_written(v, start + 1, 16, |p: int| v.cols[p - 1][v.step]);
        StackView { depth: v.depth + 1, overflow: v.overflow.push(v.cols[15][v.step]), ..w }
    }
}

/// The state after `advance_clock()`: only the clock moves.
pub open spec fn after_advance(v: StackView) -> StackView {
    StackView { step: v.step + 1, ..v }
}

/// A column extended to length `n` with zeros.
pub open spec fn col_extended(c: Seq<Felt>, n: int) -> Seq<Felt> {
    Seq::new(
        n as nat,
        |s: int|
            if s < c.len() {
                c[s]
            } else {
                Felt::spec_zero()
            },
    )
}

/// The state after `ensure_trace_capacity()`: when row `step + 1` would fall
/// outside the trace, every column is extended with zeros to twice the old
/// trace length; otherwise nothing changes.
pub open spec fn after_grow(v: StackView) -> StackView {
    if v.step + 1 >= v.trace_len() {
        StackView {
            cols: Seq::new(v.cols.len(), |p: int| col_extended(v.cols[p], 2 * v.trace_len())),
            ..v
        }
    } else {
        v
    }
}

/// The state after `finalize()`: the clock stands on the last row, and every
/// row past the old current cycle repeats that cycle's value in each live
/// top-window column.
pub open spec fn after_pad(v: StackView) -> StackView {
    StackView {
        step: v.trace_len() - 1,
        cols: Seq::new(
            v.cols.len(),
            |p: int|
                if 0 <= p < v.live_top() {
                    Seq::new(
                        v.cols[p].len(),
                        |s: int|
                            if v.step < s {
                                v.cols[p][v.step]
                            } else {
                                v.cols[p][s]
                            },
                    )
                } else {
                    v.cols[p]
                },
        ),
        ..v
    }
}

} // verus!
