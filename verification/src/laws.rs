use crate::felt::Felt;
use crate::model::StackView;
use crate::model::after_grow;
use crate::model::after_pad;
use crate::model::after_shift_left;
use crate::model::after_shift_right;
use vstd::prelude::*;

verus! {

/// A push immediately reversed by a pop at the same position restores the
/// stack: depth, overflow list, clock, and every trace cell outside the
/// write-ahead row `step + 1` are exactly as before the pair. Sequences of
/// such matched pairs therefore restore them as well.
pub proof fn lemma_matched_shift_round_trip(v: StackView, pos: int)
    requires
        v.wf(),
        0 <= pos,
        pos + 1 < 16,
        pos <= v.depth,
        v.step + 1 < v.trace_len(),
    ensures
        after_shift_left(after_shift_right(v, pos), pos + 1).depth == v.depth,
        after_shift_left(after_shift_right(v, pos), pos + 1).overflow == v.overflow,
        after_shift_left(after_shift_right(v, pos), pos + 1).step == v.step,
        forall|p: int, s: int|
            0 <= p < 16 && 0 <= s < v.trace_len() && s != v.step + 1 ==> after_shift_left(
                after_shift_right(v, pos),
                pos + 1,
            ).at(p, s) == v.at(p, s),
{
    let mid = after_shift_right(v, pos);
    let w = after_shift_left(mid, pos + 1);
    if v.depth >= 16 {
        assert(mid.overflow.drop_last() =~= v.overflow);
    }
    assert forall|p: int, s: int|
        0 <= p < 16 && 0 <= s < v.trace_len() && s != v.step + 1 implies w.at(p, s) == v.at(
        p,
        s,
    ) by {
        assert(v.cols[p].len() == v.trace_len());
    }
}

/// The state after a whole sequence of matched pairs: for each listed
/// position, a push there immediately reversed by the pop at that position.
pub open spec fn matched_pairs(v: StackView, positions: Seq<int>) -> StackView
    decreases positions.len(),
{
    if positions.len() == 0 {
        v
    } else {
        matched_pairs(
            after_shift_left(after_shift_right(v, positions[0]), positions[0] + 1),
            positions.drop_first(),
        )
    }
}

/// Any sequence of matched push/pop pairs restores depth, overflow list,
/// clock, and every trace cell outside the write-ahead row `step + 1`.
pub proof fn lemma_matched_sequence_round_trip(v: StackView, positions: Seq<int>)
    requires
        v.wf(),
        v.step + 1 < v.trace_len(),
        forall|k: int|
            0 <= k < positions.len() ==> 0 <= #[trigger] positions[k] && positions[k] + 1 < 16
                && positions[k] <= v.depth,
    ensures
        matched_pairs(v, positions).wf(),
        matched_pairs(v, positions).depth == v.depth,
        matched_pairs(v, positions).overflow == v.overflow,
        matched_pairs(v, positions).step == v.step,
        matched_pairs(v, positions).trace_len() == v.trace_len(),
        forall|p: int, s: int|
            0 <= p < 16 && 0 <= s < v.trace_len() && s != v.step + 1 ==> matched_pairs(
                v,
                positions,
            ).at(p, s) == v.at(p, s),
    decreases positions.len(),
{
    if positions.len() > 0 {
        let pos = positions[0];
        let w = after_shift_left(after_shift_right(v, pos), pos + 1);
        lemma_matched_shift_round_trip(v, pos);
        assert forall|p: int| 0 <= p < 16 implies (#[trigger] w.cols[p]).len()
            == v.trace_len() by {
            assert(v.cols[p].len() == v.trace_len());
        }
        assert(w.cols[0].len() == v.trace_len());
        lemma_matched_sequence_round_trip(w, positions.drop_first());
        assert forall|p: int, s: int|
            0 <= p < 16 && 0 <= s < v.trace_len() && s != v.step + 1 implies matched_pairs(
            v,
            positions,
        ).at(p, s) == v.at(p, s) by {
            assert(matched_pairs(w, positions.drop_first()).at(p, s) == w.at(p, s));
        }
    }
}

/// Crossing the top-window boundary upward (a push at depth 16) moves the
/// pre-call column-15 value onto the overflow list, where it stays
/// retrievable; crossing back down (a pop at depth 17) restores that exact
/// value into column 15 at the next cycle and leaves the overflow list empty.
pub proof fn lemma_top_window_boundary(v: StackView, pos: int, start: int)
    requires
        v.wf(),
        v.depth == 16,
        0 <= pos < 16,
        0 < start < 16,
        v.step + 1 < v.trace_len(),
    ensures
        after_shift_right(v, pos).depth == 17,
        after_shift_right(v, pos).overflow == v.overflow.push(v.at(15, v.step)),
        after_shift_right(v, pos).overflow.last() == v.at(15, v.step),
        after_shift_left(after_shift_right(v, pos), start).depth == 16,
        after_shift_left(after_shift_right(v, pos), start).overflow.len() == 0,
        after_shift_left(after_shift_right(v, pos), start).at(15, v.step + 1) == v.at(
            15,
            v.step,
        ),
{
    let mid = after_shift_right(v, pos);
    let w = after_shift_left(mid, start);
    assert(mid.overflow.last() == v.at(15, v.step));
    assert(w.overflow =~= Seq::<Felt>::empty());
}

/// Growing the trace doubles its length exactly when row `step + 1` would
/// fall outside it, leaves every previously recorded cell unchanged, fills
/// the new rows with zeros, and touches neither clock, depth nor overflow.
pub proof fn lemma_capacity_growth(v: StackView)
    requires
        v.wf(),
    ensures
        v.step + 1 >= v.trace_len() ==> after_grow(v).trace_len() == 2 * v.trace_len(),
        v.step + 1 < v.trace_len() ==> after_grow(v) == v,
        after_grow(v).step == v.step,
        after_grow(v).depth == v.depth,
        after_grow(v).overflow == v.overflow,
        forall|p: int, s: int|
            0 <= p < 16 && 0 <= s < v.trace_len() ==> after_grow(v).at(p, s) == v.at(p, s),
        forall|p: int, s: int|
            0 <= p < 16 && v.trace_len() <= s < after_grow(v).trace_len() ==> after_grow(v).at(
                p,
                s,
            ) == Felt::spec_zero(),
{
    assert forall|p: int, s: int|
        0 <= p < 16 && 0 <= s < v.trace_len() implies after_grow(v).at(p, s) == v.at(p, s) by {
        assert(v.cols[p].len() == v.trace_len());
    }
}

/// Padding the trace is idempotent in effect: once the clock stands on the
/// last row another `finalize` changes nothing, and after one padding every
/// row from the last real cycle to the final row holds that cycle's value in
/// each live top-window column, the other columns staying untouched.
pub proof fn lemma_finalize_idempotent(v: StackView)
    requires
        v.wf(),
    ensures
        after_pad(after_pad(v)) == after_pad(v),
        v.step == v.trace_len() - 1 ==> after_pad(v) == v,
        forall|p: int, s: int|
            0 <= p < v.live_top() && v.step <= s < v.trace_len() ==> after_pad(v).at(p, s) == v.at(
                p,
                v.step,
            ),
        forall|p: int| v.live_top() <= p < 16 ==> after_pad(v).cols[p] == v.cols[p],
{
    let w = after_pad(v);
    assert forall|p: int| 0 <= p < 16 implies after_pad(w).cols[p] == w.cols[p] by {
        assert(v.cols[p].len() == v.trace_len());
        if p < w.live_top() {
            assert(after_pad(w).cols[p] =~= w.cols[p]);
        }
    }
    assert(after_pad(w) =~~= w);
    if v.step == v.trace_len() - 1 {
        assert forall|p: int| 0 <= p < 16 implies w.cols[p] == v.cols[p] by {
            assert(v.cols[p].len() == v.trace_len());
            if p < v.live_top() {
                assert(w.cols[p] =~= v.cols[p]);
            }
        }
        assert(w =~~= v);
    }
}

} // verus!
