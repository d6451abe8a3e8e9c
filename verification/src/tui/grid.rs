//! The pane grid: its shape, the way around it, and the order of its boxes.

use vstd::prelude::*;

use crate::store::model::{BoxSpec, BoxSpecView};
use crate::text;

verus! {

/// `cols` columns are the fewest whose square covers `count` cells.
pub open spec fn packs(cols: nat, count: nat) -> bool {
    &&& cols >= 1
    &&& cols * cols >= count
    &&& cols > 1 ==> (cols - 1) * (cols - 1) < count
}

/// The number of columns of a grid of `count` cells.
pub open spec fn columns(count: nat) -> nat {
    choose|cols: nat| packs(cols, count)
}

/// The number of rows of a grid of `count` cells.
pub open spec fn rows(count: nat) -> nat {
    if count <= 1 {
        1
    } else {
        ((count - 1) / columns(count) as int + 1) as nat
    }
}

proof fn packs_once(a: nat, b: nat, count: nat)
    requires
        packs(a, count),
        packs(b, count),
    ensures
        a == b,
{
    if a < b {
        assert((b - 1) * (b - 1) >= a * a) by (nonlinear_arith)
            requires
                a <= b - 1,
        ;
    }
    if b < a {
        assert((a - 1) * (a - 1) >= b * b) by (nonlinear_arith)
            requires
                b <= a - 1,
        ;
    }
}

/// A width that packs the cells is the width of the grid.
pub proof fn columns_are(cols: nat, count: nat)
    requires
        packs(cols, count),
    ensures
        columns(count) == cols,
        packs(columns(count), count),
{
    packs_once(columns(count), cols, count);
}

/// Pack `count` cells into a near-square grid, columns first. Zero cells is a 1×1
/// grid, so that there always is a shape.
pub fn grid_shape(count: usize) -> (r: (usize, usize))
    ensures
        r == (rows(count as nat) as usize, columns(count as nat) as usize),
        r.0 == rows(count as nat),
        r.1 == columns(count as nat),
        packs(columns(count as nat), count as nat),
{
    if count <= 1 {
        proof {
            assert(packs(1, count as nat));
            columns_are(1, count as nat);
        }
        return (1, 1);
    }
    let mut cols: usize = 1;
    assert((cols as u128) * (cols as u128) == 1) by (nonlinear_arith)
        requires
            cols == 1,
    ;
    while (cols as u128) * (cols as u128) < (count as u128)
        invariant
            1 <= cols <= count,
            count > 1,
            cols > 1 ==> (cols - 1) * (cols - 1) < count,
            (cols as u128) * (cols as u128) <= u128::MAX,
        decreases count - cols,
    {
        assert(cols < count) by {
            if cols >= count {
                assert(cols * cols >= count) by (nonlinear_arith)
                    requires
                        cols >= count,
                        count > 1,
                ;
            }
        }
        let next: usize = cols + 1;
        assert(((next as u128) * (next as u128)) <= u128::MAX) by (nonlinear_arith)
            requires
                next <= usize::MAX,
        ;
        cols = next;
    }
    proof {
        columns_are(cols as nat, count as nat);
        assert((count - 1) / (cols as int) < count) by (nonlinear_arith)
            requires
                cols >= 1,
                count > 1,
        ;
    }
    ((count - 1) / cols + 1, cols)
}

/// The grid has a cell for every box, and no column that could be spared.
pub proof fn the_grid_is_near_square(count: nat)
    ensures
        packs(columns(count), count),
        rows(count) * columns(count) >= count,
        rows(count) <= columns(count),
    decreases count,
{
    a_width_exists(count);
    let cols = columns(count);
    if count > 1 {
        let rest = (count - 1) as int;
        vstd::arithmetic::div_mod::lemma_fundamental_div_mod(rest, cols as int);
        let full = rest / cols as int;
        assert((full + 1) * cols >= count) by (nonlinear_arith)
            requires
                rest == cols as int * full + rest % (cols as int),
                rest % (cols as int) < cols,
                rest == count - 1,
        ;
        assert(full < cols) by (nonlinear_arith)
            requires
                rest == cols as int * full + rest % (cols as int),
                rest % (cols as int) >= 0,
                rest < cols * cols,
                cols >= 1,
        ;
    } else {
        assert(packs(1, count));
        columns_are(1, count);
    }
}

proof fn a_width_exists(count: nat)
    ensures
        packs(columns(count), count),
    decreases count,
{
    if count <= 1 {
        assert(packs(1, count));
        columns_are(1, count);
    } else {
        a_width_exists((count - 1) as nat);
        let w = columns((count - 1) as nat);
        if w * w >= count {
            assert(packs(w, count));
            columns_are(w, count);
        } else {
            assert(((w + 1) - 1) * ((w + 1) - 1) == w * w) by (nonlinear_arith);
            assert((w + 1) * (w + 1) >= count) by (nonlinear_arith)
                requires
                    w * w >= count - 1,
                    w >= 1,
            ;
            assert(packs(w + 1, count));
            columns_are(w + 1, count);
        }
    }
}

/// A direction the focus or a grabbed box can travel on the grid.
#[derive(Debug, Clone, Copy, PartialEq, Eq, Structural)]
pub enum GridStep {
    Up,
    Down,
    Left,
    Right,
    /// Linear next cell, wrapping.
    Next,
    /// Linear previous cell, wrapping.
    Prev,
}

/// The cell next to `focus` in a direction, if the packed grid has one there.
pub open spec fn next_cell(focus: nat, count: nat, cols: nat, step: GridStep) -> Option<nat> {
    if cols == 0 {
        None
    } else {
        let target: int = match step {
            GridStep::Up => focus - cols,
            GridStep::Down => (focus + cols) as int,
            GridStep::Left => if focus % cols == 0 {
                -1
            } else {
                focus - 1
            },
            GridStep::Right => if focus % cols + 1 >= cols {
                -1
            } else {
                focus as int + 1
            },
            GridStep::Next => -1,
            GridStep::Prev => -1,
        };
        if 0 <= target < count {
            Some(target as nat)
        } else {
            None
        }
    }
}

/// The neighbour cell in a direction, or `None` when that move would leave the packed
/// grid: an empty trailing cell, or an edge.
pub fn neighbour(focus: usize, count: usize, cols: usize, step: GridStep) -> (r: Option<usize>)
    ensures
        match r {
            Some(target) => next_cell(focus as nat, count as nat, cols as nat, step) == Some(
                target as nat,
            ) && target < count,
            None => next_cell(focus as nat, count as nat, cols as nat, step) is None,
        },
{
    if count == 0 || cols == 0 {
        return None;
    }
    let col: usize = focus % cols;
    match step {
        GridStep::Up => {
            if focus >= cols && focus - cols < count {
                Some(focus - cols)
            } else {
                None
            }
        },
        GridStep::Down => {
            if focus < count && cols < count - focus {
                Some(focus + cols)
            } else {
                None
            }
        },
        GridStep::Left => {
            if focus > 0 && col != 0 && focus - 1 < count {
                Some(focus - 1)
            } else {
                None
            }
        },
        GridStep::Right => {
            if col < cols - 1 && focus < count - 1 {
                Some(focus + 1)
            } else {
                None
            }
        },
        GridStep::Next | GridStep::Prev => None,
    }
}

/// On a grid, a move that goes through is undone by the opposite move.
pub proof fn moves_are_undone(focus: nat, count: nat, cols: nat, target: nat)
    requires
        focus < count,
        cols > 0,
    ensures
        next_cell(focus, count, cols, GridStep::Down) == Some(target) ==> next_cell(
            target,
            count,
            cols,
            GridStep::Up,
        ) == Some(focus),
        next_cell(focus, count, cols, GridStep::Right) == Some(target) ==> next_cell(
            target,
            count,
            cols,
            GridStep::Left,
        ) == Some(focus),
        next_cell(focus, count, cols, GridStep::Up) == Some(target) ==> next_cell(
            target,
            count,
            cols,
            GridStep::Down,
        ) == Some(focus),
        next_cell(focus, count, cols, GridStep::Left) == Some(target) ==> next_cell(
            target,
            count,
            cols,
            GridStep::Right,
        ) == Some(focus),
{
    if next_cell(focus, count, cols, GridStep::Left) == Some(target) {
        vstd::arithmetic::div_mod::lemma_fundamental_div_mod(focus as int, cols as int);
        let q = focus as int / cols as int;
        let m = focus as int % cols as int;
        assert(target as int == q * cols as int + (m - 1)) by (nonlinear_arith)
            requires
                focus as int == cols as int * q + m,
                target as int == focus as int - 1,
        ;
        vstd::arithmetic::div_mod::lemma_fundamental_div_mod_converse(
            target as int,
            cols as int,
            q,
            m - 1,
        );
        assert(target % cols == m - 1);
    }
    if next_cell(focus, count, cols, GridStep::Right) == Some(target) {
        vstd::arithmetic::div_mod::lemma_fundamental_div_mod(focus as int, cols as int);
        let q = focus as int / cols as int;
        let m = focus as int % cols as int;
        assert(target as int == q * cols as int + (m + 1)) by (nonlinear_arith)
            requires
                focus as int == cols as int * q + m,
                target == focus + 1,
        ;
        vstd::arithmetic::div_mod::lemma_fundamental_div_mod_converse(
            target as int,
            cols as int,
            q,
            m + 1,
        );
        assert(target % cols == m + 1);
    }
}

// ── Slot order ──────────────────────────────────────────────────────

/// `boxes` with `b` behind the last box whose slot is not past its own.
pub open spec fn seated(boxes: Seq<BoxSpecView>, b: BoxSpecView) -> Seq<BoxSpecView>
    decreases boxes.len(),
{
    if boxes.len() == 0 || boxes.last().slot <= b.slot {
        boxes.push(b)
    } else {
        seated(boxes.drop_last(), b).push(boxes.last())
    }
}

/// The boxes by slot; those of one slot as they stood.
pub open spec fn slot_order(boxes: Seq<BoxSpecView>) -> Seq<BoxSpecView>
    decreases boxes.len(),
{
    if boxes.len() == 0 {
        Seq::empty()
    } else {
        seated(slot_order(boxes.drop_last()), boxes.last())
    }
}

/// Slots never descend.
pub open spec fn by_slot(boxes: Seq<BoxSpecView>) -> bool {
    forall|i: int, j: int| 0 <= i < j < boxes.len() ==> boxes[i].slot <= boxes[j].slot
}

/// Every box has a slot of its own, and they ascend.
pub open spec fn slots_ascend(boxes: Seq<BoxSpecView>) -> bool {
    forall|i: int, j: int| 0 <= i < j < boxes.len() ==> boxes[i].slot < boxes[j].slot
}

proof fn seated_at(boxes: Seq<BoxSpecView>, b: BoxSpecView, k: int)
    requires
        0 <= k <= boxes.len(),
        forall|i: int| k <= i < boxes.len() ==> (#[trigger] boxes[i]).slot > b.slot,
        k > 0 ==> boxes[k - 1].slot <= b.slot,
    ensures
        seated(boxes, b) == boxes.insert(k, b),
    decreases boxes.len(),
{
    if k < boxes.len() {
        let front = boxes.drop_last();
        assert(boxes.last() == boxes[boxes.len() - 1]);
        assert forall|i: int| k <= i < front.len() implies (#[trigger] front[i]).slot > b.slot by {
            assert(front[i] == boxes[i]);
        }
        seated_at(front, b, k);
        assert(seated(boxes, b) =~= boxes.insert(k, b));
    } else {
        assert(boxes.insert(k, b) =~= boxes.push(b));
    }
}

/// Sorts boxes by slot, keeping those of one slot as they stood.
pub fn sort_by_slot(boxes: Vec<BoxSpec>) -> (r: Vec<BoxSpec>)
    ensures
        text::views(r@) == slot_order(text::views(boxes@)),
        r.len() == boxes.len(),
{
    let ghost given = boxes@;
    let ghost all = text::views(given);
    let mut rest = boxes;
    let mut out: Vec<BoxSpec> = Vec::new();
    let ghost mut done: int = 0;
    assert(rest@ =~= given.skip(0));
    assert(text::views(out@) =~= slot_order(all.take(0)));
    while rest.len() > 0
        invariant
            0 <= done <= given.len(),
            all == text::views(given),
            rest@ == given.skip(done),
            out.len() == done,
            text::views(out@) == slot_order(all.take(done)),
        decreases rest.len(),
    {
        let b = rest.remove(0);
        let ghost before = text::views(out@);
        assert(b@ == all[done]);
        let mut k: usize = out.len();
        while k > 0 && out[k - 1].slot > b.slot
            invariant
                k <= out.len(),
                before == text::views(out@),
                forall|i: int| k <= i < before.len() ==> (#[trigger] before[i]).slot > b.slot,
            decreases k,
        {
            assert(before[k - 1] == out@[k - 1]@);
            k -= 1;
        }
        proof {
            if k > 0 {
                assert(before[k - 1] == out@[k - 1]@);
            }
            seated_at(before, b@, k as int);
        }
        let ghost v = b@;
        out.insert(k, b);
        proof {
            assert(text::views(out@) =~= before.insert(k as int, v));
            assert(all.take(done + 1).drop_last() =~= all.take(done));
            assert(rest@ =~= given.skip(done + 1));
            done = done + 1;
        }
    }
    assert(all.take(done) =~= all);
    out
}

proof fn seated_sorts(boxes: Seq<BoxSpecView>, b: BoxSpecView)
    requires
        by_slot(boxes),
    ensures
        by_slot(seated(boxes, b)),
        seated(boxes, b).to_multiset() == boxes.to_multiset().insert(b),
        seated(boxes, b).len() == boxes.len() + 1,
        forall|i: int|
            0 <= i < seated(boxes, b).len() ==> (#[trigger] seated(boxes, b)[i]).slot <= b.slot || (
            boxes.len() > 0 && seated(boxes, b)[i].slot <= boxes.last().slot),
    decreases boxes.len(),
{
    broadcast use vstd::seq_lib::group_to_multiset_ensures;

    if boxes.len() == 0 || boxes.last().slot <= b.slot {
        assert forall|i: int| 0 <= i < boxes.len() implies (#[trigger] boxes[i]).slot <= b.slot by {
            if i < boxes.len() - 1 {
                assert(boxes[i].slot <= boxes[boxes.len() - 1].slot);
            }
        }
    } else {
        let front = boxes.drop_last();
        seated_sorts(front, b);
        let back = seated(front, b);
        let last = boxes.last();
        assert(boxes =~= front.push(last));
        assert forall|i: int| 0 <= i < back.len() implies (#[trigger] back[i]).slot <= last.slot by {
            if front.len() > 0 {
                assert(front.last() == boxes[boxes.len() - 2]);
            }
        }
        assert(boxes.to_multiset() =~= front.to_multiset().insert(last));
        assert(back.push(last).to_multiset() =~= boxes.to_multiset().insert(b));
    }
}

/// Sorting by slot puts the same boxes in ascending slots.
pub proof fn slot_order_sorts(boxes: Seq<BoxSpecView>)
    ensures
        by_slot(slot_order(boxes)),
        slot_order(boxes).to_multiset() == boxes.to_multiset(),
        slot_order(boxes).len() == boxes.len(),
    decreases boxes.len(),
{
    broadcast use vstd::seq_lib::group_to_multiset_ensures;

    if boxes.len() > 0 {
        slot_order_sorts(boxes.drop_last());
        seated_sorts(slot_order(boxes.drop_last()), boxes.last());
        assert(boxes =~= boxes.drop_last().push(boxes.last()));
    } else {
        assert(boxes =~= Seq::empty());
    }
}

proof fn one_ascending_order(s: Seq<BoxSpecView>, u: Seq<BoxSpecView>)
    requires
        by_slot(s),
        slots_ascend(u),
        s.to_multiset() == u.to_multiset(),
        s.len() == u.len(),
    ensures
        s == u,
    decreases s.len(),
{
    broadcast use vstd::seq_lib::group_to_multiset_ensures;

    if s.len() > 0 {
        let n = s.len() as int;
        let a = s[n - 1];
        let b = u[n - 1];
        assert(s.to_multiset().contains(a));
        assert(u.to_multiset().contains(b));
        assert(u.contains(a));
        assert(s.contains(b));
        let i = choose|i: int| 0 <= i < n && u[i] == a;
        let j = choose|j: int| 0 <= j < n && s[j] == b;
        assert(a.slot <= b.slot) by {
            if i < n - 1 {
                assert(u[i].slot < u[n - 1].slot);
            }
        }
        assert(b.slot <= a.slot) by {
            if j < n - 1 {
                assert(s[j].slot <= s[n - 1].slot);
            }
        }
        assert(i == n - 1) by {
            if i < n - 1 {
                assert(u[i].slot < u[n - 1].slot);
            }
        }
        assert(a == b);
        let s0 = s.drop_last();
        let u0 = u.drop_last();
        assert(s =~= s0.push(a));
        assert(u =~= u0.push(b));
        assert(s0.to_multiset() =~= s.to_multiset().remove(a));
        assert(u0.to_multiset() =~= u.to_multiset().remove(b));
        one_ascending_order(s0, u0);
    } else {
        assert(s =~= u);
    }
}

/// Two boxes that exchange their slots exchange their places, and no other box moves.
pub proof fn exchanged_slots_exchange_places(boxes: Seq<BoxSpecView>, f: int, t: int)
    requires
        slots_ascend(boxes),
        0 <= f < boxes.len(),
        0 <= t < boxes.len(),
        f != t,
    ensures
        ({
            let x = BoxSpecView { slot: boxes[t].slot, ..boxes[f] };
            let y = BoxSpecView { slot: boxes[f].slot, ..boxes[t] };
            slot_order(boxes.update(f, x).update(t, y)) == boxes.update(f, y).update(t, x)
        }),
{
    broadcast use vstd::seq_lib::group_to_multiset_ensures;

    let x = BoxSpecView { slot: boxes[t].slot, ..boxes[f] };
    let y = BoxSpecView { slot: boxes[f].slot, ..boxes[t] };
    let a = boxes.update(f, x).update(t, y);
    let u = boxes.update(f, y).update(t, x);
    assert(slots_ascend(u)) by {
        assert forall|i: int, j: int| 0 <= i < j < u.len() implies u[i].slot < u[j].slot by {
            assert(boxes[i].slot < boxes[j].slot);
        }
    }
    assert(a.to_multiset() =~= u.to_multiset());
    slot_order_sorts(a);
    one_ascending_order(slot_order(a), u);
}

/// Where each move leads: one row up or down, or one cell along the same row, where there is
/// a box; anywhere else it leads nowhere.
pub proof fn where_each_move_leads(focus: nat, count: nat, cols: nat, target: nat)
    requires
        focus < count,
        cols > 0,
    ensures
        next_cell(focus, count, cols, GridStep::Up) == Some(target) <==> target + cols == focus,
        next_cell(focus, count, cols, GridStep::Down) == Some(target) <==> target == focus + cols
            && target < count,
        next_cell(focus, count, cols, GridStep::Left) == Some(target) <==> target + 1 == focus
            && focus % cols != 0,
        next_cell(focus, count, cols, GridStep::Right) == Some(target) <==> target == focus + 1
            && target < count && focus % cols != cols - 1,
        next_cell(focus, count, cols, GridStep::Next) is None,
        next_cell(focus, count, cols, GridStep::Prev) is None,
        next_cell(focus, count, 0, GridStep::Down) is None,
{
    assert(0 <= focus % cols < cols) by (nonlinear_arith)
        requires
            cols > 0,
    ;
}

/// No row of the grid is spare: without the last one the boxes would not fit.
pub proof fn no_row_is_spare(count: nat)
    requires
        count > 0,
    ensures
        rows(count) >= 1,
        (rows(count) - 1) * columns(count) < count,
        columns(count) >= 1,
{
    the_grid_is_near_square(count);
    let c = columns(count) as int;
    if count > 1 {
        let q = (count - 1) / c;
        assert(q * c <= count - 1) by (nonlinear_arith)
            requires
                c >= 1,
                q == (count - 1) / c,
        ;
        assert(q >= 0) by (nonlinear_arith)
            requires
                c >= 1,
                q == (count - 1) / c,
                count > 1,
        ;
    } else {
        let spare = rows(count) - 1;
        assert(spare * c == 0) by (nonlinear_arith)
            requires
                spare == 0,
        ;
    }
}

} // verus!
