//! Clamped index arithmetic shared by every navigable collection: table rows
//! and columns, prompt entries, and the tab strip.

use vstd::prelude::*;

verus! {

/// Whether `index` is a legal focus position in a collection of `max` entries.
/// An empty collection keeps its focus parked at zero.
pub open spec fn in_bounds(index: int, max: int) -> bool {
    if max <= 0 {
        index == 0
    } else {
        0 <= index < max
    }
}

/// The position nearest to `index` that is legal for `max` entries.
pub open spec fn clamped(index: int, max: int) -> int {
    if max <= 0 {
        0
    } else if index >= max {
        max - 1
    } else {
        index
    }
}

/// `index` moved forward by `amount`, stopping at the last entry.
pub open spec fn moved_up(index: int, amount: int, max: int) -> int {
    if index + amount >= max {
        clamped(index + amount, max)
    } else {
        index + amount
    }
}

/// The part of a forward move that could not be applied.
pub open spec fn overshoot(index: int, amount: int, max: int) -> int {
    if index + amount >= max {
        if max <= 0 {
            amount
        } else {
            index + amount - (max - 1)
        }
    } else {
        0
    }
}

/// `index` moved backward by `amount`, stopping at zero.
pub open spec fn moved_down(index: int, amount: int) -> int {
    if index <= amount {
        0
    } else {
        index - amount
    }
}

/// `index` after a signed move of `delta` within `max` entries. A zero move
/// leaves the index as it is.
pub open spec fn shifted(index: int, delta: int, max: int) -> int {
    if delta > 0 {
        moved_up(index, delta, max)
    } else if delta < 0 {
        moved_down(index, -delta)
    } else {
        index
    }
}

/// `index` after the moves in `deltas`, applied first to last.
pub open spec fn shifted_all(index: int, deltas: Seq<int>, max: int) -> int
    decreases deltas.len(),
{
    if deltas.len() == 0 {
        index
    } else {
        shifted(shifted_all(index, deltas.drop_last(), max), deltas.last(), max)
    }
}

/// Brings `orig` back inside a collection of `max` entries.
pub fn clamp_val(orig: &mut usize, max: usize)
    ensures
        *final(orig) == clamped(*old(orig) as int, max as int),
        in_bounds(*final(orig) as int, max as int),
{
    if max == 0 {
        *orig = 0;
    } else if *orig >= max {
        *orig = max - 1;
    }
}

/// Increments `orig` by `amount` without reaching `max`, and returns how much
/// of the move was left over (capped at `usize::MAX`).
pub fn inc_val(orig: &mut usize, amount: usize, max: usize) -> (left_over: usize)
    ensures
        *final(orig) == moved_up(*old(orig) as int, amount as int, max as int),
        left_over == if overshoot(*old(orig) as int, amount as int, max as int) > usize::MAX {
            usize::MAX as int
        } else {
            overshoot(*old(orig) as int, amount as int, max as int)
        },
{
    if max == 0 {
        *orig = 0;
        return amount;
    }
    let last: usize = max - 1;
    if *orig > last || amount >= max - *orig {
        let beyond: usize = if *orig > last {
            (*orig - last).saturating_add(amount)
        } else {
            amount - (last - *orig)
        };
        *orig = last;
        return beyond;
    }
    *orig = *orig + amount;
    0
}

/// Decrements `orig` by `amount` without going below zero.
pub fn dec_val(orig: &mut usize, amount: usize)
    ensures
        *final(orig) == moved_down(*old(orig) as int, amount as int),
{
    if *orig <= amount {
        *orig = 0;
    } else {
        *orig = *orig - amount;
    }
}

/// The magnitude of `offset`.
pub fn magnitude(offset: isize) -> (m: usize)
    ensures
        m == if offset < 0 { -(offset as int) } else { offset as int },
{
    if offset >= 0 {
        offset as usize
    } else if offset == isize::MIN {
        (isize::MAX as usize) + 1
    } else {
        (-offset) as usize
    }
}

/// Moves `orig` by the signed `offset` inside a collection of `max` entries:
/// forward moves stop at the last entry, backward moves stop at zero, and a
/// zero offset changes nothing. Returns what `inc_val` returns for a forward
/// move and zero otherwise.
pub fn apply_offset(orig: &mut usize, offset: isize, max: usize) -> (left_over: usize)
    ensures
        *final(orig) == shifted(*old(orig) as int, offset as int, max as int),
        offset <= 0 ==> left_over == 0,
        offset > 0 ==> left_over == if overshoot(*old(orig) as int, offset as int, max as int)
            > usize::MAX {
            usize::MAX as int
        } else {
            overshoot(*old(orig) as int, offset as int, max as int)
        },
{
    if offset > 0 {
        return inc_val(orig, magnitude(offset), max);
    }
    if offset < 0 {
        dec_val(orig, magnitude(offset));
    }
    0
}

/// A forward move always lands inside the collection, whatever the starting
/// index and however far the move overshoots; any move keeps an index inside
/// that was inside before.
pub proof fn lemma_shift_stays_in_bounds(index: int, delta: int, max: int)
    requires
        0 <= index,
        0 <= max,
        delta > 0 || in_bounds(index, max),
    ensures
        in_bounds(shifted(index, delta, max), max),
{
}

/// After every move of a sequence of moves the index is inside the
/// collection, provided it started inside or the first move goes forward.
pub proof fn lemma_shift_sequence_stays_in_bounds(index: int, deltas: Seq<int>, max: int, k: int)
    requires
        0 <= index,
        0 <= max,
        0 < k <= deltas.len(),
        in_bounds(index, max) || deltas[0] > 0,
    ensures
        in_bounds(shifted_all(index, deltas.take(k), max), max),
    decreases k,
{
    let prefix = deltas.take(k);
    assert(prefix.drop_last() =~= deltas.take(k - 1));
    assert(prefix.last() == deltas[k - 1]);
    if k == 1 {
        assert(shifted_all(index, deltas.take(0), max) == index);
        lemma_shift_stays_in_bounds(index, deltas[0], max);
    } else {
        lemma_shift_sequence_stays_in_bounds(index, deltas, max, k - 1);
        let before = shifted_all(index, deltas.take(k - 1), max);
        lemma_shift_stays_in_bounds(before, deltas[k - 1], max);
    }
}

} // verus!
