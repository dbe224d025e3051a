//! Cyclic arithmetic on pane indices, and the fullscreen toggle.

use vstd::prelude::*;

verus! {

/// The index after `index` among `count` panes, wrapping to the first.
pub open spec fn next_index(index: int, count: int) -> int {
    (index + 1) % count
}

/// The index before `index` among `count` panes, wrapping to the last.
pub open spec fn prev_index(index: int, count: int) -> int {
    (index + count - 1) % count
}

/// The index reached from `index` by `steps` moves to the next pane.
pub open spec fn advance(index: int, count: int, steps: nat) -> int
    decreases steps,
{
    if steps == 0 {
        index
    } else {
        next_index(advance(index, count, (steps - 1) as nat), count)
    }
}

/// The fullscreen override after a toggle: the focused pane takes the content
/// area if no pane had it, and whichever pane had it gives it back.
pub open spec fn toggled(fullscreen: Option<usize>, focused: usize) -> Option<usize> {
    match fullscreen {
        None => Some(focused),
        Some(_) => None,
    }
}

/// A remainder below the modulus is its own remainder, also after one more
/// turn round the cycle.
proof fn lemma_wrap(x: int, count: int)
    requires
        0 <= x < count,
    ensures
        x % count == x,
        (x + count) % count == x,
        count % count == 0,
{
    vstd::arithmetic::div_mod::lemma_small_mod(x as nat, count as nat);
    vstd::arithmetic::div_mod::lemma_mod_add_multiples_vanish(x, count);
    vstd::arithmetic::div_mod::lemma_mod_self_0(count);
}

/// The index after `index` among `count` panes.
pub fn wrap_next(index: usize, count: usize) -> (next: usize)
    requires
        index < count,
    ensures
        next == next_index(index as int, count as int),
        next < count,
{
    proof {
        if index + 1 < count {
            lemma_wrap(index + 1, count as int);
        } else {
            lemma_wrap(0, count as int);
        }
    }
    if index + 1 == count {
        0
    } else {
        index + 1
    }
}

/// The index before `index` among `count` panes.
pub fn wrap_prev(index: usize, count: usize) -> (prev: usize)
    requires
        index < count,
    ensures
        prev == prev_index(index as int, count as int),
        prev < count,
{
    proof {
        if index == 0 {
            lemma_wrap(count - 1, count as int);
        } else {
            lemma_wrap(index - 1, count as int);
        }
    }
    if index == 0 {
        count - 1
    } else {
        index - 1
    }
}

/// The fullscreen override after a toggle.
pub fn toggle(fullscreen: Option<usize>, focused: usize) -> (after: Option<usize>)
    ensures
        after == toggled(fullscreen, focused),
{
    match fullscreen {
        None => Some(focused),
        Some(_) => None,
    }
}

/// Moving to the next pane and then to the previous one, or the other way
/// round, ends on the pane where it began.
pub proof fn lemma_next_prev_inverse(index: int, count: int)
    requires
        0 <= index < count,
    ensures
        0 <= next_index(index, count) < count,
        0 <= prev_index(index, count) < count,
        prev_index(next_index(index, count), count) == index,
        next_index(prev_index(index, count), count) == index,
{
    lemma_wrap(index, count);
    if index + 1 < count {
        lemma_wrap(index + 1, count);
    }
    if index > 0 {
        lemma_wrap(index - 1, count);
    } else {
        lemma_wrap(count - 1, count);
    }
}

/// Any number of moves to the next pane lands on the pane that lies that many
/// places further round the cycle.
pub proof fn lemma_advance(index: int, count: int, steps: nat)
    requires
        0 <= index < count,
    ensures
        advance(index, count, steps) == (index + steps) % count,
        0 <= advance(index, count, steps) < count,
    decreases steps,
{
    if steps == 0 {
        lemma_wrap(index, count);
    } else {
        lemma_advance(index, count, (steps - 1) as nat);
        vstd::arithmetic::div_mod::lemma_add_mod_noop_right(1, index + steps - 1, count);
        assert(1 + (index + steps - 1) == index + steps);
        assert(1 + (index + steps - 1) % count == (index + steps - 1) % count + 1);
        vstd::arithmetic::div_mod::lemma_mod_pos_bound(index + steps, count);
    }
}

/// As many moves to the next pane as there are panes bring the focus back to
/// the pane where it began.
pub proof fn lemma_full_cycle(index: int, count: int)
    requires
        0 <= index < count,
    ensures
        advance(index, count, count as nat) == index,
{
    lemma_advance(index, count, count as nat);
    lemma_wrap(index, count);
}

/// Two toggles from the split layout end in the split layout again.
pub proof fn lemma_toggle_involution(focused: usize, later: usize)
    ensures
        toggled(None, focused) == Some(focused),
        toggled(toggled(None, focused), later) == None::<usize>,
{
}

} // verus!
