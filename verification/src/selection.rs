//! Where the selection goes: stepping through a view of a given length,
//! wrapping at both ends, and snapping back into a view that has shrunk.

use vstd::prelude::*;
use crate::table::ROW_HEIGHT;

verus! {

/// The selection after one step down a view of `len` rows: none in an empty
/// view, the first row where nothing was selected or the last row was.
pub open spec fn index_after(selected: Option<usize>, len: nat) -> Option<usize> {
    if len == 0 {
        None
    } else {
        match selected {
            Some(i) => if i + 1 >= len {
                Some(0)
            } else {
                Some((i + 1) as usize)
            },
            None => Some(0),
        }
    }
}

/// The selection after one step up a view of `len` rows: none in an empty
/// view, the first row where nothing was selected, the last row where the
/// first was.
pub open spec fn index_before(selected: Option<usize>, len: nat) -> Option<usize> {
    if len == 0 {
        None
    } else {
        match selected {
            Some(i) => if i == 0 {
                Some((len - 1) as usize)
            } else {
                Some((i - 1) as usize)
            },
            None => Some(0),
        }
    }
}

/// The selection brought back into a view of `len` rows: none in an empty
/// view, the last row where the selection lay behind it, else unchanged.
pub open spec fn clamped(selected: Option<usize>, len: nat) -> Option<usize> {
    if len == 0 {
        None
    } else {
        match selected {
            Some(i) => if i >= len {
                Some((len - 1) as usize)
            } else {
                Some(i)
            },
            None => None,
        }
    }
}

/// The first row of a view of `len` rows, if it has one.
pub open spec fn first_index(len: nat) -> Option<usize> {
    if len == 0 {
        None
    } else {
        Some(0)
    }
}

/// The scrollbar position that goes with a selection.
pub open spec fn scroll_for(selected: Option<usize>) -> int {
    match selected {
        Some(i) => i * ROW_HEIGHT,
        None => 0,
    }
}

/// The selection after `steps` steps down.
pub open spec fn index_after_steps(selected: Option<usize>, len: nat, steps: nat) -> Option<usize>
    decreases steps,
{
    if steps == 0 {
        selected
    } else {
        index_after(index_after_steps(selected, len, (steps - 1) as nat), len)
    }
}

/// The selection after `steps` steps up.
pub open spec fn index_before_steps(selected: Option<usize>, len: nat, steps: nat) -> Option<
    usize,
>
    decreases steps,
{
    if steps == 0 {
        selected
    } else {
        index_before(index_before_steps(selected, len, (steps - 1) as nat), len)
    }
}

proof fn lemma_steps_down(i: usize, len: nat, steps: nat)
    requires
        i + steps < len <= usize::MAX,
    ensures
        index_after_steps(Some(i), len, steps) == Some((i + steps) as usize),
    decreases steps,
{
    if steps > 0 {
        lemma_steps_down(i, len, (steps - 1) as nat);
    }
}

proof fn lemma_steps_up(i: usize, len: nat, steps: nat)
    requires
        steps <= i < len,
    ensures
        index_before_steps(Some(i), len, steps) == Some((i - steps) as usize),
    decreases steps,
{
    if steps > 0 {
        lemma_steps_up(i, len, (steps - 1) as nat);
    }
}

proof fn lemma_steps_down_compose(selected: Option<usize>, len: nat, a: nat, b: nat)
    ensures
        index_after_steps(selected, len, a + b) == index_after_steps(
            index_after_steps(selected, len, a),
            len,
            b,
        ),
    decreases b,
{
    if b > 0 {
        lemma_steps_down_compose(selected, len, a, (b - 1) as nat);
        assert((a + b - 1) as nat == a + (b - 1) as nat);
    }
}

proof fn lemma_steps_up_compose(selected: Option<usize>, len: nat, a: nat, b: nat)
    ensures
        index_before_steps(selected, len, a + b) == index_before_steps(
            index_before_steps(selected, len, a),
            len,
            b,
        ),
    decreases b,
{
    if b > 0 {
        lemma_steps_up_compose(selected, len, a, (b - 1) as nat);
        assert((a + b - 1) as nat == a + (b - 1) as nat);
    }
}

/// As many steps down as the view has rows lead back to the selected row.
pub proof fn lemma_steps_down_cycle(selected: usize, len: nat)
    requires
        selected < len <= usize::MAX,
    ensures
        index_after_steps(Some(selected), len, len) == Some(selected),
{
    let to_last = (len - 1 - selected) as nat;
    lemma_steps_down(selected, len, to_last);
    assert(index_after_steps(Some(selected), len, to_last + 1) == Some(0usize)) by {
        assert(index_after_steps(Some(selected), len, to_last + 1) == index_after(
            index_after_steps(Some(selected), len, to_last),
            len,
        ));
    }
    lemma_steps_down_compose(Some(selected), len, to_last + 1, selected as nat);
    lemma_steps_down(0, len, selected as nat);
    assert(to_last + 1 + selected as nat == len);
}

/// As many steps up as the view has rows lead back to the selected row.
pub proof fn lemma_steps_up_cycle(selected: usize, len: nat)
    requires
        selected < len <= usize::MAX,
    ensures
        index_before_steps(Some(selected), len, len) == Some(selected),
{
    let to_first = selected as nat;
    lemma_steps_up(selected, len, to_first);
    assert(index_before_steps(Some(selected), len, to_first + 1) == Some((len - 1) as usize)) by {
        assert(index_before_steps(Some(selected), len, to_first + 1) == index_before(
            index_before_steps(Some(selected), len, to_first),
            len,
        ));
    }
    let back = (len - 1 - selected) as nat;
    lemma_steps_up_compose(Some(selected), len, to_first + 1, back);
    lemma_steps_up((len - 1) as usize, len, back);
    assert(to_first + 1 + back == len);
}

/// The selection after one step down a view of `len` rows.
pub fn next_index(selected: Option<usize>, len: usize) -> (next: Option<usize>)
    ensures
        next == index_after(selected, len as nat),
{
    if len == 0 {
        None
    } else {
        match selected {
            Some(i) => if i >= len - 1 {
                Some(0)
            } else {
                Some(i + 1)
            },
            None => Some(0),
        }
    }
}

/// The selection after one step up a view of `len` rows.
pub fn previous_index(selected: Option<usize>, len: usize) -> (previous: Option<usize>)
    ensures
        previous == index_before(selected, len as nat),
{
    if len == 0 {
        None
    } else {
        match selected {
            Some(i) => if i == 0 {
                Some(len - 1)
            } else {
                Some(i - 1)
            },
            None => Some(0),
        }
    }
}

/// The selection brought back into a view of `len` rows.
pub fn clamp_index(selected: Option<usize>, len: usize) -> (kept: Option<usize>)
    ensures
        kept == clamped(selected, len as nat),
{
    if len == 0 {
        None
    } else {
        match selected {
            Some(i) => if i >= len {
                Some(len - 1)
            } else {
                Some(i)
            },
            None => None,
        }
    }
}

} // verus!
