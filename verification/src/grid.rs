//! Evenly spaced grid positions.

use vstd::prelude::*;

use crate::ticks::{lemma_lerp_inside, lerp, lerp_at};

verus! {

/// `steps` evenly spaced values from `start` to `end`, both included, each
/// rounded toward `start`; just the two ends for fewer than two steps.
pub open spec fn linspace_spec(start: i64, end: i64, steps: int) -> Seq<i64> {
    if steps < 2 {
        seq![start, end]
    } else {
        Seq::new(steps as nat, |i: int| lerp_at(start, end, steps - 1, i) as i64)
    }
}

/// The values begin at `start`, finish at `end` and stay between the two.
pub proof fn lemma_linspace_ends(start: i64, end: i64, steps: int)
    ensures
        linspace_spec(start, end, steps).len() >= 2,
        linspace_spec(start, end, steps)[0] == start,
        linspace_spec(start, end, steps).last() == end,
        forall|i: int|
            0 <= i < linspace_spec(start, end, steps).len() && start <= end ==> start
                <= #[trigger] linspace_spec(start, end, steps)[i] <= end,
{
    if steps >= 2 {
        lemma_lerp_inside(start, end, steps - 1, 0);
        assert forall|i: int|
            0 <= i < linspace_spec(start, end, steps).len() && start <= end implies start
            <= #[trigger] linspace_spec(start, end, steps)[i] <= end by {
            lemma_lerp_inside(start, end, steps - 1, i);
        }
    }
}

/// `steps` evenly spaced values from `start` to `end`, both included.
pub fn linspace(start: i64, end: i64, steps: usize) -> (out: Vec<i64>)
    ensures
        out@ == linspace_spec(start, end, steps as int),
{
    let mut out: Vec<i64> = Vec::new();
    if steps < 2 {
        out.push(start);
        out.push(end);
        assert(out@ =~= linspace_spec(start, end, steps as int));
        return out;
    }
    let den: u128 = steps as u128 - 1;
    let mut i: usize = 0;
    while i < steps
        invariant
            steps >= 2,
            den == steps - 1,
            i <= steps,
            out@.len() == i,
            forall|j: int| 0 <= j < i ==> out@[j] == lerp_at(start, end, steps - 1, j) as i64,
        decreases steps - i,
    {
        out.push(lerp(start, end, den, i as u128));
        i += 1;
    }
    assert(out@ =~= linspace_spec(start, end, steps as int));
    out
}

} // verus!
