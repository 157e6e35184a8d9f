//! Which group of layers is applied at which depth step.
//!
//! A stack of `depth` steps over `groups` groups gives each group a run of
//! `depth / groups` consecutive steps; both divisions round down.

use vstd::arithmetic::div_mod::{lemma_div_is_ordered, lemma_fundamental_div_mod};
use vstd::arithmetic::div_mod::{lemma_div_multiples_vanish, lemma_multiply_divide_lt};
use vstd::arithmetic::div_mod::{lemma_basic_div, lemma_div_by_self, lemma_div_pos_is_pos};
use vstd::arithmetic::div_mod::lemma_div_is_ordered_by_denominator;
use vstd::prelude::*;

verus! {

/// Index of the group applied at depth step `step`.
pub open spec fn group_of(step: int, depth: int, groups: int) -> int {
    step / (depth / groups)
}

/// Every depth step finds its group: the run length is not zero and no index
/// passes the last group.
pub open spec fn schedule_fits(depth: int, groups: int) -> bool {
    depth > 0 ==> {
        &&& groups > 0
        &&& depth / groups > 0
        &&& forall|step: int|
            0 <= step < depth ==> 0 <= #[trigger] group_of(step, depth, groups) < groups
    }
}

/// A schedule fits exactly when it has no step at all, or the groups divide
/// the depth evenly.
pub proof fn lemma_fits_iff_even(depth: int, groups: int)
    ensures
        schedule_fits(depth, groups) <==> (depth <= 0 || (groups > 0 && depth % groups == 0)),
{
    if depth > 0 && groups > 0 {
        let run = depth / groups;
        lemma_fundamental_div_mod(depth, groups);
        if depth % groups == 0 {
            assert(run > 0) by (nonlinear_arith)
                requires
                    depth == groups * run,
                    depth > 0,
                    groups > 0,
            ;
            assert forall|step: int| 0 <= step < depth implies 0 <= #[trigger] group_of(
                step,
                depth,
                groups,
            ) < groups by {
                lemma_div_pos_is_pos(step, run);
                lemma_multiply_divide_lt(step, run, groups);
            }
        } else if run > 0 {
            let last = depth - 1;
            assert(groups * run <= last);
            lemma_div_is_ordered(groups * run, last, run);
            lemma_div_multiples_vanish(groups, run);
            assert(group_of(last, depth, groups) >= groups);
        }
    }
}

/// Without sharing, one group per depth step, the group index is the step.
pub proof fn lemma_no_sharing(step: int, depth: int)
    requires
        0 <= step < depth,
    ensures
        group_of(step, depth, depth) == step,
{
    lemma_div_by_self(depth);
}

/// With a single group every depth step applies that group.
pub proof fn lemma_single_group(step: int, depth: int)
    requires
        0 <= step < depth,
    ensures
        group_of(step, depth, 1) == 0,
{
    lemma_basic_div(step, depth);
}

/// Group `group` is applied at the steps of its own run and at no other.
pub proof fn lemma_group_run(step: int, depth: int, groups: int, group: int)
    requires
        0 <= step < depth,
        schedule_fits(depth, groups),
    ensures
        group_of(step, depth, groups) == group <==> group * (depth / groups) <= step < (group + 1)
            * (depth / groups),
{
    let run = depth / groups;
    lemma_fundamental_div_mod(step, run);
    assert(group_of(step, depth, groups) == group <==> group * run <= step < (group + 1) * run)
        by (nonlinear_arith)
        requires
            run > 0,
            step == run * (step / run) + step % run,
            0 <= step % run < run,
            group_of(step, depth, groups) == step / run,
    ;
}

/// Tells whether every depth step finds its group.
pub fn schedule_is_valid(depth: i64, groups: i64) -> (ok: bool)
    ensures
        ok == schedule_fits(depth as int, groups as int),
{
    proof {
        lemma_fits_iff_even(depth as int, groups as int);
    }
    depth <= 0 || (groups > 0 && depth % groups == 0)
}

/// Index of the group applied at depth step `step`, by the two divisions of
/// `group_of`. Where the groups do not divide the depth evenly, the last
/// steps get an index past the last group.
pub fn group_index(step: i64, depth: i64, groups: i64) -> (index: i64)
    requires
        0 <= step < depth,
        0 < groups,
        0 < depth / groups,
    ensures
        index == group_of(step as int, depth as int, groups as int),
        0 <= index <= step,
        schedule_fits(depth as int, groups as int) ==> index < groups,
{
    proof {
        lemma_div_pos_is_pos(step as int, depth as int / groups as int);
        lemma_div_is_ordered_by_denominator(step as int, 1, depth as int / groups as int);
    }
    let index: i64 = step / (depth / groups);
    assert(schedule_fits(depth as int, groups as int) ==> group_of(
        step as int,
        depth as int,
        groups as int,
    ) < groups);
    index
}

} // verus!
