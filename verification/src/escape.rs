//! The decisions of the escape-time evaluator.
//!
//! The evaluator iterates a point of the plane and watches for the first
//! iteration after which the iterate lies outside the disc of radius two.
//! The iterating is arithmetic on the plane and happens with the caller.
//! What to make of each iteration is decided here: an evaluation is
//! `Running` until the iterate is seen outside, which finishes it with the
//! step, or until the budget is used up, which finishes it with `None`.
//!
//! An orbit stands for the iterates of one point: `orbit(i)` says whether
//! the iterate lies outside the disc after iteration `i`, counted from zero.

use vstd::prelude::*;

verus! {

/// Where an evaluation stands.
#[derive(Clone, Copy, Debug, PartialEq, Eq, Structural)]
pub enum Evaluation {
    /// The iteration with this step is due.
    Running(u32),
    /// The evaluation is over: the point escaped at the step given, or it
    /// stayed bounded through the whole budget.
    Finished(Option<u32>),
}

impl Evaluation {
    /// An evaluation before its first iteration. With no budget it is over
    /// at once.
    pub open spec fn spec_begin(limit: u32) -> Evaluation {
        if limit == 0 {
            Evaluation::Finished(None)
        } else {
            Evaluation::Running(0)
        }
    }

    /// The evaluation after one more iteration, given whether the iterate
    /// then lies outside the disc. A finished evaluation stays as it is.
    pub open spec fn spec_advance(self, limit: u32, outside: bool) -> Evaluation {
        match self {
            Evaluation::Finished(_) => self,
            Evaluation::Running(step) => if outside {
                Evaluation::Finished(Some(step))
            } else if step + 1 >= limit {
                Evaluation::Finished(None)
            } else {
                Evaluation::Running((step + 1) as u32)
            },
        }
    }

    /// An evaluation before its first iteration.
    #[inline]
    pub fn begin(limit: u32) -> (evaluation: Evaluation)
        ensures
            evaluation == Self::spec_begin(limit),
    {
        if limit == 0 {
            Evaluation::Finished(None)
        } else {
            Evaluation::Running(0)
        }
    }

    /// The evaluation after one more iteration, given whether the iterate
    /// then lies outside the disc.
    #[inline]
    pub fn advance(self, limit: u32, outside: bool) -> (evaluation: Evaluation)
        ensures
            evaluation == self.spec_advance(limit, outside),
    {
        match self {
            Evaluation::Finished(_) => self,
            Evaluation::Running(step) => if outside {
                Evaluation::Finished(Some(step))
            } else if limit == 0 || step >= limit - 1 {
                Evaluation::Finished(None)
            } else {
                Evaluation::Running(step + 1)
            },
        }
    }
}

/// Whether the iterate lies outside the disc after iteration `step`.
pub open spec fn outside(orbit: spec_fn(int) -> bool, step: int) -> bool {
    orbit(step)
}

/// The first step from `from` on and below `limit` at which the orbit is
/// outside the disc, if there is one.
pub open spec fn first_outside(orbit: spec_fn(int) -> bool, from: int, limit: int) -> Option<u32>
    decreases limit - from,
{
    if from >= limit {
        None
    } else if outside(orbit, from) {
        Some(from as u32)
    } else {
        first_outside(orbit, from + 1, limit)
    }
}

/// The escape time of an orbit under a budget: the first step below the
/// budget at which the orbit is outside the disc, or `None` if it stays
/// inside through the whole budget.
pub open spec fn spec_escape_time(orbit: spec_fn(int) -> bool, limit: u32) -> Option<u32> {
    first_outside(orbit, 0, limit as int)
}

/// Where the evaluation of an orbit stands after `steps` iterations.
pub open spec fn evaluation_after(orbit: spec_fn(int) -> bool, limit: u32, steps: nat) -> Evaluation
    decreases steps,
{
    if steps == 0 {
        Evaluation::spec_begin(limit)
    } else {
        evaluation_after(orbit, limit, (steps - 1) as nat).spec_advance(
            limit,
            outside(orbit, steps - 1),
        )
    }
}

/// What `first_outside` finds: a step in its range at which the orbit is
/// outside and before which, from `from` on, it is inside; or nothing, and
/// then the orbit is inside at every step of the range.
pub proof fn lemma_first_outside(orbit: spec_fn(int) -> bool, from: int, limit: int)
    requires
        0 <= from,
        limit <= u32::MAX,
    ensures
        match first_outside(orbit, from, limit) {
            Some(step) => {
                &&& from <= step < limit
                &&& outside(orbit, step as int)
                &&& forall|earlier: int| from <= earlier < step ==> !outside(orbit, earlier)
            },
            None => forall|step: int| from <= step < limit ==> !outside(orbit, step),
        },
    decreases limit - from,
{
    if from < limit && !outside(orbit, from) {
        lemma_first_outside(orbit, from + 1, limit);
    }
}

/// The escape time is the least step below the budget at which the orbit is
/// outside the disc, and `None` exactly if there is no such step. A step
/// that is reported lies below the budget.
pub proof fn lemma_escape_time_is_first(orbit: spec_fn(int) -> bool, limit: u32, step: u32)
    ensures
        spec_escape_time(orbit, limit) == Some(step) <==> {
            &&& step < limit
            &&& outside(orbit, step as int)
            &&& forall|earlier: int| 0 <= earlier < step ==> !outside(orbit, earlier)
        },
        spec_escape_time(orbit, limit) is None <==> forall|any: int|
            0 <= any < limit ==> !outside(orbit, any),
{
    lemma_first_outside(orbit, 0, limit as int);
    // Two different first steps cannot be: the orbit would be both inside
    // and outside at the earlier of them.
    match spec_escape_time(orbit, limit) {
        Some(found) => {
            if step < limit && outside(orbit, step as int) && forall|earlier: int|
                0 <= earlier < step ==> !outside(orbit, earlier) {
                if found < step {
                    assert(!outside(orbit, found as int));
                }
                if step < found {
                    assert(!outside(orbit, step as int));
                }
            }
            assert(outside(orbit, found as int));
        },
        None => {
            if step < limit && outside(orbit, step as int) {
                assert(!outside(orbit, step as int));
            }
        },
    }
}

/// An evaluation that is advanced once for each iteration runs until the
/// orbit is first seen outside the disc or the budget is used up, and then
/// holds the escape time.
pub proof fn lemma_evaluation_follows_orbit(orbit: spec_fn(int) -> bool, limit: u32, steps: nat)
    requires
        steps <= limit,
    ensures
        evaluation_after(orbit, limit, steps) == match first_outside(orbit, 0, steps as int) {
            Some(step) => Evaluation::Finished(Some(step)),
            None => if steps == limit {
                Evaluation::Finished(None)
            } else {
                Evaluation::Running(steps as u32)
            },
        },
        steps == limit ==> evaluation_after(orbit, limit, steps) == Evaluation::Finished(
            spec_escape_time(orbit, limit),
        ),
    decreases steps,
{
    lemma_first_outside(orbit, 0, steps as int);
    if steps > 0 {
        let before = (steps - 1) as nat;
        lemma_evaluation_follows_orbit(orbit, limit, before);
        lemma_first_outside(orbit, 0, before as int);
        lemma_prefix_agrees(orbit, before as int, steps as int);
    }
}

/// Looking further along the orbit does not change what was found, and
/// finds the next step if nothing was found and the orbit is outside there.
proof fn lemma_prefix_agrees(orbit: spec_fn(int) -> bool, short: int, long: int)
    requires
        0 <= short <= long <= u32::MAX,
    ensures
        first_outside(orbit, 0, short) is Some ==> first_outside(orbit, 0, long) == first_outside(
            orbit,
            0,
            short,
        ),
        first_outside(orbit, 0, short) is None && long == short + 1 ==> first_outside(
            orbit,
            0,
            long,
        ) == if outside(orbit, short) {
            Some(short as u32)
        } else {
            None
        },
{
    lemma_first_outside(orbit, 0, short);
    lemma_first_outside(orbit, 0, long);
    match (first_outside(orbit, 0, short), first_outside(orbit, 0, long)) {
        (Some(near), Some(far)) => {
            if near < far {
                assert(!outside(orbit, near as int));
            }
            if far < near {
                assert(!outside(orbit, far as int));
            }
        },
        (Some(near), None) => {
            assert(!outside(orbit, near as int));
        },
        (None, Some(far)) => {
            if far < short {
                assert(!outside(orbit, far as int));
            }
        },
        (None, None) => {
            if long == short + 1 {
                assert(!outside(orbit, short));
            }
        },
    }
}

/// A larger budget never turns a point that escaped into a bounded one: it
/// escapes at the same step.
pub proof fn lemma_larger_budget_keeps_escape(
    orbit: spec_fn(int) -> bool,
    limit: u32,
    larger: u32,
)
    requires
        limit <= larger,
        spec_escape_time(orbit, limit) is Some,
    ensures
        spec_escape_time(orbit, larger) == spec_escape_time(orbit, limit),
{
    lemma_prefix_agrees(orbit, limit as int, larger as int);
}

/// A point whose orbit never leaves the disc is bounded under every budget.
pub proof fn lemma_inside_orbit_is_bounded(orbit: spec_fn(int) -> bool, limit: u32)
    requires
        forall|step: int| 0 <= step ==> !outside(orbit, step),
    ensures
        spec_escape_time(orbit, limit) is None,
{
    lemma_first_outside(orbit, 0, limit as int);
    if let Some(step) = spec_escape_time(orbit, limit) {
        assert(!outside(orbit, step as int));
    }
}

/// A point whose first iterate already lies outside the disc escapes at
/// step 0 under every budget that allows an iteration.
pub proof fn lemma_outside_at_once_escapes_at_zero(orbit: spec_fn(int) -> bool, limit: u32)
    requires
        limit >= 1,
        outside(orbit, 0),
    ensures
        spec_escape_time(orbit, limit) == Some(0u32),
{
}

} // verus!
