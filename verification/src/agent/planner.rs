//! Planner: a task as a trackable list of steps.
use vstd::prelude::*;

verus! {

/// One step of a plan.
#[derive(Debug, Clone, PartialEq, Eq)]
pub struct PlanStep {
    pub description: String,
    pub done: bool,
}

/// A task broken into steps the loop works through.
#[derive(Debug, Clone)]
pub struct Plan {
    pub goal: String,
    pub steps: Vec<PlanStep>,
}

/// Number of steps not done yet.
pub open spec fn pending(steps: Seq<PlanStep>) -> nat
    decreases steps.len(),
{
    if steps.len() == 0 {
        0
    } else {
        pending(steps.drop_last()) + if steps.last().done {
            0nat
        } else {
            1nat
        }
    }
}

/// Index of the first step not done at or after `i`, if any.
pub open spec fn first_pending_from(steps: Seq<PlanStep>, i: int) -> Option<int>
    decreases steps.len() - i,
{
    if i < 0 || i >= steps.len() {
        None
    } else if !steps[i].done {
        Some(i)
    } else {
        first_pending_from(steps, i + 1)
    }
}

/// Index of the first step not done, if any.
pub open spec fn first_pending(steps: Seq<PlanStep>) -> Option<int> {
    first_pending_from(steps, 0)
}

/// There are never more pending steps than steps.
pub proof fn lemma_pending_bounded(steps: Seq<PlanStep>)
    ensures
        pending(steps) <= steps.len(),
    decreases steps.len(),
{
    if steps.len() > 0 {
        lemma_pending_bounded(steps.drop_last());
    }
}

proof fn lemma_pending_update(steps: Seq<PlanStep>, i: int, s: PlanStep)
    requires
        0 <= i < steps.len(),
    ensures
        pending(steps.update(i, s)) + (if steps[i].done {
            0int
        } else {
            1int
        }) == pending(steps) + (if s.done {
            0int
        } else {
            1int
        }),
    decreases steps.len(),
{
    if i < steps.len() - 1 {
        assert(steps.update(i, s).drop_last() == steps.drop_last().update(i, s));
        lemma_pending_update(steps.drop_last(), i, s);
    } else {
        assert(steps.update(i, s).drop_last() == steps.drop_last());
    }
}

impl Plan {
    /// A plan with a single step: the task itself.
    pub fn single(goal: &str) -> (p: Self)
        ensures
            p.goal@ == goal@,
            p.steps@.len() == 1,
            p.steps@[0].description@ == goal@,
            !p.steps@[0].done,
    {
        let mut steps: Vec<PlanStep> = Vec::new();
        steps.push(PlanStep { description: crate::text::owned(goal), done: false });
        Plan { goal: crate::text::owned(goal), steps }
    }

    /// Number of steps not done.
    pub fn pending_count(&self) -> (n: usize)
        ensures
            n == pending(self.steps@),
    {
        let mut n: usize = 0;
        let mut i: usize = 0;
        while i < self.steps.len()
            invariant
                i <= self.steps@.len(),
                n == pending(self.steps@.take(i as int)),
            decreases self.steps.len() - i,
        {
            proof {
                assert(self.steps@.take(i + 1).drop_last() == self.steps@.take(i as int));
                lemma_pending_bounded(self.steps@.take(i as int));
            }
            if !self.steps[i].done {
                n = n + 1;
            }
            i = i + 1;
        }
        proof {
            assert(self.steps@.take(self.steps@.len() as int) == self.steps@);
        }
        n
    }

    /// Mark the first pending step done; no change when all are done.
    pub fn mark_next_done(&mut self)
        ensures
            final(self).goal == old(self).goal,
            match first_pending(old(self).steps@) {
                Some(i) => final(self).steps@ == old(self).steps@.update(
                    i,
                    PlanStep { description: old(self).steps@[i].description, done: true },
                ),
                None => final(self).steps@ == old(self).steps@,
            },
    {
        let mut i: usize = 0;
        while i < self.steps.len()
            invariant
                i <= self.steps@.len(),
                self.steps@ == old(self).steps@,
                self.goal == old(self).goal,
                first_pending(old(self).steps@) == first_pending_from(old(self).steps@, i as int),
            decreases self.steps.len() - i,
        {
            if !self.steps[i].done {
                let description = self.steps[i].description.clone();
                self.steps.set(i, PlanStep { description, done: true });
                return;
            }
            i = i + 1;
        }
    }
}

/// Marking the next step done finishes exactly one pending step, while
/// any remain.
pub proof fn law_mark_next_done_progresses(steps: Seq<PlanStep>)
    requires
        pending(steps) > 0,
    ensures
        first_pending(steps) is Some,
        pending(
            steps.update(
                first_pending(steps)->0,
                PlanStep { description: steps[first_pending(steps)->0].description, done: true },
            ),
        ) == pending(steps) - 1,
{
    assert(steps.skip(0) == steps);
    lemma_pending_some(steps, 0);
    let i = first_pending(steps)->0;
    lemma_pending_update(
        steps,
        i,
        PlanStep { description: steps[i].description, done: true },
    );
}

proof fn lemma_pending_some(steps: Seq<PlanStep>, i: int)
    requires
        0 <= i <= steps.len(),
        pending(steps.skip(i)) > 0,
    ensures
        first_pending_from(steps, i) matches Some(k) && i <= k < steps.len() && !steps[k].done,
    decreases steps.len() - i,
{
    if i < steps.len() {
        if steps[i].done {
            assert(pending(steps.skip(i)) == pending(steps.skip(i + 1))) by {
                lemma_pending_first(steps.skip(i));
                assert(steps.skip(i).drop_first() == steps.skip(i + 1));
            }
            lemma_pending_some(steps, i + 1);
        }
    } else {
        assert(steps.skip(i).len() == 0);
    }
}

proof fn lemma_pending_first(steps: Seq<PlanStep>)
    requires
        steps.len() > 0,
    ensures
        pending(steps) == pending(steps.drop_first()) + (if steps[0].done {
            0nat
        } else {
            1nat
        }),
    decreases steps.len(),
{
    if steps.len() > 1 {
        lemma_pending_first(steps.drop_last());
        assert(steps.drop_last().drop_first() == steps.drop_first().drop_last());
        assert(steps.drop_first().last() == steps.last());
        assert(steps.drop_last()[0] == steps[0]);
    } else {
        assert(steps.drop_first().len() == 0);
        assert(steps.drop_last().len() == 0);
        reveal_with_fuel(pending, 2);
    }
}

} // verus!
