//! What comes of carrying a plan out, whatever the outcomes of its steps.
use crate::plan::{
    decision, run_plan, DecisionView, OnFailureView, PlanView, PlannedView, ReplyView, StepView,
};
use vstd::prelude::*;

verus! {

/// The outcome says that the step was done.
pub open spec fn succeeds(step: StepView, reply: ReplyView) -> bool {
    match step {
        StepView::Require { .. } => reply is Found && reply->Found_found,
        _ => reply == ReplyView::Done,
    }
}

/// Outcome number `i` is that of `step`, and says that it was done, no error having come
/// up so far.
pub open spec fn carries_out(
    plan: PlanView,
    replies: Seq<ReplyView>,
    i: int,
    step: StepView,
) -> bool {
    let now = run_plan(plan, replies.take(i));
    &&& 0 <= i < replies.len()
    &&& now.failure is None
    &&& now.steps.len() > 0
    &&& now.steps[0].step == step
    &&& succeeds(step, replies[i])
}

/// The steps of `work` were done one after the other, all of them by outcomes before
/// number `until`.
pub open spec fn done_in_order(
    plan: PlanView,
    replies: Seq<ReplyView>,
    work: Seq<StepView>,
    until: int,
) -> bool
    decreases work.len(),
{
    work.len() == 0 || exists|i: int| #[trigger]
        carries_out(plan, replies, i, work.last()) && i < until && done_in_order(
            plan,
            replies,
            work.drop_last(),
            i,
        )
}

/// The steps of a row that the plan cannot do without, in order.
pub open spec fn demanded(steps: Seq<PlannedView>) -> Seq<StepView>
    decreases steps.len(),
{
    if steps.len() == 0 {
        seq![]
    } else {
        let front = demanded(steps.drop_last());
        if steps.last().on_failure is Skip {
            front
        } else {
            front.push(steps.last().step)
        }
    }
}

/// A step that is done or fails, and leaves the rest of the plan as it is.
pub open spec fn is_steady_step(planned: PlannedView) -> bool {
    &&& !(planned.step is Keep)
    &&& !(planned.step is Confirm)
    &&& !(planned.step is Sweep)
    &&& !(planned.step is NextEntry)
    &&& planned.step is QueryUser ==> planned.on_failure is Skip
}

/// A row of such steps, none of which skips over a step that the plan cannot do without.
pub open spec fn is_steady(steps: Seq<PlannedView>) -> bool {
    &&& forall|i: int| 0 <= i < steps.len() ==> is_steady_step(#[trigger] steps[i])
    &&& forall|i: int, j: int|
        0 <= i < j < steps.len() && (#[trigger] steps[i]).on_failure is Skip && j <= i
            + steps[i].on_failure->Skip_0 ==> (#[trigger] steps[j]).on_failure is Skip
}

/// The word that a file was written back.
pub open spec fn preserved_word(name: Seq<char>) -> StepView {
    StepView::Progress("Preserved "@ + name + "."@)
}

/// A word to the user that comes in between: a warning, or that a file was written back.
pub open spec fn is_aside(aside: Seq<PlannedView>) -> bool {
    aside.len() == 0 || aside.len() == 1 && aside[0].on_failure == OnFailureView::Skip(0) && (
    aside[0].step is Warn || exists|name: Seq<char>|
        aside[0].step == #[trigger] preserved_word(name))
}

/// What is left to do is the row of steps from number `k` on, after at most one word to
/// the user.
pub open spec fn is_left(left: Seq<PlannedView>, steps: Seq<PlannedView>, k: int) -> bool {
    &&& 0 <= k <= steps.len()
    &&& exists|aside: Seq<PlannedView>| #[trigger] is_aside(aside) && left == aside + steps.skip(k)
}

/// Two rows of outcomes after one another.
pub proof fn run_continues(plan: PlanView, first: Seq<ReplyView>, second: Seq<ReplyView>)
    ensures
        run_plan(plan, first + second) == run_plan(run_plan(plan, first), second),
    decreases second.len(),
{
    if second.len() == 0 {
        assert(first + second == first);
    } else {
        assert((first + second).drop_last() == first + second.drop_last());
        run_continues(plan, first, second.drop_last());
    }
}

/// An error that has come up stays.
proof fn error_stays(plan: PlanView, reply: ReplyView)
    requires
        plan.failure is Some,
    ensures
        crate::plan::resumed(plan, reply).failure == plan.failure,
{
}

/// What was done stays done when more outcomes come in.
pub proof fn done_stays_done(
    plan: PlanView,
    replies: Seq<ReplyView>,
    more: Seq<ReplyView>,
    work: Seq<StepView>,
    until: int,
)
    requires
        done_in_order(plan, replies, work, until),
        until <= replies.len(),
    ensures
        done_in_order(plan, replies + more, work, until),
    decreases work.len(),
{
    if work.len() > 0 {
        let i = choose|i: int| #[trigger]
            carries_out(plan, replies, i, work.last()) && i < until && done_in_order(
                plan,
                replies,
                work.drop_last(),
                i,
            );
        assert((replies + more).take(i) == replies.take(i));
        done_stays_done(plan, replies, more, work.drop_last(), i);
        assert(carries_out(plan, replies + more, i, work.last()));
    }
}

/// What was done before some outcome was done before a later one.
proof fn done_before_later(
    plan: PlanView,
    replies: Seq<ReplyView>,
    work: Seq<StepView>,
    until: int,
    later: int,
)
    requires
        done_in_order(plan, replies, work, until),
        until <= later,
    ensures
        done_in_order(plan, replies, work, later),
{
    if work.len() > 0 {
        let i = choose|i: int| #[trigger]
            carries_out(plan, replies, i, work.last()) && i < until && done_in_order(
                plan,
                replies,
                work.drop_last(),
                i,
            );
        assert(carries_out(plan, replies, i, work.last()) && i < later);
    }
}

/// Skipping over steps that the plan can do without leaves what it cannot do without.
proof fn demanded_of_more(steps: Seq<PlannedView>, k: int, next: int)
    requires
        0 <= k <= next <= steps.len(),
        forall|j: int| k <= j < next ==> (#[trigger] steps[j]).on_failure is Skip,
    ensures
        demanded(steps.take(next)) == demanded(steps.take(k)),
    decreases next - k,
{
    if k < next {
        demanded_of_more(steps, k, next - 1);
        assert(steps.take(next).drop_last() == steps.take(next - 1));
        assert(steps.take(next).last() == steps[next - 1]);
    }
}

/// A steady plan is worked through step by step: as long as no error has come up, what is
/// left is the plan from some step on, and every step before that which the plan cannot do
/// without was done, one after the other.
#[verifier::rlimit(40)]
pub proof fn steady_plan_is_worked_through(steps: Seq<PlannedView>, replies: Seq<ReplyView>)
    requires
        is_steady(steps),
    ensures
        ({
            let plan = PlanView { steps, failure: None };
            let now = run_plan(plan, replies);
            now.failure is None ==> exists|k: int| #[trigger]
                is_left(now.steps, steps, k) && done_in_order(
                    plan,
                    replies,
                    demanded(steps.take(k)),
                    replies.len() as int,
                )
        }),
    decreases replies.len(),
{
    let plan = PlanView { steps, failure: None };
    let now = run_plan(plan, replies);
    if replies.len() == 0 {
        let none = Seq::<PlannedView>::empty();
        assert(is_aside(none));
        assert(none + steps.skip(0) == steps);
        assert(is_left(now.steps, steps, 0));
        assert(steps.take(0).len() == 0);
    } else if now.failure is None {
        let earlier = replies.drop_last();
        let last = replies.last();
        let was = run_plan(plan, earlier);
        steady_plan_is_worked_through(steps, earlier);
        if was.failure is Some {
            error_stays(was, last);
        }
        let k = choose|k: int| #[trigger]
            is_left(was.steps, steps, k) && done_in_order(
                plan,
                earlier,
                demanded(steps.take(k)),
                earlier.len() as int,
            );
        let aside = choose|aside: Seq<PlannedView>| #[trigger]
            is_aside(aside) && was.steps == aside + steps.skip(k);
        let work = demanded(steps.take(k));
        let tail = seq![last];
        assert(replies == earlier + tail);
        done_stays_done(plan, earlier, tail, work, earlier.len() as int);
        done_before_later(plan, replies, work, earlier.len() as int, replies.len() as int);
        let none = Seq::<PlannedView>::empty();
        assert(is_aside(none));
        if was.steps.len() == 0 {
            assert(is_left(now.steps, steps, k));
        } else if aside.len() == 1 {
            assert(was.steps[0] == aside[0]);
            assert(was.steps.drop_first() == none + steps.skip(k));
            assert(was.steps.skip(1) == none + steps.skip(k));
            assert(none + steps.skip(k) == steps.skip(k));
            if now.steps == was.steps {
                assert(is_left(now.steps, steps, k));
            } else {
                assert(now.steps =~= none + steps.skip(k));
                assert(is_left(now.steps, steps, k));
            }
        } else {
            let first = steps[k];
            assert(was.steps == steps.skip(k));
            assert(was.steps[0] == first);
            assert(is_steady_step(steps[k]));
            assert(was.steps.drop_first() == steps.skip(k + 1));
            assert(steps.take(k + 1).drop_last() == steps.take(k));
            assert(steps.take(k + 1).last() == first);
            if now.steps == was.steps {
                assert(is_left(now.steps, steps, k));
            } else {
                match decision(first.step, last) {
                    DecisionView::Fail(_) => {
                        let count = first.on_failure->Skip_0 as int;
                        let next = if k + count + 1 < steps.len() {
                            k + count + 1
                        } else {
                            steps.len() as int
                        };
                        assert(now.steps =~= none + steps.skip(next));
                        assert(is_left(now.steps, steps, next));
                        demanded_of_more(steps, k, next);
                    },
                    other => {
                        let word = if other is Replace {
                            seq![other->Replace_0]
                        } else {
                            none
                        };
                        if first.step is Restore && other is Replace {
                            assert(word[0].step == preserved_word(first.step->Restore_name));
                        }
                        assert(is_aside(word));
                        assert(now.steps =~= word + steps.skip(k + 1));
                        assert(is_left(now.steps, steps, k + 1));
                        if !(first.on_failure is Skip) {
                            let more = demanded(steps.take(k + 1));
                            assert(more.drop_last() == work);
                            assert(replies.take(earlier.len() as int) == earlier);
                            assert(carries_out(plan, replies, earlier.len() as int, more.last()));
                            done_stays_done(plan, earlier, tail, work, earlier.len() as int);
                        }
                    },
                }
            }
        }
    }
}

/// A steady plan that comes to its end without an error has had every step done that it
/// cannot do without, one after the other.
pub proof fn steady_plan_is_done(steps: Seq<PlannedView>, replies: Seq<ReplyView>)
    requires
        is_steady(steps),
        run_plan(PlanView { steps, failure: None }, replies).steps.len() == 0,
        run_plan(PlanView { steps, failure: None }, replies).failure is None,
    ensures
        done_in_order(
            PlanView { steps, failure: None },
            replies,
            demanded(steps),
            replies.len() as int,
        ),
{
    let plan = PlanView { steps, failure: None };
    let now = run_plan(plan, replies);
    steady_plan_is_worked_through(steps, replies);
    let k = choose|k: int| #[trigger]
        is_left(now.steps, steps, k) && done_in_order(
            plan,
            replies,
            demanded(steps.take(k)),
            replies.len() as int,
        );
    assert(steps.skip(k).len() == 0);
    assert(steps.take(k) == steps);
}

/// The step `planned` has its turn with outcome number `i`, no error having come up so
/// far; where the plan cannot do without it, the outcome says that it was done.
pub open spec fn takes_turn(
    plan: PlanView,
    replies: Seq<ReplyView>,
    i: int,
    planned: PlannedView,
) -> bool {
    let now = run_plan(plan, replies.take(i));
    &&& 0 <= i < replies.len()
    &&& now.failure is None
    &&& now.steps.len() > 0
    &&& now.steps[0] == planned
    &&& planned.on_failure is Skip || succeeds(planned.step, replies[i])
}

/// The steps of a row had their turns one after the other, all of them with outcomes
/// before number `until`.
pub open spec fn taken_in_order(
    plan: PlanView,
    replies: Seq<ReplyView>,
    row: Seq<PlannedView>,
    until: int,
) -> bool
    decreases row.len(),
{
    row.len() == 0 || exists|i: int| #[trigger]
        takes_turn(plan, replies, i, row.last()) && i < until && taken_in_order(
            plan,
            replies,
            row.drop_last(),
            i,
        )
}

/// None of the steps skips over another.
pub open spec fn skips_nothing(steps: Seq<PlannedView>) -> bool {
    forall|i: int|
        0 <= i < steps.len() && (#[trigger] steps[i]).on_failure is Skip ==> steps[i].on_failure
            == OnFailureView::Skip(0)
}

/// Turns that were taken stay taken when more outcomes come in, and were taken before
/// every later outcome.
proof fn taken_stays_taken(
    plan: PlanView,
    replies: Seq<ReplyView>,
    more: Seq<ReplyView>,
    row: Seq<PlannedView>,
    until: int,
    later: int,
)
    requires
        taken_in_order(plan, replies, row, until),
        until <= replies.len(),
        until <= later,
    ensures
        taken_in_order(plan, replies + more, row, later),
    decreases row.len(),
{
    if row.len() > 0 {
        let i = choose|i: int| #[trigger]
            takes_turn(plan, replies, i, row.last()) && i < until && taken_in_order(
                plan,
                replies,
                row.drop_last(),
                i,
            );
        assert((replies + more).take(i) == replies.take(i));
        taken_stays_taken(plan, replies, more, row.drop_last(), i, i);
        assert(takes_turn(plan, replies + more, i, row.last()));
    }
}

/// A steady plan of which no step skips over another is carried out in its order: as long
/// as no error has come up, what is left is the plan from some step on, and every step
/// before that has had its turn, one after the other.
#[verifier::rlimit(40)]
pub proof fn steps_take_their_turns(steps: Seq<PlannedView>, replies: Seq<ReplyView>)
    requires
        is_steady(steps),
        skips_nothing(steps),
    ensures
        ({
            let plan = PlanView { steps, failure: None };
            let now = run_plan(plan, replies);
            now.failure is None ==> exists|k: int| #[trigger]
                is_left(now.steps, steps, k) && taken_in_order(
                    plan,
                    replies,
                    steps.take(k),
                    replies.len() as int,
                )
        }),
    decreases replies.len(),
{
    let plan = PlanView { steps, failure: None };
    let now = run_plan(plan, replies);
    let none = Seq::<PlannedView>::empty();
    assert(is_aside(none));
    if replies.len() == 0 {
        assert(none + steps.skip(0) == steps);
        assert(is_left(now.steps, steps, 0));
        assert(steps.take(0).len() == 0);
    } else if now.failure is None {
        let earlier = replies.drop_last();
        let last = replies.last();
        let was = run_plan(plan, earlier);
        steps_take_their_turns(steps, earlier);
        if was.failure is Some {
            error_stays(was, last);
        }
        let k = choose|k: int| #[trigger]
            is_left(was.steps, steps, k) && taken_in_order(
                plan,
                earlier,
                steps.take(k),
                earlier.len() as int,
            );
        let aside = choose|aside: Seq<PlannedView>| #[trigger]
            is_aside(aside) && was.steps == aside + steps.skip(k);
        let tail = seq![last];
        assert(replies == earlier + tail);
        taken_stays_taken(
            plan,
            earlier,
            tail,
            steps.take(k),
            earlier.len() as int,
            replies.len() as int,
        );
        if was.steps.len() == 0 {
            assert(is_left(now.steps, steps, k));
        } else if aside.len() == 1 {
            assert(was.steps[0] == aside[0]);
            assert(was.steps.drop_first() == none + steps.skip(k));
            assert(was.steps.skip(1) == none + steps.skip(k));
            if now.steps == was.steps {
                assert(is_left(now.steps, steps, k));
            } else {
                assert(now.steps =~= none + steps.skip(k));
                assert(is_left(now.steps, steps, k));
            }
        } else {
            let first = steps[k];
            assert(was.steps == steps.skip(k));
            assert(was.steps[0] == first);
            assert(is_steady_step(steps[k]));
            assert(was.steps.drop_first() == steps.skip(k + 1));
            assert(was.steps.skip(1) == steps.skip(k + 1));
            if now.steps == was.steps {
                assert(is_left(now.steps, steps, k));
            } else {
                let decided = decision(first.step, last);
                let word = if decided is Replace {
                    seq![decided->Replace_0]
                } else {
                    none
                };
                if first.step is Restore && decided is Replace {
                    assert(word[0].step == preserved_word(first.step->Restore_name));
                }
                assert(is_aside(word));
                assert(now.steps =~= word + steps.skip(k + 1));
                assert(is_left(now.steps, steps, k + 1));
                assert(steps.take(k + 1).drop_last() == steps.take(k));
                assert(steps.take(k + 1).last() == first);
                assert(replies.take(earlier.len() as int) == earlier);
                assert(takes_turn(plan, replies, earlier.len() as int, first));
                taken_stays_taken(
                    plan,
                    earlier,
                    tail,
                    steps.take(k),
                    earlier.len() as int,
                    earlier.len() as int,
                );
            }
        }
    }
}

/// What was done in the second part of a run was done in the run.
pub proof fn done_continues(
    plan: PlanView,
    first: Seq<ReplyView>,
    second: Seq<ReplyView>,
    work: Seq<StepView>,
    until: int,
)
    requires
        done_in_order(run_plan(plan, first), second, work, until),
        until <= second.len(),
    ensures
        done_in_order(plan, first + second, work, first.len() + until),
    decreases work.len(),
{
    if work.len() > 0 {
        let middle = run_plan(plan, first);
        let i = choose|i: int| #[trigger]
            carries_out(middle, second, i, work.last()) && i < until && done_in_order(
                middle,
                second,
                work.drop_last(),
                i,
            );
        done_continues(plan, first, second, work.drop_last(), i);
        assert((first + second).take(first.len() + i) == first + second.take(i));
        run_continues(plan, first, second.take(i));
        assert(carries_out(plan, first + second, first.len() + i, work.last()));
    }
}

/// Each step of a row that had its turns in order has had its turn.
pub proof fn each_was_taken(
    plan: PlanView,
    replies: Seq<ReplyView>,
    row: Seq<PlannedView>,
    until: int,
    at: int,
)
    requires
        taken_in_order(plan, replies, row, until),
        0 <= at < row.len(),
    ensures
        exists|i: int| #[trigger] takes_turn(plan, replies, i, row[at]) && i < until,
    decreases row.len(),
{
    let i = choose|i: int| #[trigger]
        takes_turn(plan, replies, i, row.last()) && i < until && taken_in_order(
            plan,
            replies,
            row.drop_last(),
            i,
        );
    if at < row.len() - 1 {
        each_was_taken(plan, replies, row.drop_last(), i, at);
        let j = choose|j: int| #[trigger]
            takes_turn(plan, replies, j, row.drop_last()[at]) && j < i;
        assert(takes_turn(plan, replies, j, row[at]) && j < until);
    }
}

} // verus!
