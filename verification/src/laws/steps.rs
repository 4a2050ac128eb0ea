//! What the outcome of a single step does to a plan.
use crate::context::{FilePathView, Folder};
use crate::plan::{
    filled, next_of, resumed, salvaged, AbsentView, FolderEntryView, OnFailureView, PlanView,
    PlannedView, ReplyView, StepView,
};
use crate::text::trimmed;
use vstd::prelude::*;
use vstd::utf8::{encode_utf8, encode_utf8_decode_utf8, encode_utf8_valid_utf8, valid_utf8};

verus! {

/// A plan that has not come to an error and waits for the outcome of `step`.
pub open spec fn waits_for(plan: PlanView, step: StepView) -> bool {
    plan.failure is None && plan.steps.len() > 0 && plan.steps[0].step == step
}

/// The plan goes on with the step after the first.
pub open spec fn goes_on(plan: PlanView, after: PlanView) -> bool {
    after.failure == plan.failure && after.steps == plan.steps.drop_first()
}

/// A step whose outcome is not more than that it was done or failed.
pub open spec fn is_simple(step: StepView) -> bool {
    match step {
        StepView::Keep(_) => false,
        StepView::Require { .. } => false,
        StepView::Sweep(_) => false,
        StepView::NextEntry => false,
        StepView::Confirm(_) => false,
        StepView::QueryUser => false,
        StepView::Restore { .. } => false,
        _ => true,
    }
}

/// The outcome is of a kind that the step can have.
pub open spec fn is_its_outcome(step: StepView, reply: ReplyView) -> bool {
    ||| reply is Failed
    ||| match step {
        StepView::Keep(_) => reply is Contents,
        StepView::Require { .. } => reply is Found,
        StepView::Sweep(_) => reply is Found,
        StepView::NextEntry => reply is Entry,
        StepView::Confirm(_) => reply is Line,
        StepView::QueryUser => reply is User,
        _ => reply is Done,
    }
}

/// An outcome that the next step cannot have changes nothing, and none does where no step
/// is left.
pub proof fn other_outcomes_change_nothing(plan: PlanView, reply: ReplyView)
    requires
        next_of(plan) is Some ==> !is_its_outcome(next_of(plan)->0, reply),
    ensures
        resumed(plan, reply) == plan,
{
}

/// The next step of a plan is the first of those that are left, and there is none exactly
/// where none is left.
pub proof fn steps_come_from_the_front(
    planned: PlannedView,
    rest: Seq<PlannedView>,
    failure: Option<Seq<Seq<char>>>,
)
    ensures
        next_of(PlanView { steps: seq![planned] + rest, failure }) == Some(planned.step),
        next_of(PlanView { steps: seq![], failure }) is None,
{
}

/// A simple step that was done lets the plan go on, and so does no outcome but that it was
/// done or failed.
pub proof fn simple_step_is_done(plan: PlanView, reply: ReplyView)
    requires
        plan.steps.len() > 0,
        is_simple(plan.steps[0].step),
    ensures
        goes_on(plan, resumed(plan, ReplyView::Done)),
        !(reply is Done) && !(reply is Failed) ==> resumed(plan, reply) == plan,
{
}

/// A step that fails does to the plan what the plan says of its failure: it ends the plan
/// with the error, or with the error behind a word of explanation, or lets it go on
/// without as many steps as are skipped.
pub proof fn failed_step_does_what_is_planned(plan: PlanView, error: Seq<Seq<char>>)
    requires
        plan.failure is None,
        plan.steps.len() > 0,
        !(plan.steps[0].step is Keep),
        !(plan.steps[0].step is Confirm),
    ensures
        ({
            let after = resumed(plan, ReplyView::Failed(error));
            match plan.steps[0].on_failure {
                OnFailureView::Stop => after.steps.len() == 0 && after.failure == Some(error),
                OnFailureView::Explain(message) => after.steps.len() == 0 && after.failure == Some(
                    seq![message] + error,
                ),
                OnFailureView::Skip(count) => after.failure is None && if count + 1
                    < plan.steps.len() {
                    after.steps == plan.steps.skip(count as int + 1)
                } else {
                    after.steps.len() == 0
                },
                OnFailureView::Salvage(message) => after.failure == Some(
                    if message is Some {
                        seq![message->0] + error
                    } else {
                        error
                    },
                ),
            }
        }),
{
}

/// Where the files are to be saved, all steps that write a file back are kept, in their
/// order and as they are, behind one that makes their folder; all others are dropped.
pub proof fn saving_keeps_what_writes_back(steps: Seq<PlannedView>)
    ensures
        ({
            let left = salvaged(steps);
            let files = steps.filter(|planned: PlannedView| planned.step is Restore);
            &&& files.len() == 0 ==> left.len() == 0
            &&& files.len() > 0 ==> left.len() == files.len() + 1 && left.drop_first() == files
                && left[0].step == StepView::CreateFolder(
                FilePathView { folder: Folder::Cosmos, parts: seq![] },
            )
                && left[0].on_failure is Skip
        }),
{
    restores_filter(steps);
    if salvaged(steps).len() > 0 {
        assert(salvaged(steps).drop_first() =~= crate::plan::restores(steps));
    }
}

/// The steps that write a file back are found by their kind.
proof fn restores_filter(steps: Seq<PlannedView>)
    ensures
        crate::plan::restores(steps) == steps.filter(
            |planned: PlannedView| planned.step is Restore,
        ),
    decreases steps.len(),
{
    reveal(Seq::filter);
    if steps.len() > 0 {
        restores_filter(steps.drop_last());
    }
}

/// What a step that needs a file or folder finds decides: a file that is there lets the
/// plan go on, and one that is missing ends it with the word that it is missing.
pub proof fn missing_file_is_named(plan: PlanView, file: FilePathView, absent: AbsentView, shown: Seq<char>)
    requires
        waits_for(plan, StepView::Require { file, absent }),
        plan.steps[0].on_failure is Stop,
    ensures
        goes_on(plan, resumed(plan, ReplyView::Found { found: true, shown })),
        ({
            let after = resumed(plan, ReplyView::Found { found: false, shown });
            &&& after.steps.len() == 0
            &&& after.failure == Some(
                seq![
                    match absent {
                        AbsentView::DevScript { folder, script } => "Development folder '"@
                            + folder + "' does not contain "@ + script + "."@,
                        AbsentView::TestScript => "test script not found at "@ + shown
                            + ". Available in a full source checkout only."@,
                    },
                ],
            )
        }),
        resumed(plan, ReplyView::Done) == plan,
{
}

/// A question is answered with yes by a single `y` or `Y`, whatever white space surrounds
/// it, and by nothing else; only a yes lets the plan go on, and anything else leaves the
/// word that it was aborted.
pub proof fn only_yes_is_a_yes(plan: PlanView, prompt: Seq<char>, reply: ReplyView)
    requires
        waits_for(plan, StepView::Confirm(prompt)),
        reply is Line || reply is Failed,
    ensures
        ({
            let after = resumed(plan, reply);
            let yes = reply is Line && (trimmed(reply->Line_0) == seq!['y'] || trimmed(
                reply->Line_0,
            ) == seq!['Y']);
            &&& yes ==> goes_on(plan, after)
            &&& !yes ==> after.failure is None && after.steps.len() == 1 && after.steps[0].step
                == StepView::Print("Aborted."@)
        }),
{
    reveal_strlit("y");
    if reply is Line {
        let short = trimmed(reply->Line_0);
        let lower = crate::text::ascii_lowered(short);
        assert(seq!['y'] =~= "y"@);
        if lower == "y"@ {
            assert(lower[0] == 'y');
            assert(crate::text::ascii_lower_char(short[0]) == 'y');
            if short[0] == 'Y' {
                assert(short =~= seq!['Y']);
            } else {
                assert(short[0] == 'y' || 'A' <= short[0] <= 'Z');
                if 'A' <= short[0] <= 'Z' {
                    assert(((short[0] as u8 + 32) as u8) as char == 'y');
                    assert(short[0] as u8 + 32 == 121);
                }
                assert(short =~= seq!['y']);
            }
        }
        if short == seq!['y'] {
            assert(lower =~= "y"@);
        }
        if short == seq!['Y'] {
            assert(lower =~= "y"@);
        }
    }
}

/// A sweep removes every entry of its folder that it is handed, but for the read-me file,
/// and comes back for the next until there is none; a folder that is not there is passed
/// over.
pub proof fn sweep_removes_all_but_the_read_me(
    plan: PlanView,
    folder: FilePathView,
    entry: FolderEntryView,
    shown: Seq<char>,
)
    ensures
        waits_for(plan, StepView::Sweep(folder)) ==> {
            let there = resumed(plan, ReplyView::Found { found: true, shown });
            &&& waits_for(there, StepView::NextEntry)
            &&& there.steps[0].on_failure is Stop
            &&& there.steps.drop_first() == plan.steps.drop_first()
            &&& goes_on(plan, resumed(plan, ReplyView::Found { found: false, shown }))
        },
        waits_for(plan, StepView::NextEntry) ==> {
            let next = resumed(plan, ReplyView::Entry(Some(entry)));
            &&& entry.name == "README.md"@ ==> next == plan
            &&& entry.name != "README.md"@ ==> waits_for(
                next,
                StepView::Remove { name: entry.name, is_dir: entry.is_dir },
            ) && next.steps[0].on_failure == OnFailureView::Skip(0) && next.steps.drop_first()
                == plan.steps
            &&& goes_on(plan, resumed(plan, ReplyView::Entry(None)))
        },
{
    if waits_for(plan, StepView::Sweep(folder)) {
        let there = resumed(plan, ReplyView::Found { found: true, shown });
        assert(there.steps.drop_first() =~= plan.steps.drop_first());
    }
    if waits_for(plan, StepView::NextEntry) {
        let next = resumed(plan, ReplyView::Entry(Some(entry)));
        if entry.name != "README.md"@ {
            assert(next.steps.drop_first() =~= plan.steps);
        }
    }
}

/// The user is warned exactly where what `id -u` printed is a zero, whatever white space
/// surrounds it; then, and where nothing can be learnt of the user, the plan goes on.
pub proof fn root_is_warned(plan: PlanView, printed: Seq<char>, bytes: Seq<u8>)
    requires
        waits_for(plan, StepView::QueryUser),
        !valid_utf8(bytes),
    ensures
        ({
            let after = resumed(plan, ReplyView::User(Some(encode_utf8(printed))));
            if trimmed(printed) == "0"@ {
                &&& waits_for(
                    after,
                    StepView::Warn(
                        "WARNING: COSMOS should not be run as root; Local Mode file permissions will be affected."@,
                    ),
                )
                &&& after.steps[0].on_failure == OnFailureView::Skip(0)
                &&& after.steps.drop_first() == plan.steps.drop_first()
            } else {
                goes_on(plan, after)
            }
        }),
        goes_on(plan, resumed(plan, ReplyView::User(None))),
        goes_on(plan, resumed(plan, ReplyView::User(Some(bytes)))),
{
    encode_utf8_valid_utf8(printed);
    encode_utf8_decode_utf8(printed);
    let after = resumed(plan, ReplyView::User(Some(encode_utf8(printed))));
    if trimmed(printed) == "0"@ {
        assert(after.steps.drop_first() =~= plan.steps.drop_first());
    }
}

/// A file that was written back is named, and the plan goes on.
pub proof fn written_file_is_named(plan: PlanView, name: Seq<char>, contents: Seq<u8>)
    requires
        waits_for(plan, StepView::Restore { name, contents }),
    ensures
        ({
            let after = resumed(plan, ReplyView::Done);
            &&& waits_for(after, StepView::Progress("Preserved "@ + name + "."@))
            &&& after.steps[0].on_failure == OnFailureView::Skip(0)
            &&& after.steps.drop_first() == plan.steps.drop_first()
        }),
{
    let after = resumed(plan, ReplyView::Done);
    assert(after.steps.drop_first() =~= plan.steps.drop_first());
}

/// What was read of a file goes to the steps that write this file back, and to no other.
pub proof fn read_file_is_handed_on(steps: Seq<PlannedView>, name: Seq<char>, bytes: Seq<u8>)
    ensures
        ({
            let full = filled(steps, name, Some(bytes));
            &&& full.len() == steps.len()
            &&& forall|i: int|
                0 <= i < steps.len() ==> {
                    let was = steps[i];
                    let now = #[trigger] full[i];
                    if was.step is Restore && was.step->Restore_name == name {
                        now.step == (StepView::Restore { name, contents: bytes }) && now.on_failure
                            == was.on_failure
                    } else {
                        now == was
                    }
                }
        }),
    decreases steps.len(),
{
    if steps.len() > 0 {
        let front = steps.drop_last();
        read_file_is_handed_on(front, name, bytes);
        let full = filled(steps, name, Some(bytes));
        assert forall|i: int| 0 <= i < steps.len() implies {
            let was = steps[i];
            let now = #[trigger] full[i];
            if was.step is Restore && was.step->Restore_name == name {
                now.step == (StepView::Restore { name, contents: bytes }) && now.on_failure
                    == was.on_failure
            } else {
                now == was
            }
        } by {
            if i < front.len() {
                assert(front[i] == steps[i]);
                assert(full[i] == filled(front, name, Some(bytes))[i]);
            }
        }
    }
}

/// A file of which nothing could be read is not written back; all other steps stay.
pub proof fn unread_file_is_not_written(steps: Seq<PlannedView>, name: Seq<char>)
    ensures
        filled(steps, name, None) == steps.filter(
            |planned: PlannedView|
                !(planned.step is Restore && planned.step->Restore_name == name),
        ),
    decreases steps.len(),
{
    reveal(Seq::filter);
    if steps.len() > 0 {
        unread_file_is_not_written(steps.drop_last(), name);
    }
}

/// Reading a file hands on what was read, or that nothing was, to the rest of the plan.
pub proof fn reading_goes_on(plan: PlanView, name: Seq<char>, contents: Option<Seq<u8>>, error: Seq<Seq<char>>)
    requires
        waits_for(plan, StepView::Keep(name)),
    ensures
        resumed(plan, ReplyView::Contents(contents)) == (PlanView {
            steps: filled(plan.steps.drop_first(), name, contents),
            failure: None,
        }),
        resumed(plan, ReplyView::Failed(error)) == resumed(plan, ReplyView::Contents(None)),
{
}

} // verus!
