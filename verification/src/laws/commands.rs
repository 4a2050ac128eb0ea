//! What the commands do to COSMOS.
use crate::commands::{
    browser_invocation, build_plan, cleanup_plan_steps, cli_args, cli_plan, dev_invocation,
    files_were_read, logs_steps, restart_steps, run_steps, start_steps, stop_steps, test_plan,
    upgrade_after_reading, upgrade_after_reading_steps, upgrade_end, upgrade_middle,
    upgrade_opening, upgrade_reads_first, upgrade_replacement, upgrade_steps, was_read,
    written_back,
};
use crate::context::{text_words, Context, FilePathView, Folder, InvocationView, Os, WordView};
use crate::laws::plan::{
    demanded, done_continues, done_in_order, each_was_taken, is_aside, is_left, is_steady,
    is_steady_step, preserved_word, run_continues, skips_nothing, steady_plan_is_done,
    steady_plan_is_worked_through, steps_take_their_turns, taken_in_order, takes_turn,
};
use crate::plan::{
    fresh, run_plan, AbsentView, OnFailureView, PlanView, PlannedView, ReplyView, StepView,
};
use vstd::prelude::*;

verus! {

/// A plan comes to its end without an error.
pub open spec fn ends_well(steps: Seq<PlannedView>, replies: Seq<ReplyView>) -> bool {
    let now = run_plan(PlanView { steps, failure: None }, replies);
    now.steps.len() == 0 && now.failure is None
}

/// The steps of `work` were done one after the other in the run of a plan.
pub open spec fn does(
    steps: Seq<PlannedView>,
    replies: Seq<ReplyView>,
    work: Seq<StepView>,
) -> bool {
    done_in_order(PlanView { steps, failure: None }, replies, work, replies.len() as int)
}

/// A word to the user, or a look at who the user is.
pub open spec fn only_speaks(step: StepView) -> bool {
    step is Progress || step is Print || step is Warn || step is QueryUser
}

/// Whatever a plan can do without is a word to the user.
pub open spec fn speaks_otherwise(steps: Seq<PlannedView>) -> bool {
    forall|i: int|
        0 <= i < steps.len() && (#[trigger] steps[i]).on_failure is Skip ==> only_speaks(
            steps[i].step,
        )
}

/// The words of a plan about how far it is, in order.
pub open spec fn said(steps: Seq<PlannedView>) -> Seq<Seq<char>>
    decreases steps.len(),
{
    if steps.len() == 0 {
        seq![]
    } else {
        let front = said(steps.drop_last());
        match steps.last().step {
            StepView::Progress(text) => front.push(text),
            _ => front,
        }
    }
}

/// What two rows of steps cannot do without and say is what the first does and then the
/// second.
pub proof fn rows_add_up(front: Seq<PlannedView>, back: Seq<PlannedView>)
    ensures
        demanded(front + back) == demanded(front) + demanded(back),
        said(front + back) == said(front) + said(back),
    decreases back.len(),
{
    if back.len() == 0 {
        assert(front + back == front);
    } else {
        assert((front + back).drop_last() == front + back.drop_last());
        rows_add_up(front, back.drop_last());
    }
}

/// No step of a row skips over steps behind the row.
pub open spec fn skips_within(steps: Seq<PlannedView>) -> bool {
    forall|i: int|
        0 <= i < steps.len() && (#[trigger] steps[i]).on_failure is Skip ==> i
            + steps[i].on_failure->Skip_0 < steps.len()
}

/// Two steady rows after one another, of which the first skips over no step of the
/// second, are steady.
proof fn steady_rows_add_up(front: Seq<PlannedView>, back: Seq<PlannedView>)
    requires
        is_steady(front),
        skips_within(front),
        is_steady(back),
    ensures
        is_steady(front + back),
        skips_within(back) ==> skips_within(front + back),
        skips_nothing(front) && skips_nothing(back) ==> skips_nothing(front + back),
{
    let all = front + back;
    assert forall|i: int|
        0 <= i < all.len() && (#[trigger] all[i]).on_failure is Skip && skips_within(
            back,
        ) implies i + all[i].on_failure->Skip_0 < all.len() by {
        if i < front.len() {
            assert(all[i] == front[i]);
        } else {
            assert(all[i] == back[i - front.len()]);
        }
    }
    assert forall|i: int|
        0 <= i < all.len() && (#[trigger] all[i]).on_failure is Skip && skips_nothing(front)
            && skips_nothing(back) implies all[i].on_failure == OnFailureView::Skip(0) by {
        if i < front.len() {
            assert(all[i] == front[i]);
        } else {
            assert(all[i] == back[i - front.len()]);
        }
    }
    assert forall|i: int| 0 <= i < all.len() implies is_steady_step(#[trigger] all[i]) by {
        if i < front.len() {
            assert(all[i] == front[i]);
        } else {
            assert(all[i] == back[i - front.len()]);
        }
    }
    assert forall|i: int, j: int|
        0 <= i < j < all.len() && (#[trigger] all[i]).on_failure is Skip && j <= i
            + all[i].on_failure->Skip_0 implies (#[trigger] all[j]).on_failure is Skip by {
        if i < front.len() {
            assert(all[i] == front[i]);
        } else {
            assert(all[i] == back[i - front.len()]);
            assert(all[j] == back[j - front.len()]);
        }
    }
}

/// The word that COSMOS is up.
pub open spec fn started() -> StepView {
    StepView::Progress("COSMOS is starting. Access it at http://localhost:2900"@)
}

/// What `run` is made of on an installation without a development folder.
proof fn parts_of_run(ctx: &Context)
    requires
        ctx.dev_folder is None,
    ensures
        is_steady(run_steps(ctx)),
        skips_nothing(run_steps(ctx)),
        speaks_otherwise(run_steps(ctx)),
        demanded(run_steps(ctx)) == seq![StepView::SetUp, StepView::Up],
        said(run_steps(ctx)) == seq![
            "Starting COSMOS containers (first run downloads images — this can take several minutes)…"@,
            "COSMOS is starting. Access it at http://localhost:2900"@,
        ],
        run_steps(ctx).len() > 0,
        run_steps(ctx).last().step == started(),
        demanded(run_steps(ctx).drop_last()) == seq![StepView::SetUp, StepView::Up],
        forall|i: int|
            0 <= i < run_steps(ctx).len() - 1 ==> (#[trigger] run_steps(ctx)[i]).step != started(),
        run_steps(ctx)[0].step is QueryUser <==> ctx.os != Os::Windows,
{
    let steps = run_steps(ctx);
    reveal_with_fuel(demanded, 6);
    reveal_with_fuel(said, 6);
    reveal_strlit(
        "Starting COSMOS containers (first run downloads images — this can take several minutes)…",
    );
    reveal_strlit("COSMOS is starting. Access it at http://localhost:2900");
    assert("COSMOS is starting. Access it at http://localhost:2900"@[0] == 'C');
    assert("Starting COSMOS containers (first run downloads images — this can take several minutes)…"@[0]
        == 'S');
    assert(demanded(steps) =~= seq![StepView::SetUp, StepView::Up]);
    assert(demanded(steps.drop_last()) =~= seq![StepView::SetUp, StepView::Up]);
    assert(said(steps) =~= seq![
        "Starting COSMOS containers (first run downloads images — this can take several minutes)…"@,
        "COSMOS is starting. Access it at http://localhost:2900"@,
    ]);
}

/// `run` brings the containers up: in every run that comes to its end without an error,
/// whatever the operating system, COSMOS was set up and then the containers were brought
/// up. Nothing else is done, and on Unix root is warned first.
pub proof fn run_brings_the_containers_up(ctx: &Context, replies: Seq<ReplyView>)
    requires
        ctx.dev_folder is None,
    ensures
        ends_well(run_steps(ctx), replies) ==> does(
            run_steps(ctx),
            replies,
            seq![StepView::SetUp, StepView::Up],
        ),
        demanded(run_steps(ctx)) == seq![StepView::SetUp, StepView::Up],
        speaks_otherwise(run_steps(ctx)),
        run_steps(ctx)[0].step is QueryUser <==> ctx.os != Os::Windows,
{
    parts_of_run(ctx);
    if ends_well(run_steps(ctx), replies) {
        steady_plan_is_done(run_steps(ctx), replies);
    }
}

/// `run` says that COSMOS is starting only after the containers were brought up, and says
/// it in every run that comes to its end without an error.
pub proof fn run_says_so_only_then(ctx: &Context, replies: Seq<ReplyView>)
    requires
        ctx.dev_folder is None,
    ensures
        ({
            let now = run_plan(fresh(run_steps(ctx)), replies);
            now.failure is None && now.steps.len() > 0 && now.steps[0].step == started() ==> does(
                run_steps(ctx),
                replies,
                seq![StepView::SetUp, StepView::Up],
            )
        }),
        ends_well(run_steps(ctx), replies) ==> taken_in_order(
            fresh(run_steps(ctx)),
            replies,
            run_steps(ctx),
            replies.len() as int,
        ) && run_steps(ctx).last().step == started(),
{
    let steps = run_steps(ctx);
    let now = run_plan(fresh(steps), replies);
    parts_of_run(ctx);
    if now.failure is None && now.steps.len() > 0 && now.steps[0].step == started() {
        steady_plan_is_worked_through(steps, replies);
        let k = choose|k: int| #[trigger]
            is_left(now.steps, steps, k) && done_in_order(
                fresh(steps),
                replies,
                demanded(steps.take(k)),
                replies.len() as int,
            );
        let aside = choose|aside: Seq<PlannedView>| #[trigger]
            is_aside(aside) && now.steps == aside + steps.skip(k);
        if aside.len() == 1 {
            assert(now.steps[0] == aside[0]);
            let name = choose|name: Seq<char>| aside[0].step == #[trigger] preserved_word(name);
            reveal_strlit("Preserved ");
            reveal_strlit("COSMOS is starting. Access it at http://localhost:2900");
            assert(("Preserved "@ + name + "."@)[0] == 'P');
            assert("COSMOS is starting. Access it at http://localhost:2900"@[0] == 'C');
        }
        assert(now.steps == steps.skip(k));
        assert(steps[k].step == started());
        assert(k == steps.len() - 1);
        assert(steps.take(k) == steps.drop_last());
    }
    if ends_well(steps, replies) {
        steps_take_their_turns(steps, replies);
        let k = choose|k: int| #[trigger]
            is_left(now.steps, steps, k) && taken_in_order(
                fresh(steps),
                replies,
                steps.take(k),
                replies.len() as int,
            );
        assert(steps.skip(k).len() == 0);
        assert(steps.take(k) == steps);
    }
}

/// `stop` stops the containers, and does nothing else.
pub proof fn stop_stops(ctx: &Context, replies: Seq<ReplyView>)
    requires
        ctx.dev_folder is None,
    ensures
        ends_well(stop_steps(ctx), replies) ==> does(
            stop_steps(ctx),
            replies,
            seq![StepView::Stop],
        ),
        demanded(stop_steps(ctx)) == seq![StepView::Stop],
        stop_steps(ctx).len() == 1,
        is_steady(stop_steps(ctx)),
{
    reveal_with_fuel(demanded, 2);
    assert(demanded(stop_steps(ctx)) =~= seq![StepView::Stop]);
    if ends_well(stop_steps(ctx), replies) {
        steady_plan_is_done(stop_steps(ctx), replies);
    }
}

/// `restart` stops the containers, and only then sets COSMOS up and brings the containers
/// up again.
pub proof fn restart_stops_then_brings_up(ctx: &Context, replies: Seq<ReplyView>)
    requires
        ctx.dev_folder is None,
    ensures
        ends_well(restart_steps(ctx), replies) ==> does(
            restart_steps(ctx),
            replies,
            seq![StepView::Stop, StepView::SetUp, StepView::Up],
        ),
        demanded(restart_steps(ctx)) == seq![StepView::Stop, StepView::SetUp, StepView::Up],
        speaks_otherwise(restart_steps(ctx)),
{
    let steps = restart_steps(ctx);
    let work = seq![StepView::Stop, StepView::SetUp, StepView::Up];
    parts_of_run(ctx);
    stop_stops(ctx, replies);
    assert(steps == stop_steps(ctx) + run_steps(ctx));
    rows_add_up(stop_steps(ctx), run_steps(ctx));
    assert(demanded(steps) =~= work);
    steady_rows_add_up(stop_steps(ctx), run_steps(ctx));
    if ends_well(steps, replies) {
        steady_plan_is_done(steps, replies);
    }
}

/// `build` sets COSMOS up and builds the containers with all the flags that were given;
/// an installation without the source is refused.
pub proof fn build_builds(ctx: &Context, flags: Seq<Seq<char>>, replies: Seq<ReplyView>)
    requires
        ctx.dev_folder is None,
    ensures
        build_plan(ctx, flags) is Ok <==> ctx.devel,
        build_plan(ctx, flags) is Err ==> build_plan(ctx, flags)->Err_0 == seq![
            "'build' is only available for development installs (no compose-build.yaml found)."@,
        ],
        ctx.devel ==> {
            let plan = build_plan(ctx, flags)->Ok_0;
            let work = seq![
                StepView::SetUp,
                StepView::ComposeWithBuild(seq!["build"@] + flags),
            ];
            &&& plan.failure is None
            &&& demanded(plan.steps) == work
            &&& plan.steps.len() == 2
            &&& is_steady(plan.steps)
            &&& skips_nothing(plan.steps)
            &&& ends_well(plan.steps, replies) ==> does(plan.steps, replies, work)
        },
{
    if ctx.devel {
        let plan = build_plan(ctx, flags)->Ok_0;
        let work = seq![StepView::SetUp, StepView::ComposeWithBuild(seq!["build"@] + flags)];
        reveal_with_fuel(demanded, 3);
        assert(demanded(plan.steps) =~= work);
        if ends_well(plan.steps, replies) {
            steady_plan_is_done(plan.steps, replies);
        }
    }
}

/// `start` builds what can be built, and only then sets COSMOS up and brings the
/// containers up; where there is nothing to build it does what `run` does.
pub proof fn start_builds_then_runs(ctx: &Context, flags: Seq<Seq<char>>, replies: Seq<ReplyView>)
    requires
        ctx.dev_folder is None,
    ensures
        !ctx.devel ==> start_steps(ctx, flags) == run_steps(ctx),
        ctx.devel ==> {
            let steps = start_steps(ctx, flags);
            let work = seq![
                StepView::SetUp,
                StepView::ComposeWithBuild(seq!["build"@] + flags),
                StepView::SetUp,
                StepView::Up,
            ];
            &&& demanded(steps) == work
            &&& speaks_otherwise(steps)
            &&& ends_well(steps, replies) ==> does(steps, replies, work)
        },
{
    if ctx.devel {
        let build = build_plan(ctx, flags)->Ok_0.steps;
        let steps = start_steps(ctx, flags);
        parts_of_run(ctx);
        build_builds(ctx, flags, replies);
        assert(steps == build + run_steps(ctx));
        rows_add_up(build, run_steps(ctx));
        assert(demanded(steps) =~= seq![
            StepView::SetUp,
            StepView::ComposeWithBuild(seq!["build"@] + flags),
            StepView::SetUp,
            StepView::Up,
        ]);
        steady_rows_add_up(build, run_steps(ctx));
        if ends_well(steps, replies) {
            steady_plan_is_done(steps, replies);
        }
    }
}

/// The words of a command line: the program and its arguments.
pub open spec fn words(invocation: InvocationView) -> Seq<WordView> {
    seq![invocation.program] + invocation.args
}

/// The script of a development folder.
pub open spec fn script(os: Os) -> Seq<char> {
    if os == Os::Windows {
        "openc3.bat"@
    } else {
        "openc3.sh"@
    }
}

/// The steps look for the script of the development folder `dev` and then run it there
/// with the subcommand and all the arguments, by way of `bash` where the system is not
/// Windows; that the script is missing, or fails, ends them.
pub open spec fn drives_script(
    steps: Seq<PlannedView>,
    os: Os,
    dev: Seq<char>,
    subcommand: Seq<char>,
    args: Seq<Seq<char>>,
) -> bool {
    let file = FilePathView { folder: Folder::Development, parts: seq![script(os)] };
    let end = seq![WordView::Path(file), WordView::Text(subcommand)] + text_words(args);
    &&& steps.len() == 2
    &&& steps[0].on_failure is Stop
    &&& steps[1].on_failure is Stop
    &&& steps[0].step == (StepView::Require {
        file,
        absent: AbsentView::DevScript { folder: dev, script: script(os) },
    })
    &&& steps[1].step is Run
    &&& steps[1].step->Run_0.dir == Some(
        FilePathView { folder: Folder::Development, parts: seq![] },
    )
    &&& words(steps[1].step->Run_0) == if os == Os::Windows {
        end
    } else {
        seq![WordView::Text("bash"@)] + end
    }
}

/// The script that a command of the development folder runs.
proof fn dev_command_is_driven(
    os: Os,
    dev: Seq<char>,
    subcommand: Seq<char>,
    args: Seq<Seq<char>>,
)
    ensures
        drives_script(crate::commands::dev_steps(os, dev, subcommand, args), os, dev, subcommand, args),
{
    let file = FilePathView { folder: Folder::Development, parts: seq![script(os)] };
    let end = seq![WordView::Path(file), WordView::Text(subcommand)] + text_words(args);
    let invocation = dev_invocation(os, subcommand, args);
    if os == Os::Windows {
        assert(words(invocation) =~= end);
    } else {
        assert(words(invocation) =~= seq![WordView::Text("bash"@)] + end);
    }
}

/// In development mode every command runs the script of the development folder with its
/// own name and the arguments that it was given.
pub proof fn development_commands_drive_the_script(
    ctx: &Context,
    flags: Seq<Seq<char>>,
    local: bool,
)
    requires
        ctx.dev_folder is Some,
    ensures
        ({
            let dev = ctx.dev_folder->0@;
            &&& build_plan(ctx, flags) is Ok && build_plan(ctx, flags)->Ok_0.failure is None
            &&& drives_script(build_plan(ctx, flags)->Ok_0.steps, ctx.os, dev, "build"@, flags)
            &&& drives_script(run_steps(ctx), ctx.os, dev, "run"@, seq![])
            &&& drives_script(start_steps(ctx, flags), ctx.os, dev, "start"@, flags)
            &&& drives_script(stop_steps(ctx), ctx.os, dev, "stop"@, seq![])
            &&& restart_steps(ctx) == stop_steps(ctx) + run_steps(ctx)
            &&& drives_script(
                cleanup_plan_steps(ctx, local, true),
                ctx.os,
                dev,
                "cleanup"@,
                if local {
                    seq!["local"@, "force"@]
                } else {
                    seq!["force"@]
                },
            )
        }),
{
    let dev = ctx.dev_folder->0@;
    dev_command_is_driven(ctx.os, dev, "build"@, flags);
    dev_command_is_driven(ctx.os, dev, "run"@, seq![]);
    dev_command_is_driven(ctx.os, dev, "start"@, flags);
    dev_command_is_driven(ctx.os, dev, "stop"@, seq![]);
    dev_command_is_driven(ctx.os, dev, "cleanup"@, seq!["local"@, "force"@]);
    dev_command_is_driven(ctx.os, dev, "cleanup"@, seq!["force"@]);
}

/// A script that is driven is looked for and then run, in every run that comes to its end
/// without an error.
pub proof fn driven_script_is_run(
    steps: Seq<PlannedView>,
    os: Os,
    dev: Seq<char>,
    subcommand: Seq<char>,
    args: Seq<Seq<char>>,
    replies: Seq<ReplyView>,
)
    requires
        drives_script(steps, os, dev, subcommand, args),
        ends_well(steps, replies),
    ensures
        does(steps, replies, seq![steps[0].step, steps[1].step]),
{
    reveal_with_fuel(demanded, 3);
    assert(demanded(steps) =~= seq![steps[0].step, steps[1].step]);
    steady_plan_is_done(steps, replies);
}

/// `test` sets COSMOS up, builds it, looks for the script that runs the suites, and runs
/// it on the arguments; an installation without the source is refused.
pub proof fn test_builds_then_tests(devel: bool, args: Seq<Seq<char>>, replies: Seq<ReplyView>)
    ensures
        test_plan(devel, args) is Ok <==> devel,
        test_plan(devel, args) is Err ==> test_plan(devel, args)->Err_0 == seq![
            "'test' requires a development install with the COSMOS source tree."@,
        ],
        devel ==> {
            let plan = test_plan(devel, args)->Ok_0;
            let suite = FilePathView {
                folder: Folder::Cosmos,
                parts: seq!["scripts"@, "linux"@, "openc3_test.sh"@],
            };
            &&& plan.failure is None
            &&& plan.steps.len() == 4
            &&& demanded(plan.steps).len() == 4
            &&& demanded(plan.steps)[0] == StepView::SetUp
            &&& demanded(plan.steps)[1] == StepView::ComposeWithBuild(seq!["build"@])
            &&& demanded(plan.steps)[2] == (StepView::Require {
                file: suite,
                absent: AbsentView::TestScript,
            })
            &&& demanded(plan.steps)[3] is Run
            &&& words(demanded(plan.steps)[3]->Run_0) == seq![
                WordView::Text("bash"@),
                WordView::Path(suite),
            ] + text_words(args)
            &&& demanded(plan.steps)[3]->Run_0.dir == Some(
                FilePathView { folder: Folder::Cosmos, parts: seq![] },
            )
            &&& ends_well(plan.steps, replies) ==> does(
                plan.steps,
                replies,
                demanded(plan.steps),
            )
        },
{
    if devel {
        let plan = test_plan(devel, args)->Ok_0;
        reveal_with_fuel(demanded, 5);
        let suite = FilePathView {
            folder: Folder::Cosmos,
            parts: seq!["scripts"@, "linux"@, "openc3_test.sh"@],
        };
        let work = demanded(plan.steps);
        assert(words(work[3]->Run_0) =~= seq![WordView::Text("bash"@), WordView::Path(suite)]
            + text_words(args));
        if ends_well(plan.steps, replies) {
            steady_plan_is_done(plan.steps, replies);
        }
    }
}

/// `logs` shows the logs that were asked for, and does nothing else.
pub proof fn logs_are_shown(service: Option<Seq<char>>, follow: bool, replies: Seq<ReplyView>)
    ensures
        logs_steps(service, follow).len() == 1,
        logs_steps(service, follow)[0].on_failure is Stop,
        ends_well(logs_steps(service, follow), replies) ==> does(
            logs_steps(service, follow),
            replies,
            seq![StepView::Logs { service, follow }],
        ),
{
    let steps = logs_steps(service, follow);
    reveal_with_fuel(demanded, 2);
    assert(demanded(steps) =~= seq![StepView::Logs { service, follow }]);
    if ends_well(steps, replies) {
        steady_plan_is_done(steps, replies);
    }
}

/// The browser is opened on just the address that was given, by what the system has for
/// it.
pub proof fn browser_is_opened_on_the_address(os: Os, url: Seq<char>)
    ensures
        words(browser_invocation(os, url)).last() == WordView::Text(url),
        browser_invocation(os, url).dir is None,
        words(browser_invocation(os, url)).drop_last() == match os {
            Os::MacOs => seq![WordView::Text("open"@)],
            Os::Windows => seq![
                WordView::Text("cmd"@),
                WordView::Text("/C"@),
                WordView::Text("start"@),
                WordView::Text(""@),
            ],
            Os::Other => seq![WordView::Text("xdg-open"@)],
        },
{
    let all = words(browser_invocation(os, url));
    match os {
        Os::MacOs => {
            assert(all.drop_last() =~= seq![WordView::Text("open"@)]);
        },
        Os::Windows => {
            assert(all.drop_last() =~= seq![
                WordView::Text("cmd"@),
                WordView::Text("/C"@),
                WordView::Text("start"@),
                WordView::Text(""@),
            ]);
        },
        Os::Other => {
            assert(all.drop_last() =~= seq![WordView::Text("xdg-open"@)]);
        },
    }
}

/// The work of an upgrade, once the files were read with the given contents: the old
/// installation is removed and the new one installed, the files that were read are
/// written back, and COSMOS is run.
pub open spec fn upgrade_work(
    ctx: &Context,
    tag: Seq<char>,
    enterprise: bool,
    token: Seq<char>,
    first: Option<Seq<u8>>,
    second: Option<Seq<u8>>,
) -> Seq<StepView> {
    seq![StepView::RemoveCosmos, StepView::Install { tag, enterprise, token }] + restored(
        ".env.local"@,
        first,
    ) + restored("compose.override.yaml"@, second) + (if ctx.dev_folder is None {
        seq![StepView::SetUp, StepView::Up]
    } else {
        seq![run_steps(ctx)[0].step, run_steps(ctx)[1].step]
    })
}

/// A file is written back with what was read of it.
pub open spec fn restored(name: Seq<char>, contents: Option<Seq<u8>>) -> Seq<StepView> {
    match contents {
        Some(bytes) => seq![StepView::Restore { name, contents: bytes }],
        None => seq![],
    }
}

/// What an upgrade is made of between the reading and the writing back.
proof fn parts_of_middle(ctx: &Context, tag: Seq<char>, enterprise: bool, token: Seq<char>)
    ensures
        ({
            let middle = upgrade_middle(ctx, tag, enterprise, token);
            &&& demanded(middle) == seq![
                StepView::RemoveCosmos,
                StepView::Install { tag, enterprise, token },
            ]
            &&& is_steady(middle) && skips_within(middle)
            &&& ctx.dev_folder is None ==> {
                &&& skips_nothing(middle)
                &&& middle.len() == 5
                &&& middle[0].step is Progress
                &&& middle[1].step is Stop
            }
        }),
{
    let stop = crate::commands::tolerated(stop_steps(ctx));
    let first = seq![crate::commands::progress_step("Stopping COSMOS…"@)];
    let rest = upgrade_replacement(ctx, tag, enterprise, token).take(3);
    reveal_with_fuel(demanded, 4);
    assert(demanded(first) =~= Seq::<StepView>::empty());
    assert(demanded(stop) =~= Seq::<StepView>::empty());
    assert(demanded(rest) =~= seq![
        StepView::RemoveCosmos,
        StepView::Install { tag, enterprise, token },
    ]);
    rows_add_up(first + stop, rest);
    rows_add_up(first, stop);
    assert(upgrade_middle(ctx, tag, enterprise, token) == first + stop + rest);
    assert(demanded(upgrade_middle(ctx, tag, enterprise, token)) =~= demanded(rest));
    steady_rows_add_up(first, stop);
    steady_rows_add_up(first + stop, rest);
}

/// What an upgrade is made of after the writing back.
proof fn parts_of_end(ctx: &Context, tag: Seq<char>)
    ensures
        ({
            let end = upgrade_end(ctx, tag);
            &&& demanded(end) == if ctx.dev_folder is None {
                seq![StepView::SetUp, StepView::Up]
            } else {
                seq![run_steps(ctx)[0].step, run_steps(ctx)[1].step]
            }
            &&& is_steady(end) && skips_within(end) && skips_nothing(end)
            &&& forall|i: int| 0 <= i < end.len() ==> !((#[trigger] end[i]).step is RemoveCosmos)
        }),
{
    let end = upgrade_end(ctx, tag);
    let run = run_steps(ctx);
    let before_run = seq![end[0]];
    let after_run = seq![end.last()];
    if ctx.dev_folder is None {
        parts_of_run(ctx);
    } else {
        dev_command_is_driven(ctx.os, ctx.dev_folder->0@, "run"@, seq![]);
        reveal_with_fuel(demanded, 3);
        assert(demanded(run) =~= seq![run[0].step, run[1].step]);
    }
    assert(end == before_run + run + after_run);
    rows_add_up(before_run + run, after_run);
    rows_add_up(before_run, run);
    reveal_with_fuel(demanded, 2);
    assert(demanded(before_run) =~= Seq::<StepView>::empty());
    assert(demanded(after_run) =~= Seq::<StepView>::empty());
    assert(demanded(end) =~= demanded(run));
    steady_rows_add_up(before_run, run);
    steady_rows_add_up(before_run + run, after_run);
}

/// What writing a file back is made of.
proof fn parts_of_writing_back(name: Seq<char>, contents: Option<Seq<u8>>)
    ensures
        demanded(written_back(name, contents)) == restored(name, contents),
        is_steady(written_back(name, contents)),
        skips_within(written_back(name, contents)),
        skips_nothing(written_back(name, contents)),
{
    reveal_with_fuel(demanded, 2);
    assert(demanded(written_back(name, contents)) =~= restored(name, contents));
}

/// What an upgrade is made of once the files have been read.
proof fn parts_of_upgrade(
    ctx: &Context,
    tag: Seq<char>,
    enterprise: bool,
    token: Seq<char>,
    first: Option<Seq<u8>>,
    second: Option<Seq<u8>>,
)
    ensures
        ({
            let plan = upgrade_after_reading(ctx, tag, enterprise, token, first, second);
            &&& plan.failure is None
            &&& is_steady(plan.steps)
            &&& demanded(plan.steps) == upgrade_work(ctx, tag, enterprise, token, first, second)
            &&& ctx.dev_folder is None ==> skips_nothing(plan.steps)
            &&& ctx.dev_folder is None ==> plan.steps.len() > 4 && plan.steps[0].step is Progress
                && plan.steps[1].step is Stop
        }),
{
    let plan = upgrade_after_reading(ctx, tag, enterprise, token, first, second);
    upgrade_after_reading_steps(ctx, tag, enterprise, token, first, second);
    let names = crate::commands::preserved_names();
    let middle = upgrade_middle(ctx, tag, enterprise, token);
    let one = written_back(names[0], first);
    let two = written_back(names[1], second);
    let end = upgrade_end(ctx, tag);
    parts_of_middle(ctx, tag, enterprise, token);
    parts_of_end(ctx, tag);
    parts_of_writing_back(names[0], first);
    parts_of_writing_back(names[1], second);
    rows_add_up(middle, one);
    rows_add_up(middle + one, two);
    rows_add_up(middle + one + two, end);
    steady_rows_add_up(middle, one);
    steady_rows_add_up(middle + one, two);
    steady_rows_add_up(middle + one + two, end);
    assert(plan.steps == middle + one + two + end);
    assert(demanded(plan.steps) =~= upgrade_work(ctx, tag, enterprise, token, first, second));
    if ctx.dev_folder is None {
        assert(plan.steps[0] == middle[0] && plan.steps[1] == middle[1]);
    }
}

/// An upgrade replaces the installation and starts COSMOS again: in every run that comes
/// to its end without an error, the files were read, the old installation was removed,
/// the version that was asked for was installed, each file was written back with what was
/// read of it, and then COSMOS was set up and its containers were brought up, in this
/// order.
pub proof fn upgrade_replaces_and_starts_again(
    ctx: &Context,
    tag: Seq<char>,
    enterprise: bool,
    token: Seq<char>,
    replies: Seq<ReplyView>,
)
    requires
        ends_well(upgrade_steps(ctx, tag, enterprise, token), replies),
    ensures
        ({
            let steps = upgrade_steps(ctx, tag, enterprise, token);
            exists|count: int, first: Option<Seq<u8>>, second: Option<Seq<u8>>|
                #![trigger files_were_read(ctx, tag, enterprise, token, replies, count, first, second)]
                was_read(fresh(steps), replies, ".env.local"@, first, count) && was_read(
                    fresh(steps),
                    replies,
                    "compose.override.yaml"@,
                    second,
                    count,
                ) && does(
                    steps,
                    replies,
                    upgrade_work(ctx, tag, enterprise, token, first, second),
                )
        }),
{
    let steps = upgrade_steps(ctx, tag, enterprise, token);
    let plan = fresh(steps);
    upgrade_reads_first(ctx, tag, enterprise, token, replies);
    let (count, first, second) = choose|
        count: int,
        first: Option<Seq<u8>>,
        second: Option<Seq<u8>>,
    |
        files_were_read(ctx, tag, enterprise, token, replies, count, first, second);
    let before = replies.take(count);
    let rest = replies.skip(count);
    let after = run_plan(plan, before);
    assert(before + rest == replies);
    run_continues(plan, before, rest);
    parts_of_upgrade(ctx, tag, enterprise, token, first, second);
    assert(after == fresh(after.steps));
    steady_plan_is_done(after.steps, rest);
    done_continues(plan, before, rest, demanded(after.steps), rest.len() as int);
}

/// An upgrade tries to stop the containers before it removes anything.
pub proof fn upgrade_stops_before_it_removes(
    ctx: &Context,
    tag: Seq<char>,
    enterprise: bool,
    token: Seq<char>,
    first: Option<Seq<u8>>,
    second: Option<Seq<u8>>,
    replies: Seq<ReplyView>,
)
    requires
        ctx.dev_folder is None,
        ({
            let now = run_plan(
                upgrade_after_reading(ctx, tag, enterprise, token, first, second),
                replies,
            );
            now.failure is None && now.steps.len() > 0 && now.steps[0].step is RemoveCosmos
        }),
    ensures
        exists|i: int|
            0 <= i < replies.len() && (#[trigger] run_plan(
                upgrade_after_reading(ctx, tag, enterprise, token, first, second),
                replies.take(i),
            )).steps[0].step is Stop,
{
    let plan = upgrade_after_reading(ctx, tag, enterprise, token, first, second);
    let now = run_plan(plan, replies);
    parts_of_upgrade(ctx, tag, enterprise, token, first, second);
    steps_take_their_turns(plan.steps, replies);
    assert(plan == fresh(plan.steps));
    let k = choose|k: int| #[trigger]
        is_left(now.steps, plan.steps, k) && taken_in_order(
            plan,
            replies,
            plan.steps.take(k),
            replies.len() as int,
        );
    let aside = choose|aside: Seq<PlannedView>| #[trigger]
        is_aside(aside) && now.steps == aside + plan.steps.skip(k);
    assert(aside.len() == 0 || now.steps[0] == aside[0]);
    assert(now.steps[0] == plan.steps[k]);
    upgrade_after_reading_steps(ctx, tag, enterprise, token, first, second);
    assert(k > 1);
    each_was_taken(plan, replies, plan.steps.take(k), replies.len() as int, 1);
    let i = choose|i: int| #[trigger]
        takes_turn(plan, replies, i, plan.steps.take(k)[1]) && i < replies.len();
    assert(run_plan(plan, replies.take(i)).steps[0].step is Stop);
}

/// Whatever the steps can do without is a word to the user, the reading of a file, or the
/// stopping of COSMOS.
pub open spec fn speaks_reads_or_stops(steps: Seq<PlannedView>) -> bool {
    forall|i: int|
        0 <= i < steps.len() && (#[trigger] steps[i]).on_failure is Skip ==> only_speaks(
            steps[i].step,
        ) || steps[i].step is Keep || steps[i].step is Stop
}

/// Two such rows after one another are one.
proof fn speaking_rows_add_up(front: Seq<PlannedView>, back: Seq<PlannedView>)
    requires
        speaks_reads_or_stops(front),
        speaks_reads_or_stops(back),
    ensures
        speaks_reads_or_stops(front + back),
{
    let all = front + back;
    assert forall|i: int|
        0 <= i < all.len() && (#[trigger] all[i]).on_failure is Skip implies only_speaks(
        all[i].step,
    ) || all[i].step is Keep || all[i].step is Stop by {
        if i < front.len() {
            assert(all[i] == front[i]);
        } else {
            assert(all[i] == back[i - front.len()]);
        }
    }
}

/// Whatever an upgrade can do without is a word to the user, the reading of a file, or
/// the stopping of COSMOS; and the words are those of an upgrade.
#[verifier::rlimit(40)]
pub proof fn upgrade_does_nothing_else(
    ctx: &Context,
    tag: Seq<char>,
    enterprise: bool,
    token: Seq<char>,
)
    requires
        ctx.dev_folder is None,
    ensures
        speaks_reads_or_stops(upgrade_steps(ctx, tag, enterprise, token)),
        said(upgrade_steps(ctx, tag, enterprise, token)) == seq![
            "Upgrading COSMOS to "@ + tag + "…"@,
            "Stopping COSMOS…"@,
            "Replacing the COSMOS install with the new version…"@,
            "Starting the upgraded COSMOS…"@,
        ] + said(run_steps(ctx)) + seq!["COSMOS upgraded to "@ + tag + ". It is restarting."@],
{
    let opening = upgrade_opening(ctx, tag);
    let middle = upgrade_replacement(ctx, tag, enterprise, token);
    let run = run_steps(ctx);
    let word = "COSMOS upgraded to "@ + tag + ". It is restarting."@;
    let end = seq![crate::commands::progress_step(word)];
    parts_of_run(ctx);
    words_of_opening(ctx, tag);
    words_of_replacement(ctx, tag, enterprise, token);
    rows_add_up(opening, middle);
    rows_add_up(opening + middle, run);
    rows_add_up(opening + middle + run, end);
    reveal_with_fuel(said, 2);
    assert(said(end) =~= seq![word]);
    speaking_rows_add_up(opening, middle);
    speaking_rows_add_up(opening + middle, run);
    speaking_rows_add_up(opening + middle + run, end);
    assert(said(upgrade_steps(ctx, tag, enterprise, token)) =~= seq![
        "Upgrading COSMOS to "@ + tag + "…"@,
        "Stopping COSMOS…"@,
        "Replacing the COSMOS install with the new version…"@,
        "Starting the upgraded COSMOS…"@,
    ] + said(run) + seq![word]);
}

/// The words with which an upgrade opens.
proof fn words_of_opening(ctx: &Context, tag: Seq<char>)
    requires
        ctx.dev_folder is None,
    ensures
        said(upgrade_opening(ctx, tag)) == seq![
            "Upgrading COSMOS to "@ + tag + "…"@,
            "Stopping COSMOS…"@,
        ],
        speaks_reads_or_stops(upgrade_opening(ctx, tag)),
{
    reveal_with_fuel(said, 6);
    assert(said(upgrade_opening(ctx, tag)) =~= seq![
        "Upgrading COSMOS to "@ + tag + "…"@,
        "Stopping COSMOS…"@,
    ]);
}

/// The words of the replacement.
proof fn words_of_replacement(ctx: &Context, tag: Seq<char>, enterprise: bool, token: Seq<char>)
    ensures
        said(upgrade_replacement(ctx, tag, enterprise, token)) == seq![
            "Replacing the COSMOS install with the new version…"@,
            "Starting the upgraded COSMOS…"@,
        ],
        speaks_reads_or_stops(upgrade_replacement(ctx, tag, enterprise, token)),
{
    reveal_with_fuel(said, 7);
    assert(said(upgrade_replacement(ctx, tag, enterprise, token)) =~= seq![
        "Replacing the COSMOS install with the new version…"@,
        "Starting the upgraded COSMOS…"@,
    ]);
}

/// A cleanup asks before it does anything, unless it is forced, and then removes the
/// volumes before it sweeps the local plugins, which it does only if asked to.
pub proof fn cleanup_asks_then_removes(ctx: &Context, local: bool)
    ensures
        ({
            let asked = cleanup_plan_steps(ctx, local, false);
            let forced = cleanup_plan_steps(ctx, local, true);
            let sweep = StepView::Sweep(
                FilePathView { folder: Folder::Cosmos, parts: seq!["plugins"@, "DEFAULT"@] },
            );
            &&& asked.len() == forced.len() + 1
            &&& asked[0].step == StepView::Confirm(
                "Are you sure? Cleanup removes ALL docker volumes and COSMOS data! [y/N] "@,
            )
            &&& asked.drop_first() == forced
            &&& ctx.dev_folder is None ==> {
                &&& forced.len() == if local {
                    2int
                } else {
                    1int
                }
                &&& forced[0].step == StepView::DownVolumes && forced[0].on_failure is Stop
                &&& local ==> forced[1].step == sweep && forced[1].on_failure is Stop
            }
        }),
{
    assert(cleanup_plan_steps(ctx, local, false).drop_first() =~= cleanup_plan_steps(
        ctx,
        local,
        true,
    ));
}

/// The command line tool gets the arguments that it is given, at the end and in their
/// order; the current folder is mounted; being root adds just the word for it; the
/// password is passed on wherever the environment file sets it, and the user too, for
/// Enterprise only.
pub proof fn command_line_tool_gets_its_arguments(
    enterprise: bool,
    env: Map<Seq<char>, Seq<char>>,
    cwd: Seq<char>,
    args: Seq<Seq<char>>,
    as_root: bool,
)
    ensures
        cli_args(enterprise, env, cwd, args, as_root) == cli_args(
            enterprise,
            env,
            cwd,
            seq![],
            as_root,
        ) + args,
        cli_args(enterprise, env, cwd, args, true) == cli_args(
            enterprise,
            env,
            cwd,
            args,
            false,
        ).insert(3, "--user=root"@),
        ({
            let user = "OPENC3_API_USER"@;
            let password = "OPENC3_API_PASSWORD"@;
            let plain = cli_args(enterprise, env, cwd, seq![], false);
            let passed = (if enterprise && env.contains_key(user) {
                seq!["-e"@, "OPENC3_API_USER="@ + env[user]]
            } else {
                seq![]
            }) + (if env.contains_key(password) {
                seq!["-e"@, "OPENC3_API_PASSWORD="@ + env[password]]
            } else {
                seq![]
            });
            &&& plain.take(7) == seq![
                "run"@,
                "-it"@,
                "--rm"@,
                "-v"@,
                cwd + ":/openc3/local:z"@,
                "-w"@,
                "/openc3/local"@,
            ]
            &&& plain.skip(7) == passed + seq![
                "--no-deps"@,
                "openc3-cosmos-cmd-tlm-api"@,
                "ruby"@,
                "/openc3/bin/openc3cli"@,
            ]
        }),
{
    let user = "OPENC3_API_USER"@;
    let password = "OPENC3_API_PASSWORD"@;
    reveal_strlit("OPENC3_API_USER");
    reveal_strlit("OPENC3_API_PASSWORD");
    reveal_strlit("OPENC3_API_USER=");
    reveal_strlit("OPENC3_API_PASSWORD=");
    reveal_strlit("=");
    assert(user + "="@ =~= "OPENC3_API_USER="@);
    assert(password + "="@ =~= "OPENC3_API_PASSWORD="@);
    assert(cli_args(enterprise, env, cwd, args, as_root) =~= cli_args(
        enterprise,
        env,
        cwd,
        seq![],
        as_root,
    ) + args);
    assert(cli_args(enterprise, env, cwd, args, true) =~= cli_args(
        enterprise,
        env,
        cwd,
        args,
        false,
    ).insert(3, "--user=root"@));
    let plain = cli_args(enterprise, env, cwd, seq![], false);
    assert(plain.take(7) =~= seq![
        "run"@,
        "-it"@,
        "--rm"@,
        "-v"@,
        cwd + ":/openc3/local:z"@,
        "-w"@,
        "/openc3/local"@,
    ]);
}

/// The command line tool is run once what it needs is known: an environment file that
/// cannot be read is named first, then the current folder.
pub proof fn command_line_tool_is_run(
    enterprise: bool,
    env: Result<Map<Seq<char>, Seq<char>>, Seq<Seq<char>>>,
    cwd: Result<Seq<char>, Seq<Seq<char>>>,
    args: Seq<Seq<char>>,
    as_root: bool,
    replies: Seq<ReplyView>,
)
    ensures
        ({
            let plan = cli_plan(enterprise, env, cwd, args, as_root);
            &&& plan is Ok <==> env is Ok && cwd is Ok
            &&& env is Err ==> plan->Err_0 == seq![
                "reading the COSMOS .env file (is COSMOS installed?)"@,
            ] + env->Err_0
            &&& env is Ok && cwd is Err ==> plan->Err_0 == cwd->Err_0
            &&& plan is Ok ==> plan->Ok_0.failure is None && plan->Ok_0.steps.len() == 1
                && plan->Ok_0.steps[0].on_failure is Stop && plan->Ok_0.steps[0].step
                == StepView::Compose(
                cli_args(enterprise, env->Ok_0, cwd->Ok_0, args, as_root),
            )
        }),
{
}

} // verus!
