//! The commands that run, stop, build, upgrade and clean up COSMOS.
use crate::context::{
    plain_invocation, push_texts, text_words, Context, EnvFile, FilePath, FilePathView, Folder,
    Invocation, InvocationView, Os, Word, WordView,
};
use crate::error::{explained, ErrorChain};
use crate::model::{group_views, view_option, view_result, views};
use crate::plan::{
    all_salvage, best_effort, care_is_kept, confirms, contents_are_kept, error_leaves_only_salvage,
    file_is_written_back, filled, filled_add, filled_elsewhere, fresh, has_its_turn,
    installs_with_care, needed, nothing_drops, only_salvages, plan_best_effort, plan_needed,
    plan_salvaging, resumed, run_plan, salvaging, spares, sweep_spares_its_file, writes_back,
    Absent, AbsentView, OnFailure, OnFailureView, Plan, PlanView, Planned, PlannedView, ReplyView,
    Step, StepView,
};
use crate::text::{concat3, copy_texts};
use vstd::prelude::*;

verus! {

broadcast use group_views;

/// The script that a source checkout is driven with.
pub open spec fn script_name(os: Os) -> Seq<char> {
    if os == Os::Windows {
        "openc3.bat"@
    } else {
        "openc3.sh"@
    }
}

/// The script of the development folder.
pub open spec fn dev_script(os: Os) -> FilePathView {
    FilePathView { folder: Folder::Development, parts: seq![script_name(os)] }
}

/// The command line that runs the script of the development folder, in that folder.
pub open spec fn dev_invocation(
    os: Os,
    subcommand: Seq<char>,
    args: Seq<Seq<char>>,
) -> InvocationView {
    let words = seq![WordView::Text(subcommand)] + text_words(args);
    let dir = Some(FilePathView { folder: Folder::Development, parts: seq![] });
    if os == Os::Windows {
        InvocationView { program: WordView::Path(dev_script(os)), args: words, dir }
    } else {
        InvocationView {
            program: WordView::Text("bash"@),
            args: seq![WordView::Path(dev_script(os))] + words,
            dir,
        }
    }
}

/// Running the script of the development folder `dev`, which has to be there.
pub open spec fn dev_steps(
    os: Os,
    dev: Seq<char>,
    subcommand: Seq<char>,
    args: Seq<Seq<char>>,
) -> Seq<PlannedView> {
    seq![
        needed(
            StepView::Require {
                file: dev_script(os),
                absent: AbsentView::DevScript { folder: dev, script: script_name(os) },
            },
        ),
        needed(StepView::Run(dev_invocation(os, subcommand, args))),
    ]
}

/// In development mode: runs the script of the source checkout `dev` with
/// `subcommand` and `args`.
pub fn run_dev(os: Os, dev: &str, subcommand: &str, args: &Vec<String>) -> (steps: Vec<Planned>)
    ensures
        views(steps@) == dev_steps(os, dev@, subcommand@, views(args@)),
{
    let script = if os == Os::Windows {
        "openc3.bat"
    } else {
        "openc3.sh"
    };
    let path = FilePath::folder(Folder::Development).join(script);
    assert(path@.parts == seq![script_name(os)]);
    let run_path = FilePath::folder(Folder::Development).join(script);
    assert(run_path@.parts == seq![script_name(os)]);
    let mut words: Vec<Word> = Vec::new();
    let program = if os == Os::Windows {
        Word::Path(run_path)
    } else {
        words.push(Word::Path(run_path));
        Word::Text("bash".to_owned())
    };
    words.push(Word::Text(subcommand.to_owned()));
    push_texts(&mut words, args);
    let invocation = Invocation {
        program,
        args: words,
        dir: Some(FilePath::folder(Folder::Development)),
    };
    assert(invocation@.args == dev_invocation(os, subcommand@, views(args@)).args);
    let mut steps: Vec<Planned> = Vec::new();
    steps.push(
        plan_needed(
            Step::Require {
                file: path,
                absent: Absent::DevScript { folder: dev.to_owned(), script: script.to_owned() },
            },
        ),
    );
    steps.push(plan_needed(Step::Run(invocation)));
    assert(views(steps@) == dev_steps(os, dev@, subcommand@, views(args@)));
    steps
}

/// Building all containers from source.
pub open spec fn build_steps(flags: Seq<Seq<char>>) -> Seq<PlannedView> {
    seq![
        needed(StepView::SetUp),
        needed(StepView::ComposeWithBuild(seq!["build"@] + flags)),
    ]
}

/// The arguments of a build.
fn build_args(flags: &Vec<String>) -> (args: Vec<String>)
    ensures
        views(args@) == seq!["build"@] + views(flags@),
{
    let mut args: Vec<String> = Vec::new();
    args.push("build".to_owned());
    let mut rest = copy_texts(flags);
    args.append(&mut rest);
    assert(views(args@) == seq!["build"@] + views(flags@));
    args
}

/// Plans to build all containers from source.
fn plan_build(flags: &Vec<String>) -> (steps: Vec<Planned>)
    ensures
        views(steps@) == build_steps(views(flags@)),
{
    let mut steps: Vec<Planned> = Vec::new();
    steps.push(plan_needed(Step::SetUp));
    steps.push(plan_needed(Step::ComposeWithBuild(build_args(flags))));
    assert(views(steps@) == build_steps(views(flags@)));
    steps
}

/// What a build comes to: a plan, or the word that there is nothing to build.
pub open spec fn build_plan(ctx: &Context, flags: Seq<Seq<char>>) -> Result<
    PlanView,
    Seq<Seq<char>>,
> {
    match ctx.dev_folder {
        Some(dev) => Ok(fresh(dev_steps(ctx.os, dev@, "build"@, flags))),
        None => if ctx.devel {
            Ok(fresh(build_steps(flags)))
        } else {
            Err(
                seq![
                    "'build' is only available for development installs (no compose-build.yaml found)."@,
                ],
            )
        },
    }
}

/// `build`: builds all COSMOS containers from source. Only an installation that
/// holds the source can be built.
pub fn build(ctx: &Context, flags: &Vec<String>) -> (plan: Result<Plan, ErrorChain>)
    ensures
        view_result(plan) == build_plan(ctx, views(flags@)),
{
    match &ctx.dev_folder {
        Some(dev) => Ok(Plan::new(run_dev(ctx.os, dev.as_str(), "build", flags))),
        None => if ctx.devel {
            Ok(Plan::new(plan_build(flags)))
        } else {
            Err(
                ErrorChain::new(
                    "'build' is only available for development installs (no compose-build.yaml found).".to_owned(),
                ),
            )
        },
    }
}

/// Starting the containers, detached.
pub open spec fn run_steps(ctx: &Context) -> Seq<PlannedView> {
    match ctx.dev_folder {
        Some(dev) => dev_steps(ctx.os, dev@, "run"@, seq![]),
        None => {
            let warn = if ctx.os == Os::Windows {
                seq![]
            } else {
                seq![best_effort(StepView::QueryUser)]
            };
            warn + seq![
                needed(StepView::SetUp),
                best_effort(
                    StepView::Progress(
                        "Starting COSMOS containers (first run downloads images — this can take several minutes)…"@,
                    ),
                ),
                needed(StepView::Up),
                best_effort(
                    StepView::Progress("COSMOS is starting. Access it at http://localhost:2900"@),
                ),
            ]
        },
    }
}

/// Plans to start the containers.
fn plan_run(ctx: &Context) -> (steps: Vec<Planned>)
    ensures
        views(steps@) == run_steps(ctx),
{
    match &ctx.dev_folder {
        Some(dev) => {
            let none: Vec<String> = Vec::new();
            run_dev(ctx.os, dev.as_str(), "run", &none)
        },
        None => {
            let mut steps: Vec<Planned> = Vec::new();
            if ctx.os != Os::Windows {
                steps.push(plan_best_effort(Step::QueryUser));
            }
            steps.push(plan_needed(Step::SetUp));
            steps.push(
                plan_best_effort(
                    Step::Progress(
                        "Starting COSMOS containers (first run downloads images — this can take several minutes)…".to_owned(),
                    ),
                ),
            );
            steps.push(plan_needed(Step::Up));
            steps.push(
                plan_best_effort(
                    Step::Progress(
                        "COSMOS is starting. Access it at http://localhost:2900".to_owned(),
                    ),
                ),
            );
            assert(views(steps@) == run_steps(ctx));
            steps
        },
    }
}

/// `run`: starts the containers, detached.
pub fn run(ctx: &Context) -> (plan: Plan)
    ensures
        plan@ == fresh(run_steps(ctx)),
{
    Plan::new(plan_run(ctx))
}

/// Building, where there is something to build, and then running.
pub open spec fn start_steps(ctx: &Context, flags: Seq<Seq<char>>) -> Seq<PlannedView> {
    match ctx.dev_folder {
        Some(dev) => dev_steps(ctx.os, dev@, "start"@, flags),
        None => if ctx.devel {
            build_steps(flags) + run_steps(ctx)
        } else {
            run_steps(ctx)
        },
    }
}

/// `start`: builds (development installs) and then runs.
pub fn start(ctx: &Context, flags: &Vec<String>) -> (plan: Plan)
    ensures
        plan@ == fresh(start_steps(ctx, views(flags@))),
{
    match &ctx.dev_folder {
        Some(dev) => Plan::new(run_dev(ctx.os, dev.as_str(), "start", flags)),
        None => {
            let mut run = plan_run(ctx);
            if ctx.devel {
                let mut steps = plan_build(flags);
                steps.append(&mut run);
                Plan::new(steps)
            } else {
                Plan::new(run)
            }
        },
    }
}

/// Stopping the containers and tearing them down.
pub open spec fn stop_steps(ctx: &Context) -> Seq<PlannedView> {
    match ctx.dev_folder {
        Some(dev) => dev_steps(ctx.os, dev@, "stop"@, seq![]),
        None => seq![needed(StepView::Stop)],
    }
}

/// Plans to stop the containers.
fn plan_stop(ctx: &Context) -> (steps: Vec<Planned>)
    ensures
        views(steps@) == stop_steps(ctx),
{
    match &ctx.dev_folder {
        Some(dev) => {
            let none: Vec<String> = Vec::new();
            run_dev(ctx.os, dev.as_str(), "stop", &none)
        },
        None => {
            let mut steps: Vec<Planned> = Vec::new();
            steps.push(plan_needed(Step::Stop));
            assert(views(steps@) == stop_steps(ctx));
            steps
        },
    }
}

/// `stop`: gracefully stops the containers and tears them down.
pub fn stop(ctx: &Context) -> (plan: Plan)
    ensures
        plan@ == fresh(stop_steps(ctx)),
{
    Plan::new(plan_stop(ctx))
}

/// Stopping, and then running.
pub open spec fn restart_steps(ctx: &Context) -> Seq<PlannedView> {
    stop_steps(ctx) + run_steps(ctx)
}

/// `restart`: stops, then runs.
pub fn restart(ctx: &Context) -> (plan: Plan)
    ensures
        plan@ == fresh(restart_steps(ctx)),
{
    let mut steps = plan_stop(ctx);
    let mut run = plan_run(ctx);
    steps.append(&mut run);
    Plan::new(steps)
}

/// The files that hold the user's configuration and secrets; they survive an
/// upgrade.
pub open spec fn preserved_names() -> Seq<Seq<char>> {
    seq![".env.local"@, "compose.override.yaml"@]
}

/// Steps of which the first that fails ends only the steps themselves, and not the
/// plan that they stand in.
pub open spec fn tolerated(steps: Seq<PlannedView>) -> Seq<PlannedView> {
    Seq::new(
        steps.len(),
        |i: int|
            PlannedView {
                step: steps[i].step,
                on_failure: match steps[i].on_failure {
                    OnFailureView::Skip(count) => OnFailureView::Skip(count),
                    _ => OnFailureView::Skip((steps.len() - 1 - i) as nat),
                },
            },
    )
}

/// Lets the failure of one of the steps end only these steps.
fn tolerate(steps: Vec<Planned>) -> (tolerant: Vec<Planned>)
    ensures
        views(tolerant@) == tolerated(views(steps@)),
{
    let ghost all = views(steps@);
    let mut steps = steps;
    let mut tolerant: Vec<Planned> = Vec::new();
    while steps.len() > 0
        invariant
            tolerant@.len() + steps@.len() == all.len(),
            views(steps@) == all.skip(tolerant@.len() as int),
            views(tolerant@) == tolerated(all).take(tolerant@.len() as int),
        decreases steps@.len(),
    {
        let ghost before = steps@;
        let ghost count = tolerant@.len() as int;
        let planned = steps.remove(0);
        assert(steps@ == before.drop_first());
        assert(planned@ == views(before)[0]);
        assert(all.skip(count).drop_first() == all.skip(count + 1));
        let on_failure = match planned.on_failure {
            OnFailure::Skip(count) => OnFailure::Skip(count),
            _ => OnFailure::Skip(steps.len()),
        };
        tolerant.push(Planned { step: planned.step, on_failure });
        assert(tolerated(all).take(count + 1) == tolerated(all).take(count).push(
            tolerated(all)[count],
        ));
    }
    assert(tolerated(all).take(all.len() as int) == tolerated(all));
    tolerant
}

/// Telling the user how far things are.
pub open spec fn progress_step(text: Seq<char>) -> PlannedView {
    best_effort(StepView::Progress(text))
}

/// Plans to tell the user how far things are.
fn plan_progress(text: String) -> (planned: Planned)
    ensures
        planned@ == progress_step(text@),
{
    plan_best_effort(Step::Progress(text))
}

/// Writing a preserved file back with the given contents.
pub open spec fn restore_step(name: Seq<char>, contents: Seq<u8>) -> PlannedView {
    salvaging(StepView::Restore { name, contents }, Some("restoring "@ + name))
}

/// Plans to write a preserved file back with what will have been read of it.
fn plan_restore(name: &str) -> (planned: Planned)
    ensures
        planned@ == restore_step(name@, seq![]),
{
    let mut message = "restoring ".to_owned();
    message.append(name);
    let contents: Vec<u8> = Vec::new();
    assert(contents@ == Seq::<u8>::empty());
    plan_salvaging(Step::Restore { name: name.to_owned(), contents }, Some(message))
}

/// What an upgrade does before the old installation is removed: the preserved
/// files are read and COSMOS is stopped, if it can be.
pub open spec fn upgrade_opening(ctx: &Context, tag: Seq<char>) -> Seq<PlannedView> {
    seq![
        progress_step("Upgrading COSMOS to "@ + tag + "…"@),
        best_effort(StepView::Keep(preserved_names()[0])),
        best_effort(StepView::Keep(preserved_names()[1])),
        progress_step("Stopping COSMOS…"@),
    ] + tolerated(stop_steps(ctx))
}

/// The replacement of the old installation, and the return of the preserved files. From
/// the removal on, an error still lets the files be written back.
pub open spec fn upgrade_replacement(
    ctx: &Context,
    tag: Seq<char>,
    enterprise: bool,
    token: Seq<char>,
) -> Seq<PlannedView> {
    seq![
        progress_step("Replacing the COSMOS install with the new version…"@),
        salvaging(
            StepView::RemoveCosmos,
            Some("removing the old COSMOS install at "@ + ctx.cosmos@),
        ),
        salvaging(StepView::Install { tag, enterprise, token }, None),
        restore_step(preserved_names()[0], seq![]),
        restore_step(preserved_names()[1], seq![]),
        progress_step("Starting the upgraded COSMOS…"@),
    ]
}

/// The steps of an upgrade.
pub open spec fn upgrade_steps(
    ctx: &Context,
    tag: Seq<char>,
    enterprise: bool,
    token: Seq<char>,
) -> Seq<PlannedView> {
    upgrade_opening(ctx, tag) + upgrade_replacement(ctx, tag, enterprise, token) + run_steps(ctx)
        + seq![progress_step("COSMOS upgraded to "@ + tag + ". It is restarting."@)]
}

/// Upgrades COSMOS to `tag`: stops it, replaces the installation with the new
/// version, and runs it again. The user's configuration and secrets are carried
/// across, also where the replacement fails.
pub fn upgrade_cosmos(ctx: &Context, tag: &str, enterprise: bool, token: &str) -> (plan: Plan)
    ensures
        plan@ == fresh(upgrade_steps(ctx, tag@, enterprise, token@)),
{
    let mut steps: Vec<Planned> = Vec::new();
    steps.push(plan_progress(concat3("Upgrading COSMOS to ", tag, "…")));
    steps.push(plan_best_effort(Step::Keep(".env.local".to_owned())));
    steps.push(plan_best_effort(Step::Keep("compose.override.yaml".to_owned())));
    steps.push(plan_progress("Stopping COSMOS…".to_owned()));
    let mut stopping = tolerate(plan_stop(ctx));
    steps.append(&mut stopping);
    assert(views(steps@) == upgrade_opening(ctx, tag@));
    let mut middle: Vec<Planned> = Vec::new();
    middle.push(plan_progress("Replacing the COSMOS install with the new version…".to_owned()));
    let mut message = "removing the old COSMOS install at ".to_owned();
    message.append(ctx.cosmos.as_str());
    middle.push(plan_salvaging(Step::RemoveCosmos, Some(message)));
    middle.push(
        plan_salvaging(
            Step::Install { tag: tag.to_owned(), enterprise, token: token.to_owned() },
            None,
        ),
    );
    middle.push(plan_restore(".env.local"));
    middle.push(plan_restore("compose.override.yaml"));
    middle.push(plan_progress("Starting the upgraded COSMOS…".to_owned()));
    assert(views(middle@) == upgrade_replacement(ctx, tag@, enterprise, token@));
    steps.append(&mut middle);
    let mut running = plan_run(ctx);
    steps.append(&mut running);
    steps.push(plan_progress(concat3("COSMOS upgraded to ", tag, ". It is restarting.")));
    assert(views(steps@) == upgrade_steps(ctx, tag@, enterprise, token@));
    Plan::new(steps)
}

/// The command line that opens `url` in the default web browser.
pub open spec fn browser_invocation(os: Os, url: Seq<char>) -> InvocationView {
    match os {
        Os::MacOs => plain_invocation("open"@, seq![url]),
        Os::Windows => plain_invocation("cmd"@, seq!["/C"@, "start"@, ""@, url]),
        Os::Other => plain_invocation("xdg-open"@, seq![url]),
    }
}

/// Opens `url` in the default web browser.
pub fn open_browser(os: Os, url: &str) -> (invocation: Invocation)
    ensures
        invocation@ == browser_invocation(os, url@),
{
    let mut words: Vec<Word> = Vec::new();
    let program = match os {
        Os::MacOs => "open",
        Os::Windows => {
            // `start` takes its first quoted argument as the title of a window.
            words.push(Word::Text("/C".to_owned()));
            words.push(Word::Text("start".to_owned()));
            words.push(Word::Text("".to_owned()));
            "cmd"
        },
        Os::Other => "xdg-open",
    };
    words.push(Word::Text(url.to_owned()));
    let invocation = Invocation {
        program: Word::Text(program.to_owned()),
        args: words,
        dir: None,
    };
    assert(invocation@.args == browser_invocation(os, url@).args);
    invocation
}

/// Showing the container logs.
pub open spec fn logs_steps(service: Option<Seq<char>>, follow: bool) -> Seq<PlannedView> {
    seq![needed(StepView::Logs { service, follow })]
}

/// `logs`: shows the container logs, of one service or of all, and follows them if
/// asked to.
pub fn logs(service: Option<String>, follow: bool) -> (plan: Plan)
    ensures
        plan@ == fresh(logs_steps(view_option(service), follow)),
{
    let mut steps: Vec<Planned> = Vec::new();
    steps.push(plan_needed(Step::Logs { service, follow }));
    assert(views(steps@) == seq![
        needed(StepView::Logs { service: view_option(service), follow }),
    ]);
    Plan::new(steps)
}

/// The folder of local plugins that a cleanup sweeps.
pub open spec fn local_plugins() -> FilePathView {
    FilePathView { folder: Folder::Cosmos, parts: seq!["plugins"@, "DEFAULT"@] }
}

/// The question that a cleanup asks first, unless it is forced.
pub open spec fn cleanup_question() -> PlannedView {
    needed(
        StepView::Confirm(
            "Are you sure? Cleanup removes ALL docker volumes and COSMOS data! [y/N] "@,
        ),
    )
}

/// What a cleanup removes, once it is agreed on.
pub open spec fn cleanup_steps(ctx: &Context, local: bool) -> Seq<PlannedView> {
    match ctx.dev_folder {
        Some(dev) => dev_steps(
            ctx.os,
            dev@,
            "cleanup"@,
            if local {
                seq!["local"@, "force"@]
            } else {
                seq!["force"@]
            },
        ),
        None => if local {
            seq![needed(StepView::DownVolumes), needed(StepView::Sweep(local_plugins()))]
        } else {
            seq![needed(StepView::DownVolumes)]
        },
    }
}

/// The steps of a cleanup, with the question where it is asked.
pub open spec fn cleanup_plan_steps(ctx: &Context, local: bool, force: bool) -> Seq<PlannedView> {
    if force {
        cleanup_steps(ctx, local)
    } else {
        seq![cleanup_question()] + cleanup_steps(ctx, local)
    }
}

/// `cleanup`: removes the Docker volumes and, if asked to, the local plugins, once
/// the user has agreed.
pub fn cleanup(ctx: &Context, local: bool, force: bool) -> (plan: Plan)
    ensures
        plan@ == fresh(cleanup_plan_steps(ctx, local, force)),
{
    let mut steps: Vec<Planned> = Vec::new();
    if !force {
        steps.push(
            plan_needed(
                Step::Confirm(
                    "Are you sure? Cleanup removes ALL docker volumes and COSMOS data! [y/N] ".to_owned(),
                ),
            ),
        );
    }
    let ghost opening = views(steps@);
    assert(opening == if force {
        Seq::<PlannedView>::empty()
    } else {
        seq![cleanup_question()]
    });
    match &ctx.dev_folder {
        Some(dev) => {
            // The question has been answered: the script is not to ask again.
            let mut args: Vec<String> = Vec::new();
            if local {
                args.push("local".to_owned());
            }
            args.push("force".to_owned());
            assert(views(args@) == if local {
                seq!["local"@, "force"@]
            } else {
                seq!["force"@]
            });
            let mut script = run_dev(ctx.os, dev.as_str(), "cleanup", &args);
            steps.append(&mut script);
        },
        None => {
            steps.push(plan_needed(Step::DownVolumes));
            if local {
                let folder = FilePath::folder(Folder::Cosmos).join("plugins").join("DEFAULT");
                assert(folder@.parts == local_plugins().parts);
                steps.push(plan_needed(Step::Sweep(folder)));
            }
        },
    }
    assert(views(steps@) == opening + cleanup_steps(ctx, local));
    Plan::new(steps)
}

/// A variable set on a command line, where it has a value.
pub open spec fn variable_args(env: Map<Seq<char>, Seq<char>>, name: Seq<char>) -> Seq<Seq<char>> {
    if env.contains_key(name) {
        seq!["-e"@, name + "="@ + env[name]]
    } else {
        seq![]
    }
}

/// The arguments with which the COSMOS command line tool runs in a container of
/// its own.
pub open spec fn cli_args(
    enterprise: bool,
    env: Map<Seq<char>, Seq<char>>,
    cwd: Seq<char>,
    args: Seq<Seq<char>>,
    as_root: bool,
) -> Seq<Seq<char>> {
    seq!["run"@, "-it"@, "--rm"@] + (if as_root {
        seq!["--user=root"@]
    } else {
        seq![]
    }) + seq!["-v"@, cwd + ":/openc3/local:z"@, "-w"@, "/openc3/local"@] + (if enterprise {
        variable_args(env, "OPENC3_API_USER"@)
    } else {
        seq![]
    }) + variable_args(env, "OPENC3_API_PASSWORD"@) + seq![
        "--no-deps"@,
        "openc3-cosmos-cmd-tlm-api"@,
        "ruby"@,
        "/openc3/bin/openc3cli"@,
    ] + args
}

/// Sets a variable on a command line, where it has a value.
fn push_variable(args: &mut Vec<String>, env: &EnvFile, name: &str)
    ensures
        views(final(args)@) == views(old(args)@) + variable_args(env@, name@),
{
    match env.get(name) {
        Some(value) => {
            args.push("-e".to_owned());
            args.push(concat3(name, "=", value.as_str()));
        },
        None => {},
    }
    assert(views(args@) == views(old(args)@) + variable_args(env@, name@));
}

/// What running the command line tool comes to: a plan, or the error of what was needed
/// for it.
pub open spec fn cli_plan(
    enterprise: bool,
    env: Result<Map<Seq<char>, Seq<char>>, Seq<Seq<char>>>,
    cwd: Result<Seq<char>, Seq<Seq<char>>>,
    args: Seq<Seq<char>>,
    as_root: bool,
) -> Result<PlanView, Seq<Seq<char>>> {
    match (env, cwd) {
        (Err(error), _) => Err(
            explained(error, "reading the COSMOS .env file (is COSMOS installed?)"@),
        ),
        (Ok(_), Err(error)) => Err(error),
        (Ok(file), Ok(folder)) => Ok(
            fresh(
                seq![needed(StepView::Compose(cli_args(enterprise, file, folder, args, as_root)))],
            ),
        ),
    }
}

/// `cli` and `cliroot`: runs the COSMOS command line tool in a container of its own,
/// on the current folder.
pub fn cli(
    ctx: &Context,
    env: Result<EnvFile, ErrorChain>,
    cwd: Result<String, ErrorChain>,
    args: &Vec<String>,
    as_root: bool,
) -> (plan: Result<Plan, ErrorChain>)
    ensures
        view_result(plan) == cli_plan(
            ctx.enterprise,
            view_result(env),
            view_result(cwd),
            views(args@),
            as_root,
        ),
{
    let file = match env {
        Ok(file) => file,
        Err(error) => {
            return Err(
                error.context("reading the COSMOS .env file (is COSMOS installed?)".to_owned()),
            );
        },
    };
    let folder = match cwd {
        Ok(folder) => folder,
        Err(error) => {
            return Err(error);
        },
    };
    let mut words: Vec<String> = Vec::new();
    words.push("run".to_owned());
    words.push("-it".to_owned());
    words.push("--rm".to_owned());
    if as_root {
        words.push("--user=root".to_owned());
    }
    words.push("-v".to_owned());
    let mut mount = folder.clone();
    mount.append(":/openc3/local:z");
    words.push(mount);
    words.push("-w".to_owned());
    words.push("/openc3/local".to_owned());
    if ctx.enterprise {
        push_variable(&mut words, &file, "OPENC3_API_USER");
    }
    push_variable(&mut words, &file, "OPENC3_API_PASSWORD");
    words.push("--no-deps".to_owned());
    words.push("openc3-cosmos-cmd-tlm-api".to_owned());
    words.push("ruby".to_owned());
    words.push("/openc3/bin/openc3cli".to_owned());
    let mut rest = copy_texts(args);
    words.append(&mut rest);
    assert(views(words@) == cli_args(ctx.enterprise, file@, folder@, views(args@), as_root));
    let mut steps: Vec<Planned> = Vec::new();
    steps.push(plan_needed(Step::Compose(words)));
    assert(views(steps@) == seq![
        needed(
            StepView::Compose(cli_args(ctx.enterprise, file@, folder@, views(args@), as_root)),
        ),
    ]);
    Ok(Plan::new(steps))
}

/// The script that runs the test suites.
pub open spec fn test_script() -> FilePathView {
    FilePathView {
        folder: Folder::Cosmos,
        parts: seq!["scripts"@, "linux"@, "openc3_test.sh"@],
    }
}

/// Building, and running the test script, which has to be there.
pub open spec fn test_steps(args: Seq<Seq<char>>) -> Seq<PlannedView> {
    seq![
        needed(StepView::SetUp),
        needed(StepView::ComposeWithBuild(seq!["build"@])),
        needed(StepView::Require { file: test_script(), absent: AbsentView::TestScript }),
        needed(
            StepView::Run(
                InvocationView {
                    program: WordView::Text("bash"@),
                    args: seq![WordView::Path(test_script())] + text_words(args),
                    dir: Some(FilePathView { folder: Folder::Cosmos, parts: seq![] }),
                },
            ),
        ),
    ]
}

/// The path of the script that runs the test suites.
fn test_script_path() -> (path: FilePath)
    ensures
        path@ == test_script(),
{
    let path = FilePath::folder(Folder::Cosmos).join("scripts").join("linux").join(
        "openc3_test.sh",
    );
    assert(path@.parts == test_script().parts);
    path
}

/// What running a test suite comes to: a plan, or the word that there is no source.
pub open spec fn test_plan(devel: bool, args: Seq<Seq<char>>) -> Result<PlanView, Seq<Seq<char>>> {
    if devel {
        Ok(fresh(test_steps(args)))
    } else {
        Err(seq!["'test' requires a development install with the COSMOS source tree."@])
    }
}

/// `test`: builds and then runs a test suite. Only an installation that holds the
/// source can be tested.
pub fn test(ctx: &Context, args: &Vec<String>) -> (plan: Result<Plan, ErrorChain>)
    ensures
        view_result(plan) == test_plan(ctx.devel, views(args@)),
{
    if !ctx.devel {
        return Err(
            ErrorChain::new(
                "'test' requires a development install with the COSMOS source tree.".to_owned(),
            ),
        );
    }
    let none: Vec<String> = Vec::new();
    let build = build_args(&none);
    assert(views(build@) == seq!["build"@]);
    let mut words: Vec<Word> = Vec::new();
    words.push(Word::Path(test_script_path()));
    push_texts(&mut words, args);
    let invocation = Invocation {
        program: Word::Text("bash".to_owned()),
        args: words,
        dir: Some(FilePath::folder(Folder::Cosmos)),
    };
    assert(invocation@.args == seq![WordView::Path(test_script())] + text_words(views(args@)));
    let mut steps: Vec<Planned> = Vec::new();
    steps.push(plan_needed(Step::SetUp));
    steps.push(plan_needed(Step::ComposeWithBuild(build)));
    steps.push(
        plan_needed(Step::Require { file: test_script_path(), absent: Absent::TestScript }),
    );
    steps.push(plan_needed(Step::Run(invocation)));
    assert(views(steps@) == test_steps(views(args@)));
    Ok(Plan::new(steps))
}

/// Steps that end only themselves where one of them fails stay out of what comes
/// after them.
pub proof fn tolerated_failure_ends_the_group(
    group: Seq<PlannedView>,
    rest: Seq<PlannedView>,
    at: int,
    error: Seq<Seq<char>>,
)
    requires
        0 <= at < group.len(),
        !(group[at].step is Keep),
        !(group[at].step is Confirm),
        !(group[at].on_failure is Skip),
    ensures
        resumed(fresh(tolerated(group).skip(at) + rest), ReplyView::Failed(error)) == fresh(rest),
{
    let steps = tolerated(group).skip(at) + rest;
    assert(steps[0] == tolerated(group)[at]);
    assert(resumed(fresh(steps), ReplyView::Failed(error)).steps == rest);
}

/// The answer to a question is not a yes: another line, or one that cannot be read.
pub open spec fn declines(answer: ReplyView) -> bool {
    match answer {
        ReplyView::Line(line) => !confirms(line),
        ReplyView::Failed(_) => true,
        _ => false,
    }
}

/// A cleanup that is not forced and to which the user does not say yes removes
/// nothing: whatever comes in afterwards, the word that it was aborted is all that
/// is left to do.
pub proof fn declined_cleanup_removes_nothing(
    ctx: &Context,
    local: bool,
    answer: ReplyView,
    replies: Seq<ReplyView>,
)
    requires
        declines(answer),
    ensures
        ({
            let plan = fresh(cleanup_plan_steps(ctx, local, false));
            let after = run_plan(resumed(plan, answer), replies);
            &&& after.failure is None
            &&& after.steps == seq![best_effort(StepView::Print("Aborted."@))] || after.steps
                == Seq::<PlannedView>::empty()
        }),
    decreases replies.len(),
{
    let plan = fresh(seq![cleanup_question()] + cleanup_steps(ctx, local));
    assert(plan.steps[0] == cleanup_question());
    if replies.len() > 0 {
        declined_cleanup_removes_nothing(ctx, local, answer, replies.drop_last());
    }
}

/// The user's yes lets a cleanup do just what a forced one does.
pub proof fn confirmed_cleanup_is_a_forced_one(ctx: &Context, local: bool, line: Seq<char>)
    requires
        confirms(line),
    ensures
        resumed(fresh(cleanup_plan_steps(ctx, local, false)), ReplyView::Line(line)) == fresh(
            cleanup_plan_steps(ctx, local, true),
        ),
{
    let plan = fresh(seq![cleanup_question()] + cleanup_steps(ctx, local));
    assert(plan.steps[0] == cleanup_question());
    assert(plan.steps.drop_first() == cleanup_steps(ctx, local));
}

/// No cleanup removes the read-me file of the local plugins, whatever comes in.
pub proof fn cleanup_spares_the_read_me(
    ctx: &Context,
    local: bool,
    force: bool,
    replies: Seq<ReplyView>,
)
    ensures
        spares(run_plan(fresh(cleanup_plan_steps(ctx, local, force)), replies).steps),
{
    let steps = cleanup_plan_steps(ctx, local, force);
    assert(spares(steps));
    sweep_spares_its_file(fresh(steps), replies);
}

/// Writing the preserved file `name` back with what was read of it.
pub open spec fn written_back(name: Seq<char>, contents: Option<Seq<u8>>) -> Seq<PlannedView> {
    match contents {
        Some(bytes) => seq![restore_step(name, bytes)],
        None => seq![],
    }
}

/// What was read of the preserved files.
pub open spec fn kept_contents(
    first: Option<Seq<u8>>,
    second: Option<Seq<u8>>,
) -> Map<Seq<char>, Seq<u8>> {
    let one = match first {
        Some(bytes) => Map::empty().insert(preserved_names()[0], bytes),
        None => Map::empty(),
    };
    match second {
        Some(bytes) => one.insert(preserved_names()[1], bytes),
        None => one,
    }
}

/// An upgrade up to where the preserved files have been read, `first` and `second`
/// being what came of that.
pub open spec fn upgrade_after_reading(
    ctx: &Context,
    tag: Seq<char>,
    enterprise: bool,
    token: Seq<char>,
    first: Option<Seq<u8>>,
    second: Option<Seq<u8>>,
) -> PlanView {
    run_plan(
        fresh(upgrade_steps(ctx, tag, enterprise, token)),
        seq![ReplyView::Done, ReplyView::Contents(first), ReplyView::Contents(second)],
    )
}

/// The steps of an upgrade between the reading and the writing back.
pub open spec fn upgrade_middle(
    ctx: &Context,
    tag: Seq<char>,
    enterprise: bool,
    token: Seq<char>,
) -> Seq<PlannedView> {
    seq![progress_step("Stopping COSMOS…"@)] + tolerated(stop_steps(ctx)) + upgrade_replacement(
        ctx,
        tag,
        enterprise,
        token,
    ).take(3)
}

/// The steps of an upgrade after the writing back.
pub open spec fn upgrade_end(ctx: &Context, tag: Seq<char>) -> Seq<PlannedView> {
    seq![progress_step("Starting the upgraded COSMOS…"@)] + run_steps(ctx) + seq![
        progress_step("COSMOS upgraded to "@ + tag + ". It is restarting."@),
    ]
}

/// The names of the two preserved files differ.
proof fn preserved_names_differ()
    ensures
        preserved_names()[0] != preserved_names()[1],
{
    reveal_strlit(".env.local");
    reveal_strlit("compose.override.yaml");
    assert(preserved_names()[0].len() != preserved_names()[1].len());
}

/// Filling the contents in where a preserved file is written back.
proof fn filled_restore(name: Seq<char>, contents: Option<Seq<u8>>)
    ensures
        filled(seq![restore_step(name, seq![])], name, contents) == written_back(name, contents),
{
    let one = seq![restore_step(name, seq![])];
    reveal_with_fuel(filled, 2);
    assert(one.drop_last() == Seq::<PlannedView>::empty());
    assert(one.last() == restore_step(name, seq![]));
    assert(filled(one.drop_last(), name, contents) == Seq::<PlannedView>::empty());
    assert(filled(one, name, contents) =~= written_back(name, contents));
}

/// Filling the contents in among steps that do not write the file back.
proof fn filled_among(
    front: Seq<PlannedView>,
    name: Seq<char>,
    back: Seq<PlannedView>,
    contents: Option<Seq<u8>>,
)
    requires
        forall|i: int|
            0 <= i < front.len() ==> {
                let step = #[trigger] front[i].step;
                step is Restore ==> step->Restore_name != name
            },
        forall|i: int|
            0 <= i < back.len() ==> {
                let step = #[trigger] back[i].step;
                step is Restore ==> step->Restore_name != name
            },
    ensures
        filled(front + seq![restore_step(name, seq![])] + back, name, contents) == front + written_back(
            name,
            contents,
        ) + back,
{
    filled_add(front + seq![restore_step(name, seq![])], back, name, contents);
    filled_add(front, seq![restore_step(name, seq![])], name, contents);
    filled_elsewhere(front, name, contents);
    filled_elsewhere(back, name, contents);
    filled_restore(name, contents);
}

/// An upgrade up to the steps that write the preserved files back holds no such
/// step, and neither does what follows them.
proof fn upgrade_restores_nowhere_else(
    ctx: &Context,
    tag: Seq<char>,
    enterprise: bool,
    token: Seq<char>,
)
    ensures
        forall|i: int|
            0 <= i < upgrade_middle(ctx, tag, enterprise, token).len() ==> !((
            #[trigger] upgrade_middle(ctx, tag, enterprise, token)[i].step) is Restore),
        forall|i: int|
            0 <= i < upgrade_end(ctx, tag).len() ==> !((
            #[trigger] upgrade_end(ctx, tag)[i].step) is Restore),
{
}

/// What is left of an upgrade once the preserved files have been read.
pub proof fn upgrade_after_reading_steps(
    ctx: &Context,
    tag: Seq<char>,
    enterprise: bool,
    token: Seq<char>,
    first: Option<Seq<u8>>,
    second: Option<Seq<u8>>,
)
    ensures
        upgrade_after_reading(ctx, tag, enterprise, token, first, second) == fresh(
            upgrade_middle(ctx, tag, enterprise, token) + written_back(preserved_names()[0], first)
                + written_back(preserved_names()[1], second) + upgrade_end(ctx, tag),
        ),
{
    let plan = fresh(upgrade_steps(ctx, tag, enterprise, token));
    let replies = seq![ReplyView::Done, ReplyView::Contents(first), ReplyView::Contents(second)];
    let names = preserved_names();
    let middle = upgrade_middle(ctx, tag, enterprise, token);
    let end = upgrade_end(ctx, tag);
    let keep = seq![best_effort(StepView::Keep(names[1]))];
    let restores = seq![restore_step(names[0], seq![]), restore_step(names[1], seq![])];
    let tail = middle + restores + end;
    let one = fresh(seq![best_effort(StepView::Keep(names[0]))] + keep + tail);
    assert(resumed(plan, ReplyView::Done) == one) by {
        assert(plan.steps[0] == upgrade_opening(ctx, tag)[0]);
        assert(plan.steps.drop_first() =~= one.steps);
    }
    let back = seq![restore_step(names[1], seq![])] + end;
    let two = fresh(keep + middle + written_back(names[0], first) + back);
    upgrade_restores_nowhere_else(ctx, tag, enterprise, token);
    preserved_names_differ();
    assert(resumed(one, ReplyView::Contents(first)) == two) by {
        assert(one.steps[0] == best_effort(StepView::Keep(names[0])));
        assert(one.steps.drop_first() =~= keep + middle + seq![restore_step(names[0], seq![])] + back);
        let front = keep + middle;
        assert forall|i: int| 0 <= i < front.len() implies {
            let step = #[trigger] front[i].step;
            step is Restore ==> step->Restore_name != names[0]
        } by {
            if i > 0 {
                assert(front[i] == middle[i - 1]);
            }
        }
        assert forall|i: int| 0 <= i < back.len() implies {
            let step = #[trigger] back[i].step;
            step is Restore ==> step->Restore_name != names[0]
        } by {
            if i > 0 {
                assert(back[i] == end[i - 1]);
            }
        }
        filled_among(front, names[0], back, first);
    }
    let front = middle + written_back(names[0], first);
    let three = fresh(front + written_back(names[1], second) + end);
    assert(resumed(two, ReplyView::Contents(second)) == three) by {
        assert(two.steps[0] == best_effort(StepView::Keep(names[1])));
        assert(two.steps.drop_first() =~= front + seq![restore_step(names[1], seq![])] + end);
        assert forall|i: int| 0 <= i < front.len() implies {
            let step = #[trigger] front[i].step;
            step is Restore ==> step->Restore_name != names[1]
        } by {
            if i < middle.len() {
                assert(front[i] == middle[i]);
            }
        }
        filled_among(front, names[1], end, second);
    }
    assert(replies.drop_last() == seq![ReplyView::Done, ReplyView::Contents(first)]);
    assert(replies.drop_last().drop_last() == seq![ReplyView::Done]);
    assert(replies.drop_last().drop_last().drop_last() == Seq::<ReplyView>::empty());
    reveal_with_fuel(run_plan, 4);
}

/// Outcomes before number `until` tell what was read of the file `name`; a file that
/// could not be read counts as one that is not there.
pub open spec fn was_read(
    plan: PlanView,
    replies: Seq<ReplyView>,
    name: Seq<char>,
    contents: Option<Seq<u8>>,
    until: int,
) -> bool {
    exists|i: int|
        0 <= i < until && i < replies.len() && {
            let now = #[trigger] run_plan(plan, replies.take(i));
            &&& now.steps.len() > 0
            &&& now.steps[0].step == StepView::Keep(name)
            &&& replies[i] == ReplyView::Contents(contents) || replies[i] is Failed && contents
                is None
        }
}

/// What was read stays read when more outcomes come in.
proof fn read_stays_read(
    plan: PlanView,
    replies: Seq<ReplyView>,
    name: Seq<char>,
    contents: Option<Seq<u8>>,
    until: int,
)
    requires
        replies.len() > 0,
        was_read(plan, replies.drop_last(), name, contents, until),
    ensures
        was_read(plan, replies, name, contents, until),
{
    let earlier = replies.drop_last();
    let i = choose|i: int|
        0 <= i < until && i < earlier.len() && {
            let now = #[trigger] run_plan(plan, earlier.take(i));
            &&& now.steps.len() > 0
            &&& now.steps[0].step == StepView::Keep(name)
            &&& earlier[i] == ReplyView::Contents(contents) || earlier[i] is Failed && contents
                is None
        };
    assert(replies.take(i) == earlier.take(i));
}

/// An upgrade before its files have been read: it has not begun, or the first file is to
/// be read, or the second is, `first` being what came of the first.
pub open spec fn upgrade_opens(
    plan: PlanView,
    replies: Seq<ReplyView>,
    now: PlanView,
    first: Option<Seq<u8>>,
) -> bool {
    let one = resumed(plan, ReplyView::Done);
    ||| now == plan
    ||| now == one
    ||| now == resumed(one, ReplyView::Contents(first)) && was_read(
        plan,
        replies,
        preserved_names()[0],
        first,
        replies.len() as int,
    )
}

/// The preserved files have been read after `count` outcomes.
pub open spec fn files_were_read(
    ctx: &Context,
    tag: Seq<char>,
    enterprise: bool,
    token: Seq<char>,
    replies: Seq<ReplyView>,
    count: int,
    first: Option<Seq<u8>>,
    second: Option<Seq<u8>>,
) -> bool {
    let plan = fresh(upgrade_steps(ctx, tag, enterprise, token));
    &&& 0 <= count <= replies.len()
    &&& was_read(plan, replies, preserved_names()[0], first, count)
    &&& was_read(plan, replies, preserved_names()[1], second, count)
    &&& run_plan(plan, replies.take(count)) == upgrade_after_reading(
        ctx,
        tag,
        enterprise,
        token,
        first,
        second,
    )
}

/// The steps with which an upgrade opens.
proof fn upgrade_openings(
    ctx: &Context,
    tag: Seq<char>,
    enterprise: bool,
    token: Seq<char>,
    first: Option<Seq<u8>>,
    second: Option<Seq<u8>>,
)
    ensures
        ({
            let plan = fresh(upgrade_steps(ctx, tag, enterprise, token));
            let one = resumed(plan, ReplyView::Done);
            let two = resumed(one, ReplyView::Contents(first));
            &&& plan.steps.len() > 0 && plan.steps[0].step is Progress && plan.steps[0].on_failure
                == OnFailureView::Skip(0)
            &&& one.failure is None && one.steps.len() > 0 && one.steps[0].step
                == StepView::Keep(preserved_names()[0])
            &&& two.failure is None && two.steps.len() > 0 && two.steps[0].step
                == StepView::Keep(preserved_names()[1])
            &&& resumed(two, ReplyView::Contents(second)) == upgrade_after_reading(
                ctx,
                tag,
                enterprise,
                token,
                first,
                second,
            )
        }),
{
    let names = preserved_names();
    let plan = fresh(upgrade_steps(ctx, tag, enterprise, token));
    let one = resumed(plan, ReplyView::Done);
    assert(plan.steps[0] == upgrade_opening(ctx, tag)[0]);
    assert(one.steps[0] == upgrade_opening(ctx, tag)[1]);
    let rest = one.steps.drop_first();
    let keep = seq![best_effort(StepView::Keep(names[1]))];
    let tail = rest.drop_first();
    assert(rest[0] == upgrade_opening(ctx, tag)[2]);
    assert(rest == keep + tail);
    filled_add(keep, tail, names[0], first);
    filled_elsewhere(keep, names[0], first);
    let replies = seq![ReplyView::Done, ReplyView::Contents(first), ReplyView::Contents(second)];
    assert(replies.drop_last() == seq![ReplyView::Done, ReplyView::Contents(first)]);
    assert(replies.drop_last().drop_last() == seq![ReplyView::Done]);
    assert(replies.drop_last().drop_last().drop_last() == Seq::<ReplyView>::empty());
    reveal_with_fuel(run_plan, 4);
}

/// In every run of an upgrade the preserved files are read before anything else: until
/// then the upgrade only speaks and reads.
#[verifier::rlimit(40)]
pub proof fn upgrade_reads_first(
    ctx: &Context,
    tag: Seq<char>,
    enterprise: bool,
    token: Seq<char>,
    replies: Seq<ReplyView>,
)
    ensures
        ({
            let plan = fresh(upgrade_steps(ctx, tag, enterprise, token));
            let now = run_plan(plan, replies);
            ||| now.failure is None && now.steps.len() > 0 && (now.steps[0].step is Progress
                || now.steps[0].step is Keep) && exists|first: Option<Seq<u8>>|
                upgrade_opens(plan, replies, now, first)
            ||| exists|count: int, first: Option<Seq<u8>>, second: Option<Seq<u8>>|
                files_were_read(ctx, tag, enterprise, token, replies, count, first, second)
        }),
    decreases replies.len(),
{
    let plan = fresh(upgrade_steps(ctx, tag, enterprise, token));
    let now = run_plan(plan, replies);
    let names = preserved_names();
    upgrade_openings(ctx, tag, enterprise, token, None, None);
    if replies.len() == 0 {
        assert(upgrade_opens(plan, replies, now, None));
    } else {
        let earlier = replies.drop_last();
        let last = replies.last();
        let at = earlier.len() as int;
        upgrade_reads_first(ctx, tag, enterprise, token, earlier);
        let was = run_plan(plan, earlier);
        let one = resumed(plan, ReplyView::Done);
        assert(replies.take(at) == earlier);
        assert(replies[at] == last);
        if exists|count: int, first: Option<Seq<u8>>, second: Option<Seq<u8>>|
            files_were_read(ctx, tag, enterprise, token, earlier, count, first, second) {
            let (count, first, second) = choose|
                count: int,
                first: Option<Seq<u8>>,
                second: Option<Seq<u8>>,
            |
                files_were_read(ctx, tag, enterprise, token, earlier, count, first, second);
            read_stays_read(plan, replies, names[0], first, count);
            read_stays_read(plan, replies, names[1], second, count);
            assert(replies.take(count) == earlier.take(count));
            assert(files_were_read(ctx, tag, enterprise, token, replies, count, first, second));
        } else {
            let first = choose|first: Option<Seq<u8>>| upgrade_opens(plan, earlier, was, first);
            upgrade_openings(ctx, tag, enterprise, token, first, None);
            if was == plan {
                assert(plan.steps.skip(1) == plan.steps.drop_first());
                assert(now == plan || now == one);
                assert(upgrade_opens(plan, replies, now, None));
            } else if was == one {
                let read = if last is Contents {
                    last->Contents_0
                } else {
                    None
                };
                upgrade_openings(ctx, tag, enterprise, token, read, None);
                if now != one {
                    assert(run_plan(plan, replies.take(at)).steps[0].step == StepView::Keep(
                        names[0],
                    ));
                    assert(was_read(plan, replies, names[0], read, replies.len() as int));
                    assert(now == resumed(one, ReplyView::Contents(read)));
                }
                assert(upgrade_opens(plan, replies, now, read));
            } else {
                let two = resumed(one, ReplyView::Contents(first));
                let read = if last is Contents {
                    last->Contents_0
                } else {
                    None
                };
                upgrade_openings(ctx, tag, enterprise, token, first, read);
                read_stays_read(plan, replies, names[0], first, at);
                let earlier_i = choose|i: int|
                    0 <= i < at && i < replies.len() && {
                        let then = #[trigger] run_plan(plan, replies.take(i));
                        &&& then.steps.len() > 0
                        &&& then.steps[0].step == StepView::Keep(names[0])
                        &&& replies[i] == ReplyView::Contents(first) || replies[i] is Failed
                            && first is None
                    };
                assert(run_plan(plan, replies.take(earlier_i)).steps.len() > 0);
                assert(was_read(plan, replies, names[0], first, replies.len() as int));
                if now == two {
                    assert(upgrade_opens(plan, replies, now, first));
                } else {
                    let count = replies.len() as int;
                    assert(run_plan(plan, replies.take(at)).steps[0].step == StepView::Keep(
                        names[1],
                    ));
                    assert(was_read(plan, replies, names[1], read, count));
                    assert(replies.take(count) == replies);
                    assert(now == resumed(two, ReplyView::Contents(read)));
                    assert(files_were_read(
                        ctx,
                        tag,
                        enterprise,
                        token,
                        replies,
                        count,
                        first,
                        read,
                    ));
                }
            }
        }
    }
}

/// An upgrade carries the user's files over: whatever comes in after the files have
/// been read, a file is written back only with what was read of it, and in every run
/// that comes to its end, be it with an error or without one, each file that could be
/// read is written back. Once an error has come up, nothing else is done.
pub proof fn upgrade_carries_the_files_over(
    ctx: &Context,
    tag: Seq<char>,
    enterprise: bool,
    token: Seq<char>,
    first: Option<Seq<u8>>,
    second: Option<Seq<u8>>,
    replies: Seq<ReplyView>,
)
    ensures
        ({
            let plan = upgrade_after_reading(ctx, tag, enterprise, token, first, second);
            let after = run_plan(plan, replies);
            &&& writes_back(after.steps, kept_contents(first, second))
            &&& after.failure is Some ==> all_salvage(after.steps)
            &&& after.steps.len() == 0 ==> {
                &&& first is Some ==> has_its_turn(
                    plan,
                    replies,
                    restore_step(preserved_names()[0], first->0),
                )
                &&& second is Some ==> has_its_turn(
                    plan,
                    replies,
                    restore_step(preserved_names()[1], second->0),
                )
            }
        }),
{
    let plan = upgrade_after_reading(ctx, tag, enterprise, token, first, second);
    let names = preserved_names();
    upgrade_after_reading_steps(ctx, tag, enterprise, token, first, second);
    preserved_names_differ();
    assert(writes_back(plan.steps, kept_contents(first, second)));
    contents_are_kept(plan, replies, kept_contents(first, second));
    error_leaves_only_salvage(plan, replies);
    if run_plan(plan, replies).steps.len() == 0 {
        let middle = upgrade_middle(ctx, tag, enterprise, token);
        if first is Some {
            let at = middle.len() as int;
            assert(plan.steps[at] == restore_step(names[0], first->0));
            assert(nothing_drops(plan.steps, at));
            file_is_written_back(plan, replies, at);
        }
        if second is Some {
            let at = (middle.len() + written_back(names[0], first).len()) as int;
            assert(plan.steps[at] == restore_step(names[1], second->0));
            assert(nothing_drops(plan.steps, at));
            file_is_written_back(plan, replies, at);
        }
    }
}

/// Where the installation of an upgrade fails, COSMOS is not run: nothing is left to do
/// but to write back the files that were read, and the upgrade ends with the error of
/// the installation, whatever comes in.
pub proof fn failed_installation_only_saves_the_files(
    ctx: &Context,
    tag: Seq<char>,
    enterprise: bool,
    token: Seq<char>,
    before: Seq<ReplyView>,
    error: Seq<Seq<char>>,
    replies: Seq<ReplyView>,
)
    requires
        ({
            let now = run_plan(fresh(upgrade_steps(ctx, tag, enterprise, token)), before);
            now.steps.len() > 0 && now.steps[0].step is Install
        }),
    ensures
        ({
            let now = run_plan(fresh(upgrade_steps(ctx, tag, enterprise, token)), before);
            let after = run_plan(resumed(now, ReplyView::Failed(error)), replies);
            &&& after.failure == Some(error)
            &&& all_salvage(after.steps)
        }),
{
    let plan = fresh(upgrade_steps(ctx, tag, enterprise, token));
    let now = run_plan(plan, before);
    let failed = resumed(now, ReplyView::Failed(error));
    assert(installs_with_care(plan.steps));
    care_is_kept(plan, before);
    error_leaves_only_salvage(plan, before);
    assert(!only_salvages(now.steps[0].step));
    assert(now.steps[0].on_failure == OnFailureView::Salvage(None));
    let all = before.push(ReplyView::Failed(error));
    assert(all.drop_last() == before);
    assert(run_plan(plan, all) == failed);
    error_leaves_only_salvage(plan, all);
    error_leaves_only_salvage(failed, replies);
}

} // verus!
