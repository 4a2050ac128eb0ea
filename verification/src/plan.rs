//! Plans: the steps of a command, and what becomes of them as their outcomes come in.
//!
//! A command decides nothing on disk or in Docker by itself: it makes a [`Plan`].
//! Whoever carries the plan out performs its first step, hands the outcome to
//! [`Plan::resume`], and goes on until no step is left.
use crate::context::{FilePath, FilePathView, Folder, Invocation, InvocationView};
use crate::error::{explained, ErrorChain};
use crate::model::{group_views, view_option, views};
use crate::pairing::{Current, CurrentView};
use crate::text::{ascii_lower, ascii_lowered, same, trim, trimmed, utf8_text};
use vstd::prelude::*;
use vstd::utf8::{decode_utf8, valid_utf8};

verus! {

broadcast use group_views;

/// The file that a sweep leaves in place.
pub const SPARED_FILE: &'static str = "README.md";

/// What is said where a file that a command needs is not there.
#[derive(Debug)]
pub enum Absent {
    /// The script of a development folder.
    DevScript { folder: String, script: String },
    /// The script that runs the test suites.
    TestScript,
}

/// Model of [`Absent`].
pub enum AbsentView {
    DevScript { folder: Seq<char>, script: Seq<char> },
    TestScript,
}

impl View for Absent {
    type V = AbsentView;

    open spec fn view(&self) -> AbsentView {
        match self {
            Absent::DevScript { folder, script } => AbsentView::DevScript {
                folder: folder@,
                script: script@,
            },
            Absent::TestScript => AbsentView::TestScript,
        }
    }
}

/// One piece of outside work.
#[derive(Debug)]
pub enum Step {
    /// Tell the user how far things are.
    Progress(String),
    /// Print a line.
    Print(String),
    /// Print a line of warning.
    Warn(String),
    /// Run `id -u` and hand back what it printed.
    QueryUser,
    /// Make the COSMOS installation ready to run.
    SetUp,
    /// Download and unpack COSMOS.
    Install { tag: String, enterprise: bool, token: String },
    /// Remove the COSMOS installation.
    RemoveCosmos,
    /// Run `docker compose` with these arguments.
    Compose(Vec<String>),
    /// Run `docker compose`, with the build file, with these arguments.
    ComposeWithBuild(Vec<String>),
    /// Bring the containers up.
    Up,
    /// Stop the containers and tear them down.
    Stop,
    /// Remove the containers and their volumes.
    DownVolumes,
    /// Let Docker list the containers.
    ListContainers,
    /// Show the logs of one service or of all.
    Logs { service: Option<String>, follow: bool },
    /// Look whether a file is there.
    Require { file: FilePath, absent: Absent },
    /// Run a program.
    Run(Invocation),
    /// Ask the user and hand back the line they typed.
    Confirm(String),
    /// Look whether a folder is there, and start to list it.
    Sweep(FilePath),
    /// Hand back the next entry of the folder that is being swept.
    NextEntry,
    /// Remove the entry that was handed back last.
    Remove { name: String, is_dir: bool },
    /// Read a file of the COSMOS installation, where it is there.
    Keep(String),
    /// Write a file of the COSMOS installation.
    Restore { name: String, contents: Vec<u8> },
    /// Create a folder and those above it.
    CreateFolder(FilePath),
    /// Write a file.
    WriteText { file: FilePath, text: String },
    /// Let only the owner read and write a file.
    Restrict(FilePath),
    /// Write the record of the current pairing.
    SaveCurrent(Current),
    /// Download a file.
    Download { url: String, file: FilePath },
}

/// Model of a [`Step`].
pub enum StepView {
    Progress(Seq<char>),
    Print(Seq<char>),
    Warn(Seq<char>),
    QueryUser,
    SetUp,
    Install { tag: Seq<char>, enterprise: bool, token: Seq<char> },
    RemoveCosmos,
    Compose(Seq<Seq<char>>),
    ComposeWithBuild(Seq<Seq<char>>),
    Up,
    Stop,
    DownVolumes,
    ListContainers,
    Logs { service: Option<Seq<char>>, follow: bool },
    Require { file: FilePathView, absent: AbsentView },
    Run(InvocationView),
    Confirm(Seq<char>),
    Sweep(FilePathView),
    NextEntry,
    Remove { name: Seq<char>, is_dir: bool },
    Keep(Seq<char>),
    Restore { name: Seq<char>, contents: Seq<u8> },
    CreateFolder(FilePathView),
    WriteText { file: FilePathView, text: Seq<char> },
    Restrict(FilePathView),
    SaveCurrent(CurrentView),
    Download { url: Seq<char>, file: FilePathView },
}

impl View for Step {
    type V = StepView;

    open spec fn view(&self) -> StepView {
        match self {
            Step::Progress(text) => StepView::Progress(text@),
            Step::Print(text) => StepView::Print(text@),
            Step::Warn(text) => StepView::Warn(text@),
            Step::QueryUser => StepView::QueryUser,
            Step::SetUp => StepView::SetUp,
            Step::Install { tag, enterprise, token } => StepView::Install {
                tag: tag@,
                enterprise: *enterprise,
                token: token@,
            },
            Step::RemoveCosmos => StepView::RemoveCosmos,
            Step::Compose(args) => StepView::Compose(views(args@)),
            Step::ComposeWithBuild(args) => StepView::ComposeWithBuild(views(args@)),
            Step::Up => StepView::Up,
            Step::Stop => StepView::Stop,
            Step::DownVolumes => StepView::DownVolumes,
            Step::ListContainers => StepView::ListContainers,
            Step::Logs { service, follow } => StepView::Logs {
                service: view_option(*service),
                follow: *follow,
            },
            Step::Require { file, absent } => StepView::Require { file: file@, absent: absent@ },
            Step::Run(invocation) => StepView::Run(invocation@),
            Step::Confirm(prompt) => StepView::Confirm(prompt@),
            Step::Sweep(folder) => StepView::Sweep(folder@),
            Step::NextEntry => StepView::NextEntry,
            Step::Remove { name, is_dir } => StepView::Remove { name: name@, is_dir: *is_dir },
            Step::Keep(name) => StepView::Keep(name@),
            Step::Restore { name, contents } => StepView::Restore {
                name: name@,
                contents: contents@,
            },
            Step::CreateFolder(folder) => StepView::CreateFolder(folder@),
            Step::WriteText { file, text } => StepView::WriteText { file: file@, text: text@ },
            Step::Restrict(file) => StepView::Restrict(file@),
            Step::SaveCurrent(current) => StepView::SaveCurrent(current@),
            Step::Download { url, file } => StepView::Download { url: url@, file: file@ },
        }
    }
}

/// What becomes of the plan where a step fails.
#[derive(Debug)]
pub enum OnFailure {
    /// The plan ends with the step's error.
    Stop,
    /// The plan ends with the step's error behind this message.
    Explain(String),
    /// The plan goes on, without the given number of steps that follow.
    Skip(usize),
    /// The plan ends with the step's error, behind the message if there is one, once
    /// the files that were read have been written back.
    Salvage(Option<String>),
}

/// Model of [`OnFailure`].
pub enum OnFailureView {
    Stop,
    Explain(Seq<char>),
    Skip(nat),
    Salvage(Option<Seq<char>>),
}

impl View for OnFailure {
    type V = OnFailureView;

    open spec fn view(&self) -> OnFailureView {
        match self {
            OnFailure::Stop => OnFailureView::Stop,
            OnFailure::Explain(message) => OnFailureView::Explain(message@),
            OnFailure::Skip(count) => OnFailureView::Skip(*count as nat),
            OnFailure::Salvage(message) => OnFailureView::Salvage(view_option(*message)),
        }
    }
}

/// A step of a plan.
#[derive(Debug)]
pub struct Planned {
    pub step: Step,
    pub on_failure: OnFailure,
}

/// Model of a [`Planned`] step.
pub struct PlannedView {
    pub step: StepView,
    pub on_failure: OnFailureView,
}

impl View for Planned {
    type V = PlannedView;

    open spec fn view(&self) -> PlannedView {
        PlannedView { step: self.step@, on_failure: self.on_failure@ }
    }
}

/// A step whose failure ends the plan.
pub open spec fn needed(step: StepView) -> PlannedView {
    PlannedView { step, on_failure: OnFailureView::Stop }
}

/// A step whose failure ends the plan, with a word of explanation.
pub open spec fn explained_step(step: StepView, message: Seq<char>) -> PlannedView {
    PlannedView { step, on_failure: OnFailureView::Explain(message) }
}

/// A step whose failure changes nothing.
pub open spec fn best_effort(step: StepView) -> PlannedView {
    PlannedView { step, on_failure: OnFailureView::Skip(0) }
}

/// A step whose failure ends the plan, with a word of explanation if there is one, once
/// the files that were read have been written back.
pub open spec fn salvaging(step: StepView, message: Option<Seq<char>>) -> PlannedView {
    PlannedView { step, on_failure: OnFailureView::Salvage(message) }
}

/// Plans a step whose failure ends the plan.
pub fn plan_needed(step: Step) -> (planned: Planned)
    ensures
        planned@ == needed(step@),
{
    Planned { step, on_failure: OnFailure::Stop }
}

/// Plans a step whose failure ends the plan, with a word of explanation.
pub fn plan_explained(step: Step, message: String) -> (planned: Planned)
    ensures
        planned@ == explained_step(step@, message@),
{
    Planned { step, on_failure: OnFailure::Explain(message) }
}

/// Plans a step whose failure changes nothing.
pub fn plan_best_effort(step: Step) -> (planned: Planned)
    ensures
        planned@ == best_effort(step@),
{
    Planned { step, on_failure: OnFailure::Skip(0) }
}

/// Plans a step whose failure ends the plan once the files that were read have been
/// written back.
pub fn plan_salvaging(step: Step, message: Option<String>) -> (planned: Planned)
    ensures
        planned@ == salvaging(step@, view_option(message)),
{
    Planned { step, on_failure: OnFailure::Salvage(message) }
}

/// An entry of a folder.
#[derive(Debug)]
pub struct FolderEntry {
    pub name: String,
    pub is_dir: bool,
}

/// Model of a [`FolderEntry`].
pub struct FolderEntryView {
    pub name: Seq<char>,
    pub is_dir: bool,
}

impl View for FolderEntry {
    type V = FolderEntryView;

    open spec fn view(&self) -> FolderEntryView {
        FolderEntryView { name: self.name@, is_dir: self.is_dir }
    }
}

/// What came of a step.
#[derive(Debug)]
pub enum Reply {
    /// It was done.
    Done,
    /// It failed.
    Failed(ErrorChain),
    /// Whether the file or folder is there, and how its path is shown.
    Found { found: bool, shown: String },
    /// The line that the user typed.
    Line(String),
    /// The next entry of the folder, or that there is none left.
    Entry(Option<FolderEntry>),
    /// What the file holds, where it could be read.
    Contents(Option<Vec<u8>>),
    /// What `id -u` printed, where it could be run.
    User(Option<Vec<u8>>),
}

/// Model of a [`Reply`].
pub enum ReplyView {
    Done,
    Failed(Seq<Seq<char>>),
    Found { found: bool, shown: Seq<char> },
    Line(Seq<char>),
    Entry(Option<FolderEntryView>),
    Contents(Option<Seq<u8>>),
    User(Option<Seq<u8>>),
}

impl View for Reply {
    type V = ReplyView;

    open spec fn view(&self) -> ReplyView {
        match self {
            Reply::Done => ReplyView::Done,
            Reply::Failed(error) => ReplyView::Failed(error@),
            Reply::Found { found, shown } => ReplyView::Found { found: *found, shown: shown@ },
            Reply::Line(line) => ReplyView::Line(line@),
            Reply::Entry(entry) => ReplyView::Entry(view_option(*entry)),
            Reply::Contents(contents) => ReplyView::Contents(view_option(*contents)),
            Reply::User(printed) => ReplyView::User(view_option(*printed)),
        }
    }
}

/// The steps that are still to be carried out, and the error that the plan ends with,
/// where one came up.
#[derive(Debug)]
pub struct Plan {
    pub steps: Vec<Planned>,
    pub failure: Option<ErrorChain>,
}

/// Model of a [`Plan`].
pub struct PlanView {
    pub steps: Seq<PlannedView>,
    pub failure: Option<Seq<Seq<char>>>,
}

impl View for Plan {
    type V = PlanView;

    open spec fn view(&self) -> PlanView {
        PlanView { steps: views(self.steps@), failure: view_option(self.failure) }
    }
}

/// A plan of which nothing was carried out yet.
pub open spec fn fresh(steps: Seq<PlannedView>) -> PlanView {
    PlanView { steps, failure: None }
}

/// The step of a plan that is to be carried out next.
pub open spec fn next_of(plan: PlanView) -> Option<StepView> {
    if plan.steps.len() == 0 {
        None
    } else {
        Some(plan.steps[0].step)
    }
}

/// What is said where the file of a [`Step::Require`] is not there; `shown` is its
/// path.
pub open spec fn absent_message(absent: AbsentView, shown: Seq<char>) -> Seq<char> {
    match absent {
        AbsentView::DevScript { folder, script } => "Development folder '"@ + folder
            + "' does not contain "@ + script + "."@,
        AbsentView::TestScript => "test script not found at "@ + shown
            + ". Available in a full source checkout only."@,
    }
}

/// The user says yes: a single `y` or `Y`, whatever white space surrounds it.
pub open spec fn confirms(line: Seq<char>) -> bool {
    ascii_lowered(trimmed(line)) == "y"@
}

/// What `id -u` printed says that the user is root.
pub open spec fn names_root(printed: Option<Seq<u8>>) -> bool {
    match printed {
        Some(bytes) => valid_utf8(bytes) && trimmed(decode_utf8(bytes)) == "0"@,
        None => false,
    }
}

/// What is said to root.
pub open spec fn root_warning() -> Seq<char> {
    "WARNING: COSMOS should not be run as root; Local Mode file permissions will be affected."@
}

/// What an outcome means for the first step of a plan.
pub enum DecisionView {
    /// Nothing: the step still waits for its outcome.
    Wait,
    /// The step is done.
    Advance,
    /// The step is done, and this one comes next.
    Replace(PlannedView),
    /// This step comes before the one that waits.
    Precede(PlannedView),
    /// Only this step is left of the plan.
    Abandon(PlannedView),
    /// The step is done, and the steps that write the file back get its contents.
    Fill { name: Seq<char>, contents: Option<Seq<u8>> },
    /// The step failed.
    Fail(Seq<Seq<char>>),
}

/// What the outcome `reply` means for `step`. An outcome that no such step can
/// have means nothing, and an answer that cannot be read is not a yes.
pub open spec fn decision(step: StepView, reply: ReplyView) -> DecisionView {
    match (step, reply) {
        (StepView::Keep(name), ReplyView::Contents(contents)) => DecisionView::Fill {
            name,
            contents,
        },
        (StepView::Keep(name), ReplyView::Failed(_)) => DecisionView::Fill { name, contents: None },
        (StepView::Keep(_), _) => DecisionView::Wait,
        (StepView::Confirm(_), ReplyView::Failed(_)) => DecisionView::Abandon(
            best_effort(StepView::Print("Aborted."@)),
        ),
        (_, ReplyView::Failed(error)) => DecisionView::Fail(error),
        (StepView::Require { file, absent }, ReplyView::Found { found, shown }) => if found {
            DecisionView::Advance
        } else {
            DecisionView::Fail(seq![absent_message(absent, shown)])
        },
        (StepView::Require { .. }, _) => DecisionView::Wait,
        (StepView::Sweep(_), ReplyView::Found { found, shown }) => if found {
            DecisionView::Replace(needed(StepView::NextEntry))
        } else {
            DecisionView::Advance
        },
        (StepView::Sweep(_), _) => DecisionView::Wait,
        (StepView::NextEntry, ReplyView::Entry(None)) => DecisionView::Advance,
        (StepView::NextEntry, ReplyView::Entry(Some(entry))) => if entry.name == SPARED_FILE@ {
            DecisionView::Wait
        } else {
            DecisionView::Precede(
                best_effort(StepView::Remove { name: entry.name, is_dir: entry.is_dir }),
            )
        },
        (StepView::NextEntry, _) => DecisionView::Wait,
        (StepView::Confirm(_), ReplyView::Line(line)) => if confirms(line) {
            DecisionView::Advance
        } else {
            DecisionView::Abandon(best_effort(StepView::Print("Aborted."@)))
        },
        (StepView::Confirm(_), _) => DecisionView::Wait,
        (StepView::QueryUser, ReplyView::User(printed)) => if names_root(printed) {
            DecisionView::Replace(best_effort(StepView::Warn(root_warning())))
        } else {
            DecisionView::Advance
        },
        (StepView::QueryUser, _) => DecisionView::Wait,
        (StepView::Restore { name, .. }, ReplyView::Done) => DecisionView::Replace(
            best_effort(StepView::Progress("Preserved "@ + name + "."@)),
        ),
        (_, ReplyView::Done) => DecisionView::Advance,
        _ => DecisionView::Wait,
    }
}

/// The steps in which the file `name` is written back with what was read of it;
/// where nothing could be read, it is not written back at all.
pub open spec fn filled(
    steps: Seq<PlannedView>,
    name: Seq<char>,
    contents: Option<Seq<u8>>,
) -> Seq<PlannedView>
    decreases steps.len(),
{
    if steps.len() == 0 {
        seq![]
    } else {
        let front = filled(steps.drop_last(), name, contents);
        let last = steps.last();
        if last.step is Restore && last.step->Restore_name == name {
            match contents {
                Some(bytes) => front.push(
                    PlannedView {
                        step: StepView::Restore { name, contents: bytes },
                        on_failure: last.on_failure,
                    },
                ),
                None => front,
            }
        } else {
            front.push(last)
        }
    }
}

/// Filling two rows of steps in fills each of them in.
pub proof fn filled_add(
    front: Seq<PlannedView>,
    back: Seq<PlannedView>,
    name: Seq<char>,
    contents: Option<Seq<u8>>,
)
    ensures
        filled(front + back, name, contents) == filled(front, name, contents) + filled(
            back,
            name,
            contents,
        ),
    decreases back.len(),
{
    if back.len() == 0 {
        assert(front + back == front);
    } else {
        assert((front + back).drop_last() == front + back.drop_last());
        filled_add(front, back.drop_last(), name, contents);
    }
}

/// Steps that do not write the file back are not changed.
pub proof fn filled_elsewhere(steps: Seq<PlannedView>, name: Seq<char>, contents: Option<Seq<u8>>)
    requires
        forall|i: int|
            0 <= i < steps.len() ==> {
                let step = #[trigger] steps[i].step;
                step is Restore ==> step->Restore_name != name
            },
    ensures
        filled(steps, name, contents) == steps,
    decreases steps.len(),
{
    if steps.len() > 0 {
        let front = steps.drop_last();
        assert forall|i: int| 0 <= i < front.len() implies {
            let step = #[trigger] front[i].step;
            step is Restore ==> step->Restore_name != name
        } by {
            assert(front[i] == steps[i]);
        }
        filled_elsewhere(front, name, contents);
        assert(steps.last() == steps[steps.len() - 1]);
        assert(front.push(steps.last()) == steps);
    }
}

/// Of a row of steps those that write a file back.
pub open spec fn restores(steps: Seq<PlannedView>) -> Seq<PlannedView>
    decreases steps.len(),
{
    if steps.len() == 0 {
        seq![]
    } else {
        let front = restores(steps.drop_last());
        if steps.last().step is Restore {
            front.push(steps.last())
        } else {
            front
        }
    }
}

/// The folder of the COSMOS installation.
pub open spec fn cosmos_folder() -> FilePathView {
    FilePathView { folder: Folder::Cosmos, parts: seq![] }
}

/// What is left of a row of steps where only the files are to be saved: they are
/// written back, into a folder that is made where it is gone.
pub open spec fn salvaged(steps: Seq<PlannedView>) -> Seq<PlannedView> {
    if restores(steps).len() == 0 {
        seq![]
    } else {
        seq![best_effort(StepView::CreateFolder(cosmos_folder()))] + restores(steps)
    }
}

/// The plan after its first step failed with `error`. Where the plan already ends with
/// an error, it goes on, and that error stays.
pub open spec fn failed(plan: PlanView, error: Seq<Seq<char>>) -> PlanView {
    let rest = plan.steps.drop_first();
    if plan.failure is Some {
        PlanView { steps: rest, ..plan }
    } else {
        match plan.steps[0].on_failure {
            OnFailureView::Stop => PlanView { steps: seq![], failure: Some(error) },
            OnFailureView::Explain(message) => PlanView {
                steps: seq![],
                failure: Some(explained(error, message)),
            },
            OnFailureView::Skip(count) => PlanView {
                steps: if count + 1 < plan.steps.len() {
                    plan.steps.skip(count as int + 1)
                } else {
                    seq![]
                },
                failure: None,
            },
            OnFailureView::Salvage(message) => PlanView {
                steps: salvaged(rest),
                failure: Some(
                    match message {
                        Some(message) => explained(error, message),
                        None => error,
                    },
                ),
            },
        }
    }
}

/// The plan after the outcome `reply` of its first step. A plan without steps
/// stays as it is.
pub open spec fn resumed(plan: PlanView, reply: ReplyView) -> PlanView {
    if plan.steps.len() == 0 {
        plan
    } else {
        let rest = plan.steps.drop_first();
        match decision(plan.steps[0].step, reply) {
            DecisionView::Wait => plan,
            DecisionView::Advance => PlanView { steps: rest, ..plan },
            DecisionView::Replace(next) => PlanView { steps: seq![next] + rest, ..plan },
            DecisionView::Precede(next) => PlanView { steps: seq![next] + plan.steps, ..plan },
            DecisionView::Abandon(next) => PlanView { steps: seq![next], ..plan },
            DecisionView::Fill { name, contents } => PlanView {
                steps: filled(rest, name, contents),
                ..plan
            },
            DecisionView::Fail(error) => failed(plan, error),
        }
    }
}

impl Absent {
    /// What is said where the file is not there; `shown` is its path.
    pub fn message(&self, shown: &str) -> (message: String)
        ensures
            message@ == absent_message(self@, shown@),
    {
        let mut message = String::new();
        match self {
            Absent::DevScript { folder, script } => {
                message.append("Development folder '");
                message.append(folder.as_str());
                message.append("' does not contain ");
                message.append(script.as_str());
                message.append(".");
            },
            Absent::TestScript => {
                message.append("test script not found at ");
                message.append(shown);
                message.append(". Available in a full source checkout only.");
            },
        }
        assert(message@ == absent_message(self@, shown@));
        message
    }
}

/// Tells whether the user said yes.
pub fn is_yes(line: &str) -> (yes: bool)
    ensures
        yes == confirms(line@),
{
    same(ascii_lower(trim(line).as_str()).as_str(), "y")
}

/// Tells whether what `id -u` printed says that the user is root.
pub fn is_root(printed: Option<Vec<u8>>) -> (root: bool)
    ensures
        root == names_root(view_option(printed)),
{
    match printed {
        Some(bytes) => match utf8_text(bytes) {
            Some(text) => same(trim(text.as_str()).as_str(), "0"),
            None => false,
        },
        None => false,
    }
}

/// What an outcome means for the first step of a plan.
enum Decision {
    Wait,
    Advance,
    Replace(Planned),
    Precede(Planned),
    Abandon(Planned),
    Fill { name: String, contents: Option<Vec<u8>> },
    Fail(ErrorChain),
}

impl View for Decision {
    type V = DecisionView;

    closed spec fn view(&self) -> DecisionView {
        match self {
            Decision::Wait => DecisionView::Wait,
            Decision::Advance => DecisionView::Advance,
            Decision::Replace(next) => DecisionView::Replace(next@),
            Decision::Precede(next) => DecisionView::Precede(next@),
            Decision::Abandon(next) => DecisionView::Abandon(next@),
            Decision::Fill { name, contents } => DecisionView::Fill {
                name: name@,
                contents: view_option(*contents),
            },
            Decision::Fail(error) => DecisionView::Fail(error@),
        }
    }
}

/// Decides what the outcome `reply` means for `step`.
fn decide(step: &Step, reply: Reply) -> (decided: Decision)
    ensures
        decided@ == decision(step@, reply@),
{
    match (step, reply) {
        (Step::Keep(name), Reply::Contents(contents)) => Decision::Fill {
            name: name.clone(),
            contents,
        },
        (Step::Keep(name), Reply::Failed(_)) => Decision::Fill { name: name.clone(), contents: None },
        (Step::Keep(_), _) => Decision::Wait,
        (Step::Confirm(_), Reply::Failed(_)) => Decision::Abandon(
            plan_best_effort(Step::Print("Aborted.".to_owned())),
        ),
        (_, Reply::Failed(error)) => Decision::Fail(error),
        (Step::Require { file, absent }, Reply::Found { found, shown }) => if found {
            Decision::Advance
        } else {
            Decision::Fail(ErrorChain::new(absent.message(shown.as_str())))
        },
        (Step::Require { .. }, _) => Decision::Wait,
        (Step::Sweep(_), Reply::Found { found, shown }) => if found {
            Decision::Replace(plan_needed(Step::NextEntry))
        } else {
            Decision::Advance
        },
        (Step::Sweep(_), _) => Decision::Wait,
        (Step::NextEntry, Reply::Entry(None)) => Decision::Advance,
        (Step::NextEntry, Reply::Entry(Some(entry))) => if same(entry.name.as_str(), SPARED_FILE) {
            Decision::Wait
        } else {
            Decision::Precede(
                plan_best_effort(Step::Remove { name: entry.name, is_dir: entry.is_dir }),
            )
        },
        (Step::NextEntry, _) => Decision::Wait,
        (Step::Confirm(_), Reply::Line(line)) => if is_yes(line.as_str()) {
            Decision::Advance
        } else {
            Decision::Abandon(plan_best_effort(Step::Print("Aborted.".to_owned())))
        },
        (Step::Confirm(_), _) => Decision::Wait,
        (Step::QueryUser, Reply::User(printed)) => if is_root(printed) {
            Decision::Replace(
                plan_best_effort(
                    Step::Warn(
                        "WARNING: COSMOS should not be run as root; Local Mode file permissions will be affected.".to_owned(),
                    ),
                ),
            )
        } else {
            Decision::Advance
        },
        (Step::QueryUser, _) => Decision::Wait,
        (Step::Restore { name, .. }, Reply::Done) => {
            let mut text = "Preserved ".to_owned();
            text.append(name.as_str());
            text.append(".");
            Decision::Replace(plan_best_effort(Step::Progress(text)))
        },
        (_, Reply::Done) => Decision::Advance,
        _ => Decision::Wait,
    }
}

/// Gives the steps that write the file `name` back what was read of it.
fn fill_steps(steps: Vec<Planned>, name: &str, contents: &Option<Vec<u8>>) -> (full: Vec<Planned>)
    ensures
        views(full@) == filled(views(steps@), name@, view_option(*contents)),
{
    let ghost all = views(steps@);
    let mut steps = steps;
    let mut full: Vec<Planned> = Vec::new();
    let ghost mut count: int = 0;
    assert(all.take(0) == Seq::<PlannedView>::empty());
    assert(all.skip(0) == all);
    while steps.len() > 0
        invariant
            0 <= count <= all.len(),
            views(steps@) == all.skip(count),
            views(full@) == filled(all.take(count), name@, view_option(*contents)),
        decreases steps@.len(),
    {
        let ghost before = steps@;
        let planned = steps.remove(0);
        assert(steps@ == before.drop_first());
        assert(planned@ == views(before)[0]);
        assert(all.skip(count).drop_first() == all.skip(count + 1));
        assert(all.take(count + 1).drop_last() == all.take(count));
        assert(all.take(count + 1).last() == planned@);
        proof {
            count = count + 1;
        }
        match planned.step {
            Step::Restore { name: file, contents: old } => if same(file.as_str(), name) {
                match contents {
                    Some(bytes) => {
                        let copy = bytes.clone();
                        assert(copy@ == bytes@);
                        full.push(
                            Planned {
                                step: Step::Restore { name: file, contents: copy },
                                on_failure: planned.on_failure,
                            },
                        );
                    },
                    None => {},
                }
            } else {
                full.push(
                    Planned {
                        step: Step::Restore { name: file, contents: old },
                        on_failure: planned.on_failure,
                    },
                );
            },
            step => {
                full.push(Planned { step, on_failure: planned.on_failure });
            },
        }
    }
    assert(all.take(count) == all) by {
        assert(all.skip(count).len() == 0);
    }
    full
}

/// Keeps only what writes files back.
fn salvage(steps: Vec<Planned>) -> (kept: Vec<Planned>)
    ensures
        views(kept@) == salvaged(views(steps@)),
{
    let ghost all = views(steps@);
    let mut steps = steps;
    let mut kept: Vec<Planned> = Vec::new();
    let ghost mut count: int = 0;
    assert(all.take(0) == Seq::<PlannedView>::empty());
    assert(all.skip(0) == all);
    while steps.len() > 0
        invariant
            0 <= count <= all.len(),
            views(steps@) == all.skip(count),
            views(kept@) == restores(all.take(count)),
        decreases steps@.len(),
    {
        let ghost before = steps@;
        let planned = steps.remove(0);
        assert(steps@ == before.drop_first());
        assert(planned@ == views(before)[0]);
        assert(all.skip(count).drop_first() == all.skip(count + 1));
        assert(all.take(count + 1).drop_last() == all.take(count));
        assert(all.take(count + 1).last() == planned@);
        proof {
            count = count + 1;
        }
        let wanted = match &planned.step {
            Step::Restore { .. } => true,
            _ => false,
        };
        if wanted {
            kept.push(planned);
        }
    }
    assert(all.take(count) == all) by {
        assert(all.skip(count).len() == 0);
    }
    if kept.len() > 0 {
        let folder = plan_best_effort(Step::CreateFolder(FilePath::folder(Folder::Cosmos)));
        let ghost found = kept@;
        kept.insert(0, folder);
        assert(kept@ == seq![folder] + found);
        assert(views(seq![folder]) == seq![folder@]);
    }
    assert(views(kept@) == salvaged(all));
    kept
}

impl Plan {
    /// A plan of which nothing was carried out yet.
    pub fn new(steps: Vec<Planned>) -> (plan: Plan)
        ensures
            plan@ == fresh(views(steps@)),
    {
        Plan { steps, failure: None }
    }

    /// The step to carry out next; none where the plan has ended.
    pub fn next_step(&self) -> (step: Option<&Step>)
        ensures
            match step {
                Some(step) => next_of(self@) == Some(step@),
                None => next_of(self@) is None,
            },
    {
        if self.steps.len() == 0 {
            None
        } else {
            assert(self@.steps[0] == self.steps@[0]@);
            Some(&self.steps[0].step)
        }
    }

    /// Takes in the outcome of the next step.
    pub fn resume(self, reply: Reply) -> (plan: Plan)
        ensures
            plan@ == resumed(self@, reply@),
    {
        if self.steps.len() == 0 {
            return self;
        }
        assert(self@.steps[0] == self.steps@[0]@);
        let decided = decide(&self.steps[0].step, reply);
        let mut steps = self.steps;
        let failure = self.failure;
        match decided {
            Decision::Wait => Plan { steps, failure },
            Decision::Advance => {
                let head = steps.remove(0);
                assert(steps@ == self.steps@.drop_first());
                Plan { steps, failure }
            },
            Decision::Replace(next) => {
                let head = steps.remove(0);
                assert(steps@ == self.steps@.drop_first());
                steps.insert(0, next);
                assert(steps@ == seq![next] + self.steps@.drop_first());
                assert(views(seq![next]) == seq![next@]);
                Plan { steps, failure }
            },
            Decision::Precede(next) => {
                steps.insert(0, next);
                assert(steps@ == seq![next] + self.steps@);
                assert(views(seq![next]) == seq![next@]);
                Plan { steps, failure }
            },
            Decision::Abandon(next) => {
                let mut only: Vec<Planned> = Vec::new();
                only.push(next);
                assert(views(only@) == seq![next@]);
                Plan { steps: only, failure }
            },
            Decision::Fill { name, contents } => {
                let head = steps.remove(0);
                assert(steps@ == self.steps@.drop_first());
                Plan { steps: fill_steps(steps, name.as_str(), &contents), failure }
            },
            Decision::Fail(error) => {
                let head = steps.remove(0);
                assert(steps@ == self.steps@.drop_first());
                if failure.is_some() {
                    return Plan { steps, failure };
                }
                match head.on_failure {
                    OnFailure::Stop => Plan { steps: Vec::new(), failure: Some(error) },
                    OnFailure::Explain(message) => Plan {
                        steps: Vec::new(),
                        failure: Some(error.context(message)),
                    },
                    OnFailure::Skip(count) => {
                        let left = if count < steps.len() {
                            steps.split_off(count)
                        } else {
                            Vec::new()
                        };
                        assert(views(left@) == (if count + 1 < self@.steps.len() {
                            self@.steps.skip(count as int + 1)
                        } else {
                            Seq::<PlannedView>::empty()
                        }));
                        Plan { steps: left, failure: None }
                    },
                    OnFailure::Salvage(message) => Plan {
                        steps: salvage(steps),
                        failure: Some(
                            match message {
                                Some(message) => error.context(message),
                                None => error,
                            },
                        ),
                    },
                }
            },
        }
    }
}

/// The plan after a row of outcomes.
pub open spec fn run_plan(plan: PlanView, replies: Seq<ReplyView>) -> PlanView
    decreases replies.len(),
{
    if replies.len() == 0 {
        plan
    } else {
        resumed(run_plan(plan, replies.drop_last()), replies.last())
    }
}

/// A plan that has ended stays as it is, whatever comes in.
pub proof fn ended_plan_stays_ended(plan: PlanView, replies: Seq<ReplyView>)
    requires
        plan.steps.len() == 0,
    ensures
        run_plan(plan, replies) == plan,
    decreases replies.len(),
{
    if replies.len() > 0 {
        ended_plan_stays_ended(plan, replies.drop_last());
    }
}

/// A step that does no more than write files back, or say so.
pub open spec fn only_salvages(step: StepView) -> bool {
    step is Restore || step is CreateFolder || step is Progress
}

/// Every step of a row only writes files back.
pub open spec fn all_salvage(steps: Seq<PlannedView>) -> bool {
    forall|i: int| 0 <= i < steps.len() ==> only_salvages(#[trigger] steps[i].step)
}

/// What is kept of a row of steps to save the files comes from that row and writes
/// files back.
proof fn restores_are_restores(steps: Seq<PlannedView>)
    ensures
        forall|i: int|
            0 <= i < restores(steps).len() ==> (#[trigger] restores(steps)[i]).step is Restore
                && steps.contains(restores(steps)[i]),
    decreases steps.len(),
{
    if steps.len() > 0 {
        let front = steps.drop_last();
        restores_are_restores(front);
        assert forall|i: int| 0 <= i < restores(steps).len() implies (#[trigger] restores(
            steps,
        )[i]).step is Restore && steps.contains(restores(steps)[i]) by {
            if i < restores(front).len() {
                let kept = restores(front)[i];
                let j = choose|j: int| 0 <= j < front.len() && front[j] == kept;
                assert(steps[j] == kept);
            } else {
                assert(steps[steps.len() - 1] == steps.last());
            }
        }
    }
}

/// An error ends a plan: once it has come up, it is the error that the plan ends with,
/// whatever comes in, and nothing is left to do but to write back the files that were
/// read.
pub proof fn error_leaves_only_salvage(plan: PlanView, replies: Seq<ReplyView>)
    requires
        plan.failure is Some ==> all_salvage(plan.steps),
    ensures
        run_plan(plan, replies).failure is Some ==> all_salvage(run_plan(plan, replies).steps),
        plan.failure is Some ==> run_plan(plan, replies).failure == plan.failure,
    decreases replies.len(),
{
    if replies.len() > 0 {
        error_leaves_only_salvage(plan, replies.drop_last());
        let was = run_plan(plan, replies.drop_last());
        let now = run_plan(plan, replies);
        if was.steps.len() > 0 {
            let rest = was.steps.drop_first();
            restores_are_restores(rest);
            if now.failure is Some {
                assert forall|i: int| 0 <= i < now.steps.len() implies only_salvages(
                    #[trigger] now.steps[i].step,
                ) by {
                    if was.failure is Some {
                        assert(only_salvages(was.steps[0].step));
                        if now.steps.len() == rest.len() {
                            assert(now.steps[i] == was.steps[i + 1]);
                        } else if i > 0 {
                            assert(now.steps[i] == was.steps[i]);
                        }
                    }
                }
            }
        }
    }
}

/// Where a needed step fails, the plan ends with the step's error, behind the
/// explanation if there is one; no later step is carried out, whatever comes in.
pub proof fn needed_failure_ends_the_plan(
    plan: PlanView,
    error: Seq<Seq<char>>,
    replies: Seq<ReplyView>,
)
    requires
        plan.steps.len() > 0,
        plan.failure is None,
        !(plan.steps[0].step is Keep),
        !(plan.steps[0].step is Confirm),
        plan.steps[0].on_failure is Stop || plan.steps[0].on_failure is Explain,
    ensures
        ({
            let after = run_plan(resumed(plan, ReplyView::Failed(error)), replies);
            &&& after.steps.len() == 0
            &&& after.failure == Some(
                match plan.steps[0].on_failure {
                    OnFailureView::Explain(message) => explained(error, message),
                    _ => error,
                },
            )
        }),
{
    ended_plan_stays_ended(resumed(plan, ReplyView::Failed(error)), replies);
}

/// The failure of a step on which nothing depends changes nothing: the plan goes
/// on with the step after it.
pub proof fn best_effort_failure_is_passed_over(plan: PlanView, error: Seq<Seq<char>>)
    requires
        plan.steps.len() > 0,
        !(plan.steps[0].step is Keep),
        !(plan.steps[0].step is Confirm),
        plan.steps[0].on_failure == OnFailureView::Skip(0),
    ensures
        resumed(plan, ReplyView::Failed(error)) == (PlanView {
            steps: plan.steps.drop_first(),
            failure: plan.failure,
        }),
{
    assert(resumed(plan, ReplyView::Failed(error)).steps == plan.steps.drop_first());
}

/// A step that is simply done or fails.
pub open spec fn is_plain(step: StepView) -> bool {
    decision(step, ReplyView::Done) is Advance
}

/// As many times `Done`.
pub open spec fn all_done(count: nat) -> Seq<ReplyView> {
    Seq::new(count, |i: int| ReplyView::Done)
}

/// Where all goes well, plain steps are carried out one by one, in the order of the
/// plan, and the plan ends without an error.
pub proof fn plain_steps_go_in_order(plan: PlanView, count: nat)
    requires
        count <= plan.steps.len(),
        forall|i: int| 0 <= i < count ==> is_plain(#[trigger] plan.steps[i].step),
    ensures
        run_plan(plan, all_done(count)) == (PlanView {
            steps: plan.steps.skip(count as int),
            failure: plan.failure,
        }),
    decreases count,
{
    if count == 0 {
        assert(plan.steps.skip(0) == plan.steps);
    } else {
        let fewer = (count - 1) as nat;
        plain_steps_go_in_order(plan, fewer);
        assert(all_done(count).drop_last() == all_done(fewer));
        assert(plan.steps.skip(fewer as int)[0] == plan.steps[fewer as int]);
        assert(is_plain(plan.steps[fewer as int].step));
        assert(plan.steps.skip(fewer as int).drop_first() == plan.steps.skip(count as int));
    }
}

/// None of the steps removes the file that a sweep spares.
pub open spec fn spares(steps: Seq<PlannedView>) -> bool {
    forall|i: int|
        0 <= i < steps.len() ==> {
            let step = #[trigger] steps[i].step;
            step is Remove ==> step->Remove_name != SPARED_FILE@
        }
}

/// Filling the contents of preserved files in leaves the spared file spared.
proof fn filled_spares(steps: Seq<PlannedView>, name: Seq<char>, contents: Option<Seq<u8>>)
    requires
        spares(steps),
    ensures
        spares(filled(steps, name, contents)),
    decreases steps.len(),
{
    if steps.len() > 0 {
        assert(spares(steps.drop_last())) by {
            assert forall|i: int| 0 <= i < steps.drop_last().len() implies {
                let step = #[trigger] steps.drop_last()[i].step;
                step is Remove ==> step->Remove_name != SPARED_FILE@
            } by {
                assert(steps.drop_last()[i] == steps[i]);
            }
        }
        filled_spares(steps.drop_last(), name, contents);
        assert(steps.last() == steps[steps.len() - 1]);
    }
}

/// A sweep spares its file: no outcomes whatever lead to a step that removes it.
pub proof fn sweep_spares_its_file(plan: PlanView, replies: Seq<ReplyView>)
    requires
        spares(plan.steps),
    ensures
        spares(run_plan(plan, replies).steps),
    decreases replies.len(),
{
    if replies.len() > 0 {
        sweep_spares_its_file(plan, replies.drop_last());
        let now = run_plan(plan, replies.drop_last());
        if now.steps.len() > 0 {
            let rest = now.steps.drop_first();
            assert(spares(rest)) by {
                assert forall|i: int| 0 <= i < rest.len() implies {
                    let step = #[trigger] rest[i].step;
                    step is Remove ==> step->Remove_name != SPARED_FILE@
                } by {
                    assert(rest[i] == now.steps[i + 1]);
                }
            }
            match decision(now.steps[0].step, replies.last()) {
                DecisionView::Fill { name, contents } => {
                    filled_spares(rest, name, contents);
                },
                DecisionView::Replace(next) => {
                    let steps = seq![next] + rest;
                    assert forall|i: int| 0 <= i < steps.len() implies {
                        let step = #[trigger] steps[i].step;
                        step is Remove ==> step->Remove_name != SPARED_FILE@
                    } by {
                        if i > 0 {
                            assert(steps[i] == rest[i - 1]);
                        }
                    }
                },
                DecisionView::Precede(next) => {
                    let steps = seq![next] + now.steps;
                    assert forall|i: int| 0 <= i < steps.len() implies {
                        let step = #[trigger] steps[i].step;
                        step is Remove ==> step->Remove_name != SPARED_FILE@
                    } by {
                        if i > 0 {
                            assert(steps[i] == now.steps[i - 1]);
                        }
                    }
                },
                DecisionView::Fail(_) => {
                    restores_are_restores(rest);
                    let steps = salvaged(rest);
                    assert forall|i: int| 0 <= i < steps.len() implies {
                        let step = #[trigger] steps[i].step;
                        step is Remove ==> step->Remove_name != SPARED_FILE@
                    } by {
                        if i > 0 {
                            assert(steps[i] == restores(rest)[i - 1]);
                        }
                    }
                },
                _ => {},
            }
        }
    }
}

/// Step `at` can be kept from its turn only by an error that ends the plan: none
/// of the steps before it abandons the plan or changes later steps, and none skips
/// over it.
pub open spec fn nothing_skips(steps: Seq<PlannedView>, at: int) -> bool {
    &&& 0 <= at < steps.len()
    &&& forall|i: int|
        0 <= i < at ==> {
            let planned = #[trigger] steps[i];
            &&& !(planned.step is Confirm)
            &&& !(planned.step is Keep)
            &&& planned.on_failure is Skip ==> i + planned.on_failure->Skip_0 + 1 <= at
        }
}

/// The outcomes after which step `wanted` is the next to be carried out.
pub open spec fn has_its_turn(plan: PlanView, replies: Seq<ReplyView>, wanted: PlannedView) -> bool {
    exists|count: int|
        0 <= count <= replies.len() && {
            let now = #[trigger] run_plan(plan, replies.take(count));
            now.steps.len() > 0 && now.steps[0] == wanted
        }
}

/// After a row of outcomes a step that nothing skips has had its turn, or still
/// waits for it, or an error has ended the plan.
proof fn step_waits_for_its_turn(plan: PlanView, replies: Seq<ReplyView>, at: int)
    requires
        nothing_skips(plan.steps, at),
    ensures
        ({
            let now = run_plan(plan, replies);
            ||| has_its_turn(plan, replies, plan.steps[at])
            ||| now.failure is Some
            ||| exists|place: int| #[trigger]
                nothing_skips(now.steps, place) && now.steps[place] == plan.steps[at]
        }),
    decreases replies.len(),
{
    let wanted = plan.steps[at];
    if replies.len() == 0 {
        assert(nothing_skips(run_plan(plan, replies).steps, at));
    } else {
        let earlier = replies.drop_last();
        step_waits_for_its_turn(plan, earlier, at);
        let was = run_plan(plan, earlier);
        let now = run_plan(plan, replies);
        if has_its_turn(plan, earlier, wanted) {
            let count = choose|count: int|
                0 <= count <= earlier.len() && {
                    let then = #[trigger] run_plan(plan, earlier.take(count));
                    then.steps.len() > 0 && then.steps[0] == wanted
                };
            assert(replies.take(count) == earlier.take(count));
            assert(has_its_turn(plan, replies, wanted));
        } else if was.failure is Some {
        } else {
            let place = choose|place: int| #[trigger]
                nothing_skips(was.steps, place) && was.steps[place] == wanted;
            if place == 0 {
                assert(earlier.take(earlier.len() as int) == earlier);
                assert(replies.take(earlier.len() as int) == earlier);
                assert(run_plan(plan, replies.take(earlier.len() as int)).steps[0] == wanted);
                assert(has_its_turn(plan, replies, wanted));
            } else {
                let rest = was.steps.drop_first();
                assert(was.steps[0] == was.steps[0int]);
                match decision(was.steps[0].step, replies.last()) {
                    DecisionView::Wait => {
                        assert(nothing_skips(now.steps, place));
                    },
                    DecisionView::Advance => {
                        assert forall|i: int| 0 <= i < place - 1 implies {
                            let planned = #[trigger] now.steps[i];
                            &&& !(planned.step is Confirm)
                            &&& !(planned.step is Keep)
                            &&& planned.on_failure is Skip ==> i + planned.on_failure->Skip_0 + 1
                                <= place - 1
                        } by {
                            assert(now.steps[i] == was.steps[i + 1]);
                        }
                        assert(nothing_skips(now.steps, place - 1));
                    },
                    DecisionView::Replace(next) => {
                        assert forall|i: int| 0 <= i < place implies {
                            let planned = #[trigger] now.steps[i];
                            &&& !(planned.step is Confirm)
                            &&& !(planned.step is Keep)
                            &&& planned.on_failure is Skip ==> i + planned.on_failure->Skip_0 + 1
                                <= place
                        } by {
                            if i > 0 {
                                assert(now.steps[i] == was.steps[i]);
                            }
                        }
                        assert(now.steps[place] == was.steps[place]);
                        assert(nothing_skips(now.steps, place));
                    },
                    DecisionView::Precede(next) => {
                        assert forall|i: int| 0 <= i < place + 1 implies {
                            let planned = #[trigger] now.steps[i];
                            &&& !(planned.step is Confirm)
                            &&& !(planned.step is Keep)
                            &&& planned.on_failure is Skip ==> i + planned.on_failure->Skip_0 + 1
                                <= place + 1
                        } by {
                            if i > 0 {
                                assert(now.steps[i] == was.steps[i - 1]);
                            }
                        }
                        assert(now.steps[place + 1] == was.steps[place]);
                        assert(nothing_skips(now.steps, place + 1));
                    },
                    DecisionView::Abandon(_) => {},
                    DecisionView::Fill { .. } => {},
                    DecisionView::Fail(_) => match was.steps[0].on_failure {
                        OnFailureView::Skip(count) => {
                            let skipped = count as int + 1;
                            assert forall|i: int| 0 <= i < place - skipped implies {
                                let planned = #[trigger] now.steps[i];
                                &&& !(planned.step is Confirm)
                                &&& !(planned.step is Keep)
                                &&& planned.on_failure is Skip ==> i + planned.on_failure->Skip_0
                                    + 1 <= place - skipped
                            } by {
                                assert(now.steps[i] == was.steps[i + skipped]);
                            }
                            assert(now.steps[place - skipped] == was.steps[place]);
                            assert(nothing_skips(now.steps, place - skipped));
                        },
                        _ => {},
                    },
                }
            }
        }
    }
}

/// A step that nothing skips is carried out in every run that comes to its end
/// without an error.
pub proof fn step_has_its_turn(plan: PlanView, replies: Seq<ReplyView>, at: int)
    requires
        nothing_skips(plan.steps, at),
        run_plan(plan, replies).steps.len() == 0,
        run_plan(plan, replies).failure is None,
    ensures
        has_its_turn(plan, replies, plan.steps[at]),
{
    step_waits_for_its_turn(plan, replies, at);
}

/// Step `at` writes a file back, and nothing keeps it from its turn, not even an error:
/// none of the steps before it abandons the plan or changes later steps, none skips over
/// it, and none ends the plan without saving the files, or makes way for one that would.
pub open spec fn nothing_drops(steps: Seq<PlannedView>, at: int) -> bool {
    &&& 0 <= at < steps.len()
    &&& steps[at].step is Restore
    &&& forall|i: int| 0 <= i < at ==> lets_pass(#[trigger] steps[i], at - i)
}

/// A step that lets the one that stands `distance` steps later come to its turn.
pub open spec fn lets_pass(planned: PlannedView, distance: int) -> bool {
    &&& !(planned.step is Confirm)
    &&& !(planned.step is Keep)
    &&& !(planned.step is Sweep)
    &&& planned.step is Restore ==> planned.on_failure is Salvage
    &&& match planned.on_failure {
        OnFailureView::Skip(count) => count + 1 <= distance,
        OnFailureView::Salvage(_) => true,
        _ => false,
    }
}

/// The place that a step which nothing drops has among those that are kept to save the
/// files.
proof fn place_among_restores(steps: Seq<PlannedView>, at: int) -> (place: int)
    requires
        nothing_drops(steps, at),
    ensures
        0 <= place < restores(steps).len(),
        restores(steps)[place] == steps[at],
        forall|i: int|
            0 <= i < place ==> (#[trigger] restores(steps)[i]).step is Restore && restores(
                steps,
            )[i].on_failure is Salvage,
    decreases steps.len(),
{
    let front = steps.drop_last();
    if at < front.len() {
        assert forall|i: int| 0 <= i < at implies lets_pass(#[trigger] front[i], at - i) by {
            assert(front[i] == steps[i]);
        }
        place_among_restores(front, at)
    } else {
        restores_are_restores(front);
        assert forall|i: int| 0 <= i < restores(front).len() implies (#[trigger] restores(
            front,
        )[i]).on_failure is Salvage by {
            let kept = restores(front)[i];
            let j = choose|j: int| 0 <= j < front.len() && front[j] == kept;
            assert(lets_pass(steps[j], at - j));
        }
        restores(front).len() as int
    }
}

/// A step that nothing drops still waits for its turn after the outcome of a step before
/// it.
proof fn step_is_kept(plan: PlanView, reply: ReplyView, at: int) -> (place: int)
    requires
        nothing_drops(plan.steps, at),
        at > 0,
    ensures
        nothing_drops(resumed(plan, reply).steps, place),
        resumed(plan, reply).steps[place] == plan.steps[at],
{
    let was = plan.steps;
    let now = resumed(plan, reply).steps;
    let rest = was.drop_first();
    assert(lets_pass(was[0], at));
    match decision(was[0].step, reply) {
        DecisionView::Wait => at,
        DecisionView::Replace(next) => {
            assert forall|i: int| 0 <= i < at implies lets_pass(#[trigger] now[i], at - i) by {
                if i > 0 {
                    assert(now[i] == was[i]);
                }
            }
            at
        },
        DecisionView::Precede(next) => {
            assert forall|i: int| 0 <= i < at + 1 implies lets_pass(
                #[trigger] now[i],
                at + 1 - i,
            ) by {
                if i > 0 {
                    assert(now[i] == was[i - 1]);
                }
            }
            at + 1
        },
        DecisionView::Fail(_) if plan.failure is None && was[0].on_failure is Salvage => {
            assert forall|i: int| 0 <= i < at - 1 implies lets_pass(
                #[trigger] rest[i],
                at - 1 - i,
            ) by {
                assert(rest[i] == was[i + 1]);
            }
            let place = place_among_restores(rest, at - 1);
            assert forall|i: int| 0 <= i < place + 1 implies lets_pass(
                #[trigger] now[i],
                place + 1 - i,
            ) by {
                if i > 0 {
                    assert(now[i] == restores(rest)[i - 1]);
                }
            }
            assert(now[place + 1] == restores(rest)[place]);
            place + 1
        },
        other => {
            let skipped: int = if other is Fail && plan.failure is None {
                was[0].on_failure->Skip_0 as int + 1
            } else {
                1
            };
            assert forall|i: int| 0 <= i < at - skipped implies lets_pass(
                #[trigger] now[i],
                at - skipped - i,
            ) by {
                assert(now[i] == was[i + skipped]);
            }
            assert(now[at - skipped] == was[at]);
            at - skipped
        },
    }
}

/// After a row of outcomes a step that nothing drops has had its turn or still waits for
/// it.
proof fn step_is_kept_throughout(plan: PlanView, replies: Seq<ReplyView>, at: int)
    requires
        nothing_drops(plan.steps, at),
    ensures
        has_its_turn(plan, replies, plan.steps[at]) || exists|place: int| #[trigger]
            nothing_drops(run_plan(plan, replies).steps, place) && run_plan(
                plan,
                replies,
            ).steps[place] == plan.steps[at],
    decreases replies.len(),
{
    let wanted = plan.steps[at];
    if replies.len() == 0 {
        assert(nothing_drops(run_plan(plan, replies).steps, at));
    } else {
        let earlier = replies.drop_last();
        step_is_kept_throughout(plan, earlier, at);
        let was = run_plan(plan, earlier);
        if has_its_turn(plan, earlier, wanted) {
            let count = choose|count: int|
                0 <= count <= earlier.len() && {
                    let then = #[trigger] run_plan(plan, earlier.take(count));
                    then.steps.len() > 0 && then.steps[0] == wanted
                };
            assert(replies.take(count) == earlier.take(count));
            assert(has_its_turn(plan, replies, wanted));
        } else {
            let place = choose|place: int| #[trigger]
                nothing_drops(was.steps, place) && was.steps[place] == wanted;
            if place == 0 {
                assert(replies.take(earlier.len() as int) == earlier);
                assert(run_plan(plan, replies.take(earlier.len() as int)).steps[0] == wanted);
                assert(has_its_turn(plan, replies, wanted));
            } else {
                let next = step_is_kept(was, replies.last(), place);
                assert(nothing_drops(run_plan(plan, replies).steps, next));
            }
        }
    }
}

/// A file that nothing drops is written back in every run that comes to its end, be it
/// with an error or without one.
pub proof fn file_is_written_back(plan: PlanView, replies: Seq<ReplyView>, at: int)
    requires
        nothing_drops(plan.steps, at),
        run_plan(plan, replies).steps.len() == 0,
    ensures
        has_its_turn(plan, replies, plan.steps[at]),
{
    step_is_kept_throughout(plan, replies, at);
}

/// The installation, wherever it stands, lets the files be saved where it fails.
pub open spec fn installs_with_care(steps: Seq<PlannedView>) -> bool {
    forall|i: int|
        0 <= i < steps.len() && (#[trigger] steps[i]).step is Install ==> steps[i].on_failure
            == OnFailureView::Salvage(None)
}

/// Whatever comes in, the installation lets the files be saved where it fails.
pub proof fn care_is_kept(plan: PlanView, replies: Seq<ReplyView>)
    requires
        installs_with_care(plan.steps),
    ensures
        installs_with_care(run_plan(plan, replies).steps),
    decreases replies.len(),
{
    if replies.len() > 0 {
        care_is_kept(plan, replies.drop_last());
        let was = run_plan(plan, replies.drop_last());
        let now = run_plan(plan, replies);
        if was.steps.len() > 0 {
            let rest = was.steps.drop_first();
            assert(installs_with_care(rest)) by {
                assert forall|i: int|
                    0 <= i < rest.len() && (#[trigger] rest[i]).step is Install implies rest[
                    i
                ].on_failure == OnFailureView::Salvage(None) by {
                    assert(rest[i] == was.steps[i + 1]);
                }
            }
            restores_are_restores(rest);
            match decision(was.steps[0].step, replies.last()) {
                DecisionView::Fill { name, contents } => {
                    filled_with_care(rest, name, contents);
                },
                DecisionView::Replace(next) => {
                    assert forall|i: int|
                        0 <= i < now.steps.len() && (
                        #[trigger] now.steps[i]).step is Install implies now.steps[i].on_failure
                        == OnFailureView::Salvage(None) by {
                        assert(i > 0 ==> now.steps[i] == was.steps[i]);
                    }
                },
                DecisionView::Precede(next) => {
                    assert forall|i: int|
                        0 <= i < now.steps.len() && (
                        #[trigger] now.steps[i]).step is Install implies now.steps[i].on_failure
                        == OnFailureView::Salvage(None) by {
                        assert(i > 0 ==> now.steps[i] == was.steps[i - 1]);
                    }
                },
                DecisionView::Fail(_) => {
                    if was.failure is None {
                        match was.steps[0].on_failure {
                            OnFailureView::Skip(count) => {
                                assert forall|i: int|
                                    0 <= i < now.steps.len() && (
                                    #[trigger] now.steps[i]).step is Install implies now.steps[
                                    i
                                ].on_failure == OnFailureView::Salvage(None) by {
                                    assert(now.steps[i] == was.steps[i + count + 1]);
                                }
                            },
                            OnFailureView::Salvage(_) => {
                                assert forall|i: int| 0 <= i < now.steps.len() implies !((
                                #[trigger] now.steps[i]).step is Install) by {
                                    if i > 0 {
                                        assert(now.steps[i] == restores(rest)[i - 1]);
                                    }
                                }
                            },
                            _ => {},
                        }
                    }
                },
                _ => {},
            }
        }
    }
}

/// Filling the contents of preserved files in leaves the installation as it is.
proof fn filled_with_care(steps: Seq<PlannedView>, name: Seq<char>, contents: Option<Seq<u8>>)
    requires
        installs_with_care(steps),
    ensures
        installs_with_care(filled(steps, name, contents)),
    decreases steps.len(),
{
    if steps.len() > 0 {
        let front = steps.drop_last();
        assert forall|i: int|
            0 <= i < front.len() && (#[trigger] front[i]).step is Install implies front[
            i
        ].on_failure == OnFailureView::Salvage(None) by {
            assert(front[i] == steps[i]);
        }
        filled_with_care(front, name, contents);
        assert(steps.last() == steps[steps.len() - 1]);
    }
}

/// No file is read any more, and what is written back is `contents[name]`.
pub open spec fn writes_back(steps: Seq<PlannedView>, contents: Map<Seq<char>, Seq<u8>>) -> bool {
    forall|i: int|
        0 <= i < steps.len() ==> {
            let step = #[trigger] steps[i].step;
            &&& !(step is Keep)
            &&& step is Restore ==> contents.contains_key(step->Restore_name)
                && contents[step->Restore_name] == step->Restore_contents
        }
}

/// Once all files are read, what will be written back does not change any more.
pub proof fn contents_are_kept(
    plan: PlanView,
    replies: Seq<ReplyView>,
    contents: Map<Seq<char>, Seq<u8>>,
)
    requires
        writes_back(plan.steps, contents),
    ensures
        writes_back(run_plan(plan, replies).steps, contents),
    decreases replies.len(),
{
    if replies.len() > 0 {
        contents_are_kept(plan, replies.drop_last(), contents);
        let was = run_plan(plan, replies.drop_last());
        let now = run_plan(plan, replies);
        if was.steps.len() > 0 {
            assert(!(was.steps[0].step is Keep));
            let rest = was.steps.drop_first();
            restores_are_restores(rest);
            let shift: int = match decision(was.steps[0].step, replies.last()) {
                DecisionView::Wait => 0,
                DecisionView::Advance => 1,
                DecisionView::Replace(_) => 0,
                DecisionView::Precede(_) => -1,
                DecisionView::Abandon(_) => 0,
                DecisionView::Fill { .. } => 0,
                DecisionView::Fail(_) => if was.failure is Some {
                    1
                } else {
                    match was.steps[0].on_failure {
                        OnFailureView::Skip(count) => count as int + 1,
                        _ => 0,
                    }
                },
            };
            assert forall|i: int| 0 <= i < now.steps.len() implies {
                let step = #[trigger] now.steps[i].step;
                &&& !(step is Keep)
                &&& step is Restore ==> contents.contains_key(step->Restore_name)
                    && contents[step->Restore_name] == step->Restore_contents
            } by {
                if 0 <= i + shift < was.steps.len() && now.steps[i] == was.steps[i + shift] {
                    let same = was.steps[i + shift].step;
                } else if i > 0 && now.steps == salvaged(rest) {
                    let kept = restores(rest)[i - 1];
                    assert(now.steps[i] == kept);
                    let j = choose|j: int| 0 <= j < rest.len() && rest[j] == kept;
                    assert(was.steps[j + 1] == kept);
                }
            }
        }
    }
}

} // verus!
