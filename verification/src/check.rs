//! The course of an update check, from question to question.
//!
//! A check waits for one answer at a time; each variant of its state names the
//! question that is open and holds what is needed to ask it.
use crate::context::EnvFile;
use crate::error::ErrorChain;
use crate::model::{group_views, view_option, view_result};
use crate::text::joined;
use crate::update::{
    cosmos_latest, installed_cosmos_version, installed_version, latest_of,
    latest_release, latest_release_url, release_of, release_url, tags_request, tags_request_of, tags_view,
    CosmosRelease, CosmosReleaseView, GhRelease, GhReleaseView, Release, ReleaseView, TagsRequest,
    TagsRequestView,
};
use crate::version::{comes_after, core_of, is_newer};
use vstd::prelude::*;

verus! {

broadcast use group_views;

/// An answer to a question of an update check.
#[derive(Debug)]
pub enum Answer {
    /// What GitHub says of the latest release of this application.
    Release(Result<GhRelease, ErrorChain>),
    /// The environment file of the installed COSMOS, where it could be read.
    Env(Option<EnvFile>),
    /// The tags of the COSMOS repository.
    Tags(Result<Vec<String>, ErrorChain>),
}

/// Model of an [`Answer`].
pub enum AnswerView {
    Release(Result<GhReleaseView, Seq<Seq<char>>>),
    Env(Option<Map<Seq<char>, Seq<char>>>),
    Tags(Result<Seq<Seq<char>>, Seq<Seq<char>>>),
}

impl View for Answer {
    type V = AnswerView;

    open spec fn view(&self) -> AnswerView {
        match self {
            Answer::Release(reply) => AnswerView::Release(view_result(*reply)),
            Answer::Env(env) => AnswerView::Env(view_option(*env)),
            Answer::Tags(tags) => AnswerView::Tags(tags_view(*tags)),
        }
    }
}

/// A check for a newer COSMOS.
#[derive(Debug)]
pub enum CosmosCheck {
    /// Which variables does the environment file of the installed COSMOS set?
    ReadEnv { enterprise: bool, token: String },
    /// Which tags does the repository hold?
    FetchTags { installed: String, request: TagsRequest },
    /// The newer COSMOS, where there is one.
    Finished(Option<CosmosRelease>),
    /// It is not known whether there is a newer COSMOS, for the given error.
    Failed(ErrorChain),
}

/// Model of a [`CosmosCheck`].
pub enum CosmosCheckView {
    ReadEnv { enterprise: bool, token: Seq<char> },
    FetchTags { installed: Seq<char>, request: TagsRequestView },
    Finished(Option<CosmosReleaseView>),
    Failed(Seq<Seq<char>>),
}

impl View for CosmosCheck {
    type V = CosmosCheckView;

    open spec fn view(&self) -> CosmosCheckView {
        match self {
            CosmosCheck::ReadEnv { enterprise, token } => CosmosCheckView::ReadEnv {
                enterprise: *enterprise,
                token: token@,
            },
            CosmosCheck::FetchTags { installed, request } => CosmosCheckView::FetchTags {
                installed: installed@,
                request: request@,
            },
            CosmosCheck::Finished(release) => CosmosCheckView::Finished(view_option(*release)),
            CosmosCheck::Failed(error) => CosmosCheckView::Failed(error@),
        }
    }
}

/// A check that knows the latest release and the installed version, or that could not
/// learn the latest release.
pub open spec fn compared(
    latest: Result<CosmosReleaseView, Seq<Seq<char>>>,
    installed: Seq<char>,
) -> CosmosCheckView {
    match latest {
        Ok(release) => CosmosCheckView::Finished(
            if comes_after(core_of(release.version), core_of(installed)) {
                Some(release)
            } else {
                None
            },
        ),
        Err(error) => CosmosCheckView::Failed(error),
    }
}

/// A check for a newer COSMOS after an answer. Where COSMOS is not installed there is
/// none. An answer to another question changes nothing.
pub open spec fn cosmos_answered(check: CosmosCheckView, answer: AnswerView) -> CosmosCheckView {
    match (check, answer) {
        (CosmosCheckView::ReadEnv { enterprise, token }, AnswerView::Env(env)) => match (
            installed_version(env),
            tags_request_of(enterprise, token),
        ) {
            (None, _) => CosmosCheckView::Finished(None),
            (Some(installed), Ok(request)) => CosmosCheckView::FetchTags { installed, request },
            (Some(_), Err(error)) => CosmosCheckView::Failed(error),
        },
        (CosmosCheckView::FetchTags { installed, request }, AnswerView::Tags(tags)) => compared(
            latest_of(tags),
            installed,
        ),
        _ => check,
    }
}

/// The newer COSMOS that a check has found. A check that failed, or that has not ended,
/// has found none.
pub open spec fn found_by(check: CosmosCheckView) -> Option<CosmosReleaseView> {
    match check {
        CosmosCheckView::Finished(found) => found,
        _ => None,
    }
}

/// The first question of a check for a newer COSMOS.
pub open spec fn first_cosmos_question(enterprise: bool, token: Seq<char>) -> CosmosCheckView {
    CosmosCheckView::ReadEnv { enterprise, token }
}

/// Starts to look for a COSMOS release that is newer than the installed one.
pub fn cosmos_check(enterprise: bool, token: String) -> (check: CosmosCheck)
    ensures
        check@ == first_cosmos_question(enterprise, token@),
{
    CosmosCheck::ReadEnv { enterprise, token }
}

impl CosmosCheck {
    /// Takes in an answer.
    pub fn resume(self, answer: Answer) -> (check: CosmosCheck)
        ensures
            check@ == cosmos_answered(self@, answer@),
    {
        match (self, answer) {
            (CosmosCheck::ReadEnv { enterprise, token }, Answer::Env(env)) => {
                let installed = installed_cosmos_version(&env);
                match installed {
                    Some(installed) => match tags_request(enterprise, token.as_str()) {
                        Ok(request) => CosmosCheck::FetchTags { installed, request },
                        Err(error) => CosmosCheck::Failed(error),
                    },
                    None => CosmosCheck::Finished(None),
                }
            },
            (CosmosCheck::FetchTags { installed, request }, Answer::Tags(tags)) => {
                match cosmos_latest(tags) {
                    Ok(release) => if is_newer(release.version.as_str(), installed.as_str()) {
                        CosmosCheck::Finished(Some(release))
                    } else {
                        CosmosCheck::Finished(None)
                    },
                    Err(error) => CosmosCheck::Failed(error),
                }
            },
            (check, _) => check,
        }
    }

    /// The newer COSMOS that the check has found, for those who need not know why there
    /// is none.
    pub fn found(self) -> (release: Option<CosmosRelease>)
        ensures
            view_option(release) == found_by(self@),
    {
        match self {
            CosmosCheck::Finished(found) => found,
            _ => None,
        }
    }
}

/// What a check that the user asked for has found.
#[derive(Debug)]
pub enum CheckOutcome {
    /// A newer version of this application is available.
    AppUpdate(Release),
    /// A newer version of COSMOS is available.
    CosmosUpdate(CosmosRelease),
    /// Everything is up to date.
    UpToDate,
    /// The check failed, for the given reason: the machine is offline, the server has had
    /// enough requests, and the like.
    Failed(String),
}

/// Model of a [`CheckOutcome`].
pub enum CheckOutcomeView {
    AppUpdate(ReleaseView),
    CosmosUpdate(CosmosReleaseView),
    UpToDate,
    Failed(Seq<char>),
}

impl View for CheckOutcome {
    type V = CheckOutcomeView;

    open spec fn view(&self) -> CheckOutcomeView {
        match self {
            CheckOutcome::AppUpdate(release) => CheckOutcomeView::AppUpdate(release@),
            CheckOutcome::CosmosUpdate(release) => CheckOutcomeView::CosmosUpdate(release@),
            CheckOutcome::UpToDate => CheckOutcomeView::UpToDate,
            CheckOutcome::Failed(reason) => CheckOutcomeView::Failed(reason@),
        }
    }
}

/// A check that the user asked for: of this application first, then of COSMOS.
#[derive(Debug)]
pub enum Check {
    /// What does GitHub say of the latest release of this application?
    FetchRelease { url: String, current: String, enterprise: bool, token: String },
    /// Is there a newer COSMOS?
    Cosmos(CosmosCheck),
    /// The check is over.
    Finished(CheckOutcome),
}

/// Model of a [`Check`].
pub enum CheckView {
    FetchRelease { url: Seq<char>, current: Seq<char>, enterprise: bool, token: Seq<char> },
    Cosmos(CosmosCheckView),
    Finished(CheckOutcomeView),
}

impl View for Check {
    type V = CheckView;

    open spec fn view(&self) -> CheckView {
        match self {
            Check::FetchRelease { url, current, enterprise, token } => CheckView::FetchRelease {
                url: url@,
                current: current@,
                enterprise: *enterprise,
                token: token@,
            },
            Check::Cosmos(check) => CheckView::Cosmos(check@),
            Check::Finished(outcome) => CheckView::Finished(outcome@),
        }
    }
}

/// A check whose part for COSMOS has come to `check`.
pub open spec fn with_cosmos(check: CosmosCheckView) -> CheckView {
    match check {
        CosmosCheckView::Finished(Some(release)) => CheckView::Finished(
            CheckOutcomeView::CosmosUpdate(release),
        ),
        CosmosCheckView::Finished(None) => CheckView::Finished(CheckOutcomeView::UpToDate),
        CosmosCheckView::Failed(error) => CheckView::Finished(
            CheckOutcomeView::Failed(joined(error, ": "@)),
        ),
        _ => CheckView::Cosmos(check),
    }
}

/// A check after an answer. An answer to another question changes nothing.
pub open spec fn answered(check: CheckView, answer: AnswerView) -> CheckView {
    match (check, answer) {
        (
            CheckView::FetchRelease { url, current, enterprise, token },
            AnswerView::Release(reply),
        ) => match release_of(reply) {
            Ok(release) => if comes_after(core_of(release.version), core_of(current)) {
                CheckView::Finished(CheckOutcomeView::AppUpdate(release))
            } else {
                CheckView::Cosmos(CosmosCheckView::ReadEnv { enterprise, token })
            },
            Err(error) => CheckView::Finished(CheckOutcomeView::Failed(joined(error, ": "@))),
        },
        (CheckView::Cosmos(cosmos), _) => with_cosmos(cosmos_answered(cosmos, answer)),
        _ => check,
    }
}

/// Starts to look for a newer version of this application, then of COSMOS. `named`
/// is the repository that the environment names, `current` the version that runs.
pub fn check_now(named: Option<String>, current: String, enterprise: bool, token: String) -> (check:
    Check)
    ensures
        check@ == first_question(view_option(named), current@, enterprise, token@),
{
    Check::FetchRelease { url: latest_release_url(named), current, enterprise, token }
}

impl Check {
    /// Takes in an answer.
    pub fn resume(self, answer: Answer) -> (check: Check)
        ensures
            check@ == answered(self@, answer@),
    {
        match self {
            Check::FetchRelease { url, current, enterprise, token } => match answer {
                Answer::Release(reply) => match latest_release(reply) {
                    Ok(release) => if is_newer(release.version.as_str(), current.as_str()) {
                        Check::Finished(CheckOutcome::AppUpdate(release))
                    } else {
                        Check::Cosmos(cosmos_check(enterprise, token))
                    },
                    Err(error) => Check::Finished(CheckOutcome::Failed(error.in_full())),
                },
                _ => Check::FetchRelease { url, current, enterprise, token },
            },
            Check::Cosmos(cosmos) => match cosmos.resume(answer) {
                CosmosCheck::Finished(Some(release)) => Check::Finished(
                    CheckOutcome::CosmosUpdate(release),
                ),
                CosmosCheck::Finished(None) => Check::Finished(CheckOutcome::UpToDate),
                CosmosCheck::Failed(error) => Check::Finished(
                    CheckOutcome::Failed(error.in_full()),
                ),
                next => Check::Cosmos(next),
            },
            Check::Finished(outcome) => Check::Finished(outcome),
        }
    }
}

/// A periodic check for a newer COSMOS is due.
pub open spec fn is_due(dev_mode: bool, installed: bool) -> bool {
    !dev_mode && installed
}

/// Tells whether a periodic check for a newer COSMOS is due: not in development
/// mode, and only where COSMOS is installed.
pub fn cosmos_check_due(dev_mode: bool, installed: bool) -> (due: bool)
    ensures
        due == is_due(dev_mode, installed),
{
    !dev_mode && installed
}

/// What is left in a slot that held `slot` once a check has found `found`.
pub open spec fn left_in_slot<T>(slot: Option<T>, found: Option<T>) -> Option<T> {
    if found is Some {
        found
    } else {
        slot
    }
}

/// What a finished periodic check leaves in the slot that the user interface reads:
/// a check that found nothing leaves what was there.
pub fn published<T>(slot: Option<T>, found: Option<T>) -> (left: Option<T>)
    ensures
        left == left_in_slot(slot, found),
{
    match found {
        Some(release) => Some(release),
        None => slot,
    }
}

/// A check after a row of answers.
pub open spec fn run_check(check: CheckView, answers: Seq<AnswerView>) -> CheckView
    decreases answers.len(),
{
    if answers.len() == 0 {
        check
    } else {
        answered(run_check(check, answers.drop_last()), answers.last())
    }
}

/// The first question of a check.
pub open spec fn first_question(
    named: Option<Seq<char>>,
    current: Seq<char>,
    enterprise: bool,
    token: Seq<char>,
) -> CheckView {
    CheckView::FetchRelease { url: release_url(named), current, enterprise, token }
}

/// One of the answers tells which release of this application is the latest.
pub open spec fn told_release(answers: Seq<AnswerView>, release: ReleaseView) -> bool {
    exists|i: int|
        0 <= i < answers.len() && #[trigger] answers[i] is Release && release_of(
            answers[i]->Release_0,
        ) == Ok::<ReleaseView, Seq<Seq<char>>>(release)
}

/// One of the answers tells which COSMOS is installed, or that none is.
pub open spec fn told_installed(answers: Seq<AnswerView>, version: Option<Seq<char>>) -> bool {
    exists|i: int|
        0 <= i < answers.len() && #[trigger] answers[i] is Env && installed_version(
            answers[i]->Env_0,
        ) == version
}

/// One of the answers tells which COSMOS is the latest.
pub open spec fn told_latest(answers: Seq<AnswerView>, release: CosmosReleaseView) -> bool {
    exists|i: int|
        0 <= i < answers.len() && #[trigger] answers[i] is Tags && latest_of(answers[i]->Tags_0)
            == Ok::<CosmosReleaseView, Seq<Seq<char>>>(release)
}

/// What was told stays told.
proof fn told_still(answers: Seq<AnswerView>)
    requires
        answers.len() > 0,
    ensures
        forall|release: ReleaseView|
            told_release(answers.drop_last(), release) ==> #[trigger] told_release(
                answers,
                release,
            ),
        forall|version: Option<Seq<char>>|
            told_installed(answers.drop_last(), version) ==> #[trigger] told_installed(
                answers,
                version,
            ),
        forall|release: CosmosReleaseView|
            told_latest(answers.drop_last(), release) ==> #[trigger] told_latest(answers, release),
{
    let front = answers.drop_last();
    assert(forall|i: int| 0 <= i < front.len() ==> #[trigger] front[i] == answers[i]);
    assert forall|release: ReleaseView| told_release(front, release) implies #[trigger] told_release(
        answers,
        release,
    ) by {
        let i = choose|i: int|
            0 <= i < front.len() && #[trigger] front[i] is Release && release_of(
                front[i]->Release_0,
            ) == Ok::<ReleaseView, Seq<Seq<char>>>(release);
        assert(answers[i] is Release);
    }
    assert forall|version: Option<Seq<char>>| told_installed(
        front,
        version,
    ) implies #[trigger] told_installed(answers, version) by {
        let i = choose|i: int|
            0 <= i < front.len() && #[trigger] front[i] is Env && installed_version(front[i]->Env_0)
                == version;
        assert(answers[i] is Env);
    }
    assert forall|release: CosmosReleaseView| told_latest(
        front,
        release,
    ) implies #[trigger] told_latest(answers, release) by {
        let i = choose|i: int|
            0 <= i < front.len() && #[trigger] front[i] is Tags && latest_of(front[i]->Tags_0)
                == Ok::<CosmosReleaseView, Seq<Seq<char>>>(release);
        assert(answers[i] is Tags);
    }
}

/// The answers have shown that this application is not out of date.
pub open spec fn application_is_current(answers: Seq<AnswerView>, current: Seq<char>) -> bool {
    exists|release: ReleaseView| #[trigger]
        told_release(answers, release) && !comes_after(core_of(release.version), core_of(current))
}

/// The answers have shown that COSMOS is not out of date: it is not installed, or its
/// latest release is not newer than what is installed.
pub open spec fn cosmos_is_current(answers: Seq<AnswerView>) -> bool {
    ||| told_installed(answers, None)
    ||| exists|installed: Seq<char>, release: CosmosReleaseView|
        #![trigger told_installed(answers, Some(installed)), told_latest(answers, release)]
        told_installed(answers, Some(installed)) && told_latest(answers, release) && !comes_after(
            core_of(release.version),
            core_of(installed),
        )
}

/// The answers have shown that `release` is newer than the installed COSMOS.
pub open spec fn cosmos_is_behind(answers: Seq<AnswerView>, release: CosmosReleaseView) -> bool {
    exists|installed: Seq<char>| #[trigger]
        told_installed(answers, Some(installed)) && told_latest(answers, release) && comes_after(
            core_of(release.version),
            core_of(installed),
        )
}

/// The answers bear out where a check has come to.
pub open spec fn borne_out(
    check: CheckView,
    named: Option<Seq<char>>,
    current: Seq<char>,
    enterprise: bool,
    token: Seq<char>,
    answers: Seq<AnswerView>,
) -> bool {
    match check {
        CheckView::FetchRelease { .. } => check == first_question(
            named,
            current,
            enterprise,
            token,
        ),
        CheckView::Cosmos(CosmosCheckView::ReadEnv { .. }) => application_is_current(
            answers,
            current,
        ),
        CheckView::Cosmos(CosmosCheckView::FetchTags { installed, .. }) => application_is_current(
            answers,
            current,
        ) && told_installed(answers, Some(installed)),
        CheckView::Cosmos(_) => false,
        CheckView::Finished(CheckOutcomeView::AppUpdate(release)) => told_release(answers, release)
            && comes_after(core_of(release.version), core_of(current)),
        CheckView::Finished(CheckOutcomeView::CosmosUpdate(release)) => application_is_current(
            answers,
            current,
        ) && cosmos_is_behind(answers, release),
        CheckView::Finished(CheckOutcomeView::UpToDate) => application_is_current(answers, current)
            && cosmos_is_current(answers),
        CheckView::Finished(CheckOutcomeView::Failed(_)) => true,
    }
}

/// A check reports only what the answers have shown: an update of this application is
/// newer than the version that runs, an update of COSMOS is newer than what is installed,
/// and everything is reported to be up to date only where this application is and COSMOS
/// is too, or is not installed. So a check that could not learn one of these does not
/// report that all is up to date.
pub proof fn reports_are_borne_out(
    named: Option<Seq<char>>,
    current: Seq<char>,
    enterprise: bool,
    token: Seq<char>,
    answers: Seq<AnswerView>,
)
    ensures
        borne_out(
            run_check(first_question(named, current, enterprise, token), answers),
            named,
            current,
            enterprise,
            token,
            answers,
        ),
    decreases answers.len(),
{
    if answers.len() > 0 {
        let front = answers.drop_last();
        let last = answers.last();
        reports_are_borne_out(named, current, enterprise, token, front);
        told_still(answers);
        assert(answers[answers.len() - 1] == last);
        let was = run_check(first_question(named, current, enterprise, token), front);
        if application_is_current(front, current) {
            let release = choose|release: ReleaseView| #[trigger]
                told_release(front, release) && !comes_after(
                    core_of(release.version),
                    core_of(current),
                );
            assert(told_release(answers, release));
            assert(application_is_current(answers, current));
        }
        match was {
            CheckView::FetchRelease { .. } => {
                if last is Release && release_of(last->Release_0) is Ok {
                    assert(told_release(answers, release_of(last->Release_0)->Ok_0));
                }
            },
            CheckView::Cosmos(CosmosCheckView::ReadEnv { .. }) => {
                if last is Env {
                    assert(told_installed(answers, installed_version(last->Env_0)));
                }
            },
            CheckView::Cosmos(CosmosCheckView::FetchTags { installed, .. }) => {
                assert(told_installed(answers, Some(installed)));
                if last is Tags && latest_of(last->Tags_0) is Ok {
                    assert(told_latest(answers, latest_of(last->Tags_0)->Ok_0));
                }
            },
            CheckView::Finished(CheckOutcomeView::CosmosUpdate(release)) => {
                let installed = choose|installed: Seq<char>| #[trigger]
                    told_installed(front, Some(installed)) && told_latest(front, release)
                        && comes_after(core_of(release.version), core_of(installed));
                assert(told_installed(answers, Some(installed)));
            },
            CheckView::Finished(CheckOutcomeView::UpToDate) => {
                if !told_installed(front, None) {
                    let (installed, release) = choose|
                        installed: Seq<char>,
                        release: CosmosReleaseView,
                    |
                        #![trigger told_installed(front, Some(installed)), told_latest(front, release)]
                        told_installed(front, Some(installed)) && told_latest(front, release)
                            && !comes_after(core_of(release.version), core_of(installed));
                    assert(told_installed(answers, Some(installed)));
                    assert(told_latest(answers, release));
                }
            },
            _ => {},
        }
    }
}

/// A check that could not learn the latest COSMOS says that it failed, and why.
pub proof fn failed_cosmos_check_is_reported(
    installed: Seq<char>,
    request: TagsRequestView,
    tags: Result<Seq<Seq<char>>, Seq<Seq<char>>>,
)
    requires
        latest_of(tags) is Err,
    ensures
        answered(
            CheckView::Cosmos(CosmosCheckView::FetchTags { installed, request }),
            AnswerView::Tags(tags),
        ) == CheckView::Finished(
            CheckOutcomeView::Failed(joined(latest_of(tags)->Err_0, ": "@)),
        ),
{
}

/// `answer` answers the question that is open.
pub open spec fn answers_it(check: CheckView, answer: AnswerView) -> bool {
    match check {
        CheckView::FetchRelease { .. } => answer is Release,
        CheckView::Cosmos(CosmosCheckView::ReadEnv { .. }) => answer is Env,
        CheckView::Cosmos(CosmosCheckView::FetchTags { .. }) => answer is Tags,
        _ => false,
    }
}

/// How many questions can still be asked.
pub open spec fn questions_left(check: CheckView) -> nat {
    match check {
        CheckView::FetchRelease { .. } => 3,
        CheckView::Cosmos(CosmosCheckView::ReadEnv { .. }) => 2,
        CheckView::Cosmos(CosmosCheckView::FetchTags { .. }) => 1,
        _ => 0,
    }
}

/// A check comes to its end: each answer to an open question leaves fewer
/// questions, any other answer changes nothing, and a finished check asks nothing.
pub proof fn checks_come_to_an_end(check: CheckView, answer: AnswerView)
    requires
        check is Cosmos ==> !(check->Cosmos_0 is Finished || check->Cosmos_0 is Failed),
    ensures
        answers_it(check, answer) ==> questions_left(answered(check, answer)) < questions_left(
            check,
        ),
        !answers_it(check, answer) ==> answered(check, answer) == check,
        questions_left(check) == 0 <==> check is Finished,
{
}

} // verus!
