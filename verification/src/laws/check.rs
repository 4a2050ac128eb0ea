//! What the update checks find.
use crate::check::{
    answered, cosmos_answered, first_cosmos_question, first_question, found_by, is_due,
    left_in_slot, run_check, AnswerView, CheckOutcomeView, CheckView, CosmosCheckView,
};
use crate::text::{joined, trimmed};
use crate::update::{
    installed_version, latest_of, release_of, GhReleaseView, ReleaseView, TagsRequestView,
};
use crate::version::{comes_after, core_of, stripped};
use vstd::prelude::*;

verus! {

/// The request is the one for the tags of an edition: those of Enterprise are asked for
/// with the token that was given, which is not blank, and those of Core with none.
pub open spec fn asks_for_edition(
    request: TagsRequestView,
    enterprise: bool,
    token: Seq<char>,
) -> bool {
    if enterprise {
        &&& request.url
            == "https://repos.openc3.com/api/v1/repos/OpenC3/cosmos-enterprise-project/tags"@
        &&& request.token == Some(token)
        &&& trimmed(token).len() > 0
    } else {
        &&& request.url == "https://api.github.com/repos/OpenC3/cosmos-project/tags"@
        &&& request.token is None
    }
}

/// Where a check for a newer COSMOS stands to the edition and the token that it was
/// started with.
pub open spec fn keeps_edition(check: CosmosCheckView, enterprise: bool, token: Seq<char>) -> bool {
    match check {
        CosmosCheckView::ReadEnv { enterprise: edition, token: given } => edition == enterprise
            && given == token,
        CosmosCheckView::FetchTags { request, .. } => asks_for_edition(request, enterprise, token),
        _ => true,
    }
}

/// Every question of a check is about the edition, and made with the token, that the check
/// was started with, whatever was answered before.
pub proof fn edition_and_token_are_kept(
    named: Option<Seq<char>>,
    current: Seq<char>,
    enterprise: bool,
    token: Seq<char>,
    answers: Seq<AnswerView>,
)
    ensures
        match run_check(first_question(named, current, enterprise, token), answers) {
            CheckView::FetchRelease {
                url,
                current: running,
                enterprise: edition,
                token: given,
            } => running == current && edition == enterprise && given == token,
            CheckView::Cosmos(check) => keeps_edition(check, enterprise, token),
            CheckView::Finished(_) => true,
        },
    decreases answers.len(),
{
    if answers.len() > 0 {
        edition_and_token_are_kept(named, current, enterprise, token, answers.drop_last());
    }
}

/// A check for a newer COSMOS keeps its edition and its token too.
pub proof fn cosmos_check_keeps_its_edition(
    check: CosmosCheckView,
    enterprise: bool,
    token: Seq<char>,
    answer: AnswerView,
)
    requires
        keeps_edition(check, enterprise, token),
    ensures
        keeps_edition(first_cosmos_question(enterprise, token), enterprise, token),
        first_cosmos_question(enterprise, token) is ReadEnv,
        keeps_edition(cosmos_answered(check, answer), enterprise, token),
{
}

/// The first question of a check goes to the repository that the environment names, or to
/// that of the project where it names none.
pub proof fn check_asks_the_named_repository(
    named: Option<Seq<char>>,
    current: Seq<char>,
    enterprise: bool,
    token: Seq<char>,
)
    ensures
        ({
            let blank = named is None || trimmed(named->0).len() == 0;
            let repository = if blank {
                "OpenC3/openc3-cosmos-app"@
            } else {
                named->0
            };
            first_question(named, current, enterprise, token) == (CheckView::FetchRelease {
                url: "https://api.github.com/repos/"@ + repository + "/releases/latest"@,
                current,
                enterprise,
                token,
            })
        }),
{
}

/// The Enterprise tags can be asked for.
pub open spec fn has_access(enterprise: bool, token: Seq<char>) -> bool {
    enterprise ==> trimmed(token).len() > 0
}

/// What a check comes to, by what is answered: a release of this application whose
/// version is newer than the one that runs is reported at once; else COSMOS is looked at,
/// and the latest of its tags is reported where it is newer than what is installed. What
/// cannot be learnt on the way is reported as a failure, and only that.
pub proof fn check_finds_what_is_newer(
    named: Option<Seq<char>>,
    current: Seq<char>,
    enterprise: bool,
    token: Seq<char>,
    reply: Result<GhReleaseView, Seq<Seq<char>>>,
    env: Option<Map<Seq<char>, Seq<char>>>,
    tags: Result<Seq<Seq<char>>, Seq<Seq<char>>>,
)
    ensures
        ({
            let start = first_question(named, current, enterprise, token);
            let one = answered(start, AnswerView::Release(reply));
            let two = answered(one, AnswerView::Env(env));
            let three = answered(two, AnswerView::Tags(tags));
            let release = release_of(reply);
            let installed = installed_version(env);
            let latest = latest_of(tags);
            if release is Err {
                one == CheckView::Finished(CheckOutcomeView::Failed(joined(release->Err_0, ": "@)))
            } else if comes_after(core_of(release->Ok_0.version), core_of(current)) {
                one == CheckView::Finished(CheckOutcomeView::AppUpdate(release->Ok_0))
            } else if installed is None {
                two == CheckView::Finished(CheckOutcomeView::UpToDate)
            } else if !has_access(enterprise, token) {
                two == CheckView::Finished(
                    CheckOutcomeView::Failed(
                        joined(
                            seq![
                                "COSMOS Enterprise update check needs a repos.openc3.com access token"@,
                            ],
                            ": "@,
                        ),
                    ),
                )
            } else if latest is Err {
                three == CheckView::Finished(CheckOutcomeView::Failed(joined(latest->Err_0, ": "@)))
            } else if comes_after(core_of(latest->Ok_0.version), core_of(installed->0)) {
                three == CheckView::Finished(CheckOutcomeView::CosmosUpdate(latest->Ok_0))
            } else {
                three == CheckView::Finished(CheckOutcomeView::UpToDate)
            }
        }),
{
}

/// A check for a newer COSMOS alone finds the latest of the tags where it is newer than
/// what is installed, and nothing else.
pub proof fn cosmos_check_finds_what_is_newer(
    enterprise: bool,
    token: Seq<char>,
    env: Option<Map<Seq<char>, Seq<char>>>,
    tags: Result<Seq<Seq<char>>, Seq<Seq<char>>>,
)
    ensures
        ({
            let start = first_cosmos_question(enterprise, token);
            let one = cosmos_answered(start, AnswerView::Env(env));
            let two = cosmos_answered(one, AnswerView::Tags(tags));
            let installed = installed_version(env);
            let latest = latest_of(tags);
            let newer = installed is Some && has_access(enterprise, token) && latest is Ok
                && comes_after(core_of(latest->Ok_0.version), core_of(installed->0));
            &&& found_by(start) is None && found_by(one) is None
            &&& newer ==> found_by(two) == Some(latest->Ok_0)
            &&& !newer ==> found_by(two) is None
        }),
{
}

/// The periodic check is made exactly where COSMOS is installed and not in development
/// mode; what it finds replaces what was found before, and finding nothing replaces
/// nothing.
pub proof fn periodic_check_publishes_what_it_finds<T>(
    dev_mode: bool,
    installed: bool,
    slot: Option<T>,
    found: T,
)
    ensures
        is_due(dev_mode, installed) <==> installed && !dev_mode,
        left_in_slot(slot, Some(found)) == Some(found),
        left_in_slot(slot, None) == slot,
{
}

/// A release is what GitHub describes: its version is that of the tag, and its page and
/// its installers are those of the description; a tag that names no version, and no other,
/// is refused.
pub proof fn release_is_what_is_described(gh: GhReleaseView)
    ensures
        stripped(gh.tag_name).len() > 0 ==> release_of(Ok(gh))
            == Ok::<ReleaseView, Seq<Seq<char>>>(
            ReleaseView {
                version: stripped(gh.tag_name),
                url: gh.html_url,
                assets: gh.assets,
            },
        ),
        stripped(gh.tag_name).len() == 0 ==> release_of(Ok(gh))
            == Err::<ReleaseView, Seq<Seq<char>>>(
            seq!["release '"@ + gh.tag_name + "' has no usable version"@],
        ),
        forall|error: Seq<Seq<char>>|
            #[trigger] release_of(Err(error)) == Err::<ReleaseView, Seq<Seq<char>>>(error),
{
}

/// The installed version is that of `OPENC3_TAG` in the environment file, where it names
/// one.
pub proof fn installed_version_is_that_of_the_file(env: Map<Seq<char>, Seq<char>>, tag: Seq<char>)
    ensures
        stripped(tag).len() > 0 ==> installed_version(Some(env.insert("OPENC3_TAG"@, tag)))
            == Some(stripped(tag)),
        stripped(tag).len() == 0 ==> installed_version(Some(env.insert("OPENC3_TAG"@, tag))) is None,
        installed_version(Some(env.remove("OPENC3_TAG"@))) is None,
        installed_version(None) is None,
{
}

} // verus!
