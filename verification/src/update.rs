//! Update checks: for a newer release of this application and of COSMOS.
use crate::context::{plain_invocation, EnvFile, Invocation, InvocationView, Output, OutputView, Word};
use crate::error::ErrorChain;
use crate::model::{group_views, view_option, view_result, views};
use crate::text::{concat3, trim, trimmed};
use crate::precedence::{order_versions, version_order, versions_are_ordered, Order};
use crate::version::{strip_tag, stripped};
use vstd::prelude::*;

verus! {

broadcast use group_views;

/// The repository that releases of this application are looked for in.
pub const DEFAULT_REPO: &'static str = "OpenC3/openc3-cosmos-app";

/// How many seconds pass between two periodic checks.
pub const CHECK_INTERVAL: u64 = 8 * 60 * 60;

/// Where the tags of COSMOS Core are listed.
pub const COSMOS_TAGS_API: &'static str = "https://api.github.com/repos/OpenC3/cosmos-project/tags";

/// Where the tags of COSMOS Enterprise are listed.
pub const COSMOS_ENT_TAGS_API: &'static str =
    "https://repos.openc3.com/api/v1/repos/OpenC3/cosmos-enterprise-project/tags";

/// An installer that is attached to a release.
#[derive(Clone, Debug)]
pub struct Asset {
    pub name: String,
    pub url: String,
}

/// Model of an [`Asset`].
pub struct AssetView {
    pub name: Seq<char>,
    pub url: Seq<char>,
}

impl View for Asset {
    type V = AssetView;

    open spec fn view(&self) -> AssetView {
        AssetView { name: self.name@, url: self.url@ }
    }
}

/// A published release.
#[derive(Clone, Debug)]
pub struct Release {
    /// The version, without the prefix of the tag.
    pub version: String,
    /// The page of the release.
    pub url: String,
    pub assets: Vec<Asset>,
}

/// Model of a [`Release`].
pub struct ReleaseView {
    pub version: Seq<char>,
    pub url: Seq<char>,
    pub assets: Seq<AssetView>,
}

impl View for Release {
    type V = ReleaseView;

    open spec fn view(&self) -> ReleaseView {
        ReleaseView { version: self.version@, url: self.url@, assets: views(self.assets@) }
    }
}

/// A release as GitHub describes it.
#[derive(Debug)]
pub struct GhRelease {
    pub tag_name: String,
    pub html_url: String,
    pub assets: Vec<Asset>,
}

/// Model of a [`GhRelease`].
pub struct GhReleaseView {
    pub tag_name: Seq<char>,
    pub html_url: Seq<char>,
    pub assets: Seq<AssetView>,
}

impl View for GhRelease {
    type V = GhReleaseView;

    open spec fn view(&self) -> GhReleaseView {
        GhReleaseView {
            tag_name: self.tag_name@,
            html_url: self.html_url@,
            assets: views(self.assets@),
        }
    }
}

/// A release of COSMOS.
#[derive(Clone, Debug)]
pub struct CosmosRelease {
    /// The tag to download.
    pub tag: String,
    /// The version that the tag names.
    pub version: String,
}

/// Model of a [`CosmosRelease`].
pub struct CosmosReleaseView {
    pub tag: Seq<char>,
    pub version: Seq<char>,
}

impl View for CosmosRelease {
    type V = CosmosReleaseView;

    open spec fn view(&self) -> CosmosReleaseView {
        CosmosReleaseView { tag: self.tag@, version: self.version@ }
    }
}

/// The repository to look in: the one that the environment names, unless it is blank.
pub open spec fn repo_of(named: Option<Seq<char>>) -> Seq<char> {
    match named {
        Some(name) => if trimmed(name).len() == 0 {
            DEFAULT_REPO@
        } else {
            name
        },
        None => DEFAULT_REPO@,
    }
}

/// Picks the repository to look in.
pub fn repo(named: Option<String>) -> (name: String)
    ensures
        name@ == repo_of(view_option(named)),
{
    match named {
        Some(name) => if trim(name.as_str()).as_str().is_empty() {
            DEFAULT_REPO.to_owned()
        } else {
            name
        },
        None => DEFAULT_REPO.to_owned(),
    }
}

/// Where the latest release of a repository is described.
pub open spec fn release_url(named: Option<Seq<char>>) -> Seq<char> {
    "https://api.github.com/repos/"@ + repo_of(named) + "/releases/latest"@
}

/// Says where the latest release is described. `named` is the repository that the
/// environment names.
pub fn latest_release_url(named: Option<String>) -> (url: String)
    ensures
        url@ == release_url(view_option(named)),
{
    let repository = repo(named);
    concat3("https://api.github.com/repos/", repository.as_str(), "/releases/latest")
}

/// The command line that gets a web page.
pub open spec fn fetch_invocation(url: Seq<char>) -> InvocationView {
    plain_invocation(
        "curl"@,
        seq![
            "-fsSL"@,
            "--max-time"@,
            "20"@,
            "-H"@,
            "Accept: application/vnd.github+json"@,
            "-H"@,
            "User-Agent: openc3-cosmos-app"@,
            url,
        ],
    )
}

/// Gets a web page. GitHub serves no request without a user agent.
pub fn fetch(url: &str) -> (invocation: Invocation)
    ensures
        invocation@ == fetch_invocation(url@),
{
    let mut words: Vec<Word> = Vec::new();
    words.push(Word::Text("-fsSL".to_owned()));
    words.push(Word::Text("--max-time".to_owned()));
    words.push(Word::Text("20".to_owned()));
    words.push(Word::Text("-H".to_owned()));
    words.push(Word::Text("Accept: application/vnd.github+json".to_owned()));
    words.push(Word::Text("-H".to_owned()));
    words.push(Word::Text("User-Agent: openc3-cosmos-app".to_owned()));
    words.push(Word::Text(url.to_owned()));
    let invocation = Invocation {
        program: Word::Text("curl".to_owned()),
        args: words,
        dir: None,
    };
    assert(invocation@.args == fetch_invocation(url@).args);
    invocation
}

/// The page that a command got, unless it failed.
pub open spec fn page_of(output: OutputView) -> Result<Seq<u8>, Seq<Seq<char>>> {
    if output.success {
        Ok(output.stdout)
    } else {
        Err(seq!["update check failed ("@ + output.status + ")"@])
    }
}

/// The page that was got, unless the command failed.
pub fn fetched(output: Output) -> (page: Result<Vec<u8>, ErrorChain>)
    ensures
        view_result(page) == page_of(output@),
{
    if output.success {
        Ok(output.stdout)
    } else {
        Err(ErrorChain::new(concat3("update check failed (", output.status.as_str(), ")")))
    }
}

/// The release that GitHub describes, unless its tag names no version.
pub open spec fn release_of(
    reply: Result<GhReleaseView, Seq<Seq<char>>>,
) -> Result<ReleaseView, Seq<Seq<char>>> {
    match reply {
        Ok(gh) => if stripped(gh.tag_name).len() == 0 {
            Err(seq!["release '"@ + gh.tag_name + "' has no usable version"@])
        } else {
            Ok(
                ReleaseView {
                    version: stripped(gh.tag_name),
                    url: gh.html_url,
                    assets: gh.assets,
                },
            )
        },
        Err(error) => Err(error),
    }
}

/// The latest release of this application, from what GitHub answered.
pub fn latest_release(reply: Result<GhRelease, ErrorChain>) -> (release: Result<
    Release,
    ErrorChain,
>)
    ensures
        view_result(release) == release_of(view_result(reply)),
{
    match reply {
        Ok(gh) => {
            let version = strip_tag(gh.tag_name.as_str());
            if version.as_str().is_empty() {
                Err(
                    ErrorChain::new(
                        concat3("release '", gh.tag_name.as_str(), "' has no usable version"),
                    ),
                )
            } else {
                Ok(Release { version, url: gh.html_url, assets: gh.assets })
            }
        },
        Err(error) => Err(error),
    }
}

/// Where the tags of COSMOS are asked for, and the token that goes with it.
#[derive(Debug)]
pub struct TagsRequest {
    pub url: String,
    pub token: Option<String>,
}

/// Model of a [`TagsRequest`].
pub struct TagsRequestView {
    pub url: Seq<char>,
    pub token: Option<Seq<char>>,
}

impl View for TagsRequest {
    type V = TagsRequestView;

    open spec fn view(&self) -> TagsRequestView {
        TagsRequestView { url: self.url@, token: view_option(self.token) }
    }
}

/// Where the tags of an edition are asked for. Enterprise tags need a token.
pub open spec fn tags_request_of(enterprise: bool, token: Seq<char>) -> Result<
    TagsRequestView,
    Seq<Seq<char>>,
> {
    if enterprise {
        if trimmed(token).len() == 0 {
            Err(
                seq![
                    "COSMOS Enterprise update check needs a repos.openc3.com access token"@,
                ],
            )
        } else {
            Ok(TagsRequestView { url: COSMOS_ENT_TAGS_API@, token: Some(token) })
        }
    } else {
        Ok(TagsRequestView { url: COSMOS_TAGS_API@, token: None })
    }
}

/// Picks where the tags of an edition are asked for.
pub fn tags_request(enterprise: bool, token: &str) -> (request: Result<TagsRequest, ErrorChain>)
    ensures
        view_result(request) == tags_request_of(enterprise, token@),
{
    if enterprise {
        if trim(token).as_str().is_empty() {
            Err(
                ErrorChain::new(
                    "COSMOS Enterprise update check needs a repos.openc3.com access token".to_owned(),
                ),
            )
        } else {
            Ok(TagsRequest { url: COSMOS_ENT_TAGS_API.to_owned(), token: Some(token.to_owned()) })
        }
    } else {
        Ok(TagsRequest { url: COSMOS_TAGS_API.to_owned(), token: None })
    }
}

/// Tag `at` names a version, no tag names a later one, and of the tags that stand to it
/// as the same it is the last.
pub open spec fn is_latest(tags: Seq<Seq<char>>, at: int) -> bool {
    &&& 0 <= at < tags.len()
    &&& stripped(tags[at]).len() > 0
    &&& forall|i: int|
        0 <= i < tags.len() && i != at && stripped(#[trigger] tags[i]).len() > 0 ==> yields(
            tags,
            i,
            at,
        )
}

/// Tag `i` does not come after tag `at`, and comes before it if it stands behind it.
pub open spec fn yields(tags: Seq<Seq<char>>, i: int, at: int) -> bool {
    let order = version_order(stripped(tags[i]), stripped(tags[at]));
    if i < at {
        order != Order::After
    } else {
        order == Order::Before
    }
}

/// Of a list of tags at most one is the latest.
pub proof fn latest_is_one(tags: Seq<Seq<char>>, a: int, b: int)
    requires
        is_latest(tags, a),
        is_latest(tags, b),
    ensures
        a == b,
{
    assert(stripped(tags[a]).len() > 0 && stripped(tags[b]).len() > 0);
    versions_are_ordered(stripped(tags[a]), stripped(tags[b]), stripped(tags[a]));
}

/// The latest of the tags so far stays the latest if one more tag names no version or
/// comes before it, and else yields to it.
pub proof fn latest_of_one_more(tags: Seq<Seq<char>>, at: int)
    requires
        tags.len() > 0,
        is_latest(tags.drop_last(), at),
    ensures
        stripped(tags.last()).len() == 0 || version_order(
            stripped(tags.last()),
            stripped(tags[at]),
        ) == Order::Before ==> is_latest(tags, at),
        stripped(tags.last()).len() > 0 && version_order(
            stripped(tags.last()),
            stripped(tags[at]),
        ) != Order::Before ==> is_latest(tags, tags.len() - 1),
{
    let front = tags.drop_last();
    let last = tags.len() - 1;
    let best = stripped(tags[at]);
    let more = stripped(tags[last]);
    assert(front[at] == tags[at]);
    if more.len() == 0 || version_order(more, best) == Order::Before {
        assert forall|i: int|
            0 <= i < tags.len() && i != at && stripped(#[trigger] tags[i]).len() > 0 implies yields(
            tags,
            i,
            at,
        ) by {
            if i < last {
                assert(front[i] == tags[i]);
                assert(yields(front, i, at));
            }
        }
    } else {
        assert forall|i: int|
            0 <= i < tags.len() && i != last && stripped(
                #[trigger] tags[i],
            ).len() > 0 implies yields(tags, i, last) by {
            assert(front[i] == tags[i]);
            versions_are_ordered(more, best, more);
            if i != at {
                assert(yields(front, i, at));
                versions_are_ordered(stripped(tags[i]), best, more);
            }
        }
    }
}

/// The first tag that names a version is the latest up to there.
pub proof fn latest_of_first(tags: Seq<Seq<char>>)
    requires
        tags.len() > 0,
        stripped(tags.last()).len() > 0,
        forall|i: int| 0 <= i < tags.len() - 1 ==> stripped(#[trigger] tags[i]).len() == 0,
    ensures
        is_latest(tags, tags.len() - 1),
{
}

/// A list of tags has a latest one as soon as one of them names a version.
pub proof fn latest_is_there(tags: Seq<Seq<char>>, some: int)
    requires
        0 <= some < tags.len(),
        stripped(tags[some]).len() > 0,
    ensures
        exists|at: int| is_latest(tags, at),
    decreases tags.len(),
{
    let front = tags.drop_last();
    let last = tags.len() - 1;
    if exists|i: int| 0 <= i < last && stripped(#[trigger] tags[i]).len() > 0 {
        let other = choose|i: int| 0 <= i < last && stripped(#[trigger] tags[i]).len() > 0;
        assert(front[other] == tags[other]);
        latest_is_there(front, other);
        let at = choose|at: int| is_latest(front, at);
        latest_of_one_more(tags, at);
    } else {
        latest_of_first(tags);
    }
}

/// The place of the latest tag, where there is one.
pub open spec fn latest_place(tags: Seq<Seq<char>>) -> int {
    choose|at: int| is_latest(tags, at)
}

/// The release that the latest of the tags names.
pub open spec fn latest_of(
    tags: Result<Seq<Seq<char>>, Seq<Seq<char>>>,
) -> Result<CosmosReleaseView, Seq<Seq<char>>> {
    match tags {
        Ok(list) => if exists|at: int| is_latest(list, at) {
            let tag = list[latest_place(list)];
            Ok(CosmosReleaseView { tag, version: stripped(tag) })
        } else {
            Err(seq!["no tags found on the COSMOS project repo"@])
        },
        Err(error) => Err(error),
    }
}

/// The release that a list of tags comes to is that of the latest tag.
pub proof fn latest_of_place(tags: Seq<Seq<char>>, at: int)
    requires
        is_latest(tags, at),
    ensures
        latest_of(Ok(tags)) == Ok::<CosmosReleaseView, Seq<Seq<char>>>(
            CosmosReleaseView { tag: tags[at], version: stripped(tags[at]) },
        ),
{
    assert(exists|place: int| is_latest(tags, place));
    latest_is_one(tags, at, latest_place(tags));
    let all: Result<Seq<Seq<char>>, Seq<Seq<char>>> = Ok(tags);
    assert(all->Ok_0 == tags);
    assert(latest_of(all) is Ok);
    assert(latest_of(all)->Ok_0.tag == tags[at]);
    assert(latest_of(all)->Ok_0.version == stripped(tags[at]));
}

/// What became of asking for the tags.
pub open spec fn tags_view(
    tags: Result<Vec<String>, ErrorChain>,
) -> Result<Seq<Seq<char>>, Seq<Seq<char>>> {
    match tags {
        Ok(list) => Ok(views(list@)),
        Err(error) => Err(error@),
    }
}

/// The latest release of COSMOS, from the tags of its repository: the one with the
/// highest version.
pub fn cosmos_latest(tags: Result<Vec<String>, ErrorChain>) -> (release: Result<
    CosmosRelease,
    ErrorChain,
>)
    ensures
        view_result(release) == latest_of(tags_view(tags)),
{
    let list = match tags {
        Ok(list) => list,
        Err(error) => {
            return Err(error);
        },
    };
    let ghost all = views(list@);
    let mut best: Option<CosmosRelease> = None;
    let ghost mut place: int = 0;
    let mut i: usize = 0;
    while i < list.len()
        invariant
            i <= list@.len(),
            all == views(list@),
            best is Some ==> is_latest(all.take(i as int), place) && best->0@ == (
            CosmosReleaseView { tag: all[place], version: stripped(all[place]) }),
            best is None ==> forall|j: int|
                0 <= j < i ==> stripped(#[trigger] all[j]).len() == 0,
        decreases list@.len() - i,
    {
        let ghost after = all.take(i + 1);
        assert(after.drop_last() == all.take(i as int));
        assert(after.last() == list@[i as int]@);
        let version = strip_tag(list[i].as_str());
        proof {
            if best is Some {
                assert(after[place] == all[place]);
                latest_of_one_more(after, place);
            } else if stripped(after.last()).len() > 0 {
                assert forall|j: int| 0 <= j < i implies stripped(#[trigger] after[j]).len() == 0 by {
                    assert(after[j] == all[j]);
                }
                latest_of_first(after);
            }
        }
        if !version.as_str().is_empty() {
            let better = match &best {
                Some(release) => order_versions(version.as_str(), release.version.as_str())
                    != Order::Before,
                None => true,
            };
            if better {
                proof {
                    place = i as int;
                }
                best = Some(CosmosRelease { tag: list[i].clone(), version });
            }
        }
        i += 1;
    }
    assert(all.take(all.len() as int) == all);
    match best {
        Some(release) => {
            proof {
                latest_of_place(all, place);
            }
            Ok(release)
        },
        None => {
            assert forall|at: int| !is_latest(all, at) by {}
            Err(ErrorChain::new("no tags found on the COSMOS project repo".to_owned()))
        },
    }
}

/// The version of the installed COSMOS, by its environment file.
pub open spec fn installed_version(env: Option<Map<Seq<char>, Seq<char>>>) -> Option<Seq<char>> {
    match env {
        Some(variables) => if variables.contains_key("OPENC3_TAG"@) && stripped(
            variables["OPENC3_TAG"@],
        ).len() > 0 {
            Some(stripped(variables["OPENC3_TAG"@]))
        } else {
            None
        },
        None => None,
    }
}

/// The version of the installed COSMOS, from its environment file, where it could
/// be read.
pub fn installed_cosmos_version(env: &Option<EnvFile>) -> (version: Option<String>)
    ensures
        view_option(version) == installed_version(view_option(*env)),
{
    match env {
        Some(file) => match file.get("OPENC3_TAG") {
            Some(tag) => {
                let version = strip_tag(tag.as_str());
                if version.as_str().is_empty() {
                    None
                } else {
                    Some(version)
                }
            },
            None => None,
        },
        None => None,
    }
}

} // verus!
