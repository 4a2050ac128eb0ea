//! How releases are asked for.
use crate::context::{assignments, OutputView, WordView};
use crate::laws::commands::words;
use crate::precedence::{version_order, versions_are_ordered, Order};
use crate::text::trimmed;
use crate::update::{
    fetch_invocation, is_latest, latest_is_there, latest_of, latest_of_first, latest_of_one_more,
    latest_of_place, page_of, tags_request_of, yields, CosmosReleaseView, TagsRequestView,
};
use crate::version::stripped;
use vstd::prelude::*;

verus! {

/// A page is got with `curl`, from just the address that is given, as an agent that the
/// server knows and within a time.
pub proof fn page_is_got_from_the_address(url: Seq<char>)
    ensures
        words(fetch_invocation(url)).last() == WordView::Text(url),
        words(fetch_invocation(url)).drop_last() == seq![
            WordView::Text("curl"@),
            WordView::Text("-fsSL"@),
            WordView::Text("--max-time"@),
            WordView::Text("20"@),
            WordView::Text("-H"@),
            WordView::Text("Accept: application/vnd.github+json"@),
            WordView::Text("-H"@),
            WordView::Text("User-Agent: openc3-cosmos-app"@),
        ],
        fetch_invocation(url).dir is None,
{
    let all = words(fetch_invocation(url));
    assert(all.drop_last() =~= seq![
        WordView::Text("curl"@),
        WordView::Text("-fsSL"@),
        WordView::Text("--max-time"@),
        WordView::Text("20"@),
        WordView::Text("-H"@),
        WordView::Text("Accept: application/vnd.github+json"@),
        WordView::Text("-H"@),
        WordView::Text("User-Agent: openc3-cosmos-app"@),
    ]);
}

/// The page is what the command printed, where it succeeded; where it did not, the error
/// names its status.
pub proof fn page_is_what_was_printed(output: OutputView)
    ensures
        output.success ==> page_of(output) == Ok::<Seq<u8>, Seq<Seq<char>>>(output.stdout),
        !output.success ==> page_of(output) == Err::<Seq<u8>, Seq<Seq<char>>>(
            seq!["update check failed ("@ + output.status + ")"@],
        ),
{
}

/// The latest of the tags is one of them, with the version that it names, and no tag that
/// names a version comes after it. There is one as soon as a tag names a version.
pub proof fn no_tag_comes_after_the_latest(tags: Seq<Seq<char>>, any: int)
    requires
        0 <= any < tags.len(),
        stripped(tags[any]).len() > 0,
    ensures
        latest_of(Ok(tags)) is Ok,
        ({
            let latest = latest_of(Ok(tags))->Ok_0;
            &&& tags.contains(latest.tag)
            &&& latest.version == stripped(latest.tag) && latest.version.len() > 0
            &&& version_order(stripped(tags[any]), latest.version) != Order::After
            &&& version_order(latest.version, stripped(tags[any])) != Order::Before
        }),
{
    latest_is_there(tags, any);
    let at = choose|at: int| is_latest(tags, at);
    latest_of_place(tags, at);
    versions_are_ordered(stripped(tags[any]), stripped(tags[at]), stripped(tags[any]));
    if any != at {
        assert(yields(tags, any, at));
    }
}

/// Where no tag names a version there is no latest one, which is an error; and an error in
/// getting the tags is handed on.
pub proof fn without_a_version_there_is_no_latest(
    tags: Seq<Seq<char>>,
    error: Seq<Seq<char>>,
)
    requires
        forall|i: int| 0 <= i < tags.len() ==> stripped(#[trigger] tags[i]).len() == 0,
    ensures
        latest_of(Ok(tags)) == Err::<CosmosReleaseView, Seq<Seq<char>>>(
            seq!["no tags found on the COSMOS project repo"@],
        ),
        latest_of(Err(error)) == Err::<CosmosReleaseView, Seq<Seq<char>>>(error),
{
}

/// One more tag is the latest unless it names no version or comes before the latest so
/// far, which then stays the latest.
pub proof fn one_more_tag_decides(tags: Seq<Seq<char>>, tag: Seq<char>)
    ensures
        ({
            let before = latest_of(Ok(tags));
            let after = latest_of(Ok(tags.push(tag)));
            let version = stripped(tag);
            if version.len() == 0 || (before is Ok && version_order(
                version,
                before->Ok_0.version,
            ) == Order::Before) {
                after == before
            } else {
                after == Ok::<CosmosReleaseView, Seq<Seq<char>>>(
                    CosmosReleaseView { tag, version },
                )
            }
        }),
{
    let more = tags.push(tag);
    assert(more.drop_last() == tags);
    if exists|at: int| is_latest(tags, at) {
        let at = choose|at: int| is_latest(tags, at);
        latest_of_place(tags, at);
        latest_of_one_more(more, at);
        assert(more[at] == tags[at]);
        if is_latest(more, at) {
            latest_of_place(more, at);
        }
        if is_latest(more, more.len() - 1) {
            latest_of_place(more, more.len() - 1);
        }
    } else {
        assert forall|i: int| 0 <= i < tags.len() implies stripped(#[trigger] tags[i]).len() == 0 by {
            if stripped(tags[i]).len() > 0 {
                latest_is_there(tags, i);
            }
        }
        assert forall|i: int| 0 <= i < tags.len() implies stripped(#[trigger] more[i]).len() == 0 by {
            assert(more[i] == tags[i]);
        }
        if stripped(tag).len() > 0 {
            latest_of_first(more);
            latest_of_place(more, more.len() - 1);
        } else {
            without_a_version_there_is_no_latest(tags, seq![]);
            without_a_version_there_is_no_latest(more, seq![]);
        }
    }
}

/// The tags of Core are asked for without a token, whatever was given; those of Enterprise
/// with the token that was given, and not at all where it is blank.
pub proof fn tags_are_asked_for_by_edition(token: Seq<char>)
    ensures
        tags_request_of(false, token) == Ok::<TagsRequestView, Seq<Seq<char>>>(
            TagsRequestView {
                url: "https://api.github.com/repos/OpenC3/cosmos-project/tags"@,
                token: None,
            },
        ),
        trimmed(token).len() > 0 ==> tags_request_of(true, token) == Ok::<
            TagsRequestView,
            Seq<Seq<char>>,
        >(
            TagsRequestView {
                url: "https://repos.openc3.com/api/v1/repos/OpenC3/cosmos-enterprise-project/tags"@,
                token: Some(token),
            },
        ),
        trimmed(token).len() == 0 ==> tags_request_of(true, token) == Err::<
            TagsRequestView,
            Seq<Seq<char>>,
        >(seq!["COSMOS Enterprise update check needs a repos.openc3.com access token"@]),
{
}

/// The last entry of an environment file for a variable decides, and no other variable is
/// touched by it.
pub proof fn last_entry_decides(
    entries: Seq<(String, String)>,
    entry: (String, String),
    other: Seq<char>,
)
    requires
        other != entry.0@,
    ensures
        assignments(entries.push(entry)).contains_key(entry.0@),
        assignments(entries.push(entry))[entry.0@] == entry.1@,
        assignments(entries.push(entry)).contains_key(other) <==> assignments(
            entries,
        ).contains_key(other),
        assignments(entries).contains_key(other) ==> assignments(entries.push(entry))[other]
            == assignments(entries)[other],
        !assignments(Seq::empty()).contains_key(other),
{
    assert(entries.push(entry).drop_last() == entries);
}

} // verus!
