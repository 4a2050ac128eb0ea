//! Which installer is chosen, and what becomes of it.
use crate::commands::browser_invocation;
use crate::context::{Arch, FilePathView, Folder, Os, WordView};
use crate::installer::{
    arch_keywords, extensions, fits, install_steps, installs_choice, is_choice, is_chosen,
    launch_invocation, lowercased_names, none_fits, open_page_steps, place_steps,
};
use crate::laws::commands::{does, ends_well, said, speaks_otherwise, words};
use crate::laws::plan::{demanded, steady_plan_is_done};
use crate::plan::{fresh, PlanView, ReplyView, StepView};
use crate::text::occurs_in;
use crate::update::{AssetView, Release, ReleaseView};
use vstd::prelude::*;

verus! {

/// A name holds one of the words that stand for the architecture.
pub open spec fn holds_word(name: Seq<char>, arch: Arch) -> bool {
    match arch {
        Arch::Aarch64 => occurs_in(name, "aarch64"@) || occurs_in(name, "arm64"@),
        Arch::Other => occurs_in(name, "x86_64"@) || occurs_in(name, "amd64"@) || occurs_in(
            name,
            "x64"@,
        ),
    }
}

/// Name `at` is the first that ends in `ending` and, where `by_word`, holds a word for
/// the architecture.
pub open spec fn is_first(
    names: Seq<Seq<char>>,
    ending: Seq<char>,
    by_word: bool,
    arch: Arch,
    at: int,
) -> bool {
    &&& 0 <= at < names.len()
    &&& ending.is_suffix_of(names[at]) && (by_word ==> holds_word(names[at], arch))
    &&& forall|i: int|
        0 <= i < at ==> !(ending.is_suffix_of(#[trigger] names[i]) && (by_word ==> holds_word(
            names[i],
            arch,
        )))
}

/// No name ends in `ending` and, where `by_word`, holds a word for the architecture.
pub open spec fn has_none(
    names: Seq<Seq<char>>,
    ending: Seq<char>,
    by_word: bool,
    arch: Arch,
) -> bool {
    forall|i: int|
        0 <= i < names.len() ==> !(ending.is_suffix_of(#[trigger] names[i]) && (by_word
            ==> holds_word(names[i], arch)))
}

/// A name fits as soon as it has the ending, on Windows, and elsewhere exactly where it
/// has the ending and one of the architecture's words.
pub proof fn ending_and_word_decide(name: Seq<char>, ending: Seq<char>, os: Os, arch: Arch)
    ensures
        fits(name, ending, os, arch) <==> ending.is_suffix_of(name) && (os == Os::Windows
            || holds_word(name, arch)),
{
    let list = arch_keywords(arch);
    if holds_word(name, arch) {
        match arch {
            Arch::Aarch64 => {
                assert(list[0] == "aarch64"@ && list[1] == "arm64"@);
            },
            Arch::Other => {
                assert(list[0] == "x86_64"@ && list[1] == "amd64"@ && list[2] == "x64"@);
            },
        }
    }
}

/// All names at once.
proof fn endings_and_words_decide(names: Seq<Seq<char>>, os: Os, arch: Arch)
    ensures
        forall|i: int, ending: Seq<char>|
            0 <= i < names.len() ==> (#[trigger] fits(names[i], ending, os, arch)
                <==> ending.is_suffix_of(names[i]) && (os == Os::Windows || holds_word(
                names[i],
                arch,
            ))),
{
    assert forall|i: int, ending: Seq<char>| 0 <= i < names.len() implies (#[trigger] fits(
        names[i],
        ending,
        os,
        arch,
    ) <==> ending.is_suffix_of(names[i]) && (os == Os::Windows || holds_word(names[i], arch))) by {
        ending_and_word_decide(names[i], ending, os, arch);
    }
}

/// On Windows the first `.msi` is chosen, whatever else its name holds, and there is none
/// to choose exactly where no name ends so.
pub proof fn windows_takes_the_first_msi(names: Seq<Seq<char>>, arch: Arch, at: int)
    ensures
        is_chosen(names, Os::Windows, arch, at) <==> is_first(names, ".msi"@, false, arch, at),
        none_fits(names, Os::Windows, arch) <==> has_none(names, ".msi"@, false, arch),
{
    one_ending_decides(names, Os::Windows, ".msi"@, arch, at);
}

/// On macOS the first `.dmg` for the architecture is chosen, and there is none to choose
/// exactly where no name is of that kind.
pub proof fn mac_takes_the_first_dmg(names: Seq<Seq<char>>, arch: Arch, at: int)
    ensures
        is_chosen(names, Os::MacOs, arch, at) <==> is_first(names, ".dmg"@, true, arch, at),
        none_fits(names, Os::MacOs, arch) <==> has_none(names, ".dmg"@, true, arch),
{
    one_ending_decides(names, Os::MacOs, ".dmg"@, arch, at);
}

/// Where a system has one ending, the first name that fits with it is chosen.
proof fn one_ending_decides(names: Seq<Seq<char>>, os: Os, ending: Seq<char>, arch: Arch, at: int)
    requires
        extensions(os).len() == 1,
        extensions(os)[0] == ending,
    ensures
        is_chosen(names, os, arch, at) <==> is_first(names, ending, os != Os::Windows, arch, at),
        none_fits(names, os, arch) <==> has_none(names, ending, os != Os::Windows, arch),
{
    endings_and_words_decide(names, os, arch);
    if is_chosen(names, os, arch, at) {
        let rank = choose|rank: int| is_choice(names, os, arch, rank, at);
        assert(rank == 0);
        assert forall|i: int| 0 <= i < at implies !(ending.is_suffix_of(#[trigger] names[i]) && (
        (os != Os::Windows) ==> holds_word(names[i], arch))) by {
            assert(!fits(names[i], extensions(os)[0], os, arch));
        }
    }
    if is_first(names, ending, os != Os::Windows, arch, at) {
        assert(fits(names[at], extensions(os)[0], os, arch));
        assert(is_choice(names, os, arch, 0, at));
    }
    if none_fits(names, os, arch) {
        assert forall|i: int| 0 <= i < names.len() implies !(ending.is_suffix_of(
            #[trigger] names[i],
        ) && ((os != Os::Windows) ==> holds_word(names[i], arch))) by {
            assert(!fits(names[i], extensions(os)[0], os, arch));
        }
    }
    if has_none(names, ending, os != Os::Windows, arch) {
        assert forall|r: int, i: int|
            0 <= r < extensions(os).len() && 0 <= i < names.len() implies !fits(
            #[trigger] names[i],
            #[trigger] extensions(os)[r],
            os,
            arch,
        ) by {
            assert(r == 0);
        }
    }
}

/// Elsewhere the first `.deb` for the architecture is chosen; where there is none, the
/// first `.appimage`; where there is none either, the first `.tar.gz`; and where there is
/// none of them, none.
pub proof fn others_prefer_packages(names: Seq<Seq<char>>, arch: Arch, at: int)
    ensures
        is_first(names, ".deb"@, true, arch, at) ==> is_chosen(names, Os::Other, arch, at),
        has_none(names, ".deb"@, true, arch) && is_first(names, ".appimage"@, true, arch, at)
            ==> is_chosen(names, Os::Other, arch, at),
        has_none(names, ".deb"@, true, arch) && has_none(names, ".appimage"@, true, arch)
            && is_first(names, ".tar.gz"@, true, arch, at) ==> is_chosen(
            names,
            Os::Other,
            arch,
            at,
        ),
        has_none(names, ".deb"@, true, arch) && has_none(names, ".appimage"@, true, arch)
            && has_none(names, ".tar.gz"@, true, arch) <==> none_fits(names, Os::Other, arch),
{
    let os = Os::Other;
    let list = extensions(os);
    endings_and_words_decide(names, os, arch);
    assert(list[0] == ".deb"@ && list[1] == ".appimage"@ && list[2] == ".tar.gz"@);
    if is_first(names, ".deb"@, true, arch, at) {
        assert(is_choice(names, os, arch, 0, at));
    }
    if has_none(names, ".deb"@, true, arch) && is_first(names, ".appimage"@, true, arch, at) {
        assert(is_choice(names, os, arch, 1, at));
    }
    if has_none(names, ".deb"@, true, arch) && has_none(names, ".appimage"@, true, arch)
        && is_first(names, ".tar.gz"@, true, arch, at) {
        assert(is_choice(names, os, arch, 2, at));
    }
    if none_fits(names, os, arch) {
        assert forall|i: int| 0 <= i < names.len() implies !(list[0].is_suffix_of(
            #[trigger] names[i],
        ) && holds_word(names[i], arch)) && !(list[1].is_suffix_of(names[i]) && holds_word(
            names[i],
            arch,
        )) && !(list[2].is_suffix_of(names[i]) && holds_word(names[i], arch)) by {
            assert(!fits(names[i], list[0], os, arch));
            assert(!fits(names[i], list[1], os, arch));
            assert(!fits(names[i], list[2], os, arch));
        }
    }
}

/// An asset is installed by downloading it, from its own address, to a file of its own
/// name among the temporary files, and then opening that same file with what the system
/// has for it. Nothing else is done.
pub proof fn asset_is_downloaded_and_opened(os: Os, asset: AssetView, replies: Seq<ReplyView>)
    ensures
        ({
            let steps = install_steps(os, asset);
            let file = FilePathView { folder: Folder::Temporary, parts: seq![asset.name] };
            let download = StepView::Download { url: asset.url, file };
            let open = StepView::Run(launch_invocation(os, file));
            &&& demanded(steps) == seq![download, open]
            &&& speaks_otherwise(steps)
            &&& ends_well(steps, replies) ==> does(steps, replies, seq![download, open])
            &&& said(steps) == seq![
                "Downloading "@ + asset.name + "…"@,
                "Launching the installer…"@,
                "Installer launched. Complete it, then restart OpenC3 COSMOS to run the new version."@,
            ]
        }),
{
    let steps = install_steps(os, asset);
    let file = FilePathView { folder: Folder::Temporary, parts: seq![asset.name] };
    let download = StepView::Download { url: asset.url, file };
    let open = StepView::Run(launch_invocation(os, file));
    reveal_with_fuel(demanded, 6);
    reveal_with_fuel(said, 6);
    assert(demanded(steps) =~= seq![download, open]);
    assert(said(steps) =~= seq![
        "Downloading "@ + asset.name + "…"@,
        "Launching the installer…"@,
        "Installer launched. Complete it, then restart OpenC3 COSMOS to run the new version."@,
    ]);
    if ends_well(steps, replies) {
        steady_plan_is_done(steps, replies);
    }
}

/// An installer is opened by itself, with what the system has for it.
pub proof fn installer_is_opened_by_the_system(os: Os, file: FilePathView)
    ensures
        words(launch_invocation(os, file)).last() == WordView::Path(file),
        launch_invocation(os, file).dir is None,
        words(launch_invocation(os, file)).drop_last() == match os {
            Os::MacOs => seq![WordView::Text("open"@)],
            Os::Windows => seq![
                WordView::Text("cmd"@),
                WordView::Text("/C"@),
                WordView::Text("start"@),
                WordView::Text(""@),
            ],
            Os::Other => seq![WordView::Text("xdg-open"@)],
        },
{
    let all = words(launch_invocation(os, file));
    match os {
        Os::MacOs => {
            assert(all.drop_last() =~= seq![WordView::Text("open"@)]);
        },
        Os::Windows => {
            assert(all.drop_last() =~= seq![
                WordView::Text("cmd"@),
                WordView::Text("/C"@),
                WordView::Text("start"@),
                WordView::Text(""@),
            ]);
        },
        Os::Other => {
            assert(all.drop_last() =~= seq![WordView::Text("xdg-open"@)]);
        },
    }
}

/// Where there is no installer, the page of the release is opened, and nothing else is
/// done.
pub proof fn page_is_opened(os: Os, url: Seq<char>, replies: Seq<ReplyView>)
    ensures
        ({
            let steps = open_page_steps(os, url);
            let open = StepView::Run(browser_invocation(os, url));
            &&& demanded(steps) == seq![open]
            &&& speaks_otherwise(steps)
            &&& ends_well(steps, replies) ==> does(steps, replies, seq![open])
            &&& said(steps) == seq![
                "No matching installer for this platform; opening the release page…"@,
            ]
        }),
{
    let steps = open_page_steps(os, url);
    let open = StepView::Run(browser_invocation(os, url));
    reveal_with_fuel(demanded, 3);
    reveal_with_fuel(said, 3);
    assert(demanded(steps) =~= seq![open]);
    assert(said(steps) =~= seq![
        "No matching installer for this platform; opening the release page…"@,
    ]);
    if ends_well(steps, replies) {
        steady_plan_is_done(steps, replies);
    }
}

/// Installing a release installs the asset whose name in lower case is chosen among those
/// of the release, and opens the page of the release where none is.
pub proof fn chosen_asset_is_installed(
    plan: PlanView,
    release: &Release,
    os: Os,
    arch: Arch,
    at: int,
)
    requires
        installs_choice(plan, release, lowercased_names(release@.assets), os, arch),
    ensures
        lowercased_names(release@.assets).len() == release@.assets.len(),
        forall|i: int|
            0 <= i < release@.assets.len() ==> #[trigger] lowercased_names(release@.assets)[i]
                == crate::text::lowercased(release@.assets[i].name),
        is_chosen(lowercased_names(release@.assets), os, arch, at) ==> plan == fresh(
            install_steps(os, release@.assets[at]),
        ),
        none_fits(lowercased_names(release@.assets), os, arch) ==> plan == fresh(
            open_page_steps(os, release@.url),
        ),
{
    let names = lowercased_names(release@.assets);
    if is_chosen(names, os, arch, at) {
        crate::installer::choice_is_one(names, os, arch, at, at);
        let other = choose|other: int| #[trigger]
            is_chosen(names, os, arch, other) && plan == fresh(
                install_steps(os, release@.assets[other]),
            );
        crate::installer::choice_is_one(names, os, arch, at, other);
    }
}

/// The asset at the place that is given is the one that is installed.
pub proof fn placed_asset_is_installed(release: ReleaseView, place: usize, os: Os)
    ensures
        place_steps(release, Some(place), os) == install_steps(os, release.assets[place as int]),
        place_steps(release, None, os) == open_page_steps(os, release.url),
{
}

} // verus!
