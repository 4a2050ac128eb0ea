//! Installing a release of this application.
use crate::commands::{browser_invocation, open_browser};
use crate::context::{
    Arch, FilePath, FilePathView, Folder, Invocation, InvocationView, Os, Word, WordView,
};
use crate::model::{group_views, views};
use crate::plan::{
    best_effort, fresh, needed, plan_best_effort, plan_needed, Plan, PlanView, Planned,
    PlannedView, Step, StepView,
};
use crate::text::{
    ascii_lowered, concat3, contains, ends_with, lowercase, lowercased, occurs_in,
};
use crate::update::{Asset, AssetView, Release, ReleaseView};
use vstd::prelude::*;
use vstd::utf8::is_ascii_chars;

verus! {

broadcast use group_views;

/// The words that stand for an architecture in the name of an installer.
pub open spec fn arch_keywords(arch: Arch) -> Seq<Seq<char>> {
    match arch {
        Arch::Aarch64 => seq!["aarch64"@, "arm64"@],
        Arch::Other => seq!["x86_64"@, "amd64"@, "x64"@],
    }
}

/// The endings of installers for an operating system, the preferred first.
pub open spec fn extensions(os: Os) -> Seq<Seq<char>> {
    match os {
        Os::MacOs => seq![".dmg"@],
        Os::Windows => seq![".msi"@],
        Os::Other => seq![".deb"@, ".appimage"@, ".tar.gz"@],
    }
}

/// A name holds one of the words that stand for the architecture.
pub open spec fn names_arch(name: Seq<char>, arch: Arch) -> bool {
    exists|k: int|
        0 <= k < arch_keywords(arch).len() && occurs_in(name, #[trigger] arch_keywords(arch)[k])
}

/// A name, in lower case, is that of an installer with the given ending. Windows
/// installers come for one architecture only and need not name it.
pub open spec fn fits(name: Seq<char>, extension: Seq<char>, os: Os, arch: Arch) -> bool {
    extension.is_suffix_of(name) && (os == Os::Windows || names_arch(name, arch))
}

/// Name `at` is the first that fits with ending `rank`, and none fits with an ending
/// that is preferred to it.
pub open spec fn is_choice(names: Seq<Seq<char>>, os: Os, arch: Arch, rank: int, at: int) -> bool {
    &&& 0 <= rank < extensions(os).len()
    &&& 0 <= at < names.len()
    &&& fits(names[at], extensions(os)[rank], os, arch)
    &&& forall|i: int|
        0 <= i < at ==> !fits(#[trigger] names[i], extensions(os)[rank], os, arch)
    &&& forall|r: int, i: int|
        0 <= r < rank && 0 <= i < names.len() ==> !fits(
            #[trigger] names[i],
            #[trigger] extensions(os)[r],
            os,
            arch,
        )
}

/// Name `at` is the one to choose.
pub open spec fn is_chosen(names: Seq<Seq<char>>, os: Os, arch: Arch, at: int) -> bool {
    exists|rank: int| is_choice(names, os, arch, rank, at)
}

/// No name fits with any ending.
pub open spec fn none_fits(names: Seq<Seq<char>>, os: Os, arch: Arch) -> bool {
    forall|r: int, i: int|
        0 <= r < extensions(os).len() && 0 <= i < names.len() ==> !fits(
            #[trigger] names[i],
            #[trigger] extensions(os)[r],
            os,
            arch,
        )
}

/// Of a list of names at most one is to choose, and none where none fits.
pub proof fn choice_is_one(names: Seq<Seq<char>>, os: Os, arch: Arch, a: int, b: int)
    requires
        is_chosen(names, os, arch, a),
    ensures
        is_chosen(names, os, arch, b) ==> a == b,
        !none_fits(names, os, arch),
{
    let x = choose|rank: int| is_choice(names, os, arch, rank, a);
    assert(fits(names[a], extensions(os)[x], os, arch));
    if is_chosen(names, os, arch, b) {
        let y = choose|rank: int| is_choice(names, os, arch, rank, b);
        assert(fits(names[b], extensions(os)[y], os, arch));
        if x < y {
            assert(!fits(names[a], extensions(os)[x], os, arch));
        } else if y < x {
            assert(!fits(names[b], extensions(os)[y], os, arch));
        }
    }
}

/// Lists the words that stand for an architecture.
fn list_keywords(arch: Arch) -> (list: Vec<String>)
    ensures
        views(list@) == arch_keywords(arch),
{
    let mut list: Vec<String> = Vec::new();
    match arch {
        Arch::Aarch64 => {
            list.push("aarch64".to_owned());
            list.push("arm64".to_owned());
        },
        Arch::Other => {
            list.push("x86_64".to_owned());
            list.push("amd64".to_owned());
            list.push("x64".to_owned());
        },
    }
    assert(views(list@) == arch_keywords(arch));
    list
}

/// Lists the endings of installers for an operating system.
fn list_extensions(os: Os) -> (list: Vec<String>)
    ensures
        views(list@) == extensions(os),
{
    let mut list: Vec<String> = Vec::new();
    match os {
        Os::MacOs => {
            list.push(".dmg".to_owned());
        },
        Os::Windows => {
            list.push(".msi".to_owned());
        },
        Os::Other => {
            list.push(".deb".to_owned());
            list.push(".appimage".to_owned());
            list.push(".tar.gz".to_owned());
        },
    }
    assert(views(list@) == extensions(os));
    list
}

/// Tells whether a name holds one of the words that stand for the architecture.
fn holds_arch(name: &str, arch: Arch) -> (yes: bool)
    ensures
        yes == names_arch(name@, arch),
{
    let keywords = list_keywords(arch);
    let mut k: usize = 0;
    while k < keywords.len()
        invariant
            k <= keywords@.len(),
            views(keywords@) == arch_keywords(arch),
            forall|j: int| 0 <= j < k ==> !occurs_in(name@, #[trigger] arch_keywords(arch)[j]),
        decreases keywords@.len() - k,
    {
        assert(arch_keywords(arch)[k as int] == keywords@[k as int]@);
        if contains(name, keywords[k].as_str()) {
            return true;
        }
        k += 1;
    }
    false
}

/// Chooses among names in lower case the installer for a platform.
pub fn choose_installer(names: &Vec<String>, os: Os, arch: Arch) -> (place: Option<usize>)
    ensures
        match place {
            Some(at) => is_chosen(views(names@), os, arch, at as int),
            None => none_fits(views(names@), os, arch),
        },
{
    let ghost all = views(names@);
    let endings = list_extensions(os);
    let mut rank: usize = 0;
    while rank < endings.len()
        invariant
            rank <= endings@.len(),
            all == views(names@),
            views(endings@) == extensions(os),
            forall|r: int, i: int|
                0 <= r < rank && 0 <= i < all.len() ==> !fits(
                    #[trigger] all[i],
                    #[trigger] extensions(os)[r],
                    os,
                    arch,
                ),
        decreases endings@.len() - rank,
    {
        assert(extensions(os)[rank as int] == endings@[rank as int]@);
        let mut at: usize = 0;
        while at < names.len()
            invariant
                at <= names@.len(),
                rank < endings@.len(),
                all == views(names@),
                views(endings@) == extensions(os),
                extensions(os)[rank as int] == endings@[rank as int]@,
                forall|r: int, i: int|
                    0 <= r < rank && 0 <= i < all.len() ==> !fits(
                        #[trigger] all[i],
                        #[trigger] extensions(os)[r],
                        os,
                        arch,
                    ),
                forall|i: int|
                    0 <= i < at ==> !fits(
                        #[trigger] all[i],
                        extensions(os)[rank as int],
                        os,
                        arch,
                    ),
            decreases names@.len() - at,
        {
            assert(all[at as int] == names@[at as int]@);
            if ends_with(names[at].as_str(), endings[rank].as_str()) && (os == Os::Windows
                || holds_arch(names[at].as_str(), arch)) {
                assert(is_choice(all, os, arch, rank as int, at as int));
                return Some(at);
            }
            at += 1;
        }
        rank += 1;
    }
    None
}

/// The names of assets in lower case.
pub open spec fn lowercased_names(assets: Seq<AssetView>) -> Seq<Seq<char>> {
    Seq::new(assets.len(), |i: int| lowercased(assets[i].name))
}

/// The names of assets with their ASCII letters in lower case.
pub open spec fn ascii_lowered_names(assets: Seq<AssetView>) -> Seq<Seq<char>> {
    Seq::new(assets.len(), |i: int| ascii_lowered(assets[i].name))
}

/// All names of assets are ASCII.
pub open spec fn names_are_ascii(assets: Seq<AssetView>) -> bool {
    forall|i: int| 0 <= i < assets.len() ==> is_ascii_chars((#[trigger] assets[i]).name)
}

/// Picks the installer for a platform, by the ending of its name and the words in
/// it, whatever the case of its letters.
pub fn select_asset(assets: &Vec<Asset>, os: Os, arch: Arch) -> (place: Option<usize>)
    ensures
        match place {
            Some(at) => is_chosen(lowercased_names(views(assets@)), os, arch, at as int),
            None => none_fits(lowercased_names(views(assets@)), os, arch),
        },
        place is Some ==> place->0 < assets@.len(),
        names_are_ascii(views(assets@)) ==> match place {
            Some(at) => is_chosen(ascii_lowered_names(views(assets@)), os, arch, at as int),
            None => none_fits(ascii_lowered_names(views(assets@)), os, arch),
        },
{
    let ghost all = views(assets@);
    let mut names: Vec<String> = Vec::new();
    let mut i: usize = 0;
    while i < assets.len()
        invariant
            i <= assets@.len(),
            all == views(assets@),
            views(names@) == lowercased_names(all).take(i as int),
            names_are_ascii(all) ==> views(names@) == ascii_lowered_names(all).take(i as int),
        decreases assets@.len() - i,
    {
        assert(all[i as int] == assets@[i as int]@);
        names.push(lowercase(assets[i].name.as_str()));
        i += 1;
        assert(lowercased_names(all).take(i as int) == lowercased_names(all).take(i - 1).push(
            lowercased(all[i - 1].name),
        ));
        assert(ascii_lowered_names(all).take(i as int) == ascii_lowered_names(all).take(i - 1).push(
            ascii_lowered(all[i - 1].name),
        ));
    }
    assert(lowercased_names(all).take(all.len() as int) == lowercased_names(all));
    assert(ascii_lowered_names(all).take(all.len() as int) == ascii_lowered_names(all));
    choose_installer(&names, os, arch)
}

/// The command line that opens a downloaded installer.
pub open spec fn launch_invocation(os: Os, file: FilePathView) -> InvocationView {
    match os {
        Os::MacOs => InvocationView {
            program: WordView::Text("open"@),
            args: seq![WordView::Path(file)],
            dir: None,
        },
        Os::Windows => InvocationView {
            program: WordView::Text("cmd"@),
            args: seq![
                WordView::Text("/C"@),
                WordView::Text("start"@),
                WordView::Text(""@),
                WordView::Path(file),
            ],
            dir: None,
        },
        Os::Other => InvocationView {
            program: WordView::Text("xdg-open"@),
            args: seq![WordView::Path(file)],
            dir: None,
        },
    }
}

/// Opens a downloaded installer with what the platform has for it.
pub fn launch_installer(os: Os, file: FilePath) -> (invocation: Invocation)
    ensures
        invocation@ == launch_invocation(os, file@),
{
    let mut words: Vec<Word> = Vec::new();
    let program = match os {
        Os::MacOs => "open",
        Os::Windows => {
            words.push(Word::Text("/C".to_owned()));
            words.push(Word::Text("start".to_owned()));
            words.push(Word::Text("".to_owned()));
            "cmd"
        },
        Os::Other => "xdg-open",
    };
    words.push(Word::Path(file));
    let invocation = Invocation {
        program: Word::Text(program.to_owned()),
        args: words,
        dir: None,
    };
    assert(invocation@.args == launch_invocation(os, file@).args);
    invocation
}

/// Where an installer is downloaded to.
pub open spec fn download_path(name: Seq<char>) -> FilePathView {
    FilePathView { folder: Folder::Temporary, parts: seq![name] }
}

/// The path that an installer is downloaded to.
fn download_to(name: &str) -> (path: FilePath)
    ensures
        path@ == download_path(name@),
{
    let path = FilePath::folder(Folder::Temporary).join(name);
    assert(path@.parts == seq![name@]);
    path
}

/// Downloading an installer and opening it.
pub open spec fn install_steps(os: Os, asset: AssetView) -> Seq<PlannedView> {
    seq![
        best_effort(StepView::Progress("Downloading "@ + asset.name + "…"@)),
        needed(StepView::Download { url: asset.url, file: download_path(asset.name) }),
        best_effort(StepView::Progress("Launching the installer…"@)),
        needed(StepView::Run(launch_invocation(os, download_path(asset.name)))),
        best_effort(
            StepView::Progress(
                "Installer launched. Complete it, then restart OpenC3 COSMOS to run the new version."@,
            ),
        ),
    ]
}

/// Opening the page of a release.
pub open spec fn open_page_steps(os: Os, url: Seq<char>) -> Seq<PlannedView> {
    seq![
        best_effort(
            StepView::Progress(
                "No matching installer for this platform; opening the release page…"@,
            ),
        ),
        needed(StepView::Run(browser_invocation(os, url))),
    ]
}

/// Installing the asset of a release at `place`, or opening the page of the release.
pub open spec fn place_steps(release: ReleaseView, place: Option<usize>, os: Os) -> Seq<
    PlannedView,
> {
    match place {
        Some(at) => install_steps(os, release.assets[at as int]),
        None => open_page_steps(os, release.url),
    }
}

/// Installs the asset of `release` at `place`, or opens the page of the release
/// where there is none.
pub fn install_asset(release: &Release, place: Option<usize>, os: Os) -> (plan: Plan)
    requires
        place is Some ==> place->0 < release.assets@.len(),
    ensures
        plan@ == fresh(place_steps(release@, place, os)),
{
    let mut steps: Vec<Planned> = Vec::new();
    match place {
        Some(at) => {
            let asset = &release.assets[at];
            steps.push(
                plan_best_effort(
                    Step::Progress(concat3("Downloading ", asset.name.as_str(), "…")),
                ),
            );
            steps.push(
                plan_needed(
                    Step::Download {
                        url: asset.url.clone(),
                        file: download_to(asset.name.as_str()),
                    },
                ),
            );
            steps.push(plan_best_effort(Step::Progress("Launching the installer…".to_owned())));
            steps.push(
                plan_needed(Step::Run(launch_installer(os, download_to(asset.name.as_str())))),
            );
            steps.push(
                plan_best_effort(
                    Step::Progress(
                        "Installer launched. Complete it, then restart OpenC3 COSMOS to run the new version.".to_owned(),
                    ),
                ),
            );
            assert(views(steps@) == install_steps(os, asset@));
        },
        None => {
            steps.push(
                plan_best_effort(
                    Step::Progress(
                        "No matching installer for this platform; opening the release page…".to_owned(),
                    ),
                ),
            );
            steps.push(plan_needed(Step::Run(open_browser(os, release.url.as_str()))));
            assert(views(steps@) == open_page_steps(os, release.url@));
        },
    }
    Plan::new(steps)
}

/// The plan installs the asset that is to choose among `names`, or opens the page of
/// the release where none fits.
pub open spec fn installs_choice(
    plan: PlanView,
    release: &Release,
    names: Seq<Seq<char>>,
    os: Os,
    arch: Arch,
) -> bool {
    if none_fits(names, os, arch) {
        plan == fresh(open_page_steps(os, release@.url))
    } else {
        exists|at: int| #[trigger]
            is_chosen(names, os, arch, at) && plan == fresh(
                install_steps(os, release@.assets[at]),
            )
    }
}

/// Installs a release: downloads the installer for this platform and opens it;
/// where there is none, opens the page of the release.
pub fn install_release(release: &Release, os: Os, arch: Arch) -> (plan: Plan)
    ensures
        installs_choice(plan@, release, lowercased_names(release@.assets), os, arch),
        names_are_ascii(release@.assets) ==> installs_choice(
            plan@,
            release,
            ascii_lowered_names(release@.assets),
            os,
            arch,
        ),
{
    let place = select_asset(&release.assets, os, arch);
    proof {
        if place is Some {
            let at = place->0 as int;
            choice_is_one(lowercased_names(release@.assets), os, arch, at, at);
            if names_are_ascii(release@.assets) {
                choice_is_one(ascii_lowered_names(release@.assets), os, arch, at, at);
            }
        }
    }
    install_asset(release, place, os)
}

} // verus!
