use openc3_cosmos_app::context::{Arch, FilePath, Folder, Os};
use openc3_cosmos_app::installer::{
    choose_installer, install_asset, install_release, launch_installer, select_asset,
};
use openc3_cosmos_app::plan::{Plan, Reply, Step};
use openc3_cosmos_app::update::{Asset, Release};

fn assets(names: &[&str]) -> Vec<Asset> {
    names
        .iter()
        .map(|name| Asset { name: name.to_string(), url: format!("https://{name}") })
        .collect()
}

fn release(names: &[&str]) -> Release {
    Release {
        version: "1.0.0".to_string(),
        url: "https://page".to_string(),
        assets: assets(names),
    }
}

fn steps(plan: &Plan) -> Vec<String> {
    plan.steps.iter().map(|planned| format!("{:?}", planned.step)).collect()
}

#[test]
fn installer_fits_system_and_architecture() {
    let list = assets(&["a_x64.dmg", "a_aarch64.dmg", "a.msi", "a_amd64.deb", "a_arm64.AppImage"]);
    assert_eq!(select_asset(&list, Os::MacOs, Arch::Aarch64), Some(1));
    assert_eq!(select_asset(&list, Os::MacOs, Arch::Other), Some(0));
    assert_eq!(select_asset(&list, Os::Windows, Arch::Aarch64), Some(2));
    assert_eq!(select_asset(&list, Os::Other, Arch::Other), Some(3));
    assert_eq!(select_asset(&list, Os::Other, Arch::Aarch64), Some(4));
}

#[test]
fn case_of_a_name_does_not_count() {
    assert_eq!(select_asset(&assets(&["OPENC3_X86_64.DMG"]), Os::MacOs, Arch::Other), Some(0));
    assert_eq!(select_asset(&assets(&["É_ARM64.DMG"]), Os::MacOs, Arch::Aarch64), Some(0));
    // The Kelvin sign is a capital letter outside of ASCII.
    assert_eq!(select_asset(&assets(&["\u{212a}_x64.dmg"]), Os::MacOs, Arch::Other), Some(0));
}

#[test]
fn preferred_ending_comes_first() {
    let list = assets(&["a_x64.tar.gz", "b_x64.appimage", "c_x64.deb", "d_x64.deb"]);
    assert_eq!(select_asset(&list, Os::Other, Arch::Other), Some(2));
    let names: Vec<String> = vec!["a_x64.tar.gz".to_string(), "b_x64.appimage".to_string()];
    assert_eq!(choose_installer(&names, Os::Other, Arch::Other), Some(1));
}

#[test]
fn nothing_may_fit() {
    assert_eq!(select_asset(&assets(&[]), Os::MacOs, Arch::Other), None);
    assert_eq!(select_asset(&assets(&["a.dmg", "x64.zip"]), Os::MacOs, Arch::Other), None);
    let names: Vec<String> = vec!["A_X64.DMG".to_string()];
    assert_eq!(choose_installer(&names, Os::MacOs, Arch::Other), None);
}

#[test]
fn installer_is_downloaded_and_launched() {
    let plan = install_release(&release(&["a.msi"]), Os::Windows, Arch::Other);
    let shown = steps(&plan);
    assert_eq!(shown.len(), 5);
    assert_eq!(shown[0], "Progress(\"Downloading a.msi…\")");
    match &plan.steps[1].step {
        Step::Download { url, file } => {
            assert_eq!(url, "https://a.msi");
            assert_eq!(file.folder, Folder::Temporary);
            assert_eq!(file.parts, vec!["a.msi"]);
        }
        other => panic!("{other:?}"),
    }
    assert_eq!(shown[2], "Progress(\"Launching the installer…\")");
    assert!(shown[3].contains("start"));
    assert!(shown[4].contains("Installer launched."));
}

#[test]
fn failed_download_launches_nothing() {
    let plan = install_asset(&release(&["a_x64.dmg"]), Some(0), Os::MacOs).resume(Reply::Done);
    let error = openc3_cosmos_app::error::ErrorChain::new("offline".to_string());
    let plan = plan.resume(Reply::Failed(error));
    assert!(plan.next_step().is_none());
    assert_eq!(plan.failure.unwrap().in_full(), "offline");
}

#[test]
fn page_is_opened_where_nothing_fits() {
    let plan = install_release(&release(&["a.zip"]), Os::Other, Arch::Other);
    let shown = steps(&plan);
    assert_eq!(shown.len(), 2);
    assert_eq!(
        shown[0],
        "Progress(\"No matching installer for this platform; opening the release page…\")"
    );
    assert!(shown[1].contains("xdg-open") && shown[1].contains("https://page"));
}

#[test]
fn installers_are_opened_by_the_system() {
    let file = || FilePath::folder(Folder::Temporary).join("a");
    let shown = format!("{:?}", launch_installer(Os::MacOs, file()));
    assert!(shown.contains("Text(\"open\")") && shown.contains("Temporary"));
    let shown = format!("{:?}", launch_installer(Os::Other, file()));
    assert!(shown.contains("Text(\"xdg-open\")"));
    let invocation = launch_installer(Os::Windows, file());
    assert_eq!(invocation.args.len(), 4);
    let shown = format!("{invocation:?}");
    assert!(shown.contains("[Text(\"/C\"), Text(\"start\"), Text(\"\"), Path("));
}
