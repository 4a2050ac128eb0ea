use openc3_cosmos_app::context::{EnvFile, Output};
use openc3_cosmos_app::error::ErrorChain;
use openc3_cosmos_app::update::{
    cosmos_latest, fetch, fetched, installed_cosmos_version, latest_release,
    latest_release_url, repo,
    tags_request, Asset, GhRelease, CHECK_INTERVAL, COSMOS_ENT_TAGS_API, COSMOS_TAGS_API,
    DEFAULT_REPO,
};

fn tags(names: &[&str]) -> Vec<String> {
    names.iter().map(|name| name.to_string()).collect()
}

fn env(entries: &[(&str, &str)]) -> Option<EnvFile> {
    Some(EnvFile {
        entries: entries.iter().map(|(k, v)| (k.to_string(), v.to_string())).collect(),
    })
}

#[test]
fn repository_can_be_named() {
    assert_eq!(repo(None), "OpenC3/openc3-cosmos-app");
    assert_eq!(repo(Some(" \t".to_string())), DEFAULT_REPO);
    assert_eq!(repo(Some("me/fork".to_string())), "me/fork");
    assert_eq!(
        latest_release_url(Some("me/fork".to_string())),
        "https://api.github.com/repos/me/fork/releases/latest"
    );
    assert_eq!(CHECK_INTERVAL, 28800);
}

#[test]
fn pages_are_fetched_with_curl() {
    let shown = format!("{:?}", fetch("https://x"));
    for word in ["curl", "-fsSL", "--max-time", "20", "User-Agent: openc3-cosmos-app", "https://x"] {
        assert!(shown.contains(word), "{word}");
    }
}

#[test]
fn failed_fetch_names_the_status() {
    let output = Output {
        success: false,
        status: "exit status: 22".to_string(),
        stdout: b"x".to_vec(),
        stderr: Vec::new(),
    };
    assert_eq!(fetched(output).unwrap_err().in_full(), "update check failed (exit status: 22)");
    let output = Output {
        success: true,
        status: "exit status: 0".to_string(),
        stdout: b"page".to_vec(),
        stderr: Vec::new(),
    };
    assert_eq!(fetched(output).unwrap(), b"page");
}

#[test]
fn release_is_normalized() {
    let gh = GhRelease {
        tag_name: "v0.2.0".to_string(),
        html_url: "https://page".to_string(),
        assets: vec![Asset { name: "a.dmg".to_string(), url: "https://a".to_string() }],
    };
    let release = latest_release(Ok(gh)).unwrap();
    assert_eq!(release.version, "0.2.0");
    assert_eq!(release.url, "https://page");
    assert_eq!(release.assets.len(), 1);
    assert_eq!(release.assets[0].name, "a.dmg");
    assert_eq!(release.assets[0].url, "https://a");
}

#[test]
fn release_without_a_version_is_refused() {
    let gh = GhRelease {
        tag_name: " v ".to_string(),
        html_url: String::new(),
        assets: Vec::new(),
    };
    assert_eq!(
        latest_release(Ok(gh)).unwrap_err().in_full(),
        "release ' v ' has no usable version"
    );
    let error = ErrorChain::new("offline".to_string());
    assert_eq!(latest_release(Err(error)).unwrap_err().in_full(), "offline");
}

#[test]
fn latest_tag_is_the_highest() {
    let latest = cosmos_latest(Ok(tags(&["v6.9.0", "v7.10.0", "v7.2.0", ""]))).unwrap();
    assert_eq!(latest.tag, "v7.10.0");
    assert_eq!(latest.version, "7.10.0");
}

#[test]
fn release_is_later_than_its_prereleases() {
    for list in [["v7.3.0", "v7.3.0-rc1"], ["v7.3.0-rc1", "v7.3.0"]] {
        let latest = cosmos_latest(Ok(tags(&list))).unwrap();
        assert_eq!(latest.tag, "v7.3.0");
        assert_eq!(latest.version, "7.3.0");
    }
    let latest = cosmos_latest(Ok(tags(&["7.0.0-rc.2", "7.0.0-rc.11", "V6.0.0", "v"]))).unwrap();
    assert_eq!(latest.tag, "7.0.0-rc.11");
    let latest = cosmos_latest(Ok(tags(&["v7.3.0", "v7.4.0-beta"]))).unwrap();
    assert_eq!(latest.version, "7.4.0-beta");
}

#[test]
fn last_of_tags_for_the_same_version_is_taken() {
    let latest = cosmos_latest(Ok(tags(&["v7.0.0", "7.0.0", "V6.0.0"]))).unwrap();
    assert_eq!(latest.tag, "7.0.0");
    let latest = cosmos_latest(Ok(tags(&["v7.0.0+a", "v7.0.0+b"]))).unwrap();
    assert_eq!(latest.tag, "v7.0.0+b");
}

#[test]
fn no_usable_tag_is_an_error() {
    for list in [tags(&[]), tags(&["", " v "])] {
        assert_eq!(
            cosmos_latest(Ok(list)).unwrap_err().in_full(),
            "no tags found on the COSMOS project repo"
        );
    }
    let error = ErrorChain::new("offline".to_string());
    assert_eq!(cosmos_latest(Err(error)).unwrap_err().in_full(), "offline");
}

#[test]
fn enterprise_tags_need_a_token() {
    let request = tags_request(false, "").unwrap();
    assert_eq!(request.url, COSMOS_TAGS_API);
    assert_eq!(request.token, None);
    let request = tags_request(true, " secret ").unwrap();
    assert_eq!(request.url, COSMOS_ENT_TAGS_API);
    assert_eq!(request.token, Some(" secret ".to_string()));
    assert_eq!(
        tags_request(true, "  ").unwrap_err().in_full(),
        "COSMOS Enterprise update check needs a repos.openc3.com access token"
    );
}

#[test]
fn installed_version_comes_from_the_environment_file() {
    assert_eq!(installed_cosmos_version(&env(&[("OPENC3_TAG", "v7.1.0")])).unwrap(), "7.1.0");
    assert_eq!(
        installed_cosmos_version(&env(&[("OPENC3_TAG", "1"), ("X", "y"), ("OPENC3_TAG", "2")])),
        Some("2".to_string())
    );
    assert_eq!(installed_cosmos_version(&env(&[("OPENC3_TAG", "v")])), None);
    assert_eq!(installed_cosmos_version(&env(&[("OTHER", "7")])), None);
    assert_eq!(installed_cosmos_version(&None), None);
}
