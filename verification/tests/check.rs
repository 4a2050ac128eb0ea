use openc3_cosmos_app::check::{
    check_now, cosmos_check, cosmos_check_due, published, Answer, Check, CheckOutcome, CosmosCheck,
};
use openc3_cosmos_app::context::EnvFile;
use openc3_cosmos_app::error::ErrorChain;
use openc3_cosmos_app::update::GhRelease;

fn release(tag: &str) -> Answer {
    Answer::Release(Ok(GhRelease {
        tag_name: tag.to_string(),
        html_url: "https://page".to_string(),
        assets: Vec::new(),
    }))
}

fn installed(tag: &str) -> Answer {
    Answer::Env(Some(EnvFile { entries: vec![("OPENC3_TAG".to_string(), tag.to_string())] }))
}

fn tags(names: &[&str]) -> Answer {
    Answer::Tags(Ok(names.iter().map(|name| name.to_string()).collect()))
}

#[test]
fn newer_application_ends_the_check() {
    let check = check_now(None, "0.1.0".to_string(), false, String::new());
    match &check {
        Check::FetchRelease { url, .. } => assert_eq!(
            url,
            "https://api.github.com/repos/OpenC3/openc3-cosmos-app/releases/latest"
        ),
        _ => panic!(),
    }
    match check.resume(release("v9.0.0")) {
        Check::Finished(CheckOutcome::AppUpdate(found)) => assert_eq!(found.version, "9.0.0"),
        other => panic!("{other:?}"),
    }
}

#[test]
fn newer_cosmos_is_reported_next() {
    let check = check_now(Some("a/b".to_string()), "0.1.0".to_string(), false, String::new())
        .resume(release("v0.1.0"))
        .resume(installed("v7.0.0"));
    match &check {
        Check::Cosmos(CosmosCheck::FetchTags { installed, request }) => {
            assert_eq!(installed, "7.0.0");
            assert_eq!(request.token, None);
        }
        _ => panic!(),
    }
    match check.resume(tags(&["v7.0.1", "v6.0.0"])) {
        Check::Finished(CheckOutcome::CosmosUpdate(found)) => assert_eq!(found.tag, "v7.0.1"),
        other => panic!("{other:?}"),
    }
}

#[test]
fn nothing_newer_is_up_to_date() {
    let check = check_now(None, "0.1.0".to_string(), false, String::new())
        .resume(release("v0.1.0"))
        .resume(installed("v7.0.0"))
        .resume(tags(&["v7.0.0-rc9"]));
    assert!(matches!(check, Check::Finished(CheckOutcome::UpToDate)));
}

#[test]
fn failed_check_says_why() {
    let error = ErrorChain::new("inner".to_string()).context("outer".to_string());
    match check_now(None, "0.1.0".to_string(), true, String::new()).resume(Answer::Release(Err(error))) {
        Check::Finished(CheckOutcome::Failed(reason)) => assert_eq!(reason, "outer: inner"),
        other => panic!("{other:?}"),
    }
}

#[test]
fn failed_cosmos_check_is_not_up_to_date() {
    let asked = || {
        check_now(None, "0.1.0".to_string(), false, String::new())
            .resume(release("0.0.9"))
            .resume(installed("7"))
    };
    let offline = ErrorChain::new("offline".to_string()).context("tags".to_string());
    match asked().resume(Answer::Tags(Err(offline))) {
        Check::Finished(CheckOutcome::Failed(reason)) => assert_eq!(reason, "tags: offline"),
        other => panic!("{other:?}"),
    }
    match asked().resume(tags(&[])) {
        Check::Finished(CheckOutcome::Failed(reason)) => {
            assert_eq!(reason, "no tags found on the COSMOS project repo")
        }
        other => panic!("{other:?}"),
    }
}

#[test]
fn missing_token_is_not_up_to_date() {
    let check = check_now(None, "0.1.0".to_string(), true, " ".to_string())
        .resume(release("0.0.9"))
        .resume(installed("7"));
    match check {
        Check::Finished(CheckOutcome::Failed(reason)) => assert_eq!(
            reason,
            "COSMOS Enterprise update check needs a repos.openc3.com access token"
        ),
        other => panic!("{other:?}"),
    }
}

#[test]
fn cosmos_that_is_not_installed_is_up_to_date() {
    let check = check_now(None, "0.1.0".to_string(), true, " ".to_string())
        .resume(release("0.1.0"))
        .resume(Answer::Env(None));
    assert!(matches!(check, Check::Finished(CheckOutcome::UpToDate)));
}

#[test]
fn failed_periodic_check_finds_nothing() {
    let offline = Answer::Tags(Err(ErrorChain::new("offline".to_string())));
    let check = cosmos_check(true, "token".to_string()).resume(installed("7")).resume(offline);
    assert!(matches!(&check, CosmosCheck::Failed(_)));
    assert!(check.found().is_none());
    let check = cosmos_check(true, "token".to_string()).resume(installed("7"));
    assert!(check.found().is_none());
    let check = cosmos_check(false, String::new()).resume(Answer::Env(None));
    assert!(matches!(&check, CosmosCheck::Finished(None)));
    let check = cosmos_check(false, String::new()).resume(installed("7")).resume(tags(&["v8"]));
    assert_eq!(check.found().unwrap().tag, "v8");
}

#[test]
fn version_that_runs_decides() {
    let check = check_now(None, "9.9.9".to_string(), false, String::new()).resume(release("v9.0.0"));
    assert!(matches!(check, Check::Cosmos(_)));
    let check = check_now(None, "8.9.9".to_string(), false, String::new()).resume(release("v9.0.0"));
    assert!(matches!(check, Check::Finished(CheckOutcome::AppUpdate(_))));
}

#[test]
fn answers_to_other_questions_change_nothing() {
    let check = check_now(None, "0.1.0".to_string(), false, String::new()).resume(installed("7")).resume(tags(&["8"]));
    assert!(matches!(check, Check::FetchRelease { .. }));
    let check = check.resume(release("9.0.0")).resume(release("10.0.0"));
    match check {
        Check::Finished(CheckOutcome::AppUpdate(found)) => assert_eq!(found.version, "9.0.0"),
        other => panic!("{other:?}"),
    }
}

#[test]
fn periodic_check_is_skipped_in_development_mode() {
    assert!(cosmos_check_due(false, true));
    assert!(!cosmos_check_due(true, true));
    assert!(!cosmos_check_due(false, false));
}

#[test]
fn fruitless_check_leaves_what_was_found_before() {
    assert_eq!(published(Some(1), None), Some(1));
    assert_eq!(published(Some(1), Some(2)), Some(2));
    assert_eq!(published(None::<i32>, None), None);
}
