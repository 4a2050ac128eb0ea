use openc3_cosmos_app::error::ErrorChain;
use openc3_cosmos_app::plan::{Plan, Step};
use openc3_cosmos_app::status::{
    monitor_loop, status, ContainerStatus, Health, RunState, Snapshot, MONITOR_PAUSE,
};

fn container(service: &str, state: RunState, healthy: bool) -> ContainerStatus {
    ContainerStatus {
        service: service.to_string(),
        tag: "7.0.0".to_string(),
        status: "Up 2 hours".to_string(),
        cpu: "1.5%".to_string(),
        memory: "20 MiB".to_string(),
        ports: "2900".to_string(),
        state,
        running: state == RunState::Running,
        healthy,
    }
}

fn printed(plan: &Plan) -> Vec<String> {
    plan.steps
        .iter()
        .map(|planned| match &planned.step {
            Step::Print(line) => line.clone(),
            other => panic!("{other:?}"),
        })
        .collect()
}

#[test]
fn table_shows_every_container() {
    let plan = status(Some(Snapshot {
        containers: vec![
            container("api", RunState::Running, true),
            container("db", RunState::ExitedFailure, false),
        ],
        cpu_total: "3.0%".to_string(),
        memory_total: "40 MiB".to_string(),
    }));
    let (label, blank) = ("Total", "");
    assert_eq!(
        printed(&plan),
        vec![
            "1 of 2 containers running".to_string(),
            format!(
                "  ● {:<34} {:<14} {:<24} {:>7} {:>12}  {}",
                "api", "7.0.0", "Up 2 hours", "1.5%", "20 MiB", "2900"
            ),
            format!(
                "  ○ {:<34} {:<14} {:<24} {:>7} {:>12}  {}",
                "db", "7.0.0", "Up 2 hours", "1.5%", "20 MiB", "2900"
            ),
            format!("    {label:<34} {blank:<14} {blank:<24} {:>7} {:>12}", "3.0%", "40 MiB"),
        ]
    );
}

#[test]
fn empty_table_has_no_totals() {
    let plan = status(Some(Snapshot {
        containers: Vec::new(),
        cpu_total: "0%".to_string(),
        memory_total: "0".to_string(),
    }));
    assert_eq!(printed(&plan), vec!["0 of 0 containers running".to_string()]);
}

#[test]
fn docker_lists_the_containers_otherwise() {
    let plan = status(None);
    assert_eq!(plan.steps.len(), 1);
    assert!(matches!(plan.next_step(), Some(Step::ListContainers)));
}

#[test]
fn states_have_their_signs() {
    assert_eq!(RunState::Running.glyph(), "●");
    assert_eq!(RunState::ExitedSuccess.glyph(), "○");
    assert_eq!(RunState::ExitedFailure.glyph(), "○");
    assert_eq!(RunState::Restarting.glyph(), "↻");
    assert_eq!(RunState::Paused.glyph(), "❚");
    assert_eq!(RunState::Unknown.glyph(), "?");
}

#[test]
fn monitor_names_the_unhealthy() {
    let turn = monitor_loop(Ok(Health {
        containers: vec![
            container("api", RunState::Running, false),
            container("db", RunState::Running, true),
            container("web", RunState::Running, false),
        ],
        summary: "3 up".to_string(),
    }));
    assert_eq!(turn.line, "[warn] 3 up — unhealthy: api, web");
    assert_eq!(turn.pause_seconds, MONITOR_PAUSE);
    assert_eq!(MONITOR_PAUSE, 5);
}

#[test]
fn monitor_says_that_all_is_well() {
    let turn = monitor_loop(Ok(Health { containers: Vec::new(), summary: "none".to_string() }));
    assert_eq!(turn.line, "[ok] none");
}

#[test]
fn monitor_reports_the_outermost_error() {
    let error = ErrorChain::new("inner".to_string()).context("outer".to_string());
    assert_eq!(monitor_loop(Err(error)).line, "[error] outer");
}
