use openc3_cosmos_app::commands::{
    build, cleanup, cli, logs, open_browser, restart, run, run_dev, start, stop, upgrade_cosmos,
};
use openc3_cosmos_app::context::{Context, EnvFile, Folder, Os};
use openc3_cosmos_app::error::ErrorChain;
use openc3_cosmos_app::plan::{FolderEntry, Plan, Reply, Step};

fn installed(os: Os, devel: bool) -> Context {
    Context {
        os,
        dev_folder: None,
        cosmos: "/opt/cosmos".to_string(),
        devel,
        enterprise: false,
    }
}

fn development(os: Os) -> Context {
    Context {
        os,
        dev_folder: Some("/src/cosmos".to_string()),
        cosmos: "/opt/cosmos".to_string(),
        devel: false,
        enterprise: false,
    }
}

fn words(list: &[&str]) -> Vec<String> {
    list.iter().map(|word| word.to_string()).collect()
}

fn steps(plan: &Plan) -> Vec<String> {
    plan.steps.iter().map(|planned| format!("{:?}", planned.step)).collect()
}

fn error(message: &str) -> ErrorChain {
    ErrorChain::new(message.to_string())
}

fn found(found: bool) -> Reply {
    Reply::Found { found, shown: "/shown".to_string() }
}

fn entry(name: &str, is_dir: bool) -> Reply {
    Reply::Entry(Some(FolderEntry { name: name.to_string(), is_dir }))
}

#[test]
fn development_folder_runs_its_script() {
    let plan = Plan::new(run_dev(Os::Other, "/src", "run", &words(&["a", "b"])));
    match &plan.steps[1].step {
        Step::Run(invocation) => {
            let shown = format!("{invocation:?}");
            assert!(shown.contains("program: Text(\"bash\")"));
            assert!(shown.contains("Text(\"run\"), Text(\"a\"), Text(\"b\")"));
            assert!(shown.contains("openc3.sh"));
            assert_eq!(invocation.dir.as_ref().unwrap().folder, Folder::Development);
        }
        other => panic!("{other:?}"),
    }
    let plan = plan.resume(found(true)).resume(Reply::Done);
    assert!(plan.next_step().is_none() && plan.failure.is_none());
}

#[test]
fn windows_runs_the_batch_file_itself() {
    let plan = Plan::new(run_dev(Os::Windows, "/src", "run", &Vec::new()));
    match &plan.steps[1].step {
        Step::Run(invocation) => {
            let shown = format!("{invocation:?}");
            assert!(shown.starts_with("Invocation { program: Path(FilePath { folder: Development"));
            assert!(shown.contains("openc3.bat"));
            assert_eq!(invocation.args.len(), 1);
        }
        other => panic!("{other:?}"),
    }
}

#[test]
fn development_folder_needs_its_script() {
    let plan = stop(&development(Os::Other)).resume(found(false));
    assert!(plan.next_step().is_none());
    assert_eq!(
        plan.failure.unwrap().in_full(),
        "Development folder '/src/cosmos' does not contain openc3.sh."
    );
    let plan = run(&development(Os::Windows)).resume(found(false));
    assert_eq!(
        plan.failure.unwrap().in_full(),
        "Development folder '/src/cosmos' does not contain openc3.bat."
    );
}

#[test]
fn only_a_development_install_is_built() {
    let plan = build(&installed(Os::Other, true), &words(&["--no-cache"])).unwrap();
    assert_eq!(steps(&plan), ["SetUp", "ComposeWithBuild([\"build\", \"--no-cache\"])"]);
    assert_eq!(
        build(&installed(Os::Other, false), &Vec::new()).unwrap_err().in_full(),
        "'build' is only available for development installs (no compose-build.yaml found)."
    );
    let plan = build(&development(Os::Other), &words(&["x"])).unwrap();
    assert!(steps(&plan)[1].contains("Text(\"build\"), Text(\"x\")"));
}

#[test]
fn run_brings_the_containers_up() {
    let plan = run(&installed(Os::Windows, false));
    assert_eq!(
        steps(&plan),
        [
            "SetUp",
            "Progress(\"Starting COSMOS containers (first run downloads images — this can take several minutes)…\")",
            "Up",
            "Progress(\"COSMOS is starting. Access it at http://localhost:2900\")",
        ]
    );
    assert_eq!(steps(&run(&installed(Os::MacOs, false)))[0], "QueryUser");
}

#[test]
fn root_is_warned() {
    let warning = "Warn(\"WARNING: COSMOS should not be run as root; Local Mode file permissions will be affected.\")";
    let plan = run(&installed(Os::Other, false)).resume(Reply::User(Some(b"0\n".to_vec())));
    assert_eq!(steps(&plan)[0], warning);
    assert_eq!(steps(&plan.resume(Reply::Done))[0], "SetUp");
    for printed in [Some(b"1000\n".to_vec()), Some(b"\xff0".to_vec()), Some(Vec::new()), None] {
        let plan = run(&installed(Os::Other, false)).resume(Reply::User(printed));
        assert_eq!(steps(&plan)[0], "SetUp");
    }
}

#[test]
fn failed_setup_starts_nothing() {
    let plan = run(&installed(Os::Windows, false)).resume(Reply::Failed(error("no docker")));
    assert!(plan.next_step().is_none());
    assert_eq!(plan.failure.as_ref().unwrap().in_full(), "no docker");
    let plan = plan.resume(Reply::Done).resume(Reply::Failed(error("later")));
    assert_eq!(plan.failure.unwrap().in_full(), "no docker");
}

#[test]
fn start_builds_a_development_install_first() {
    let plan = start(&installed(Os::Windows, true), &words(&["x"]));
    assert_eq!(steps(&plan)[..3], ["SetUp", "ComposeWithBuild([\"build\", \"x\"])", "SetUp"]);
    let plan = start(&installed(Os::Windows, false), &words(&["x"]));
    assert_eq!(steps(&plan), steps(&run(&installed(Os::Windows, false))));
    let plan = start(&development(Os::Other), &words(&["x"]));
    assert!(steps(&plan)[1].contains("Text(\"start\"), Text(\"x\")"));
}

#[test]
fn restart_stops_then_runs() {
    let ctx = installed(Os::Windows, false);
    let plan = restart(&ctx);
    assert_eq!(steps(&plan)[0], "Stop");
    assert_eq!(steps(&plan)[1..], steps(&run(&ctx)));
    let plan = plan.resume(Reply::Failed(error("stuck")));
    assert!(plan.next_step().is_none());
    assert_eq!(plan.failure.unwrap().in_full(), "stuck");
}

#[test]
fn upgrade_carries_the_users_files_over() {
    let plan = upgrade_cosmos(&installed(Os::Windows, false), "v7.3.0", true, "secret")
        .resume(Reply::Done)
        .resume(Reply::Contents(Some(b"A=1".to_vec())))
        .resume(Reply::Contents(None));
    assert_eq!(
        steps(&plan)[..6],
        [
            "Progress(\"Stopping COSMOS…\")",
            "Stop",
            "Progress(\"Replacing the COSMOS install with the new version…\")",
            "RemoveCosmos",
            "Install { tag: \"v7.3.0\", enterprise: true, token: \"secret\" }",
            "Restore { name: \".env.local\", contents: [65, 61, 49] }",
        ]
    );
    assert_eq!(steps(&plan)[6], "Progress(\"Starting the upgraded COSMOS…\")");
    let mut plan = plan;
    for _ in 0..6 {
        plan = plan.resume(Reply::Done);
    }
    assert_eq!(steps(&plan)[0], "Progress(\"Preserved .env.local.\")");
    assert_eq!(
        steps(&plan).last().unwrap(),
        "Progress(\"COSMOS upgraded to v7.3.0. It is restarting.\")"
    );
}

#[test]
fn upgrade_goes_on_where_stopping_fails() {
    for ctx in [installed(Os::Other, false), development(Os::Other)] {
        let mut plan = upgrade_cosmos(&ctx, "v1", false, "");
        for _ in 0..4 {
            let reply = if matches!(plan.next_step(), Some(Step::Keep(_))) {
                Reply::Contents(None)
            } else {
                Reply::Done
            };
            plan = plan.resume(reply);
        }
        let plan = plan.resume(Reply::Failed(error("not running")));
        assert_eq!(
            steps(&plan)[0],
            "Progress(\"Replacing the COSMOS install with the new version…\")"
        );
    }
}

/// Carries an upgrade out up to the step that `stop` picks, both files having been read.
fn upgrade_up_to(stop: fn(&Step) -> bool) -> Plan {
    let mut plan = upgrade_cosmos(&installed(Os::Other, false), "v1", false, "");
    while !plan.next_step().is_some_and(stop) {
        let reply = match plan.next_step() {
            Some(Step::Keep(name)) => Reply::Contents(Some(name.as_bytes()[..2].to_vec())),
            Some(_) => Reply::Done,
            None => panic!("no such step"),
        };
        plan = plan.resume(reply);
    }
    plan
}

const SAVED: [&str; 3] = [
    "CreateFolder(FilePath { folder: Cosmos, parts: [] })",
    "Restore { name: \".env.local\", contents: [46, 101] }",
    "Restore { name: \"compose.override.yaml\", contents: [99, 111] }",
];

#[test]
fn failed_installation_writes_the_files_back() {
    let plan = upgrade_up_to(|step| matches!(step, Step::Install { .. }));
    let plan = plan.resume(Reply::Failed(error("offline")));
    assert_eq!(steps(&plan), SAVED);
    let plan = plan.resume(Reply::Done).resume(Reply::Done);
    assert_eq!(steps(&plan)[0], "Progress(\"Preserved .env.local.\")");
    let mut plan = plan.resume(Reply::Done).resume(Reply::Failed(error("full")));
    while plan.next_step().is_some() {
        plan = plan.resume(Reply::Done);
    }
    assert_eq!(plan.failure.unwrap().in_full(), "offline");
}

#[test]
fn failed_installation_without_files_just_ends() {
    let mut plan = upgrade_cosmos(&installed(Os::Other, false), "v1", false, "");
    while !matches!(plan.next_step(), Some(Step::Install { .. })) {
        let reply = match plan.next_step() {
            Some(Step::Keep(_)) => Reply::Contents(None),
            _ => Reply::Done,
        };
        plan = plan.resume(reply);
    }
    let plan = plan.resume(Reply::Failed(error("offline")));
    assert!(plan.next_step().is_none());
    assert_eq!(plan.failure.unwrap().in_full(), "offline");
}

#[test]
fn failed_removal_writes_the_files_back() {
    let plan = upgrade_up_to(|step| matches!(step, Step::RemoveCosmos));
    let plan = plan.resume(Reply::Failed(error("busy")));
    assert_eq!(steps(&plan), SAVED);
    assert_eq!(
        plan.failure.unwrap().in_full(),
        "removing the old COSMOS install at /opt/cosmos: busy"
    );
}

#[test]
fn failed_restoration_still_writes_the_other_file_back() {
    let plan = upgrade_up_to(|step| matches!(step, Step::Restore { .. }));
    let plan = plan.resume(Reply::Failed(error("disk full")));
    assert_eq!(steps(&plan), [SAVED[0], SAVED[2]]);
    assert_eq!(plan.failure.unwrap().in_full(), "restoring .env.local: disk full");
}

#[test]
fn browser_is_that_of_the_system() {
    let shown = format!("{:?}", open_browser(Os::MacOs, "https://x"));
    assert!(shown.contains("Text(\"open\")") && shown.contains("[Text(\"https://x\")]"));
    let shown = format!("{:?}", open_browser(Os::Windows, "u"));
    assert!(shown.contains("[Text(\"/C\"), Text(\"start\"), Text(\"\"), Text(\"u\")]"));
    let shown = format!("{:?}", open_browser(Os::Other, "u"));
    assert!(shown.contains("Text(\"xdg-open\")"));
}

#[test]
fn logs_of_one_service_can_be_followed() {
    let plan = logs(Some("api".to_string()), true);
    assert_eq!(steps(&plan), ["Logs { service: Some(\"api\"), follow: true }"]);
    assert_eq!(steps(&logs(None, false)), ["Logs { service: None, follow: false }"]);
}

#[test]
fn cleanup_asks_first() {
    let ctx = installed(Os::Other, false);
    for line in ["", "n\n", "yes\n", "yy"] {
        let plan = cleanup(&ctx, true, false).resume(Reply::Line(line.to_string()));
        assert_eq!(steps(&plan), ["Print(\"Aborted.\")"], "{line:?}");
        assert!(plan.resume(Reply::Done).next_step().is_none());
    }
    let plan = cleanup(&ctx, true, false).resume(Reply::Failed(error("no terminal")));
    assert_eq!(steps(&plan), ["Print(\"Aborted.\")"]);
    assert!(plan.failure.is_none());
    for line in ["y", " Y \r\n"] {
        let plan = cleanup(&ctx, true, false).resume(Reply::Line(line.to_string()));
        assert_eq!(steps(&plan), steps(&cleanup(&ctx, true, true)));
    }
    assert_eq!(
        steps(&cleanup(&ctx, false, false))[0],
        "Confirm(\"Are you sure? Cleanup removes ALL docker volumes and COSMOS data! [y/N] \")"
    );
    assert_eq!(steps(&cleanup(&ctx, false, true)), ["DownVolumes"]);
}

#[test]
fn cleanup_sweeps_the_local_plugins() {
    let plan = cleanup(&installed(Os::Other, false), true, true).resume(Reply::Done);
    match plan.next_step() {
        Some(Step::Sweep(folder)) => assert_eq!(folder.parts, vec!["plugins", "DEFAULT"]),
        other => panic!("{other:?}"),
    }
    let plan = plan.resume(found(true)).resume(entry("README.md", false));
    assert_eq!(steps(&plan), ["NextEntry"]);
    let plan = plan.resume(entry("old", true));
    assert_eq!(steps(&plan), ["Remove { name: \"old\", is_dir: true }", "NextEntry"]);
    let plan = plan.resume(Reply::Failed(error("busy"))).resume(entry("f", false));
    assert_eq!(steps(&plan)[0], "Remove { name: \"f\", is_dir: false }");
    let plan = plan.resume(Reply::Done).resume(Reply::Entry(None));
    assert!(plan.next_step().is_none() && plan.failure.is_none());
}

#[test]
fn cleanup_without_plugins_is_done() {
    let plan = cleanup(&installed(Os::Other, false), true, true).resume(Reply::Done);
    let plan = plan.resume(found(false));
    assert!(plan.next_step().is_none() && plan.failure.is_none());
}

#[test]
fn unreadable_plugins_end_the_cleanup() {
    let plan = cleanup(&installed(Os::Other, false), true, true).resume(Reply::Done);
    let plan = plan.resume(found(true)).resume(Reply::Failed(error("denied")));
    assert!(plan.next_step().is_none());
    assert_eq!(plan.failure.unwrap().in_full(), "denied");
}

#[test]
fn development_cleanup_does_not_ask_twice() {
    let plan = cleanup(&development(Os::Other), true, true);
    assert!(steps(&plan)[1].contains("Text(\"cleanup\"), Text(\"local\"), Text(\"force\")"));
    let plan = cleanup(&development(Os::Other), false, false);
    assert!(steps(&plan)[2].contains("Text(\"cleanup\"), Text(\"force\")"));
}

#[test]
fn command_line_tool_runs_in_a_container() {
    let env = EnvFile {
        entries: vec![
            ("OPENC3_API_USER".to_string(), "me".to_string()),
            ("OPENC3_API_PASSWORD".to_string(), "pw".to_string()),
        ],
    };
    let mut ctx = installed(Os::Other, false);
    ctx.enterprise = true;
    let plan = cli(&ctx, Ok(env), Ok("/here".to_string()), &words(&["validate", "x"]), true)
        .unwrap();
    match plan.next_step() {
        Some(Step::Compose(args)) => assert_eq!(
            args.join(" "),
            "run -it --rm --user=root -v /here:/openc3/local:z -w /openc3/local -e OPENC3_API_USER=me -e OPENC3_API_PASSWORD=pw --no-deps openc3-cosmos-cmd-tlm-api ruby /openc3/bin/openc3cli validate x"
        ),
        other => panic!("{other:?}"),
    }
}

#[test]
fn user_is_passed_on_for_enterprise_only() {
    let env = EnvFile {
        entries: vec![("OPENC3_API_USER".to_string(), "me".to_string())],
    };
    let ctx = installed(Os::Other, false);
    let plan = cli(&ctx, Ok(env), Ok("/h".to_string()), &Vec::new(), false).unwrap();
    match plan.next_step() {
        Some(Step::Compose(args)) => assert_eq!(
            args.join(" "),
            "run -it --rm -v /h:/openc3/local:z -w /openc3/local --no-deps openc3-cosmos-cmd-tlm-api ruby /openc3/bin/openc3cli"
        ),
        other => panic!("{other:?}"),
    }
}

#[test]
fn command_line_tool_needs_its_environment() {
    let ctx = installed(Os::Other, false);
    let failed = cli(&ctx, Err(error("gone")), Err(error("cwd")), &Vec::new(), false);
    assert_eq!(
        failed.unwrap_err().in_full(),
        "reading the COSMOS .env file (is COSMOS installed?): gone"
    );
    let env = EnvFile { entries: Vec::new() };
    let failed = cli(&ctx, Ok(env), Err(error("cwd")), &Vec::new(), false);
    assert_eq!(failed.unwrap_err().in_full(), "cwd");
}

#[test]
fn tests_run_on_a_development_install() {
    let plan = openc3_cosmos_app::commands::test(&installed(Os::Other, true), &words(&["rspec"])).unwrap();
    assert_eq!(steps(&plan)[..2], ["SetUp", "ComposeWithBuild([\"build\"])"]);
    let plan = plan.resume(Reply::Done).resume(Reply::Done);
    let missing = plan.resume(found(false));
    assert_eq!(
        missing.failure.unwrap().in_full(),
        "test script not found at /shown. Available in a full source checkout only."
    );
    let plan = openc3_cosmos_app::commands::test(&installed(Os::Other, true), &words(&["rspec"])).unwrap();
    let plan = plan.resume(Reply::Done).resume(Reply::Done).resume(found(true));
    let shown = &steps(&plan)[0];
    assert!(shown.contains("\"scripts\", \"linux\", \"openc3_test.sh\"") && shown.contains("rspec"));
    assert_eq!(
        openc3_cosmos_app::commands::test(&installed(Os::Other, false), &Vec::new()).unwrap_err().in_full(),
        "'test' requires a development install with the COSMOS source tree."
    );
}
