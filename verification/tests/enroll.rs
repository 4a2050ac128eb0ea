use openc3_cosmos_app::context::Output;
use openc3_cosmos_app::enroll::{
    auto_enroll, brief, connection_error, enroll_error, enrolled_ticket, forget_cached_ticket,
    given, peer_certificate_error, read_ticket, resolve_ticket, save_error, write_current,
    Forgetting, Resolution, TicketSource,
};
use openc3_cosmos_app::error::ErrorChain;
use openc3_cosmos_app::pairing::Current;
use openc3_cosmos_app::plan::{Reply, Step};

fn error(message: &str) -> ErrorChain {
    ErrorChain::new(message.to_string())
}

fn current(manual: bool) -> Option<Current> {
    Some(Current { bridge: "B".to_string(), ticket: "t".to_string(), manual })
}

fn output(success: bool, stdout: &[u8], stderr: &[u8]) -> Output {
    Output {
        success,
        status: String::new(),
        stdout: stdout.to_vec(),
        stderr: stderr.to_vec(),
    }
}

#[test]
fn recognizes_peer_certificate_errors() {
    let error = ErrorChain::new(
        "connect api/host_microservices: cryptographic handshake failed: error 48: invalid peer certificate: UnknownIssuer".to_string(),
    );
    assert!(peer_certificate_error(&error));
}

#[test]
fn does_not_treat_transient_connection_errors_as_stale_certificates() {
    let error = ErrorChain::new("connect api/host_microservices: timed out".to_string());
    assert!(!peer_certificate_error(&error));
}

#[test]
fn certificate_is_blamed_anywhere_in_the_chain() {
    let chain = error("INVALID Peer Certificate").context("dial".to_string());
    assert!(peer_certificate_error(&chain.context("connect".to_string())));
    assert!(peer_certificate_error(&error("x: unknownissuer").context("y".to_string())));
    assert!(!peer_certificate_error(&error("peer certificate").context("invalid".to_string())));
}

#[test]
fn brief_is_one_short_line() {
    assert_eq!(brief(&error("  first \r\nsecond")), "first");
    assert_eq!(brief(&error("inner").context("outer".to_string())), "outer");
    assert_eq!(brief(&error("")), "");
    assert_eq!(brief(&error("\nlater")), "");
    let longest = "é".repeat(160);
    assert_eq!(brief(&error(&longest)), longest);
    let cut = format!("{}…", "é".repeat(159));
    assert_eq!(brief(&error(&"é".repeat(161))), cut);
    assert_eq!(cut.chars().count(), 160);
}

#[test]
fn unreachable_hub_is_explained() {
    assert_eq!(
        connection_error(&error("timed out").context("dial".to_string())),
        "can't reach the bridge hub — it may still be starting, or its ticket is stale after a COSMOS restart; press Retry (dial)"
    );
}

#[test]
fn failed_enrollment_is_explained() {
    assert_eq!(enroll_error(false, "B", &error("x\ny")), "enrolling bridge 'B' failed: x");
    assert_eq!(enroll_error(true, "B", &error("x")), "re-enrolling bridge 'B' failed: x");
    assert_eq!(save_error(&error("x")), "could not save refreshed bridge enrollment: x");
}

#[test]
fn record_is_written_to_the_bridge_folder() {
    let plan = write_current("B", "t", true);
    assert_eq!(plan.steps.len(), 2);
    assert!(matches!(&plan.steps[0].step, Step::CreateFolder(folder)
        if folder.parts == vec!["bridge"]));
    match &plan.steps[1].step {
        Step::SaveCurrent(current) => {
            assert_eq!(current.bridge, "B");
            assert_eq!(current.ticket, "t");
            assert!(current.manual);
        }
        other => panic!("{other:?}"),
    }
    let plan = plan.resume(Reply::Failed(error("there"))).resume(Reply::Failed(error("full")));
    assert_eq!(plan.failure.unwrap().in_full(), "persisting current bridge: full");
}

#[test]
fn manual_pairing_is_not_forgotten() {
    assert_eq!(forget_cached_ticket(&current(true)), Forgetting::Keep);
    assert_eq!(forget_cached_ticket(&current(false)), Forgetting::Remove);
    assert_eq!(forget_cached_ticket(&None), Forgetting::Remove);
}

#[test]
fn environment_comes_before_the_record() {
    match resolve_ticket(Some("e".to_string()), current(true), None) {
        Resolution::Use(resolved) => {
            assert_eq!(resolved.ticket, "e");
            assert!(matches!(resolved.source, TicketSource::Environment));
        }
        other => panic!("{other:?}"),
    }
    assert!(given(&Some(" ".to_string())));
    assert!(!given(&Some(String::new())));
    assert!(!given(&None));
}

#[test]
fn record_comes_before_enrollment() {
    match resolve_ticket(Some(String::new()), current(true), Some("N".to_string())) {
        Resolution::Use(resolved) => {
            assert_eq!(resolved.ticket, "t");
            assert!(matches!(resolved.source, TicketSource::CachedManual));
        }
        other => panic!("{other:?}"),
    }
    match resolve_ticket(None, current(false), None) {
        Resolution::Use(resolved) => {
            assert!(matches!(resolved.source, TicketSource::CachedAuto { bridge } if bridge == "B"))
        }
        other => panic!("{other:?}"),
    }
}

#[test]
fn bridge_to_enroll_with_can_be_named() {
    let bridge = |name: Option<&str>| {
        match resolve_ticket(None, None, name.map(|name| name.to_string())) {
            Resolution::Enroll { bridge } => bridge,
            other => panic!("{other:?}"),
        }
    };
    assert_eq!(bridge(Some("N")), "N");
    assert_eq!(bridge(Some("")), "DEFAULT");
    assert_eq!(bridge(None), "DEFAULT");
}

#[test]
fn enrollment_runs_in_a_container() {
    assert_eq!(
        auto_enroll("B", "abcd").join(" "),
        "run --rm --no-deps openc3-cosmos-cmd-tlm-api ruby /openc3/bin/openc3cli bridgeenroll B abcd"
    );
}

#[test]
fn ticket_is_what_was_printed() {
    assert_eq!(read_ticket(true, " t\n", "noise").unwrap(), "t");
    assert_eq!(
        read_ticket(true, " \n", "").unwrap_err().in_full(),
        "bridgeenroll returned no ticket"
    );
    assert_eq!(
        read_ticket(false, "t", " no bridge \n").unwrap_err().in_full(),
        "bridgeenroll failed: no bridge"
    );
}

#[test]
fn output_need_not_be_text() {
    assert_eq!(enrolled_ticket(Ok(output(true, b"t\xc3\xa9\n", b""))).unwrap(), "té");
    assert_eq!(enrolled_ticket(Ok(output(true, b"t\xffu\n", b""))).unwrap(), "t\u{fffd}u");
    assert_eq!(
        enrolled_ticket(Ok(output(false, b"", b"\xff\n"))).unwrap_err().in_full(),
        "bridgeenroll failed: \u{fffd}"
    );
    assert_eq!(enrolled_ticket(Err(error("no docker"))).unwrap_err().in_full(), "no docker");
}
