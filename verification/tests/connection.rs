use openc3_cosmos_app::connection::{connect_bridge, Connection, Event};
use openc3_cosmos_app::context::Output;
use openc3_cosmos_app::enroll::TicketSource;
use openc3_cosmos_app::error::ErrorChain;
use openc3_cosmos_app::identity::public_key_hex;
use openc3_cosmos_app::pairing::Current;

const SECRET: [u8; 32] = [7; 32];

fn error(message: &str) -> ErrorChain {
    ErrorChain::new(message.to_string())
}

fn record(manual: bool) -> Event {
    Event::Current(Some(Current { bridge: "B".to_string(), ticket: "old".to_string(), manual }))
}

fn printed(ticket: &str) -> Event {
    Event::Enrolled(Ok(Output {
        success: true,
        status: String::new(),
        stdout: ticket.as_bytes().to_vec(),
        stderr: Vec::new(),
    }))
}

fn started(preset: Option<&str>, name: Option<&str>) -> Connection {
    connect_bridge(preset.map(|text| text.to_string()), name.map(|text| text.to_string()))
        .resume(Event::Identity(Ok(SECRET)))
}

fn stale() -> ErrorChain {
    error("handshake: invalid peer certificate: UnknownIssuer")
}

fn reason(state: Connection) -> String {
    match state {
        Connection::Failed(reason) => reason,
        other => panic!("{other:?}"),
    }
}

#[test]
fn environment_ticket_needs_no_record() {
    let state = started(Some("env"), None);
    assert!(matches!(&state, Connection::Dial { ticket, source: TicketSource::Environment, .. }
        if ticket == "env"));
    let state = state.resume(Event::Dialed(None));
    assert!(matches!(&state, Connection::Validate { .. }));
    let state = state.resume(Event::Validated(None));
    assert!(matches!(&state, Connection::Connected { ticket } if ticket == "env"));
}

#[test]
fn user_owned_tickets_are_never_replaced() {
    for state in [started(Some("env"), None), started(None, None).resume(record(true))] {
        let refused = state.resume(Event::Dialed(Some(stale())));
        assert!(reason(refused).starts_with("can't reach the bridge hub"));
    }
    let state = started(None, None).resume(record(true)).resume(Event::Dialed(None));
    let refused = state.resume(Event::Validated(Some(stale())));
    assert!(reason(refused).ends_with("press Retry (validating bridge connection)"));
}

#[test]
fn lost_identity_is_an_error() {
    let state = connect_bridge(None, None).resume(Event::Identity(Err(error("denied"))));
    assert_eq!(reason(state), "identity error");
}

#[test]
fn first_connection_enrolls() {
    let state = started(None, Some("")).resume(Event::Current(None));
    match &state {
        Connection::Enroll { bridge, args, renewal, .. } => {
            assert_eq!(bridge, "DEFAULT");
            assert_eq!(args[7], "DEFAULT");
            assert_eq!(args[8], public_key_hex(&SECRET));
            assert!(!renewal);
        }
        other => panic!("{other:?}"),
    }
    let state = state.resume(printed("new\n"));
    match &state {
        Connection::Save { current, renewal, .. } => {
            assert_eq!(current.bridge, "DEFAULT");
            assert_eq!(current.ticket, "new");
            assert!(!current.manual && !renewal);
        }
        other => panic!("{other:?}"),
    }
    let state = state.resume(Event::Saved(Some(error("full"))));
    assert!(matches!(&state, Connection::Dial { ticket, source: TicketSource::AutoEnrolled, .. }
        if ticket == "new"));
    let refused = state.resume(Event::Dialed(Some(stale())));
    assert!(reason(refused).starts_with("can't reach the bridge hub"));
}

#[test]
fn failed_enrollment_names_the_bridge() {
    let state = started(None, Some("N")).resume(Event::Current(None));
    let failed = state.resume(Event::Enrolled(Err(error("no docker"))));
    assert_eq!(reason(failed), "enrolling bridge 'N' failed: no docker");
}

#[test]
fn stale_automatic_pairing_is_replaced_once() {
    let state = started(None, Some("N")).resume(record(false));
    assert!(matches!(&state, Connection::Dial { ticket, .. } if ticket == "old"));
    let state = state.resume(Event::Dialed(Some(stale())));
    assert!(matches!(&state, Connection::Forget { bridge, .. } if bridge == "B"));
    let state = state.resume(Event::Forgotten);
    assert!(matches!(&state, Connection::Enroll { bridge, renewal: true, .. } if bridge == "B"));
    let state = state.resume(printed("new")).resume(Event::Saved(None));
    assert!(matches!(&state, Connection::Dial { ticket, .. } if ticket == "new"));
    let again = state.resume(Event::Dialed(None)).resume(Event::Validated(Some(stale())));
    assert!(reason(again).starts_with("can't reach the bridge hub"));
}

#[test]
fn stale_certificate_may_show_in_the_validation() {
    let state = started(None, None).resume(record(false)).resume(Event::Dialed(None));
    let state = state.resume(Event::Validated(Some(stale()))).resume(Event::Forgotten);
    let state = state.resume(printed("new")).resume(Event::Saved(None));
    let state = state.resume(Event::Dialed(None)).resume(Event::Validated(None));
    assert!(matches!(&state, Connection::Connected { ticket } if ticket == "new"));
}

#[test]
fn other_errors_replace_nothing() {
    let state = started(None, None).resume(record(false));
    let refused = state.resume(Event::Dialed(Some(error("timed out"))));
    assert_eq!(
        reason(refused),
        "can't reach the bridge hub — it may still be starting, or its ticket is stale after a COSMOS restart; press Retry (timed out)"
    );
}

#[test]
fn failed_renewal_is_explained() {
    let renewing = || {
        started(None, None)
            .resume(record(false))
            .resume(Event::Dialed(Some(stale())))
            .resume(Event::Forgotten)
    };
    let failed = renewing().resume(Event::Enrolled(Err(error("no docker"))));
    assert_eq!(reason(failed), "re-enrolling bridge 'B' failed: no docker");
    let failed = renewing().resume(printed("new")).resume(Event::Saved(Some(error("full"))));
    assert_eq!(reason(failed), "could not save refreshed bridge enrollment: full");
}

#[test]
fn unrelated_events_change_nothing() {
    let state = connect_bridge(None, None).resume(Event::Forgotten).resume(Event::Saved(None));
    assert!(matches!(&state, Connection::LoadIdentity { .. }));
    let state = state.resume(Event::Identity(Err(error("x")))).resume(Event::Identity(Ok(SECRET)));
    assert_eq!(reason(state), "identity error");
}
