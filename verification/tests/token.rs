use openc3_cosmos_app::error::ErrorChain;
use openc3_cosmos_app::token::{
    enroll_with_token, follow_decoding, EnrollToken, TokenEnrollment, TokenEvent,
};

const SECRET: [u8; 32] = [7; 32];

fn error(message: &str) -> ErrorChain {
    ErrorChain::new(message.to_string())
}

fn parsed() -> TokenEvent {
    TokenEvent::Parsed(Ok(EnrollToken {
        bridge: "B".to_string(),
        ticket: "t".to_string(),
        code: "c".to_string(),
    }))
}

fn reason(state: TokenEnrollment) -> String {
    match state {
        TokenEnrollment::Failed(error) => error.in_full(),
        other => panic!("{other:?}"),
    }
}

#[test]
fn token_is_decoded() {
    match enroll_with_token("  eyJhIjoiPz8_In0\n") {
        TokenEnrollment::Parse { raw } => assert_eq!(raw, b"{\"a\":\"???\"}"),
        other => panic!("{other:?}"),
    }
}

#[test]
fn token_has_to_be_base64_for_addresses() {
    for token in ["a+b/", "e30=", "é", "a"] {
        assert!(reason(enroll_with_token(token))
            .starts_with("enrollment token is not valid base64: "));
    }
    assert_eq!(
        reason(enroll_with_token("+")),
        "enrollment token is not valid base64: Invalid symbol 43, offset 0."
    );
}

#[test]
fn decoded_token_is_parsed_next() {
    match follow_decoding(Ok(b"x".to_vec())) {
        TokenEnrollment::Parse { raw } => assert_eq!(raw, b"x"),
        other => panic!("{other:?}"),
    }
    assert_eq!(
        reason(follow_decoding(Err("bad".to_string()))),
        "enrollment token is not valid base64: bad"
    );
}

#[test]
fn token_is_redeemed_and_saved() {
    let state = enroll_with_token("e30").resume(parsed()).resume(TokenEvent::Identity(Ok(SECRET)));
    match &state {
        TokenEnrollment::Redeem { secret, token } => {
            assert_eq!(*secret, SECRET);
            assert_eq!(token.ticket, "t");
            assert_eq!(token.code, "c");
        }
        other => panic!("{other:?}"),
    }
    let state = state.resume(TokenEvent::Redeemed(None));
    match &state {
        TokenEnrollment::Save { current } => {
            assert_eq!(current.bridge, "B");
            assert_eq!(current.ticket, "t");
            assert!(current.manual);
        }
        other => panic!("{other:?}"),
    }
    let state = state.resume(TokenEvent::Saved(None));
    assert!(matches!(&state, TokenEnrollment::Paired { bridge } if bridge == "B"));
}

#[test]
fn failed_token_enrollment_is_explained() {
    let start = || enroll_with_token("e30");
    let failed = start().resume(TokenEvent::Parsed(Err(error("missing field"))));
    assert_eq!(reason(failed), "enrollment token has an unexpected format: missing field");
    let failed = start().resume(parsed()).resume(TokenEvent::Identity(Err(error("denied"))));
    assert_eq!(reason(failed), "denied");
    let redeeming = || start().resume(parsed()).resume(TokenEvent::Identity(Ok(SECRET)));
    let failed = redeeming().resume(TokenEvent::Redeemed(Some(error("used"))));
    assert_eq!(reason(failed), "redeeming enrollment token: used");
    let failed = redeeming().resume(TokenEvent::Redeemed(None));
    let failed = failed.resume(TokenEvent::Saved(Some(error("full"))));
    assert_eq!(reason(failed), "full");
}

#[test]
fn unrelated_token_events_change_nothing() {
    let state = enroll_with_token("e30").resume(TokenEvent::Saved(None));
    assert!(matches!(&state, TokenEnrollment::Parse { .. }));
    let state = state.resume(parsed()).resume(parsed());
    assert!(matches!(&state, TokenEnrollment::LoadIdentity { .. }));
}
