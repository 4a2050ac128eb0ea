//! The course of pairing with a bridge by an enrollment token, from question to
//! question.
//!
//! An enrollment waits for one answer at a time; each variant of its state names the
//! question that is open and holds what is needed to ask it.
use crate::error::{explained, ErrorChain};
use crate::model::{group_views, view_option, view_result};
use crate::pairing::{Current, CurrentView};
use crate::text::{trim, trimmed};
use base64::Engine as _;
use vstd::prelude::*;

verus! {

broadcast use group_views;

/// What an enrollment token holds.
#[derive(Debug)]
pub struct EnrollToken {
    pub bridge: String,
    pub ticket: String,
    /// The code that is redeemed once.
    pub code: String,
}

/// Model of an [`EnrollToken`].
pub struct EnrollTokenView {
    pub bridge: Seq<char>,
    pub ticket: Seq<char>,
    pub code: Seq<char>,
}

impl View for EnrollToken {
    type V = EnrollTokenView;

    open spec fn view(&self) -> EnrollTokenView {
        EnrollTokenView { bridge: self.bridge@, ticket: self.ticket@, code: self.code@ }
    }
}

/// The course of an enrollment by token.
#[derive(Debug)]
pub enum TokenEnrollment {
    /// What do these bytes hold?
    Parse { raw: Vec<u8> },
    /// Which identity does the application have?
    LoadIdentity { token: EnrollToken },
    /// Does the hub take the code?
    Redeem { secret: [u8; 32], token: EnrollToken },
    /// Can this pairing be saved?
    Save { current: Current },
    /// The application is paired with this bridge.
    Paired { bridge: String },
    /// It is not, for the given error.
    Failed(ErrorChain),
}

/// Model of a [`TokenEnrollment`].
pub enum TokenEnrollmentView {
    Parse { raw: Seq<u8> },
    LoadIdentity { token: EnrollTokenView },
    Redeem { secret: Seq<u8>, token: EnrollTokenView },
    Save { current: CurrentView },
    Paired { bridge: Seq<char> },
    Failed(Seq<Seq<char>>),
}

impl View for TokenEnrollment {
    type V = TokenEnrollmentView;

    open spec fn view(&self) -> TokenEnrollmentView {
        match self {
            TokenEnrollment::Parse { raw } => TokenEnrollmentView::Parse { raw: raw@ },
            TokenEnrollment::LoadIdentity { token } => TokenEnrollmentView::LoadIdentity {
                token: token@,
            },
            TokenEnrollment::Redeem { secret, token } => TokenEnrollmentView::Redeem {
                secret: secret@,
                token: token@,
            },
            TokenEnrollment::Save { current } => TokenEnrollmentView::Save { current: current@ },
            TokenEnrollment::Paired { bridge } => TokenEnrollmentView::Paired { bridge: bridge@ },
            TokenEnrollment::Failed(error) => TokenEnrollmentView::Failed(error@),
        }
    }
}

/// An answer to a question of an enrollment by token.
#[derive(Debug)]
pub enum TokenEvent {
    /// What the bytes hold, or why they hold no token.
    Parsed(Result<EnrollToken, ErrorChain>),
    /// The secret key of the application.
    Identity(Result<[u8; 32], ErrorChain>),
    /// The code was redeemed, or was not for the given error.
    Redeemed(Option<ErrorChain>),
    /// The pairing was saved, or was not for the given error.
    Saved(Option<ErrorChain>),
}

/// Model of a [`TokenEvent`].
pub enum TokenEventView {
    Parsed(Result<EnrollTokenView, Seq<Seq<char>>>),
    Identity(Result<Seq<u8>, Seq<Seq<char>>>),
    Redeemed(Option<Seq<Seq<char>>>),
    Saved(Option<Seq<Seq<char>>>),
}

impl View for TokenEvent {
    type V = TokenEventView;

    open spec fn view(&self) -> TokenEventView {
        match self {
            TokenEvent::Parsed(token) => TokenEventView::Parsed(view_result(*token)),
            TokenEvent::Identity(secret) => TokenEventView::Identity(view_result(*secret)),
            TokenEvent::Redeemed(failure) => TokenEventView::Redeemed(view_option(*failure)),
            TokenEvent::Saved(failure) => TokenEventView::Saved(view_option(*failure)),
        }
    }
}

/// What the engine `URL_SAFE_NO_PAD` of the `base64` crate decodes a text to: bytes, or
/// an error in words.
pub uninterp spec fn base64_decoded(text: Seq<char>) -> Result<Seq<u8>, Seq<char>>;

/// Calls `Engine::decode` of the `base64` crate on its engine `URL_SAFE_NO_PAD`. The
/// bytes, or the words of the error, are a function of the text; which function is only
/// named here.
#[verifier::external_body]
fn decode_base64(text: &str) -> (bytes: Result<Vec<u8>, String>)
    ensures
        view_result(bytes) == base64_decoded(text@),
{
    base64::engine::general_purpose::URL_SAFE_NO_PAD.decode(text).map_err(|error| error.to_string())
}

/// The first question about a token that was decoded to `decoded`.
pub open spec fn after_decoding(decoded: Result<Seq<u8>, Seq<char>>) -> TokenEnrollmentView {
    match decoded {
        Ok(raw) => TokenEnrollmentView::Parse { raw },
        Err(reason) => TokenEnrollmentView::Failed(
            seq!["enrollment token is not valid base64"@, reason],
        ),
    }
}

/// Goes on with what a token was decoded to.
pub fn follow_decoding(decoded: Result<Vec<u8>, String>) -> (state: TokenEnrollment)
    ensures
        state@ == after_decoding(view_result(decoded)),
{
    match decoded {
        Ok(raw) => TokenEnrollment::Parse { raw },
        Err(reason) => {
            let error = ErrorChain::new(reason).context(
                "enrollment token is not valid base64".to_owned(),
            );
            assert(error@ == seq!["enrollment token is not valid base64"@, reason@]);
            TokenEnrollment::Failed(error)
        },
    }
}

/// The first question about a token, as the user has given it.
pub open spec fn first_question(token: Seq<char>) -> TokenEnrollmentView {
    after_decoding(base64_decoded(trimmed(token)))
}

/// Starts to pair with a bridge by an enrollment token.
pub fn enroll_with_token(token: &str) -> (state: TokenEnrollment)
    ensures
        state@ == first_question(token@),
{
    let short = trim(token);
    follow_decoding(decode_base64(short.as_str()))
}

/// An enrollment by token after an answer. An answer to another question changes
/// nothing.
pub open spec fn advanced(
    state: TokenEnrollmentView,
    event: TokenEventView,
) -> TokenEnrollmentView {
    match (state, event) {
        (TokenEnrollmentView::Parse { .. }, TokenEventView::Parsed(parsed)) => match parsed {
            Ok(token) => TokenEnrollmentView::LoadIdentity { token },
            Err(error) => TokenEnrollmentView::Failed(
                explained(error, "enrollment token has an unexpected format"@),
            ),
        },
        (TokenEnrollmentView::LoadIdentity { token }, TokenEventView::Identity(secret)) =>
            match secret {
                Ok(secret) => TokenEnrollmentView::Redeem { secret, token },
                Err(error) => TokenEnrollmentView::Failed(error),
            },
        (TokenEnrollmentView::Redeem { token, .. }, TokenEventView::Redeemed(failure)) =>
            match failure {
                Some(error) => TokenEnrollmentView::Failed(
                    explained(error, "redeeming enrollment token"@),
                ),
                None => TokenEnrollmentView::Save {
                    current: CurrentView {
                        bridge: token.bridge,
                        ticket: token.ticket,
                        manual: true,
                    },
                },
            },
        (TokenEnrollmentView::Save { current }, TokenEventView::Saved(failure)) => match failure {
            Some(error) => TokenEnrollmentView::Failed(error),
            None => TokenEnrollmentView::Paired { bridge: current.bridge },
        },
        _ => state,
    }
}

impl TokenEnrollment {
    /// Takes in an answer.
    pub fn resume(self, event: TokenEvent) -> (state: TokenEnrollment)
        ensures
            state@ == advanced(self@, event@),
    {
        match (self, event) {
            (TokenEnrollment::Parse { .. }, TokenEvent::Parsed(parsed)) => match parsed {
                Ok(token) => TokenEnrollment::LoadIdentity { token },
                Err(error) => TokenEnrollment::Failed(
                    error.context("enrollment token has an unexpected format".to_owned()),
                ),
            },
            (TokenEnrollment::LoadIdentity { token }, TokenEvent::Identity(secret)) =>
                match secret {
                    Ok(secret) => TokenEnrollment::Redeem { secret, token },
                    Err(error) => TokenEnrollment::Failed(error),
                },
            (TokenEnrollment::Redeem { token, .. }, TokenEvent::Redeemed(failure)) =>
                match failure {
                    Some(error) => TokenEnrollment::Failed(
                        error.context("redeeming enrollment token".to_owned()),
                    ),
                    None => TokenEnrollment::Save {
                        current: Current {
                            bridge: token.bridge,
                            ticket: token.ticket,
                            manual: true,
                        },
                    },
                },
            (TokenEnrollment::Save { current }, TokenEvent::Saved(failure)) => match failure {
                Some(error) => TokenEnrollment::Failed(error),
                None => TokenEnrollment::Paired { bridge: current.bridge },
            },
            (state, _) => state,
        }
    }
}

/// An enrollment by token after a row of answers.
pub open spec fn run_enrollment(
    state: TokenEnrollmentView,
    events: Seq<TokenEventView>,
) -> TokenEnrollmentView
    decreases events.len(),
{
    if events.len() == 0 {
        state
    } else {
        advanced(run_enrollment(state, events.drop_last()), events.last())
    }
}

/// One of the answers says what the token holds.
pub open spec fn was_parsed(events: Seq<TokenEventView>, token: EnrollTokenView) -> bool {
    events.contains(TokenEventView::Parsed(Ok(token)))
}

/// What was said stays said.
proof fn was_parsed_still(events: Seq<TokenEventView>, token: EnrollTokenView)
    requires
        events.len() > 0,
        was_parsed(events.drop_last(), token) || events.last() == TokenEventView::Parsed(
            Ok(token),
        ),
    ensures
        was_parsed(events, token),
{
    let said = TokenEventView::Parsed(Ok::<EnrollTokenView, Seq<Seq<char>>>(token));
    let front = events.drop_last();
    if events.last() == said {
        assert(events[events.len() - 1] == said);
    } else {
        let i = choose|i: int| 0 <= i < front.len() && front[i] == said;
        assert(events[i] == said);
    }
}

/// The record is the one that a token gives, as a ticket that the user supplied.
pub open spec fn records_token(current: CurrentView, token: EnrollTokenView) -> bool {
    current == (CurrentView { bridge: token.bridge, ticket: token.ticket, manual: true })
}

/// A token is redeemed before the pairing is saved, and the pairing that is saved holds
/// the bridge and the ticket of the token, as a ticket that the user supplied. The
/// application ends up paired only after that was done without an error.
pub proof fn token_is_redeemed_then_saved(
    decoded: Result<Seq<u8>, Seq<char>>,
    events: Seq<TokenEventView>,
)
    ensures
        match run_enrollment(after_decoding(decoded), events) {
            TokenEnrollmentView::Parse { raw } => decoded == Ok::<Seq<u8>, Seq<char>>(raw),
            TokenEnrollmentView::LoadIdentity { token } => was_parsed(events, token),
            TokenEnrollmentView::Redeem { token, .. } => was_parsed(events, token),
            TokenEnrollmentView::Save { current } => {
                &&& events.contains(TokenEventView::Redeemed(None))
                &&& exists|token: EnrollTokenView| #[trigger]
                    was_parsed(events, token) && records_token(current, token)
            },
            TokenEnrollmentView::Paired { bridge } => {
                &&& events.contains(TokenEventView::Redeemed(None))
                &&& events.contains(TokenEventView::Saved(None))
                &&& exists|token: EnrollTokenView| #[trigger]
                    was_parsed(events, token) && token.bridge == bridge
            },
            TokenEnrollmentView::Failed(_) => true,
        },
    decreases events.len(),
{
    if events.len() > 0 {
        let front = events.drop_last();
        let last = events.last();
        token_is_redeemed_then_saved(decoded, front);
        assert(events == front.push(last));
        assert(events[events.len() - 1] == last);
        assert forall|event: TokenEventView| front.contains(event) implies #[trigger] events.contains(
            event,
        ) by {
            let i = choose|i: int| 0 <= i < front.len() && front[i] == event;
            assert(events[i] == event);
        }
        match run_enrollment(after_decoding(decoded), front) {
            TokenEnrollmentView::Parse { .. } => {
                if last is Parsed && last->Parsed_0 is Ok {
                    was_parsed_still(events, last->Parsed_0->Ok_0);
                }
            },
            TokenEnrollmentView::LoadIdentity { token } => {
                was_parsed_still(events, token);
            },
            TokenEnrollmentView::Redeem { token, .. } => {
                was_parsed_still(events, token);
            },
            TokenEnrollmentView::Save { current } => {
                let token = choose|token: EnrollTokenView| #[trigger]
                    was_parsed(front, token) && records_token(current, token);
                was_parsed_still(events, token);
            },
            TokenEnrollmentView::Paired { bridge } => {
                let token = choose|token: EnrollTokenView| #[trigger]
                    was_parsed(front, token) && token.bridge == bridge;
                was_parsed_still(events, token);
            },
            TokenEnrollmentView::Failed(_) => {},
        }
    }
}

/// `event` answers the question that is open.
pub open spec fn answers_it(state: TokenEnrollmentView, event: TokenEventView) -> bool {
    match state {
        TokenEnrollmentView::Parse { .. } => event is Parsed,
        TokenEnrollmentView::LoadIdentity { .. } => event is Identity,
        TokenEnrollmentView::Redeem { .. } => event is Redeemed,
        TokenEnrollmentView::Save { .. } => event is Saved,
        _ => false,
    }
}

/// How many questions can still be asked.
pub open spec fn questions_left(state: TokenEnrollmentView) -> nat {
    match state {
        TokenEnrollmentView::Parse { .. } => 4,
        TokenEnrollmentView::LoadIdentity { .. } => 3,
        TokenEnrollmentView::Redeem { .. } => 2,
        TokenEnrollmentView::Save { .. } => 1,
        _ => 0,
    }
}

/// An enrollment by token comes to its end: each answer to an open question leaves fewer
/// questions, any other answer changes nothing, and only an enrollment that has ended
/// asks nothing.
pub proof fn enrollments_come_to_an_end(state: TokenEnrollmentView, event: TokenEventView)
    ensures
        answers_it(state, event) ==> questions_left(advanced(state, event)) < questions_left(state),
        !answers_it(state, event) ==> advanced(state, event) == state,
        questions_left(state) == 0 <==> state is Paired || state is Failed,
{
}

} // verus!
