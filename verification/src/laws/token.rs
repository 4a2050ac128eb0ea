//! What comes of an enrollment token.
use crate::pairing::CurrentView;
use crate::laws::text::{all_white, white_space_is_taken_away};
use crate::text::is_white_space;
use crate::token::{
    advanced, after_decoding, base64_decoded, first_question, run_enrollment, EnrollTokenView,
    TokenEnrollmentView, TokenEventView,
};
use vstd::prelude::*;

verus! {

/// The answer to the open question says that all went well.
pub open spec fn goes_well(state: TokenEnrollmentView, event: TokenEventView) -> bool {
    match state {
        TokenEnrollmentView::Parse { .. } => event is Parsed && event->Parsed_0 is Ok,
        TokenEnrollmentView::LoadIdentity { .. } => event is Identity && event->Identity_0 is Ok,
        TokenEnrollmentView::Redeem { .. } => event == TokenEventView::Redeemed(None),
        TokenEnrollmentView::Save { .. } => event == TokenEventView::Saved(None),
        _ => true,
    }
}

/// How many questions are left before the application is paired, if all goes well.
pub open spec fn questions_to_go(state: TokenEnrollmentView) -> int {
    match state {
        TokenEnrollmentView::Parse { .. } => 4,
        TokenEnrollmentView::LoadIdentity { .. } => 3,
        TokenEnrollmentView::Redeem { .. } => 2,
        TokenEnrollmentView::Save { .. } => 1,
        _ => 0,
    }
}

/// Where all goes well, the application is paired after at most four answers, from any
/// question.
pub proof fn success_leads_to_a_pairing(
    state: TokenEnrollmentView,
    events: Seq<TokenEventView>,
)
    requires
        !(state is Failed),
        forall|i: int|
            0 <= i < events.len() ==> goes_well(
                #[trigger] run_enrollment(state, events.take(i)),
                events[i],
            ),
    ensures
        !(run_enrollment(state, events) is Failed),
        questions_to_go(run_enrollment(state, events)) <= if questions_to_go(state)
            <= events.len() {
            0
        } else {
            questions_to_go(state) - events.len()
        },
        questions_to_go(state) <= events.len() ==> run_enrollment(state, events) is Paired,
    decreases events.len(),
{
    if events.len() > 0 {
        let front = events.drop_last();
        assert forall|i: int| 0 <= i < front.len() implies goes_well(
            #[trigger] run_enrollment(state, front.take(i)),
            front[i],
        ) by {
            assert(front.take(i) == events.take(i));
            assert(goes_well(run_enrollment(state, events.take(i)), events[i]));
        }
        success_leads_to_a_pairing(state, front);
        assert(events.take(front.len() as int) == front);
        assert(goes_well(run_enrollment(state, events.take(front.len() as int)), events.last()));
    }
}

/// A token is decoded as it is, without the white space around it.
pub proof fn space_around_a_token_does_not_count(
    front: Seq<char>,
    token: Seq<char>,
    back: Seq<char>,
)
    requires
        all_white(front),
        all_white(back),
        token.len() > 0 ==> !is_white_space(token.first()) && !is_white_space(token.last()),
    ensures
        first_question(front + token + back) == after_decoding(base64_decoded(token)),
{
    white_space_is_taken_away(front, token, back);
}

/// A token is taken at its word: its bytes are read as they were decoded, its code is
/// redeemed over its ticket with the application's own key, the pairing that is saved
/// holds its bridge and its ticket as the user's own, and its bridge is reported.
pub proof fn token_pairs_with_its_bridge(raw: Seq<u8>, token: EnrollTokenView, secret: Seq<u8>)
    ensures
        ({
            let start = after_decoding(Ok(raw));
            let one = advanced(start, TokenEventView::Parsed(Ok(token)));
            let two = advanced(one, TokenEventView::Identity(Ok(secret)));
            let three = advanced(two, TokenEventView::Redeemed(None));
            let four = advanced(three, TokenEventView::Saved(None));
            &&& start == (TokenEnrollmentView::Parse { raw })
            &&& one == (TokenEnrollmentView::LoadIdentity { token })
            &&& two == (TokenEnrollmentView::Redeem { secret, token })
            &&& three == (TokenEnrollmentView::Save {
                current: CurrentView {
                    bridge: token.bridge,
                    ticket: token.ticket,
                    manual: true,
                },
            })
            &&& four == (TokenEnrollmentView::Paired { bridge: token.bridge })
        }),
{
}

/// Whatever goes wrong with a token ends the enrollment with the error of what failed, and
/// says what that was for the decoding, the reading and the redeeming.
pub proof fn token_failures_are_explained(
    raw: Seq<u8>,
    token: EnrollTokenView,
    secret: Seq<u8>,
    current: CurrentView,
    reason: Seq<char>,
    error: Seq<Seq<char>>,
)
    ensures
        after_decoding(Err(reason)) == TokenEnrollmentView::Failed(
            seq!["enrollment token is not valid base64"@, reason],
        ),
        advanced(TokenEnrollmentView::Parse { raw }, TokenEventView::Parsed(Err(error)))
            == TokenEnrollmentView::Failed(
            seq!["enrollment token has an unexpected format"@] + error,
        ),
        advanced(
            TokenEnrollmentView::LoadIdentity { token },
            TokenEventView::Identity(Err(error)),
        ) == TokenEnrollmentView::Failed(error),
        advanced(
            TokenEnrollmentView::Redeem { secret, token },
            TokenEventView::Redeemed(Some(error)),
        ) == TokenEnrollmentView::Failed(seq!["redeeming enrollment token"@] + error),
        advanced(TokenEnrollmentView::Save { current }, TokenEventView::Saved(Some(error)))
            == TokenEnrollmentView::Failed(error),
{
}

} // verus!
