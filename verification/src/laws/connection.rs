//! What comes of connecting to the bridge hub.
use crate::connection::{
    advanced, first_question, run_connection, ConnectionView, EventView,
};
use crate::context::OutputView;
use crate::enroll::{brief_of, is_certificate_error, ticket_of, TicketSourceView};
use crate::identity::public_hex;
use crate::pairing::CurrentView;
use vstd::prelude::*;

verus! {

/// The answer to the open question says that all went well.
pub open spec fn goes_well(state: ConnectionView, event: EventView) -> bool {
    match state {
        ConnectionView::LoadIdentity { .. } => event is Identity && event->Identity_0 is Ok,
        ConnectionView::ReadCurrent { .. } => event is Current,
        ConnectionView::Enroll { .. } => event is Enrolled && ticket_of(event->Enrolled_0) is Ok,
        ConnectionView::Save { .. } => event == EventView::Saved(None),
        ConnectionView::Dial { .. } => event == EventView::Dialed(None),
        ConnectionView::Validate { .. } => event == EventView::Validated(None),
        ConnectionView::Forget { .. } => event is Forgotten,
        _ => true,
    }
}

/// How many questions are left before the hub is reached, if all goes well.
pub open spec fn questions_to_go(state: ConnectionView) -> int {
    match state {
        ConnectionView::LoadIdentity { .. } => 6,
        ConnectionView::ReadCurrent { .. } => 5,
        ConnectionView::Forget { .. } => 5,
        ConnectionView::Enroll { .. } => 4,
        ConnectionView::Save { .. } => 3,
        ConnectionView::Dial { .. } => 2,
        ConnectionView::Validate { .. } => 1,
        _ => 0,
    }
}

/// Every answer of a row says that all went well.
pub open spec fn all_goes_well(state: ConnectionView, events: Seq<EventView>) -> bool {
    forall|i: int|
        0 <= i < events.len() ==> goes_well(
            #[trigger] run_connection(state, events.take(i)),
            events[i],
        )
}

/// Where all goes well, the application is connected after at most six answers: from any
/// question, whatever the environment names and whatever is on record.
pub proof fn success_leads_to_a_connection(state: ConnectionView, events: Seq<EventView>)
    requires
        !(state is Failed),
        all_goes_well(state, events),
    ensures
        !(run_connection(state, events) is Failed),
        questions_to_go(run_connection(state, events)) <= if questions_to_go(state)
            <= events.len() {
            0
        } else {
            questions_to_go(state) - events.len()
        },
        questions_to_go(state) <= events.len() ==> run_connection(state, events) is Connected,
    decreases events.len(),
{
    if events.len() > 0 {
        let front = events.drop_last();
        assert forall|i: int| 0 <= i < front.len() implies goes_well(
            #[trigger] run_connection(state, front.take(i)),
            front[i],
        ) by {
            assert(front.take(i) == events.take(i));
            assert(goes_well(run_connection(state, events.take(i)), events[i]));
        }
        success_leads_to_a_connection(state, front);
        assert(events.take(front.len() as int) == front);
        assert(goes_well(run_connection(state, events.take(front.len() as int)), events.last()));
    }
}

/// A ticket that was enrolled is dialed, whatever came of saving it: only where a renewed
/// pairing cannot be saved does the connection end, and it says so.
pub proof fn enrolled_ticket_is_dialed(
    secret: Seq<u8>,
    current: CurrentView,
    renewal: bool,
    failure: Option<Seq<Seq<char>>>,
)
    ensures
        ({
            let next = advanced(
                ConnectionView::Save { secret, current, renewal },
                EventView::Saved(failure),
            );
            if renewal && failure is Some {
                next == ConnectionView::Failed(
                    "could not save refreshed bridge enrollment: "@ + brief_of(failure->0),
                )
            } else {
                next == (ConnectionView::Dial {
                    secret,
                    ticket: current.ticket,
                    source: TicketSourceView::AutoEnrolled,
                })
            }
        }),
{
}

/// A first launch enrolls with the bridge that the environment names, or with `DEFAULT`,
/// and ends up connected with the ticket that was enrolled, whether or not it could be
/// saved.
pub proof fn first_launch_connects(
    preset: Option<Seq<char>>,
    name: Option<Seq<char>>,
    secret: Seq<u8>,
    output: OutputView,
    failure: Option<Seq<Seq<char>>>,
)
    requires
        preset is None || preset->0.len() == 0,
        ticket_of(Ok(output)) is Ok,
    ensures
        ({
            let ticket = ticket_of(Ok(output))->Ok_0;
            let bridge = if name is Some && name->0.len() > 0 {
                name->0
            } else {
                "DEFAULT"@
            };
            let one = advanced(first_question(preset, name), EventView::Identity(Ok(secret)));
            let two = advanced(one, EventView::Current(None));
            let three = advanced(two, EventView::Enrolled(Ok(output)));
            let four = advanced(three, EventView::Saved(failure));
            let five = advanced(four, EventView::Dialed(None));
            let six = advanced(five, EventView::Validated(None));
            &&& one is ReadCurrent
            &&& two is Enroll && two->Enroll_bridge == bridge && two->Enroll_secret == secret
                && !two->Enroll_renewal
            &&& three == (ConnectionView::Save {
                secret,
                current: CurrentView { bridge, ticket, manual: false },
                renewal: false,
            })
            &&& four is Dial && four->Dial_ticket == ticket && four->Dial_secret == secret
            &&& five is Validate && five->Validate_ticket == ticket
            &&& six == (ConnectionView::Connected { ticket })
        }),
{
}

/// An enrollment gives the bridge and the public key, and nothing else of the
/// application's, to the tool in the container.
pub proof fn enrollment_names_bridge_and_key(
    preset: Option<Seq<char>>,
    name: Option<Seq<char>>,
    secret: Seq<u8>,
)
    requires
        preset is None || preset->0.len() == 0,
    ensures
        ({
            let one = advanced(first_question(preset, name), EventView::Identity(Ok(secret)));
            let two = advanced(one, EventView::Current(None));
            two is Enroll && two->Enroll_args == seq![
                "run"@,
                "--rm"@,
                "--no-deps"@,
                "openc3-cosmos-cmd-tlm-api"@,
                "ruby"@,
                "/openc3/bin/openc3cli"@,
                "bridgeenroll"@,
                two->Enroll_bridge,
                public_hex(secret),
            ]
        }),
{
}

/// A ticket that the environment names, or that is on record, is dialed and, where the
/// hub answers, reported as the one that the application is connected with.
pub proof fn known_ticket_connects(
    preset: Option<Seq<char>>,
    name: Option<Seq<char>>,
    secret: Seq<u8>,
    current: CurrentView,
)
    ensures
        ({
            let given = preset is Some && preset->0.len() > 0;
            let one = advanced(first_question(preset, name), EventView::Identity(Ok(secret)));
            let two = if given {
                one
            } else {
                advanced(one, EventView::Current(Some(current)))
            };
            let ticket = if given {
                preset->0
            } else {
                current.ticket
            };
            let three = advanced(two, EventView::Dialed(None));
            let four = advanced(three, EventView::Validated(None));
            &&& two is Dial && two->Dial_ticket == ticket && two->Dial_secret == secret
            &&& two->Dial_source == if given {
                TicketSourceView::Environment
            } else if current.manual {
                TicketSourceView::CachedManual
            } else {
                TicketSourceView::CachedAuto { bridge: current.bridge }
            }
            &&& four == (ConnectionView::Connected { ticket })
        }),
{
}

/// A stale automatic pairing is renewed: where the certificate of the hub is to blame,
/// while dialing or at its first answer, the pairing on record is forgotten, the
/// application enrolls with the same bridge again, and ends up connected with the new
/// ticket once it is saved.
pub proof fn stale_pairing_is_renewed(
    secret: Seq<u8>,
    ticket: Seq<char>,
    bridge: Seq<char>,
    error: Seq<Seq<char>>,
    output: OutputView,
)
    requires
        is_certificate_error(error),
        ticket_of(Ok(output)) is Ok,
    ensures
        ({
            let source = TicketSourceView::CachedAuto { bridge };
            let refused = advanced(
                ConnectionView::Dial { secret, ticket, source },
                EventView::Dialed(Some(error)),
            );
            let fresh = ticket_of(Ok(output))->Ok_0;
            let two = advanced(refused, EventView::Forgotten);
            let three = advanced(two, EventView::Enrolled(Ok(output)));
            let four = advanced(three, EventView::Saved(None));
            let five = advanced(four, EventView::Dialed(None));
            let six = advanced(five, EventView::Validated(None));
            &&& refused == (ConnectionView::Forget { secret, bridge })
            &&& advanced(
                ConnectionView::Validate { secret, ticket, source },
                EventView::Validated(Some(error)),
            ) == (ConnectionView::Forget { secret, bridge })
            &&& two is Enroll && two->Enroll_bridge == bridge && two->Enroll_secret == secret
                && two->Enroll_renewal
            &&& three == (ConnectionView::Save {
                secret,
                current: CurrentView { bridge, ticket: fresh, manual: false },
                renewal: true,
            })
            &&& six == (ConnectionView::Connected { ticket: fresh })
        }),
{
    let shown = crate::error::explained(error, "validating bridge connection"@);
    let i = choose|i: int|
        0 <= i < error.len() && crate::enroll::blames_certificate(#[trigger] error[i]);
    assert(shown[i + 1] == error[i]);
    assert(is_certificate_error(shown));
}

/// Whatever else goes wrong ends the connection and is said in a line.
pub proof fn failures_are_explained(
    preset: Option<Seq<char>>,
    name: Option<Seq<char>>,
    secret: Seq<u8>,
    ticket: Seq<char>,
    bridge: Seq<char>,
    args: Seq<Seq<char>>,
    renewal: bool,
    source: TicketSourceView,
    error: Seq<Seq<char>>,
)
    ensures
        advanced(first_question(preset, name), EventView::Identity(Err(error)))
            == ConnectionView::Failed("identity error"@),
        advanced(
            ConnectionView::Enroll { secret, bridge, args, renewal },
            EventView::Enrolled(Err(error)),
        ) == ConnectionView::Failed(
            (if renewal {
                "re-enrolling bridge '"@
            } else {
                "enrolling bridge '"@
            }) + bridge + "' failed: "@ + brief_of(error),
        ),
        !(source is CachedAuto) || !is_certificate_error(error) ==> advanced(
            ConnectionView::Dial { secret, ticket, source },
            EventView::Dialed(Some(error)),
        ) == ConnectionView::Failed(
            "can't reach the bridge hub — it may still be starting, or its ticket is stale after a COSMOS restart; press Retry ("@
                + brief_of(error) + ")"@,
        ),
        !(source is CachedAuto) || !is_certificate_error(
            seq!["validating bridge connection"@] + error,
        ) ==> advanced(
            ConnectionView::Validate { secret, ticket, source },
            EventView::Validated(Some(error)),
        ) == ConnectionView::Failed(
            "can't reach the bridge hub — it may still be starting, or its ticket is stale after a COSMOS restart; press Retry ("@
                + brief_of(seq!["validating bridge connection"@] + error) + ")"@,
        ),
{
}

} // verus!
