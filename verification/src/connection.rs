//! The course of connecting to the bridge hub, from question to question.
//!
//! A connection waits for one answer at a time; each variant of its state names the
//! question that is open and holds what is needed to ask it.
use crate::context::{Output, OutputView};
use crate::enroll::{
    auto_enroll, connection_error, enroll_args, enroll_error, enroll_reason, enrolled_ticket,
    given, is_certificate_error, is_given, peer_certificate_error, resolution, resolve_ticket,
    save_error, save_reason, ticket_of, unreachable_reason, Resolution, ResolutionView,
    TicketSource, TicketSourceView,
};
use crate::error::{explained, ErrorChain};
use crate::identity::{public_hex, public_key_hex};
use crate::model::{group_views, view_option, view_result, views};
use crate::pairing::{Current, CurrentView};
use vstd::prelude::*;

verus! {

broadcast use group_views;

/// The course of a connection to the bridge hub.
#[derive(Debug)]
pub enum Connection {
    /// Which identity does the application have?
    LoadIdentity { preset: Option<String>, name: Option<String> },
    /// Which pairing is on record?
    ReadCurrent { secret: [u8; 32], name: Option<String> },
    /// What does `docker compose` with these arguments print?
    Enroll { secret: [u8; 32], bridge: String, args: Vec<String>, renewal: bool },
    /// Can this pairing be saved?
    Save { secret: [u8; 32], current: Current, renewal: bool },
    /// Can the hub be reached with this ticket?
    Dial { secret: [u8; 32], ticket: String, source: TicketSource },
    /// Does the hub that was reached answer?
    Validate { secret: [u8; 32], ticket: String, source: TicketSource },
    /// The pairing on record is to be forgotten.
    Forget { secret: [u8; 32], bridge: String },
    /// The hub was reached with this ticket, and answers.
    Connected { ticket: String },
    /// There is no connection, for the given reason.
    Failed(String),
}

/// Model of a [`Connection`].
pub enum ConnectionView {
    LoadIdentity { preset: Option<Seq<char>>, name: Option<Seq<char>> },
    ReadCurrent { secret: Seq<u8>, name: Option<Seq<char>> },
    Enroll { secret: Seq<u8>, bridge: Seq<char>, args: Seq<Seq<char>>, renewal: bool },
    Save { secret: Seq<u8>, current: CurrentView, renewal: bool },
    Dial { secret: Seq<u8>, ticket: Seq<char>, source: TicketSourceView },
    Validate { secret: Seq<u8>, ticket: Seq<char>, source: TicketSourceView },
    Forget { secret: Seq<u8>, bridge: Seq<char> },
    Connected { ticket: Seq<char> },
    Failed(Seq<char>),
}

impl View for Connection {
    type V = ConnectionView;

    open spec fn view(&self) -> ConnectionView {
        match self {
            Connection::LoadIdentity { preset, name } => ConnectionView::LoadIdentity {
                preset: view_option(*preset),
                name: view_option(*name),
            },
            Connection::ReadCurrent { secret, name } => ConnectionView::ReadCurrent {
                secret: secret@,
                name: view_option(*name),
            },
            Connection::Enroll { secret, bridge, args, renewal } => ConnectionView::Enroll {
                secret: secret@,
                bridge: bridge@,
                args: views(args@),
                renewal: *renewal,
            },
            Connection::Save { secret, current, renewal } => ConnectionView::Save {
                secret: secret@,
                current: current@,
                renewal: *renewal,
            },
            Connection::Dial { secret, ticket, source } => ConnectionView::Dial {
                secret: secret@,
                ticket: ticket@,
                source: source@,
            },
            Connection::Validate { secret, ticket, source } => ConnectionView::Validate {
                secret: secret@,
                ticket: ticket@,
                source: source@,
            },
            Connection::Forget { secret, bridge } => ConnectionView::Forget {
                secret: secret@,
                bridge: bridge@,
            },
            Connection::Connected { ticket } => ConnectionView::Connected { ticket: ticket@ },
            Connection::Failed(reason) => ConnectionView::Failed(reason@),
        }
    }
}

/// An answer to a question of a connection.
#[derive(Debug)]
pub enum Event {
    /// The secret key of the application.
    Identity(Result<[u8; 32], ErrorChain>),
    /// The pairing on record, where there is one.
    Current(Option<Current>),
    /// What `docker compose` left behind, where it could be run.
    Enrolled(Result<Output, ErrorChain>),
    /// The pairing was saved, or was not for the given error.
    Saved(Option<ErrorChain>),
    /// The hub was reached, or was not for the given error.
    Dialed(Option<ErrorChain>),
    /// The hub answered, or did not for the given error.
    Validated(Option<ErrorChain>),
    /// The pairing on record was forgotten as far as it is to be.
    Forgotten,
}

/// Model of an [`Event`].
pub enum EventView {
    Identity(Result<Seq<u8>, Seq<Seq<char>>>),
    Current(Option<CurrentView>),
    Enrolled(Result<OutputView, Seq<Seq<char>>>),
    Saved(Option<Seq<Seq<char>>>),
    Dialed(Option<Seq<Seq<char>>>),
    Validated(Option<Seq<Seq<char>>>),
    Forgotten,
}

impl View for Event {
    type V = EventView;

    open spec fn view(&self) -> EventView {
        match self {
            Event::Identity(secret) => EventView::Identity(view_result(*secret)),
            Event::Current(current) => EventView::Current(view_option(*current)),
            Event::Enrolled(captured) => EventView::Enrolled(view_result(*captured)),
            Event::Saved(failure) => EventView::Saved(view_option(*failure)),
            Event::Dialed(failure) => EventView::Dialed(view_option(*failure)),
            Event::Validated(failure) => EventView::Validated(view_option(*failure)),
            Event::Forgotten => EventView::Forgotten,
        }
    }
}

/// The question that enrolls the application with a bridge.
pub open spec fn enrolling(secret: Seq<u8>, bridge: Seq<char>, renewal: bool) -> ConnectionView {
    ConnectionView::Enroll {
        secret,
        bridge,
        args: enroll_args(bridge, public_hex(secret)),
        renewal,
    }
}

/// The question that follows once it is known how the ticket is come by.
pub open spec fn after_resolution(secret: Seq<u8>, resolved: ResolutionView) -> ConnectionView {
    match resolved {
        ResolutionView::Use(resolved) => ConnectionView::Dial {
            secret,
            ticket: resolved.ticket,
            source: resolved.source,
        },
        ResolutionView::Enroll { bridge } => enrolling(secret, bridge, false),
    }
}

/// The question that follows an enrollment.
pub open spec fn after_enrollment(
    secret: Seq<u8>,
    bridge: Seq<char>,
    renewal: bool,
    ticket: Result<Seq<char>, Seq<Seq<char>>>,
) -> ConnectionView {
    match ticket {
        Ok(ticket) => ConnectionView::Save {
            secret,
            current: CurrentView { bridge, ticket, manual: false },
            renewal,
        },
        Err(error) => ConnectionView::Failed(enroll_reason(renewal, bridge, error)),
    }
}

/// What follows a connection that failed with `error`: only an automatic enrollment on
/// record is replaced, and only where the certificate of the hub is to blame.
pub open spec fn after_refusal(
    secret: Seq<u8>,
    source: TicketSourceView,
    error: Seq<Seq<char>>,
) -> ConnectionView {
    match source {
        TicketSourceView::CachedAuto { bridge } if is_certificate_error(error) =>
            ConnectionView::Forget { secret, bridge },
        _ => ConnectionView::Failed(unreachable_reason(error)),
    }
}

/// A connection after an answer. An answer to another question changes nothing.
pub open spec fn advanced(state: ConnectionView, event: EventView) -> ConnectionView {
    match (state, event) {
        (ConnectionView::LoadIdentity { preset, name }, EventView::Identity(Ok(secret))) =>
            if is_given(preset) {
                after_resolution(secret, resolution(preset, None, name))
            } else {
                ConnectionView::ReadCurrent { secret, name }
            },
        (ConnectionView::LoadIdentity { .. }, EventView::Identity(Err(_))) =>
            ConnectionView::Failed("identity error"@),
        (ConnectionView::ReadCurrent { secret, name }, EventView::Current(current)) =>
            after_resolution(secret, resolution(None, current, name)),
        (
            ConnectionView::Enroll { secret, bridge, renewal, .. },
            EventView::Enrolled(captured),
        ) => after_enrollment(secret, bridge, renewal, ticket_of(captured)),
        (ConnectionView::Save { secret, current, renewal }, EventView::Saved(failure)) => match (
            renewal,
            failure,
        ) {
            (true, Some(error)) => ConnectionView::Failed(save_reason(error)),
            _ => ConnectionView::Dial {
                secret,
                ticket: current.ticket,
                source: TicketSourceView::AutoEnrolled,
            },
        },
        (ConnectionView::Dial { secret, ticket, source }, EventView::Dialed(failure)) =>
            match failure {
                Some(error) => after_refusal(secret, source, error),
                None => ConnectionView::Validate { secret, ticket, source },
            },
        (ConnectionView::Validate { secret, ticket, source }, EventView::Validated(failure)) =>
            match failure {
                Some(error) => after_refusal(
                    secret,
                    source,
                    explained(error, "validating bridge connection"@),
                ),
                None => ConnectionView::Connected { ticket },
            },
        (ConnectionView::Forget { secret, bridge }, EventView::Forgotten) => enrolling(
            secret,
            bridge,
            true,
        ),
        _ => state,
    }
}

/// Starts to connect to the bridge hub. `preset` and `name` are the ticket and the
/// bridge that the environment names.
pub fn connect_bridge(preset: Option<String>, name: Option<String>) -> (state: Connection)
    ensures
        state@ == first_question(view_option(preset), view_option(name)),
{
    Connection::LoadIdentity { preset, name }
}

/// Asks to be enrolled with a bridge.
fn enroll_with(secret: [u8; 32], bridge: String, renewal: bool) -> (state: Connection)
    ensures
        state@ == enrolling(secret@, bridge@, renewal),
{
    let public_key = public_key_hex(&secret);
    let args = auto_enroll(bridge.as_str(), public_key.as_str());
    Connection::Enroll { secret, bridge, args, renewal }
}

/// Goes on once it is known how the ticket is come by.
fn follow_resolution(secret: [u8; 32], resolved: Resolution) -> (state: Connection)
    ensures
        state@ == after_resolution(secret@, resolved@),
{
    match resolved {
        Resolution::Use(resolved) => Connection::Dial {
            secret,
            ticket: resolved.ticket,
            source: resolved.source,
        },
        Resolution::Enroll { bridge } => enroll_with(secret, bridge, false),
    }
}

/// Goes on after a connection failed.
fn follow_refusal(secret: [u8; 32], source: TicketSource, error: ErrorChain) -> (state: Connection)
    ensures
        state@ == after_refusal(secret@, source@, error@),
{
    let to_blame = peer_certificate_error(&error);
    match source {
        TicketSource::CachedAuto { bridge } if to_blame => Connection::Forget { secret, bridge },
        _ => Connection::Failed(connection_error(&error)),
    }
}

impl Connection {
    /// Takes in an answer.
    pub fn resume(self, event: Event) -> (state: Connection)
        ensures
            state@ == advanced(self@, event@),
    {
        match (self, event) {
            (Connection::LoadIdentity { preset, name }, Event::Identity(Ok(secret))) => if given(
                &preset,
            ) {
                follow_resolution(secret, resolve_ticket(preset, None, name))
            } else {
                Connection::ReadCurrent { secret, name }
            },
            (Connection::LoadIdentity { .. }, Event::Identity(Err(_))) => Connection::Failed(
                "identity error".to_owned(),
            ),
            (Connection::ReadCurrent { secret, name }, Event::Current(current)) =>
                follow_resolution(secret, resolve_ticket(None, current, name)),
            (Connection::Enroll { secret, bridge, renewal, .. }, Event::Enrolled(captured)) =>
                match enrolled_ticket(captured) {
                    Ok(ticket) => Connection::Save {
                        secret,
                        current: Current { bridge, ticket, manual: false },
                        renewal,
                    },
                    Err(error) => Connection::Failed(
                        enroll_error(renewal, bridge.as_str(), &error),
                    ),
                },
            (Connection::Save { secret, current, renewal }, Event::Saved(failure)) => match (
                renewal,
                failure,
            ) {
                (true, Some(error)) => Connection::Failed(save_error(&error)),
                _ => Connection::Dial {
                    secret,
                    ticket: current.ticket,
                    source: TicketSource::AutoEnrolled,
                },
            },
            (Connection::Dial { secret, ticket, source }, Event::Dialed(failure)) =>
                match failure {
                    Some(error) => follow_refusal(secret, source, error),
                    None => Connection::Validate { secret, ticket, source },
                },
            (Connection::Validate { secret, ticket, source }, Event::Validated(failure)) =>
                match failure {
                    Some(error) => follow_refusal(
                        secret,
                        source,
                        error.context("validating bridge connection".to_owned()),
                    ),
                    None => Connection::Connected { ticket },
                },
            (Connection::Forget { secret, bridge }, Event::Forgotten) => enroll_with(
                secret,
                bridge,
                true,
            ),
            (state, _) => state,
        }
    }
}

/// A connection after a row of answers.
pub open spec fn run_connection(state: ConnectionView, events: Seq<EventView>) -> ConnectionView
    decreases events.len(),
{
    if events.len() == 0 {
        state
    } else {
        advanced(run_connection(state, events.drop_last()), events.last())
    }
}

/// The first question of a connection.
pub open spec fn first_question(
    preset: Option<Seq<char>>,
    name: Option<Seq<char>>,
) -> ConnectionView {
    ConnectionView::LoadIdentity { preset, name }
}

/// The question changes the pairing on record or enrolls anew.
pub open spec fn touches_pairing(state: ConnectionView) -> bool {
    state is Enroll || state is Save || state is Forget
}

/// A ticket that the environment names is used, whatever is on record, and the pairing
/// on record stays as it is, whatever comes of the connection.
pub proof fn environment_ticket_is_used_as_it_is(
    preset: Option<Seq<char>>,
    name: Option<Seq<char>>,
    events: Seq<EventView>,
)
    requires
        is_given(preset),
    ensures
        match run_connection(first_question(preset, name), events) {
            ConnectionView::LoadIdentity { preset: still, name: too } => still == preset && too
                == name,
            ConnectionView::Dial { ticket: used, source, .. } => used == preset->0
                && source is Environment,
            ConnectionView::Validate { ticket: used, source, .. } => used == preset->0
                && source is Environment,
            ConnectionView::Connected { ticket: used } => used == preset->0,
            ConnectionView::Failed(_) => true,
            _ => false,
        },
    decreases events.len(),
{
    if events.len() > 0 {
        environment_ticket_is_used_as_it_is(preset, name, events.drop_last());
    }
}

/// Whatever was answered about the pairing on record: the user supplied its ticket.
pub open spec fn records_are_manual(events: Seq<EventView>) -> bool {
    forall|i: int|
        0 <= i < events.len() && #[trigger] events[i] is Current ==> events[i]->Current_0 is Some
            && events[i]->Current_0->0.manual
}

/// A ticket that the user supplied is never replaced: where the pairing on record holds
/// one, it stays as it is, whatever comes of the connection.
pub proof fn manual_ticket_is_never_replaced(
    preset: Option<Seq<char>>,
    name: Option<Seq<char>>,
    events: Seq<EventView>,
)
    requires
        records_are_manual(events),
    ensures
        match run_connection(first_question(preset, name), events) {
            ConnectionView::Dial { source, .. } => source is Environment || source is CachedManual,
            ConnectionView::Validate { source, .. } => source is Environment
                || source is CachedManual,
            state => !touches_pairing(state),
        },
    decreases events.len(),
{
    if events.len() > 0 {
        let front = events.drop_last();
        assert forall|i: int| 0 <= i < front.len() && #[trigger] front[i] is Current implies front[
            i
        ]->Current_0 is Some && front[i]->Current_0->0.manual by {
            assert(events[i] == front[i]);
        }
        manual_ticket_is_never_replaced(preset, name, front);
        assert(events.last() == events[events.len() - 1]);
    }
}

/// A pairing that is on record is the one that the next connection uses, unless the
/// environment names a ticket.
pub proof fn pairing_on_record_is_used(
    preset: Option<Seq<char>>,
    name: Option<Seq<char>>,
    secret: Seq<u8>,
    current: CurrentView,
)
    requires
        !is_given(preset),
    ensures
        run_connection(
            first_question(preset, name),
            seq![EventView::Identity(Ok(secret)), EventView::Current(Some(current))],
        ) == (ConnectionView::Dial {
            secret,
            ticket: current.ticket,
            source: if current.manual {
                TicketSourceView::CachedManual
            } else {
                TicketSourceView::CachedAuto { bridge: current.bridge }
            },
        }),
{
    let events = seq![EventView::Identity(Ok(secret)), EventView::Current(Some(current))];
    assert(events.drop_last() == seq![EventView::Identity(Ok(secret))]);
    assert(events.drop_last().drop_last() == Seq::<EventView>::empty());
    reveal_with_fuel(run_connection, 3);
}

/// Only the certificate of the hub makes a pairing be replaced: the pairing on record is
/// forgotten right after a connection over its own, automatic, ticket failed with an
/// error that names the certificate, and never else.
pub proof fn only_a_certificate_error_replaces_a_pairing(state: ConnectionView, event: EventView)
    requires
        advanced(state, event) is Forget,
    ensures
        state is Forget || {
            &&& state is Dial || state is Validate
            &&& state is Dial ==> event is Dialed && event->Dialed_0 is Some
                && is_certificate_error(event->Dialed_0->0) && state->Dial_source
                == (TicketSourceView::CachedAuto { bridge: advanced(state, event)->Forget_bridge })
            &&& state is Validate ==> event is Validated && event->Validated_0 is Some
                && is_certificate_error(
                explained(event->Validated_0->0, "validating bridge connection"@),
            ) && state->Validate_source == (TicketSourceView::CachedAuto {
                bridge: advanced(state, event)->Forget_bridge,
            })
        },
{
}

/// A pairing is saved before its ticket is used, as one that was come by automatically,
/// and the ticket that is used, answers and is reported is the one that was saved.
pub proof fn ticket_is_passed_on(state: ConnectionView, event: EventView)
    ensures
        state is Save && advanced(state, event) is Dial ==> advanced(state, event)->Dial_ticket
            == state->Save_current.ticket,
        advanced(state, event) is Dial && advanced(state, event)->Dial_source is AutoEnrolled
            ==> state is Dial || state is Save,
        state is Dial && advanced(state, event) is Validate ==> advanced(
            state,
            event,
        )->Validate_ticket == state->Dial_ticket && advanced(state, event)->Validate_source
            == state->Dial_source,
        advanced(state, event) is Validate ==> state is Validate || state is Dial && event
            == EventView::Dialed(None),
        advanced(state, event) is Connected ==> state is Connected || state is Validate && event
            == EventView::Validated(None) && advanced(state, event)->Connected_ticket
            == state->Validate_ticket,
        advanced(state, event) is Save && !(state is Save) ==> state is Enroll && !advanced(
            state,
            event,
        )->Save_current.manual && advanced(state, event)->Save_current.bridge
            == state->Enroll_bridge,
{
}

/// Nothing but the public key leaves the machine in an enrollment: its arguments are
/// made of the bridge and the public key alone.
pub proof fn only_the_public_key_is_given_away(
    preset: Option<Seq<char>>,
    name: Option<Seq<char>>,
    events: Seq<EventView>,
)
    ensures
        match run_connection(first_question(preset, name), events) {
            ConnectionView::Enroll { secret, bridge, args, .. } => args == enroll_args(
                bridge,
                public_hex(secret),
            ),
            _ => true,
        },
    decreases events.len(),
{
    if events.len() > 0 {
        only_the_public_key_is_given_away(preset, name, events.drop_last());
    }
}

/// `event` answers the question that is open.
pub open spec fn answers_it(state: ConnectionView, event: EventView) -> bool {
    match state {
        ConnectionView::LoadIdentity { .. } => event is Identity,
        ConnectionView::ReadCurrent { .. } => event is Current,
        ConnectionView::Enroll { .. } => event is Enrolled,
        ConnectionView::Save { .. } => event is Saved,
        ConnectionView::Dial { .. } => event is Dialed,
        ConnectionView::Validate { .. } => event is Validated,
        ConnectionView::Forget { .. } => event is Forgotten,
        _ => false,
    }
}

/// How many questions can still be asked.
pub open spec fn questions_left(state: ConnectionView) -> nat {
    match state {
        ConnectionView::LoadIdentity { .. } => 9,
        ConnectionView::ReadCurrent { .. } => 8,
        ConnectionView::Dial { source, .. } => if source is CachedAuto {
            7
        } else {
            2
        },
        ConnectionView::Validate { source, .. } => if source is CachedAuto {
            6
        } else {
            1
        },
        ConnectionView::Forget { .. } => 5,
        ConnectionView::Enroll { .. } => 4,
        ConnectionView::Save { .. } => 3,
        ConnectionView::Connected { .. } => 0,
        ConnectionView::Failed(_) => 0,
    }
}

/// A connection comes to its end, and enrolls at most once on the way: each answer to an
/// open question leaves fewer questions, any other answer changes nothing, and only a
/// connection that has ended asks nothing.
pub proof fn connections_come_to_an_end(state: ConnectionView, event: EventView)
    ensures
        answers_it(state, event) ==> questions_left(advanced(state, event)) < questions_left(state),
        !answers_it(state, event) ==> advanced(state, event) == state,
        questions_left(state) == 0 <==> state is Connected || state is Failed,
{
}

} // verus!
