//! Pairing with a bridge: where its ticket comes from, how it is enrolled with, and
//! what is said where that fails.
use crate::context::{Output, OutputView};
use crate::error::ErrorChain;
use crate::identity::{bridge_dir, bridge_folder};
use crate::model::{group_views, view_option, view_result, views};
use crate::pairing::{Current, CurrentView};
use crate::plan::{
    best_effort, explained_step, fresh, plan_best_effort, plan_explained, Plan, Planned,
    PlannedView, Step, StepView,
};
use crate::text::{
    ascii_lower, ascii_lowered, before, chars_of, concat3, contains, cut_before, lossy_text,
    lossy_text_of, occurs_in, slice_text, trim, trimmed,
};
use vstd::prelude::*;

verus! {

broadcast use group_views;

/// The longest line that is shown of an error.
pub const BRIEF_LENGTH: usize = 160;

/// The bridge that every scope has.
pub const DEFAULT_BRIDGE: &'static str = "DEFAULT";

/// A line, cut where it is too long to be shown.
pub open spec fn shortened(line: Seq<char>) -> Seq<char> {
    if line.len() > BRIEF_LENGTH {
        line.take(BRIEF_LENGTH - 1) + "…"@
    } else {
        line
    }
}

/// An error in one line: the first line of its outermost message, without the white
/// space around it, and cut where it is too long.
pub open spec fn brief_of(error: Seq<Seq<char>>) -> Seq<char> {
    shortened(trimmed(before(error[0], '\n', '\n')))
}

/// Puts an error in one line, for the status that the user sees.
pub fn brief(error: &ErrorChain) -> (line: String)
    ensures
        line@ == brief_of(error@),
{
    let line = trim(cut_before(error.message.as_str(), '\n', '\n').as_str());
    let chars = chars_of(line.as_str());
    if chars.len() > BRIEF_LENGTH {
        let mut short = slice_text(&chars, 0, BRIEF_LENGTH - 1);
        short.append("…");
        short
    } else {
        line
    }
}

/// What is shown is never longer than the longest line.
pub proof fn brief_is_short(error: Seq<Seq<char>>)
    ensures
        brief_of(error).len() <= BRIEF_LENGTH,
{
    reveal_strlit("…");
}

/// A message says that the certificate of the other side is not the expected one.
pub open spec fn blames_certificate(message: Seq<char>) -> bool {
    occurs_in(ascii_lowered(message), "invalid peer certificate"@) || occurs_in(
        ascii_lowered(message),
        "unknownissuer"@,
    )
}

/// An error comes from the certificate of the other side.
pub open spec fn is_certificate_error(error: Seq<Seq<char>>) -> bool {
    exists|i: int| 0 <= i < error.len() && blames_certificate(#[trigger] error[i])
}

/// Tells whether a message blames the certificate.
fn message_blames_certificate(message: &str) -> (yes: bool)
    ensures
        yes == blames_certificate(message@),
{
    let lower = ascii_lower(message);
    contains(lower.as_str(), "invalid peer certificate") || contains(
        lower.as_str(),
        "unknownissuer",
    )
}

/// Tells whether an error comes from the certificate of the other side.
pub fn peer_certificate_error(error: &ErrorChain) -> (yes: bool)
    ensures
        yes == is_certificate_error(error@),
{
    if message_blames_certificate(error.message.as_str()) {
        assert(blames_certificate(error@[0]));
        return true;
    }
    let mut i: usize = 0;
    while i < error.causes.len()
        invariant
            i <= error.causes@.len(),
            forall|j: int| 0 <= j < i + 1 ==> !blames_certificate(#[trigger] error@[j]),
        decreases error.causes@.len() - i,
    {
        assert(error@[i + 1] == error.causes@[i as int]@);
        if message_blames_certificate(error.causes[i].as_str()) {
            return true;
        }
        i += 1;
    }
    false
}

/// What is said where the hub cannot be reached.
pub open spec fn unreachable_reason(error: Seq<Seq<char>>) -> Seq<char> {
    "can't reach the bridge hub — it may still be starting, or its ticket is stale after a COSMOS restart; press Retry ("@
        + brief_of(error) + ")"@
}

/// Says that the hub cannot be reached.
pub fn connection_error(error: &ErrorChain) -> (reason: String)
    ensures
        reason@ == unreachable_reason(error@),
{
    concat3(
        "can't reach the bridge hub — it may still be starting, or its ticket is stale after a COSMOS restart; press Retry (",
        brief(error).as_str(),
        ")",
    )
}

/// Saving the record of a pairing.
pub open spec fn current_steps(current: CurrentView) -> Seq<PlannedView> {
    seq![
        best_effort(StepView::CreateFolder(bridge_folder())),
        explained_step(StepView::SaveCurrent(current), "persisting current bridge"@),
    ]
}

/// Saving the record of a pairing with `bridge` by `ticket`.
pub open spec fn record_steps(bridge: Seq<char>, ticket: Seq<char>, manual: bool) -> Seq<
    PlannedView,
> {
    current_steps(CurrentView { bridge, ticket, manual })
}

/// Saves the record of a pairing.
pub fn write_current(bridge: &str, ticket: &str, manual: bool) -> (plan: Plan)
    ensures
        plan@ == fresh(record_steps(bridge@, ticket@, manual)),
{
    let current = Current { bridge: bridge.to_owned(), ticket: ticket.to_owned(), manual };
    let ghost saved = current@;
    let mut steps: Vec<Planned> = Vec::new();
    steps.push(plan_best_effort(Step::CreateFolder(bridge_dir())));
    steps.push(
        plan_explained(Step::SaveCurrent(current), "persisting current bridge".to_owned()),
    );
    assert(views(steps@) == current_steps(saved));
    Plan::new(steps)
}

/// What becomes of the record of a pairing that is to be forgotten.
#[derive(Clone, Copy, PartialEq, Eq, Structural, Debug)]
pub enum Forgetting {
    /// It stays: the user supplied the ticket.
    Keep,
    /// It is removed, where it is there.
    Remove,
}

/// What becomes of the record `current` that is to be forgotten.
pub open spec fn forgetting_of(current: Option<CurrentView>) -> Forgetting {
    if current is Some && current->0.manual {
        Forgetting::Keep
    } else {
        Forgetting::Remove
    }
}

/// Decides whether the record of the current pairing goes, so that the next connection
/// enrolls anew. A ticket that the user supplied cannot be had again and is kept.
pub fn forget_cached_ticket(current: &Option<Current>) -> (forgetting: Forgetting)
    ensures
        forgetting == forgetting_of(view_option(*current)),
{
    match current {
        Some(current) => if current.manual {
            Forgetting::Keep
        } else {
            Forgetting::Remove
        },
        None => Forgetting::Remove,
    }
}

/// Where a ticket comes from. Only one from the record of an automatic enrollment can
/// be replaced without asking the user.
#[derive(Debug)]
pub enum TicketSource {
    /// The environment names it.
    Environment,
    /// The record of an automatic enrollment with this bridge.
    CachedAuto { bridge: String },
    /// The record of a ticket that the user supplied.
    CachedManual,
    /// A new enrollment.
    AutoEnrolled,
}

/// Model of a [`TicketSource`].
pub enum TicketSourceView {
    Environment,
    CachedAuto { bridge: Seq<char> },
    CachedManual,
    AutoEnrolled,
}

impl View for TicketSource {
    type V = TicketSourceView;

    open spec fn view(&self) -> TicketSourceView {
        match self {
            TicketSource::Environment => TicketSourceView::Environment,
            TicketSource::CachedAuto { bridge } => TicketSourceView::CachedAuto { bridge: bridge@ },
            TicketSource::CachedManual => TicketSourceView::CachedManual,
            TicketSource::AutoEnrolled => TicketSourceView::AutoEnrolled,
        }
    }
}

/// A ticket to connect with.
#[derive(Debug)]
pub struct ResolvedTicket {
    pub ticket: String,
    pub source: TicketSource,
}

/// Model of a [`ResolvedTicket`].
pub struct ResolvedTicketView {
    pub ticket: Seq<char>,
    pub source: TicketSourceView,
}

impl View for ResolvedTicket {
    type V = ResolvedTicketView;

    open spec fn view(&self) -> ResolvedTicketView {
        ResolvedTicketView { ticket: self.ticket@, source: self.source@ }
    }
}

/// How a ticket is come by.
#[derive(Debug)]
pub enum Resolution {
    /// It is there.
    Use(ResolvedTicket),
    /// By enrolling with this bridge.
    Enroll { bridge: String },
}

/// Model of a [`Resolution`].
pub enum ResolutionView {
    Use(ResolvedTicketView),
    Enroll { bridge: Seq<char> },
}

impl View for Resolution {
    type V = ResolutionView;

    open spec fn view(&self) -> ResolutionView {
        match self {
            Resolution::Use(resolved) => ResolutionView::Use(resolved@),
            Resolution::Enroll { bridge } => ResolutionView::Enroll { bridge: bridge@ },
        }
    }
}

/// A variable of the environment is set to something.
pub open spec fn is_given(value: Option<Seq<char>>) -> bool {
    value is Some && value->0.len() > 0
}

/// How a ticket is come by: the one that the environment names, else that of the
/// current pairing, else by enrolling with the bridge that the environment names or
/// with the default one.
pub open spec fn resolution(
    ticket: Option<Seq<char>>,
    current: Option<CurrentView>,
    name: Option<Seq<char>>,
) -> ResolutionView {
    if is_given(ticket) {
        ResolutionView::Use(
            ResolvedTicketView { ticket: ticket->0, source: TicketSourceView::Environment },
        )
    } else if current is Some {
        ResolutionView::Use(
            ResolvedTicketView {
                ticket: current->0.ticket,
                source: if current->0.manual {
                    TicketSourceView::CachedManual
                } else {
                    TicketSourceView::CachedAuto { bridge: current->0.bridge }
                },
            },
        )
    } else {
        ResolutionView::Enroll {
            bridge: if is_given(name) {
                name->0
            } else {
                DEFAULT_BRIDGE@
            },
        }
    }
}

/// Tells whether a variable of the environment is set to something.
pub fn given(value: &Option<String>) -> (yes: bool)
    ensures
        yes == is_given(view_option(*value)),
{
    match value {
        Some(text) => !text.as_str().is_empty(),
        None => false,
    }
}

/// Decides how a ticket is come by. `ticket` and `name` are what the environment names,
/// `current` is the record of the current pairing.
pub fn resolve_ticket(
    ticket: Option<String>,
    current: Option<Current>,
    name: Option<String>,
) -> (resolved: Resolution)
    ensures
        resolved@ == resolution(view_option(ticket), view_option(current), view_option(name)),
{
    let named = given(&ticket);
    let bridge_named = given(&name);
    match (ticket, current, name) {
        (Some(ticket), _, _) if named => Resolution::Use(
            ResolvedTicket { ticket, source: TicketSource::Environment },
        ),
        (_, Some(current), _) => Resolution::Use(
            ResolvedTicket {
                ticket: current.ticket,
                source: if current.manual {
                    TicketSource::CachedManual
                } else {
                    TicketSource::CachedAuto { bridge: current.bridge }
                },
            },
        ),
        (_, _, Some(name)) if bridge_named => Resolution::Enroll { bridge: name },
        _ => Resolution::Enroll { bridge: DEFAULT_BRIDGE.to_owned() },
    }
}

/// The arguments of `docker compose` that enroll a public key with a bridge.
pub open spec fn enroll_args(bridge: Seq<char>, public_key: Seq<char>) -> Seq<Seq<char>> {
    seq![
        "run"@,
        "--rm"@,
        "--no-deps"@,
        "openc3-cosmos-cmd-tlm-api"@,
        "ruby"@,
        "/openc3/bin/openc3cli"@,
        "bridgeenroll"@,
        bridge,
        public_key,
    ]
}

/// Enrolls a public key with a bridge: the arguments of `docker compose`. What becomes
/// of the output is up to [`enrolled_ticket`].
pub fn auto_enroll(bridge: &str, public_key: &str) -> (args: Vec<String>)
    ensures
        views(args@) == enroll_args(bridge@, public_key@),
{
    let mut args: Vec<String> = Vec::new();
    args.push("run".to_owned());
    args.push("--rm".to_owned());
    args.push("--no-deps".to_owned());
    args.push("openc3-cosmos-cmd-tlm-api".to_owned());
    args.push("ruby".to_owned());
    args.push("/openc3/bin/openc3cli".to_owned());
    args.push("bridgeenroll".to_owned());
    args.push(bridge.to_owned());
    args.push(public_key.to_owned());
    assert(views(args@) == enroll_args(bridge@, public_key@));
    args
}

/// The ticket that an enrollment printed.
pub open spec fn printed_ticket(success: bool, stdout: Seq<char>, stderr: Seq<char>) -> Result<
    Seq<char>,
    Seq<Seq<char>>,
> {
    if !success {
        Err(seq!["bridgeenroll failed: "@ + trimmed(stderr)])
    } else if trimmed(stdout).len() == 0 {
        Err(seq!["bridgeenroll returned no ticket"@])
    } else {
        Ok(trimmed(stdout))
    }
}

/// Takes the ticket from what an enrollment printed.
pub fn read_ticket(success: bool, stdout: &str, stderr: &str) -> (ticket: Result<
    String,
    ErrorChain,
>)
    ensures
        view_result(ticket) == printed_ticket(success, stdout@, stderr@),
{
    if !success {
        let mut message = "bridgeenroll failed: ".to_owned();
        message.append(trim(stderr).as_str());
        return Err(ErrorChain::new(message));
    }
    let ticket = trim(stdout);
    if ticket.as_str().is_empty() {
        return Err(ErrorChain::new("bridgeenroll returned no ticket".to_owned()));
    }
    Ok(ticket)
}

/// The ticket that came of an enrollment, whose command may not have run at all.
pub open spec fn ticket_of(captured: Result<OutputView, Seq<Seq<char>>>) -> Result<
    Seq<char>,
    Seq<Seq<char>>,
> {
    match captured {
        Ok(output) => printed_ticket(
            output.success,
            lossy_text_of(output.stdout),
            lossy_text_of(output.stderr),
        ),
        Err(error) => Err(error),
    }
}

/// Takes the ticket from what came of an enrollment.
pub fn enrolled_ticket(captured: Result<Output, ErrorChain>) -> (ticket: Result<
    String,
    ErrorChain,
>)
    ensures
        view_result(ticket) == ticket_of(view_result(captured)),
{
    match captured {
        Ok(output) => read_ticket(
            output.success,
            lossy_text(&output.stdout).as_str(),
            lossy_text(&output.stderr).as_str(),
        ),
        Err(error) => Err(error),
    }
}

/// What is said where an enrollment fails.
pub open spec fn enroll_reason(
    renewal: bool,
    bridge: Seq<char>,
    error: Seq<Seq<char>>,
) -> Seq<char> {
    (if renewal {
        "re-enrolling bridge '"@
    } else {
        "enrolling bridge '"@
    }) + bridge + "' failed: "@ + brief_of(error)
}

/// Says that an enrollment failed.
pub fn enroll_error(renewal: bool, bridge: &str, error: &ErrorChain) -> (reason: String)
    ensures
        reason@ == enroll_reason(renewal, bridge@, error@),
{
    let mut reason = if renewal {
        "re-enrolling bridge '".to_owned()
    } else {
        "enrolling bridge '".to_owned()
    };
    reason.append(bridge);
    reason.append("' failed: ");
    reason.append(brief(error).as_str());
    reason
}

/// What is said where a renewed pairing cannot be saved.
pub open spec fn save_reason(error: Seq<Seq<char>>) -> Seq<char> {
    "could not save refreshed bridge enrollment: "@ + brief_of(error)
}

/// Says that a renewed pairing cannot be saved.
pub fn save_error(error: &ErrorChain) -> (reason: String)
    ensures
        reason@ == save_reason(error@),
{
    let mut reason = "could not save refreshed bridge enrollment: ".to_owned();
    reason.append(brief(error).as_str());
    reason
}

} // verus!
