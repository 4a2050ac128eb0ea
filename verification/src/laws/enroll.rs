//! What is said of errors, and where a ticket comes from.
use crate::context::{FilePathView, Folder, OutputView};
use crate::enroll::{
    blames_certificate, brief_of, forgetting_of, is_certificate_error, record_steps, resolution,
    ticket_of, Forgetting, ResolutionView, ResolvedTicketView, TicketSourceView,
};
use crate::laws::commands::{does, ends_well};
use crate::laws::plan::{demanded, steady_plan_is_done};
use crate::laws::text::a_part_stands_in_what_holds_it;
use crate::pairing::CurrentView;
use crate::plan::{OnFailureView, ReplyView, StepView};
use crate::text::{
    ascii_lowered, lossy_text_of, occurs_at, occurs_in, run_before_of_run, trimmed,
};
use vstd::prelude::*;

verus! {

/// An error is shown by the first line of its outermost message, without the white space
/// around it: in full where it has no more than 160 characters, and else its first 159 and
/// an ellipsis. Neither further lines nor the causes are shown.
pub proof fn first_line_is_shown(line: Seq<char>, more: Seq<char>, causes: Seq<Seq<char>>)
    requires
        forall|i: int| 0 <= i < line.len() ==> line[i] != '\n',
        more.len() > 0 ==> more.first() == '\n',
    ensures
        ({
            let shown = brief_of(seq![line + more] + causes);
            let short = trimmed(line);
            &&& short.len() <= 160 ==> shown == short
            &&& short.len() > 160 ==> shown.len() == 160 && shown.take(159) == short.take(159)
                && shown[159] == '…'
        }),
{
    run_before_of_run(line, more, '\n', '\n');
    reveal_strlit("…");
    let short = trimmed(line);
    let error = seq![line + more] + causes;
    assert(error[0] == line + more);
    if short.len() > 160 {
        let shown = brief_of(error);
        assert(shown == short.take(159) + "…"@);
        assert(shown.take(159) =~= short.take(159));
    }
}

/// A text is `part`, with something before it and something behind it.
pub open spec fn is_around(text: Seq<char>, part: Seq<char>) -> bool {
    exists|front: Seq<char>, back: Seq<char>| text == #[trigger] (front + part + back)
}

/// What occurs in a text stands in it with something before and behind.
proof fn what_occurs_is_within(text: Seq<char>, part: Seq<char>)
    requires
        occurs_in(text, part),
    ensures
        is_around(text, part),
{
    let at = choose|at: int| occurs_at(text, part, at);
    let front = text.take(at);
    let back = text.skip(at + part.len());
    assert(text =~= front + part + back);
}

/// The certificate is blamed by a message that holds one of the two phrases, whatever the
/// case of its letters and whatever stands around them, and by no other.
pub proof fn phrases_blame_the_certificate(
    front: Seq<char>,
    phrase: Seq<char>,
    back: Seq<char>,
    message: Seq<char>,
)
    ensures
        ascii_lowered(phrase) == "invalid peer certificate"@ || ascii_lowered(phrase)
            == "unknownissuer"@ ==> blames_certificate(front + phrase + back),
        blames_certificate(message) ==> is_around(
            ascii_lowered(message),
            "invalid peer certificate"@,
        ) || is_around(ascii_lowered(message), "unknownissuer"@),
{
    let whole = front + phrase + back;
    let lower = ascii_lowered(phrase);
    assert(ascii_lowered(whole) =~= ascii_lowered(front) + lower + ascii_lowered(back));
    a_part_stands_in_what_holds_it(ascii_lowered(front), lower, ascii_lowered(back), lower);
    let text = ascii_lowered(message);
    if occurs_in(text, "invalid peer certificate"@) {
        what_occurs_is_within(text, "invalid peer certificate"@);
    }
    if occurs_in(text, "unknownissuer"@) {
        what_occurs_is_within(text, "unknownissuer"@);
    }
}

/// An error blames the certificate exactly where one of its messages does, wherever it
/// stands in the chain.
pub proof fn any_message_can_blame_the_certificate(
    outer: Seq<Seq<char>>,
    message: Seq<char>,
    inner: Seq<Seq<char>>,
)
    ensures
        blames_certificate(message) ==> is_certificate_error(outer + seq![message] + inner),
        is_certificate_error(outer) ==> is_certificate_error(outer + inner),
        is_certificate_error(inner) ==> is_certificate_error(outer + inner),
        is_certificate_error(outer + inner) ==> is_certificate_error(outer)
            || is_certificate_error(inner),
        is_certificate_error(seq![message]) <==> blames_certificate(message),
        !is_certificate_error(Seq::<Seq<char>>::empty()),
{
    let whole = outer + seq![message] + inner;
    assert(whole[outer.len() as int] == message);
    let both = outer + inner;
    if is_certificate_error(outer) {
        let i = choose|i: int| 0 <= i < outer.len() && blames_certificate(#[trigger] outer[i]);
        assert(both[i] == outer[i]);
    }
    if is_certificate_error(inner) {
        let i = choose|i: int| 0 <= i < inner.len() && blames_certificate(#[trigger] inner[i]);
        assert(both[outer.len() + i] == inner[i]);
    }
    if is_certificate_error(both) {
        let i = choose|i: int| 0 <= i < both.len() && blames_certificate(#[trigger] both[i]);
        if i < outer.len() {
            assert(outer[i] == both[i]);
        } else {
            assert(inner[i - outer.len()] == both[i]);
        }
    }
    assert(seq![message][0] == message);
}

/// The record of a pairing is saved as it is, in its folder, which is made if need be;
/// that it cannot be saved is an error that says so.
pub proof fn record_is_saved_as_it_is(current: CurrentView, replies: Seq<ReplyView>)
    ensures
        ({
            let steps = record_steps(current.bridge, current.ticket, current.manual);
            let folder = FilePathView { folder: Folder::Root, parts: seq!["bridge"@] };
            &&& steps.len() == 2
            &&& steps[0].step == StepView::CreateFolder(folder) && steps[0].on_failure
                == OnFailureView::Skip(0)
            &&& steps[1].step == StepView::SaveCurrent(current) && steps[1].on_failure
                == OnFailureView::Explain("persisting current bridge"@)
            &&& ends_well(steps, replies) ==> does(
                steps,
                replies,
                seq![StepView::SaveCurrent(current)],
            )
        }),
{
    let steps = record_steps(current.bridge, current.ticket, current.manual);
    reveal_with_fuel(demanded, 3);
    assert(demanded(steps) =~= seq![StepView::SaveCurrent(current)]);
    if ends_well(steps, replies) {
        steady_plan_is_done(steps, replies);
    }
}

/// A record is kept exactly where the user supplied its ticket.
pub proof fn only_a_manual_record_is_kept(current: CurrentView)
    ensures
        forgetting_of(Some(current)) == Forgetting::Keep <==> current.manual,
        forgetting_of(None) == Forgetting::Remove,
{
}

/// The ticket that the environment names comes before the one on record, and that before
/// a new one, for which the environment can name the bridge.
pub proof fn ticket_comes_from_the_first_source(
    ticket: Seq<char>,
    current: CurrentView,
    record: Option<CurrentView>,
    name: Option<Seq<char>>,
)
    ensures
        ticket.len() > 0 ==> resolution(Some(ticket), record, name) == ResolutionView::Use(
            ResolvedTicketView { ticket, source: TicketSourceView::Environment },
        ),
        resolution(Some(Seq::<char>::empty()), record, name) == resolution(None, record, name),
        resolution(None, Some(current), name) == ResolutionView::Use(
            ResolvedTicketView {
                ticket: current.ticket,
                source: if current.manual {
                    TicketSourceView::CachedManual
                } else {
                    TicketSourceView::CachedAuto { bridge: current.bridge }
                },
            },
        ),
        name is Some && name->0.len() > 0 ==> resolution(None, None, name)
            == (ResolutionView::Enroll { bridge: name->0 }),
        name is None || name->0.len() == 0 ==> resolution(None, None, name)
            == (ResolutionView::Enroll { bridge: "DEFAULT"@ }),
{
}

/// The ticket is what the enrollment printed, without the white space around it; nothing
/// printed, a failed enrollment and one that could not be run are errors that say so.
pub proof fn ticket_is_what_was_printed(output: OutputView, error: Seq<Seq<char>>)
    ensures
        ({
            let printed = trimmed(lossy_text_of(output.stdout));
            let complaint = trimmed(lossy_text_of(output.stderr));
            let ticket = ticket_of(Ok(output));
            &&& output.success && printed.len() > 0 ==> ticket == Ok::<
                Seq<char>,
                Seq<Seq<char>>,
            >(printed)
            &&& output.success && printed.len() == 0 ==> ticket == Err::<
                Seq<char>,
                Seq<Seq<char>>,
            >(seq!["bridgeenroll returned no ticket"@])
            &&& !output.success ==> ticket == Err::<Seq<char>, Seq<Seq<char>>>(
                seq!["bridgeenroll failed: "@ + complaint],
            )
        }),
        ticket_of(Err(error)) == Err::<Seq<char>, Seq<Seq<char>>>(error),
{
}

} // verus!
