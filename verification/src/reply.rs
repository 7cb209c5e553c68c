//! The reply composer: the text that reports what the commands of a request printed, with
//! the request itself quoted below it, and the message that carries it back to the sender.
//!
//! Labels, rules and the order of the sections are fixed, so that two replies can be held
//! side by side.

use crate::command::{ExecutionResult, ExecutionResultView};
use crate::envelope::{no_date, no_subject, shown, unknown_address, Envelope, EnvelopeView};
use vstd::prelude::*;
use vstd::string::StringExecFns;

verus! {

/// The rule under the command and under the heading of its response.
pub open spec fn thin_rule() -> Seq<char> {
    "__________________________________________\n\n"@
}

/// The rule that closes a command's block and opens the quoted request.
pub open spec fn thick_rule() -> Seq<char> {
    "===================================================\n\n\n"@
}

/// The heading over the quoted request.
pub open spec fn quoted_heading() -> Seq<char> {
    "************* ORIGINAL MESSAGE BELOW: *************\n\n\n"@
}

/// The rule between the quoted headers and the quoted body.
pub open spec fn header_rule() -> Seq<char> {
    "\n---------------------------------------------------\n\n"@
}

/// What a reply reports as the response to one command: what the command printed, standard
/// output first, then a blank line, then standard error; or the reason it could not be
/// started.
pub open spec fn response_text(result: ExecutionResultView) -> Seq<char> {
    match result.failure {
        None => result.stdout + "\n\n"@ + result.stderr,
        Some(error) => "Failed to execute command: "@ + result.command + ". Error: "@ + error,
    }
}

/// The block of a reply that reports one command: the command, then its response, each
/// under its heading, closed by a thick rule.
pub open spec fn block_text(result: ExecutionResultView) -> Seq<char> {
    "Command Sent:\n"@ + result.command + "\n"@ + thin_rule() + "Command Response:\n"@
        + thin_rule() + response_text(result) + thick_rule()
}

/// The blocks of `results`, in order.
pub open spec fn blocks_text(results: Seq<ExecutionResultView>) -> Seq<char>
    decreases results.len(),
{
    if results.len() == 0 {
        Seq::empty()
    } else {
        blocks_text(results.drop_last()) + block_text(results.last())
    }
}

/// The end of a reply: the request quoted with its sender, recipient, date and subject, and
/// below them the text of the request as it was extracted.
pub open spec fn trailer_text(envelope: EnvelopeView, body: Seq<char>) -> Seq<char> {
    quoted_heading() + thick_rule() + "From:      "@ + shown(
        envelope.from_address,
        unknown_address(),
    ) + "\nTo:      "@ + shown(envelope.to_address, unknown_address()) + "\nDate:    "@ + shown(
        envelope.date,
        no_date(),
    ) + "\nSubject: "@ + shown(envelope.subject, no_subject()) + header_rule() + body
}

/// The text of the reply to a request with `envelope` and `body` whose commands had
/// `results`: one block for each command, in the order in which they ran, then the quoted
/// request.
pub open spec fn reply_body(
    results: Seq<ExecutionResultView>,
    envelope: EnvelopeView,
    body: Seq<char>,
) -> Seq<char> {
    blocks_text(results) + trailer_text(envelope, body)
}

/// The subject of the reply to a message with `envelope`.
pub open spec fn reply_subject(envelope: EnvelopeView) -> Seq<char> {
    "Re: "@ + shown(envelope.subject, no_subject())
}

/// What an informational message with `envelope` and `body` looks like on the operator's
/// console.
pub open spec fn display_text(envelope: EnvelopeView, body: Seq<char>) -> Seq<char> {
    "From:    "@ + shown(envelope.from_address, unknown_address()) + "\nTo:      "@ + shown(
        envelope.to_address,
        unknown_address(),
    ) + "\nDate:    "@ + shown(envelope.date, no_date()) + "\nSubject: "@ + shown(
        envelope.subject,
        no_subject(),
    ) + "\n"@ + thin_rule() + body + "\n\n"@ + thick_rule() + "\n"@
}

/// A reply, ready to be handed to the mail sender.
#[derive(Clone, Debug)]
pub struct ReplyMessage {
    pub to_address: String,
    pub subject: String,
    pub body: String,
}

/// The model of a [`ReplyMessage`].
pub struct ReplyMessageView {
    pub to_address: Seq<char>,
    pub subject: Seq<char>,
    pub body: Seq<char>,
}

impl View for ReplyMessage {
    type V = ReplyMessageView;

    open spec fn view(&self) -> ReplyMessageView {
        ReplyMessageView { to_address: self.to_address@, subject: self.subject@, body: self.body@ }
    }
}

impl DeepView for ReplyMessage {
    type V = ReplyMessageView;

    open spec fn deep_view(&self) -> ReplyMessageView {
        self@
    }
}

/// The reply to a request with `envelope` and `body` whose commands had `results`. It goes
/// to the sender of the request; a request without a sender has no reply.
pub open spec fn reply_for(
    results: Seq<ExecutionResultView>,
    envelope: EnvelopeView,
    body: Seq<char>,
) -> Option<ReplyMessageView> {
    match envelope.from_address {
        Some(sender) => Some(
            ReplyMessageView {
                to_address: sender,
                subject: reply_subject(envelope),
                body: reply_body(results, envelope, body),
            },
        ),
        None => None,
    }
}

fn response(result: &ExecutionResult) -> (text: String)
    ensures
        text@ == response_text(result@),
{
    match &result.failure {
        None => {
            let mut text = result.stdout.clone();
            text.append("\n\n");
            text.append(result.stderr.as_str());
            text
        },
        Some(error) => {
            let mut text = String::from_str("Failed to execute command: ");
            text.append(result.command.as_str());
            text.append(". Error: ");
            text.append(error.as_str());
            text
        },
    }
}

fn block(result: &ExecutionResult) -> (text: String)
    ensures
        text@ == block_text(result@),
{
    let mut text = String::from_str("Command Sent:\n");
    text.append(result.command.as_str());
    text.append("\n");
    text.append("__________________________________________\n\n");
    text.append("Command Response:\n");
    text.append("__________________________________________\n\n");
    text.append(response(result).as_str());
    text.append("===================================================\n\n\n");
    text
}

fn trailer(envelope: &Envelope, body: &str) -> (text: String)
    ensures
        text@ == trailer_text(envelope@, body@),
{
    let mut text = String::from_str("************* ORIGINAL MESSAGE BELOW: *************\n\n\n");
    text.append("===================================================\n\n\n");
    text.append("From:      ");
    text.append(envelope.from_text().as_str());
    text.append("\nTo:      ");
    text.append(envelope.to_text().as_str());
    text.append("\nDate:    ");
    text.append(envelope.date_text().as_str());
    text.append("\nSubject: ");
    text.append(envelope.subject_text().as_str());
    text.append("\n---------------------------------------------------\n\n");
    text.append(body);
    text
}

/// The text of the reply to a request with `envelope` and `body` whose commands had
/// `results`.
pub fn compose_body(results: &Vec<ExecutionResult>, envelope: &Envelope, body: &str) -> (text:
    String)
    ensures
        text@ == reply_body(results.deep_view(), envelope@, body@),
{
    let ghost all = results.deep_view();
    let mut text = String::new();
    let mut i: usize = 0;
    assert(all.take(0) =~= Seq::<ExecutionResultView>::empty());
    while i < results.len()
        invariant
            i <= results.len(),
            all == results.deep_view(),
            text@ == blocks_text(all.take(i as int)),
        decreases results.len() - i,
    {
        assert(all.take(i + 1).drop_last() =~= all.take(i as int));
        assert(all.take(i + 1).last() == results@[i as int]@);
        text.append(block(&results[i]).as_str());
        i += 1;
    }
    assert(all.take(results.len() as int) =~= all);
    text.append(trailer(envelope, body).as_str());
    text
}

/// The reply to a request with `envelope` and `body` whose commands had `results`, or
/// `None` where the request names no sender to reply to.
pub fn compose_reply(results: &Vec<ExecutionResult>, envelope: &Envelope, body: &str) -> (reply:
    Option<ReplyMessage>)
    ensures
        reply.deep_view() == reply_for(results.deep_view(), envelope@, body@),
{
    match &envelope.from_address {
        Some(sender) => {
            let mut subject = String::from_str("Re: ");
            subject.append(envelope.subject_text().as_str());
            Some(
                ReplyMessage {
                    to_address: sender.clone(),
                    subject,
                    body: compose_body(results, envelope, body),
                },
            )
        },
        None => None,
    }
}

/// What is printed on the operator's console for an informational message with `envelope`
/// and `body`.
pub fn display(envelope: &Envelope, body: &str) -> (text: String)
    ensures
        text@ == display_text(envelope@, body@),
{
    let mut text = String::from_str("From:    ");
    text.append(envelope.from_text().as_str());
    text.append("\nTo:      ");
    text.append(envelope.to_text().as_str());
    text.append("\nDate:    ");
    text.append(envelope.date_text().as_str());
    text.append("\nSubject: ");
    text.append(envelope.subject_text().as_str());
    text.append("\n");
    text.append("__________________________________________\n\n");
    text.append(body);
    text.append("\n\n");
    text.append("===================================================\n\n\n");
    text.append("\n");
    text
}

/// Two replies composed from the same results, envelope and body are the same text, and so
/// the same bytes: composing is a function of what it is given.
pub proof fn lemma_compose_repeatable(
    first: Option<ReplyMessage>,
    second: Option<ReplyMessage>,
    results: Seq<ExecutionResultView>,
    envelope: EnvelopeView,
    body: Seq<char>,
)
    requires
        first.deep_view() == reply_for(results, envelope, body),
        second.deep_view() == reply_for(results, envelope, body),
    ensures
        first.deep_view() == second.deep_view(),
        first matches Some(a) ==> second matches Some(b) && a.body@ == b.body@
            && vstd::utf8::encode_utf8(a.body@) == vstd::utf8::encode_utf8(b.body@),
{
}

} // verus!
