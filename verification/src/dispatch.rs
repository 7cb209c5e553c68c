//! What is done with one fetched message: the verdict on it, and the actions that carry the
//! verdict out.

use crate::classify::{classification, classify, Classification};
use crate::command::{command_lines, commands_of};
use crate::envelope::{
    decoded, no_subject, opt_bytes, shown, Envelope, EnvelopeView, RawEnvelope, RawEnvelopeView,
};
use crate::extract::{extract_plain_text, plain_text, utf8_lossy};
use crate::mailbox::{
    after_all, keeping, lemma_after_all_concat, lemma_fetch_then_keeping, lemma_keeping_keeps,
    lemma_keeping_of_absent, lemma_removal_removes, removal, seen_by_fetch, Flags, MailboxOp,
};
use crate::reply::{display, display_text, ReplyMessage, ReplyMessageView};
use vstd::prelude::*;

verus! {

/// Something the operator is told about a message that was passed over.
#[derive(Clone, Copy, Debug, PartialEq, Eq, Structural)]
pub enum Notice {
    /// The server gave no envelope for the message.
    NoEnvelope(u32),
    /// The envelope names no sender with both a mailbox and a host.
    IncompleteAddress(u32),
    /// The server gave no body for the message.
    NoBody(u32),
}

/// What the server gave for one message. Either part may be missing.
#[derive(Clone, Debug)]
pub struct FetchedMessage {
    pub envelope: Option<RawEnvelope>,
    pub body: Option<Vec<u8>>,
}

/// The model of a [`FetchedMessage`].
pub struct FetchedMessageView {
    pub envelope: Option<RawEnvelopeView>,
    pub body: Option<Seq<u8>>,
}

impl View for FetchedMessage {
    type V = FetchedMessageView;

    open spec fn view(&self) -> FetchedMessageView {
        FetchedMessageView { envelope: self.envelope.deep_view(), body: opt_bytes(self.body) }
    }
}

impl DeepView for FetchedMessage {
    type V = FetchedMessageView;

    open spec fn deep_view(&self) -> FetchedMessageView {
        self@
    }
}

/// One unseen message, complete: its identifier, its envelope as read, its raw payload. It
/// lives for one poll run and belongs to that run alone.
#[derive(Clone, Debug)]
pub struct MessageRecord {
    pub id: u32,
    pub envelope: Envelope,
    pub raw_body: Vec<u8>,
}

/// The model of a [`MessageRecord`].
pub struct MessageRecordView {
    pub id: u32,
    pub envelope: EnvelopeView,
    pub raw_body: Seq<u8>,
}

impl View for MessageRecord {
    type V = MessageRecordView;

    open spec fn view(&self) -> MessageRecordView {
        MessageRecordView { id: self.id, envelope: self.envelope@, raw_body: self.raw_body@ }
    }
}

impl DeepView for MessageRecord {
    type V = MessageRecordView;

    open spec fn deep_view(&self) -> MessageRecordView {
        self@
    }
}

/// The verdict on one fetched message.
#[derive(Clone, Debug)]
pub enum Disposition {
    /// The message is passed over and left on the server, marked unseen; the operator is
    /// told why.
    Skip(Notice),
    /// A command echo: the message stays on the server, marked unseen.
    Keep,
    /// A command request: the message is removed, its commands are run and answered.
    Execute(MessageRecord),
    /// An informational message: it is shown to the operator and removed.
    Present(MessageRecord),
}

/// The model of a [`Disposition`].
pub enum DispositionView {
    Skip(Notice),
    Keep,
    Execute(MessageRecordView),
    Present(MessageRecordView),
}

impl View for Disposition {
    type V = DispositionView;

    open spec fn view(&self) -> DispositionView {
        match self {
            Disposition::Skip(notice) => DispositionView::Skip(*notice),
            Disposition::Keep => DispositionView::Keep,
            Disposition::Execute(record) => DispositionView::Execute(record@),
            Disposition::Present(record) => DispositionView::Present(record@),
        }
    }
}

/// The subject by which a message with `envelope` is classified.
pub open spec fn classified_subject(envelope: EnvelopeView) -> Seq<char> {
    shown(envelope.subject, no_subject())
}

/// The verdict on the message `id` with the envelope `envelope`, as the agent reads it, and
/// the raw body `body`, where `tag` is configured.
///
/// Without an envelope the message is passed over with a notice. A command echo is kept,
/// whatever else the message holds. Any other message needs a body and a sender, or it is
/// passed over with a notice; of those that have both, the command request is executed and
/// the rest presented.
pub open spec fn disposition_of(
    id: u32,
    envelope: Option<EnvelopeView>,
    body: Option<Seq<u8>>,
    tag: Seq<char>,
) -> DispositionView {
    match envelope {
        None => DispositionView::Skip(Notice::NoEnvelope(id)),
        Some(envelope) => {
            let class = classification(classified_subject(envelope), tag);
            if class == Classification::CommandEcho {
                DispositionView::Keep
            } else {
                match body {
                    None => DispositionView::Skip(Notice::NoBody(id)),
                    Some(raw_body) => {
                        let record = MessageRecordView { id, envelope, raw_body };
                        if envelope.from_address is None {
                            DispositionView::Skip(Notice::IncompleteAddress(id))
                        } else if class == Classification::CommandRequest {
                            DispositionView::Execute(record)
                        } else {
                            DispositionView::Present(record)
                        }
                    },
                }
            }
        },
    }
}

/// The envelope that the agent reads from what the server gave, if the server gave one.
pub open spec fn read_envelope(raw: Option<RawEnvelopeView>) -> Option<EnvelopeView> {
    match raw {
        Some(raw) => Some(decoded(raw)),
        None => None,
    }
}

/// The verdict on what the server gave for the message `id`, where `tag` is configured: the
/// verdict on its envelope, as the agent reads it, and its body.
pub open spec fn disposition(
    id: u32,
    fetched: FetchedMessageView,
    tag: Seq<char>,
) -> DispositionView {
    disposition_of(id, read_envelope(fetched.envelope), fetched.body, tag)
}

/// Decides what is done with the message `id` that has the envelope `envelope` and the raw
/// body `body`.
pub fn verdict_on(
    id: u32,
    envelope: Option<Envelope>,
    body: Option<Vec<u8>>,
    tag: &str,
) -> (verdict: Disposition)
    ensures
        verdict@ == disposition_of(id, envelope.deep_view(), opt_bytes(body), tag@),
{
    let envelope = match envelope {
        None => {
            return Disposition::Skip(Notice::NoEnvelope(id));
        },
        Some(envelope) => envelope,
    };
    let subject = envelope.subject_text();
    let class = classify(subject.as_str(), tag);
    if class == Classification::CommandEcho {
        return Disposition::Keep;
    }
    let raw_body = match body {
        None => {
            return Disposition::Skip(Notice::NoBody(id));
        },
        Some(raw_body) => raw_body,
    };
    if envelope.from_address.is_none() {
        return Disposition::Skip(Notice::IncompleteAddress(id));
    }
    let record = MessageRecord { id, envelope, raw_body };
    if class == Classification::CommandRequest {
        Disposition::Execute(record)
    } else {
        Disposition::Present(record)
    }
}

/// Decides what is done with what the server gave for the message `id`.
pub fn dispose(id: u32, fetched: FetchedMessage, tag: &str) -> (verdict: Disposition)
    ensures
        verdict@ == disposition(id, fetched@, tag@),
{
    let FetchedMessage { envelope: raw, body } = fetched;
    let envelope = match raw {
        Some(raw) => Some(Envelope::decode(&raw)),
        None => None,
    };
    verdict_on(id, envelope, body, tag)
}

/// One thing that the poll run asks its caller to do.
#[derive(Clone, Debug)]
pub enum Action {
    /// Fetch the envelope and the whole body of the message.
    Fetch(u32),
    /// Have the server make this change to the mailbox.
    Apply(MailboxOp),
    /// Run these commands, in this order, and hand back one result for each.
    Run(Vec<String>),
    /// Send this reply. The run goes on whether or not it can be delivered.
    Send(ReplyMessage),
    /// Print this text for the operator.
    Show(String),
    /// Tell the operator of this.
    Report(Notice),
    /// Close the session with the server.
    Logout,
    /// Nothing more: the run is over.
    Stop,
}

/// The model of an [`Action`].
pub enum ActionView {
    Fetch(u32),
    Apply(MailboxOp),
    Run(Seq<Seq<char>>),
    Send(ReplyMessageView),
    Show(Seq<char>),
    Report(Notice),
    Logout,
    Stop,
}

impl View for Action {
    type V = ActionView;

    open spec fn view(&self) -> ActionView {
        match self {
            Action::Fetch(id) => ActionView::Fetch(*id),
            Action::Apply(op) => ActionView::Apply(*op),
            Action::Run(commands) => ActionView::Run(commands.deep_view()),
            Action::Send(reply) => ActionView::Send(reply@),
            Action::Show(text) => ActionView::Show(text@),
            Action::Report(notice) => ActionView::Report(*notice),
            Action::Logout => ActionView::Logout,
            Action::Stop => ActionView::Stop,
        }
    }
}

impl DeepView for Action {
    type V = ActionView;

    open spec fn deep_view(&self) -> ActionView {
        self@
    }
}

/// The changes `ops`, each as an action.
pub open spec fn applying(ops: Seq<MailboxOp>) -> Seq<ActionView> {
    Seq::new(ops.len(), |i: int| ActionView::Apply(ops[i]))
}

/// The text of the message of `record`: the plain-text body of its payload.
pub open spec fn record_text(record: MessageRecordView) -> Seq<char> {
    plain_text(utf8_lossy(record.raw_body))
}

/// The actions that carry out `verdict` on the message `id`, in order.
///
/// A command request is removed from the mailbox first and run after that, so that it is
/// consumed whatever becomes of its commands and of the reply. An informational message is
/// shown first and removed after that. A message that is passed over is reported and then
/// marked unseen again, as a command echo is, because the fetch has marked it seen.
pub open spec fn plan_of(id: u32, verdict: DispositionView) -> Seq<ActionView> {
    match verdict {
        DispositionView::Skip(notice) => seq![ActionView::Report(notice)] + applying(keeping(id)),
        DispositionView::Keep => applying(keeping(id)),
        DispositionView::Execute(record) => applying(removal(id)).push(
            ActionView::Run(commands_of(record_text(record))),
        ),
        DispositionView::Present(record) => seq![
            ActionView::Show(display_text(record.envelope, record_text(record))),
        ] + applying(removal(id)),
    }
}

/// The changes to the mailbox among `actions`, in order.
pub open spec fn changes_of(actions: Seq<ActionView>) -> Seq<MailboxOp>
    decreases actions.len(),
{
    if actions.len() == 0 {
        Seq::empty()
    } else {
        match actions.last() {
            ActionView::Apply(op) => changes_of(actions.drop_last()).push(op),
            _ => changes_of(actions.drop_last()),
        }
    }
}

fn push_removal(actions: &mut Vec<Action>, id: u32)
    ensures
        final(actions).deep_view() == old(actions).deep_view() + applying(removal(id)),
{
    let ghost before = actions.deep_view();
    actions.push(Action::Apply(MailboxOp::MarkSeen(id)));
    actions.push(Action::Apply(MailboxOp::MarkDeleted(id)));
    actions.push(Action::Apply(MailboxOp::Expunge));
    assert(actions.deep_view() =~= before + applying(removal(id)));
}

/// The actions that carry out `verdict` on the message `id`, in order.
pub fn plan(id: u32, verdict: &Disposition) -> (actions: Vec<Action>)
    ensures
        actions.deep_view() == plan_of(id, verdict@),
{
    let mut actions: Vec<Action> = Vec::new();
    assert(actions.deep_view() =~= Seq::<ActionView>::empty());
    match verdict {
        Disposition::Skip(notice) => {
            actions.push(Action::Report(*notice));
            actions.push(Action::Apply(MailboxOp::MarkUnseen(id)));
            assert(actions.deep_view() =~= seq![ActionView::Report(*notice)] + applying(
                keeping(id),
            ));
        },
        Disposition::Keep => {
            actions.push(Action::Apply(MailboxOp::MarkUnseen(id)));
            assert(actions.deep_view() =~= applying(keeping(id)));
        },
        Disposition::Execute(record) => {
            let text = extract_plain_text(record.raw_body.as_slice());
            let commands = command_lines(text.as_str());
            push_removal(&mut actions, id);
            let ghost before = actions.deep_view();
            actions.push(Action::Run(commands));
            assert(actions.deep_view() =~= before.push(
                ActionView::Run(commands_of(record_text(record@))),
            ));
            assert(before =~= applying(removal(id)));
        },
        Disposition::Present(record) => {
            let text = extract_plain_text(record.raw_body.as_slice());
            let shown = display(&record.envelope, text.as_str());
            actions.push(Action::Show(shown));
            assert(actions.deep_view() =~= seq![
                ActionView::Show(display_text(record@.envelope, record_text(record@))),
            ]);
            push_removal(&mut actions, id);
        },
    }
    actions
}

/// The changes among actions that are all changes are those changes.
pub proof fn lemma_changes_of_applying(ops: Seq<MailboxOp>)
    ensures
        changes_of(applying(ops)) == ops,
    decreases ops.len(),
{
    if ops.len() > 0 {
        lemma_changes_of_applying(ops.drop_last());
        assert(applying(ops).drop_last() =~= applying(ops.drop_last()));
        assert(changes_of(applying(ops)) =~= ops);
    } else {
        assert(changes_of(applying(ops)) =~= ops);
    }
}

/// The changes that a verdict makes to the mailbox: the keeping of a message that is passed
/// over and of a command echo, the removal of a request and of an informational message.
pub proof fn lemma_changes_of_plan(id: u32, verdict: DispositionView)
    ensures
        changes_of(plan_of(id, verdict)) == match verdict {
            DispositionView::Skip(_) => keeping(id),
            DispositionView::Keep => keeping(id),
            DispositionView::Execute(_) => removal(id),
            DispositionView::Present(_) => removal(id),
        },
{
    let actions = plan_of(id, verdict);
    reveal_with_fuel(changes_of, 6);
    match verdict {
        DispositionView::Skip(_) => {
            let a1 = actions.drop_last();
            assert(a1.drop_last() =~= Seq::<ActionView>::empty());
            assert(changes_of(actions) =~= keeping(id));
        },
        DispositionView::Keep => {
            assert(actions.drop_last() =~= Seq::<ActionView>::empty());
            assert(changes_of(actions) =~= keeping(id));
        },
        DispositionView::Execute(_) => {
            let a3 = actions.drop_last();
            let a2 = a3.drop_last();
            let a1 = a2.drop_last();
            assert(a1.drop_last() =~= Seq::<ActionView>::empty());
            assert(changes_of(actions) =~= removal(id));
        },
        DispositionView::Present(_) => {
            let a3 = actions.drop_last();
            let a2 = a3.drop_last();
            let a1 = a2.drop_last();
            assert(a1.drop_last() =~= Seq::<ActionView>::empty());
            assert(changes_of(actions) =~= removal(id));
        },
    }
}

/// The server gave the message whole, with a sender, and its subject is the command
/// request for `tag`.
pub open spec fn is_request(fetched: FetchedMessageView, tag: Seq<char>) -> bool {
    &&& fetched.envelope matches Some(raw)
    &&& classification(classified_subject(decoded(raw)), tag) == Classification::CommandRequest
    &&& decoded(raw).from_address is Some
    &&& fetched.body is Some
}

/// The server gave an envelope for the message, by whose subject it is a command echo.
pub open spec fn is_echo(fetched: FetchedMessageView, tag: Seq<char>) -> bool {
    &&& fetched.envelope matches Some(raw)
    &&& classification(classified_subject(decoded(raw)), tag) == Classification::CommandEcho
}

/// The mailbox once the message `id` was fetched and the server has made the changes of the
/// verdict on what it gave.
pub open spec fn processed(
    mailbox: Map<u32, Flags>,
    id: u32,
    fetched: FetchedMessageView,
    tag: Seq<char>,
) -> Map<u32, Flags> {
    after_all(seen_by_fetch(mailbox, id), changes_of(plan_of(id, disposition(id, fetched, tag))))
}

/// A command request is always removed from the mailbox: once the server has made the
/// changes of its plan the message is gone. The changes are the first actions of the plan,
/// before the commands are run and before any reply exists, so that neither a failing
/// command nor a lost reply can leave the request behind.
pub proof fn lemma_request_is_consumed(
    id: u32,
    fetched: FetchedMessageView,
    tag: Seq<char>,
    mailbox: Map<u32, Flags>,
)
    requires
        is_request(fetched, tag),
    ensures
        ({
            let planned = plan_of(id, disposition(id, fetched, tag));
            &&& planned.len() == 4
            &&& planned.subrange(0, 3) == applying(removal(id))
            &&& planned[3] is Run
            &&& !processed(mailbox, id, fetched, tag).contains_key(id)
        }),
{
    let verdict = disposition(id, fetched, tag);
    assert(verdict is Execute);
    lemma_changes_of_plan(id, verdict);
    lemma_removal_removes(seen_by_fetch(mailbox, id), id);
    assert(plan_of(id, verdict).subrange(0, 3) =~= applying(removal(id)));
}

/// A command echo that was unseen when the mailbox was listed is unseen after it was
/// processed, and nothing else in the mailbox has changed: the mailbox is exactly as before,
/// however often this happens.
pub proof fn lemma_echo_is_kept(
    id: u32,
    fetched: FetchedMessageView,
    tag: Seq<char>,
    mailbox: Map<u32, Flags>,
)
    requires
        is_echo(fetched, tag),
        mailbox.contains_key(id),
        !mailbox[id].seen,
    ensures
        plan_of(id, disposition(id, fetched, tag)) == applying(keeping(id)),
        processed(mailbox, id, fetched, tag) == mailbox,
{
    let verdict = disposition(id, fetched, tag);
    assert(verdict is Keep);
    lemma_changes_of_plan(id, verdict);
    lemma_fetch_then_keeping(mailbox, id);
}

/// No message is left seen and not removed. Whatever the server gave for a message that
/// was unseen when the mailbox was listed, once the message was fetched, which marks it
/// seen, and the changes of the verdict were made, the message is either gone or unseen and
/// otherwise as it was.
pub proof fn lemma_no_message_left_half_done(
    id: u32,
    fetched: FetchedMessageView,
    tag: Seq<char>,
    mailbox: Map<u32, Flags>,
)
    requires
        mailbox.contains_key(id),
        !mailbox[id].seen,
    ensures
        ({
            let then = processed(mailbox, id, fetched, tag);
            !then.contains_key(id) || (!then[id].seen && then[id] == mailbox[id])
        }),
{
    lemma_changes_of_plan(id, disposition(id, fetched, tag));
    lemma_removal_removes(seen_by_fetch(mailbox, id), id);
    lemma_fetch_then_keeping(mailbox, id);
}

/// The changes that the verdicts on `items` make to the mailbox, in the order of the items.
pub open spec fn changes_for(id: u32, items: Seq<FetchedMessageView>, tag: Seq<char>) -> Seq<
    MailboxOp,
>
    decreases items.len(),
{
    if items.len() == 0 {
        Seq::empty()
    } else {
        changes_of(plan_of(id, disposition(id, items.first(), tag))) + changes_for(
            id,
            items.drop_first(),
            tag,
        )
    }
}

/// A message that is gone, or unseen, stays so through the changes of any further verdicts.
proof fn lemma_settled_stays(
    id: u32,
    items: Seq<FetchedMessageView>,
    tag: Seq<char>,
    mailbox: Map<u32, Flags>,
)
    requires
        mailbox.contains_key(id) ==> !mailbox[id].seen,
    ensures
        ({
            let then = after_all(mailbox, changes_for(id, items, tag));
            if mailbox.contains_key(id) {
                !then.contains_key(id) || then[id] == mailbox[id]
            } else {
                !then.contains_key(id)
            }
        }),
    decreases items.len(),
{
    if items.len() > 0 {
        let changes = changes_of(plan_of(id, disposition(id, items.first(), tag)));
        let between = after_all(mailbox, changes);
        lemma_changes_of_plan(id, disposition(id, items.first(), tag));
        lemma_removal_removes(mailbox, id);
        lemma_keeping_keeps(mailbox, id);
        if !mailbox.contains_key(id) {
            lemma_keeping_of_absent(mailbox, id);
        }
        lemma_after_all_concat(mailbox, changes, changes_for(id, items.drop_first(), tag));
        lemma_settled_stays(id, items.drop_first(), tag, between);
    }
}

/// No message is left seen and not removed, however many things the server gives for it.
/// Where a message was unseen when the mailbox was listed and the server gave at least one
/// thing for it, then once it was fetched and the changes of all the verdicts were made, the
/// message is either gone or unseen and otherwise as it was.
pub proof fn lemma_no_message_left_half_done_by_all(
    id: u32,
    items: Seq<FetchedMessageView>,
    tag: Seq<char>,
    mailbox: Map<u32, Flags>,
)
    requires
        mailbox.contains_key(id),
        !mailbox[id].seen,
        items.len() > 0,
    ensures
        ({
            let then = after_all(seen_by_fetch(mailbox, id), changes_for(id, items, tag));
            !then.contains_key(id) || (!then[id].seen && then[id] == mailbox[id])
        }),
{
    let first = changes_of(plan_of(id, disposition(id, items.first(), tag)));
    let between = processed(mailbox, id, items.first(), tag);
    lemma_no_message_left_half_done(id, items.first(), tag, mailbox);
    lemma_after_all_concat(
        seen_by_fetch(mailbox, id),
        first,
        changes_for(id, items.drop_first(), tag),
    );
    lemma_settled_stays(id, items.drop_first(), tag, between);
}

} // verus!
