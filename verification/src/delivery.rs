//! The last step before the mail sender: a reply becomes a message that can be submitted.
//!
//! Addresses are parsed and the message is built by `lettre`. Sending is the caller's work.

use crate::reply::ReplyMessage;
use crate::text::{chars_of, contains, copy_range, find, find_from, lemma_find_from, trim, trimmed};
use lettre::address::AddressError;
use lettre::message::Mailbox;
use lettre::Message;
use vstd::prelude::*;
use vstd::string::StringExecFns;

verus! {

/// A parsed mailbox of `lettre`: an address, with or without a name.
#[verifier::external_type_specification]
#[verifier::external_body]
pub struct ExMailbox(lettre::message::Mailbox);

/// The reason for which `lettre` refused an address.
#[verifier::external_type_specification]
#[verifier::external_body]
pub struct ExAddressError(lettre::address::AddressError);

/// A message of `lettre`, complete with headers, ready to be sent.
#[verifier::external_type_specification]
#[verifier::external_body]
pub struct ExMessage(lettre::Message);

/// The reason for which `lettre` could not build a message.
#[verifier::external_type_specification]
#[verifier::external_body]
pub struct ExBuildError(lettre::error::Error);

/// A mailbox together with the text that it was parsed from. There is no other way to
/// one than [`ParsedMailbox::parse`], so the mailbox is always what `lettre` makes of the
/// text.
#[derive(Debug)]
pub struct ParsedMailbox {
    text: String,
    mailbox: Mailbox,
}

impl View for ParsedMailbox {
    type V = Seq<char>;

    /// The text that the mailbox was parsed from.
    closed spec fn view(&self) -> Seq<char> {
        self.text@
    }
}

/// Whether `lettre` accepts `text` as a mailbox, that is whether `Mailbox::from_str`
/// returns `Ok` for it.
pub uninterp spec fn mailbox_accepted(text: Seq<char>) -> bool;

/// Whether `lettre` builds a message from the mailbox that it parsed from `sender`, to the
/// mailbox that it parsed from `recipient`, with `subject` and the text body `body`: that is
/// whether `MessageBuilder::body` returns `Ok` after `from`, `to` and `subject`.
pub uninterp spec fn message_builds(
    sender: Seq<char>,
    recipient: Seq<char>,
    subject: Seq<char>,
    body: Seq<char>,
) -> bool;

/// The opening angle bracket, which ends the display name of a mailbox.
pub open spec fn name_end() -> Seq<char> {
    seq!['<']
}

/// The display name in the text of a mailbox: what stands before the first opening angle
/// bracket, without the white space around it. A text without such a bracket has no name.
pub open spec fn display_name(text: Seq<char>) -> Seq<char> {
    match find_from(text, name_end(), 0) {
        Some(at) => trimmed(text.subrange(0, at)),
        None => Seq::empty(),
    }
}

/// The display name in `text` holds a carriage return or a line feed. No header can carry
/// such a name.
pub open spec fn name_breaks_line(text: Seq<char>) -> bool {
    contains(display_name(text), seq!['\r']) || contains(display_name(text), seq!['\n'])
}

/// Whether the display name in the mailbox text `text` holds a carriage return or a line
/// feed.
pub fn breaks_line(text: &str) -> (broken: bool)
    ensures
        broken == name_breaks_line(text@),
{
    let chars = chars_of(text);
    let bracket: Vec<char> = vec!['<'];
    assert(bracket@ =~= name_end());
    match find(chars.as_slice(), bracket.as_slice(), 0) {
        Some(at) => {
            assert(at <= chars@.len()) by {
                lemma_find_from(chars@, bracket@, 0);
            }
            let name = trim(copy_range(chars.as_slice(), 0, at).as_slice());
            let cr: Vec<char> = vec!['\r'];
            let lf: Vec<char> = vec!['\n'];
            assert(cr@ =~= seq!['\r']);
            assert(lf@ =~= seq!['\n']);
            find(name.as_slice(), cr.as_slice(), 0).is_some() || find(
                name.as_slice(),
                lf.as_slice(),
                0,
            ).is_some()
        },
        None => {
            proof {
                let none = Seq::<char>::empty();
                assert(find_from(none, seq!['\r'], 0) is None);
                assert(find_from(none, seq!['\n'], 0) is None);
            }
            false
        },
    }
}

/// Parses `text` with `lettre`'s `Mailbox::from_str` and keeps the text beside the mailbox.
/// Whether the text is accepted depends on the text alone and is known here only by its
/// name, [`mailbox_accepted`].
#[verifier::external_body]
fn parse_mailbox(text: &str) -> (parsed: Result<ParsedMailbox, AddressError>)
    ensures
        parsed is Ok <==> mailbox_accepted(text@),
        parsed matches Ok(mailbox) ==> mailbox@ == text@,
{
    match text.parse::<Mailbox>() {
        Ok(mailbox) => Ok(ParsedMailbox { text: text.to_string(), mailbox }),
        Err(fault) => Err(fault),
    }
}

/// Builds a message with `lettre`'s `MessageBuilder`: `from`, `to`, `subject`, then `body`
/// with a text body. The builder stamps the message with the current time, so nothing is
/// said of the message itself. Whether there is one depends on the two mailboxes, the
/// subject and the body alone, the mailboxes on the texts that they were parsed from; it is
/// known here only by its name, [`message_builds`].
///
/// The builder writes each mailbox out as a header and does not come back from a display
/// name with a line break in it, so such a name is not handed to it. It does not come back
/// either on a machine whose clock reads before 1970 or from the year 9999 on; that is the
/// state of the machine and no input, and nothing here guards against it.
#[verifier::external_body]
fn build_message(
    sender: ParsedMailbox,
    recipient: ParsedMailbox,
    subject: &str,
    body: &str,
) -> (built: Result<Message, lettre::error::Error>)
    requires
        !name_breaks_line(sender@),
        !name_breaks_line(recipient@),
    ensures
        built is Ok <==> message_builds(sender@, recipient@, subject@, body@),
{
    Message::builder().from(sender.mailbox).to(recipient.mailbox).subject(subject).body(
        body.to_string(),
    )
}

impl ParsedMailbox {
    /// The mailbox that `text` names, or the reason for which `text` names none.
    pub fn parse(text: &str) -> (parsed: Result<ParsedMailbox, AddressError>)
        ensures
            parsed is Ok <==> mailbox_accepted(text@),
            parsed matches Ok(mailbox) ==> mailbox@ == text@,
    {
        parse_mailbox(text)
    }

    /// The text that the mailbox was parsed from.
    pub fn text(&self) -> (text: &str)
        ensures
            text@ == self@,
    {
        self.text.as_str()
    }

    /// The mailbox as `lettre` holds it.
    pub fn mailbox(&self) -> &Mailbox {
        &self.mailbox
    }
}

/// Why no message could be made of a reply.
#[derive(Debug)]
pub enum DeliveryError {
    /// The agent's own address is no mailbox.
    Sender(AddressError),
    /// The address that the reply goes to is no mailbox.
    Recipient(AddressError),
    /// The display name of the agent's own mailbox holds a line break.
    SenderName,
    /// The display name of the mailbox that the reply goes to holds a line break.
    RecipientName,
    /// The message could not be built.
    Message(lettre::error::Error),
}

/// How the agent names itself as the sender of a reply: its address, once as the name and
/// once, in angle brackets, as the address.
pub open spec fn sender_text(username: Seq<char>) -> Seq<char> {
    username + " <"@ + username + ">"@
}

/// The sender and the recipient of a reply, if both were accepted; else the fault of the
/// sender, or with a good sender that of the recipient.
pub fn both_mailboxes(
    sender: Result<ParsedMailbox, AddressError>,
    recipient: Result<ParsedMailbox, AddressError>,
) -> (pair: Result<(ParsedMailbox, ParsedMailbox), DeliveryError>)
    ensures
        match (sender, recipient) {
            (Err(fault), _) => pair == Err::<(ParsedMailbox, ParsedMailbox), _>(
                DeliveryError::Sender(fault),
            ),
            (Ok(_), Err(fault)) => pair == Err::<(ParsedMailbox, ParsedMailbox), _>(
                DeliveryError::Recipient(fault),
            ),
            (Ok(from), Ok(to)) => pair == Ok::<_, DeliveryError>((from, to)),
        },
{
    match sender {
        Err(fault) => Err(DeliveryError::Sender(fault)),
        Ok(from) => match recipient {
            Err(fault) => Err(DeliveryError::Recipient(fault)),
            Ok(to) => Ok((from, to)),
        },
    }
}

/// Whether a header can carry the display names of `sender` and `recipient`: the fault of
/// the sender's name, or with a good one that of the recipient's, where it holds a line
/// break.
pub fn names_fit(sender: &ParsedMailbox, recipient: &ParsedMailbox) -> (fit: Result<
    (),
    DeliveryError,
>)
    ensures
        name_breaks_line(sender@) ==> fit == Err::<(), _>(DeliveryError::SenderName),
        !name_breaks_line(sender@) && name_breaks_line(recipient@) ==> fit == Err::<(), _>(
            DeliveryError::RecipientName,
        ),
        !name_breaks_line(sender@) && !name_breaks_line(recipient@) ==> fit == Ok::<
            (),
            DeliveryError,
        >(()),
{
    if breaks_line(sender.text()) {
        Err(DeliveryError::SenderName)
    } else if breaks_line(recipient.text()) {
        Err(DeliveryError::RecipientName)
    } else {
        Ok(())
    }
}

/// What is made of the builder's answer: its message, or its fault as a delivery error.
pub fn built_or_fault(built: Result<Message, lettre::error::Error>) -> (message: Result<
    Message,
    DeliveryError,
>)
    ensures
        match built {
            Ok(m) => message == Ok::<_, DeliveryError>(m),
            Err(fault) => message == Err::<Message, _>(DeliveryError::Message(fault)),
        },
{
    match built {
        Ok(m) => Ok(m),
        Err(fault) => Err(DeliveryError::Message(fault)),
    }
}

/// Whether a message is owed for a reply to `recipient` with `subject` and `body`, sent by
/// the agent that the mail server knows as `username`: both addresses are accepted as
/// mailboxes, neither has a line break in its display name, and the builder makes a message
/// of them, the subject and the body.
pub open spec fn deliverable(
    username: Seq<char>,
    recipient: Seq<char>,
    subject: Seq<char>,
    body: Seq<char>,
) -> bool {
    &&& mailbox_accepted(sender_text(username))
    &&& mailbox_accepted(recipient)
    &&& !name_breaks_line(sender_text(username))
    &&& !name_breaks_line(recipient)
    &&& message_builds(sender_text(username), recipient, subject, body)
}

/// Makes of `reply` a message from the agent, which is known to the mail server as
/// `username`, to the address of the reply, with the subject and the body of the reply. The
/// sender is checked first, then the recipient, then the display names of both; only with
/// all of them in order is the message built.
pub fn prepare(reply: &ReplyMessage, username: &str) -> (message: Result<Message, DeliveryError>)
    ensures
        message is Ok <==> deliverable(
            username@,
            reply@.to_address,
            reply@.subject,
            reply@.body,
        ),
        !mailbox_accepted(sender_text(username@)) ==> message matches Err(
            DeliveryError::Sender(_),
        ),
        mailbox_accepted(sender_text(username@)) && !mailbox_accepted(reply@.to_address)
            ==> message matches Err(DeliveryError::Recipient(_)),
        mailbox_accepted(sender_text(username@)) && mailbox_accepted(reply@.to_address)
            && name_breaks_line(sender_text(username@)) ==> message matches Err(
            DeliveryError::SenderName,
        ),
        mailbox_accepted(sender_text(username@)) && mailbox_accepted(reply@.to_address)
            && !name_breaks_line(sender_text(username@)) && name_breaks_line(reply@.to_address)
            ==> message matches Err(DeliveryError::RecipientName),
        mailbox_accepted(sender_text(username@)) && mailbox_accepted(reply@.to_address)
            && !name_breaks_line(sender_text(username@)) && !name_breaks_line(reply@.to_address)
            && !message_builds(
            sender_text(username@),
            reply@.to_address,
            reply@.subject,
            reply@.body,
        ) ==> message matches Err(DeliveryError::Message(_)),
{
    let mut sender = String::from_str(username);
    sender.append(" <");
    sender.append(username);
    sender.append(">");
    let from = parse_mailbox(sender.as_str());
    let to = parse_mailbox(reply.to_address.as_str());
    match both_mailboxes(from, to) {
        Err(fault) => Err(fault),
        Ok((from, to)) => match names_fit(&from, &to) {
            Err(fault) => Err(fault),
            Ok(()) => built_or_fault(
                build_message(from, to, reply.subject.as_str(), reply.body.as_str()),
            ),
        },
    }
}

} // verus!
