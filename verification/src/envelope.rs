//! Message metadata: the envelope as the server gives it, and as the agent reads it.

use crate::extract::{decode_lossy, utf8_lossy};
use vstd::prelude::*;
use vstd::string::StringExecFns;

verus! {

/// The bytes of an optional field.
pub open spec fn opt_bytes(field: Option<Vec<u8>>) -> Option<Seq<u8>> {
    match field {
        Some(bytes) => Some(bytes@),
        None => None,
    }
}

/// One address of an envelope as the server gives it. Either half may be missing.
#[derive(Clone, Debug)]
pub struct RawAddress {
    /// The part before the `@`.
    pub mailbox: Option<Vec<u8>>,
    /// The part after the `@`.
    pub host: Option<Vec<u8>>,
}

/// The model of a [`RawAddress`].
pub struct RawAddressView {
    pub mailbox: Option<Seq<u8>>,
    pub host: Option<Seq<u8>>,
}

impl View for RawAddress {
    type V = RawAddressView;

    open spec fn view(&self) -> RawAddressView {
        RawAddressView { mailbox: opt_bytes(self.mailbox), host: opt_bytes(self.host) }
    }
}

impl DeepView for RawAddress {
    type V = RawAddressView;

    open spec fn deep_view(&self) -> RawAddressView {
        self@
    }
}

/// The envelope of a message as the server gives it: undecoded, and any field may be
/// missing.
#[derive(Clone, Debug)]
pub struct RawEnvelope {
    pub subject: Option<Vec<u8>>,
    pub date: Option<Vec<u8>>,
    /// The senders, in the order of the header.
    pub from: Option<Vec<RawAddress>>,
    /// The recipients, in the order of the header.
    pub to: Option<Vec<RawAddress>>,
}

/// The model of a [`RawEnvelope`].
pub struct RawEnvelopeView {
    pub subject: Option<Seq<u8>>,
    pub date: Option<Seq<u8>>,
    pub from: Option<Seq<RawAddressView>>,
    pub to: Option<Seq<RawAddressView>>,
}

impl View for RawEnvelope {
    type V = RawEnvelopeView;

    open spec fn view(&self) -> RawEnvelopeView {
        RawEnvelopeView {
            subject: opt_bytes(self.subject),
            date: opt_bytes(self.date),
            from: self.from.deep_view(),
            to: self.to.deep_view(),
        }
    }
}

impl DeepView for RawEnvelope {
    type V = RawEnvelopeView;

    open spec fn deep_view(&self) -> RawEnvelopeView {
        self@
    }
}

/// The envelope of a message as the agent reads it: decoded text, each field present or
/// absent on its own.
#[derive(Clone, Debug)]
pub struct Envelope {
    pub subject: Option<String>,
    pub date: Option<String>,
    /// The first sender, as `mailbox@host`.
    pub from_address: Option<String>,
    /// The first recipient, as `mailbox@host`.
    pub to_address: Option<String>,
}

/// The model of an [`Envelope`].
pub struct EnvelopeView {
    pub subject: Option<Seq<char>>,
    pub date: Option<Seq<char>>,
    pub from_address: Option<Seq<char>>,
    pub to_address: Option<Seq<char>>,
}

impl View for Envelope {
    type V = EnvelopeView;

    open spec fn view(&self) -> EnvelopeView {
        EnvelopeView {
            subject: self.subject.deep_view(),
            date: self.date.deep_view(),
            from_address: self.from_address.deep_view(),
            to_address: self.to_address.deep_view(),
        }
    }
}

impl DeepView for Envelope {
    type V = EnvelopeView;

    open spec fn deep_view(&self) -> EnvelopeView {
        self@
    }
}

/// The text of an optional header field.
pub open spec fn field_text(field: Option<Seq<u8>>) -> Option<Seq<char>> {
    match field {
        Some(bytes) => Some(utf8_lossy(bytes)),
        None => None,
    }
}

/// The first address of `addresses` as `mailbox@host`. There is none where the list is
/// missing or empty, or where its first address lacks either half.
pub open spec fn address_text(addresses: Option<Seq<RawAddressView>>) -> Option<Seq<char>> {
    match addresses {
        Some(list) => if list.len() > 0 {
            match (list[0].mailbox, list[0].host) {
                (Some(mailbox), Some(host)) => Some(
                    utf8_lossy(mailbox) + "@"@ + utf8_lossy(host),
                ),
                _ => None,
            }
        } else {
            None
        },
        None => None,
    }
}

/// What the agent reads from the raw envelope `raw`. A missing field stays missing and
/// takes nothing from the others.
pub open spec fn decoded(raw: RawEnvelopeView) -> EnvelopeView {
    EnvelopeView {
        subject: field_text(raw.subject),
        date: field_text(raw.date),
        from_address: address_text(raw.from),
        to_address: address_text(raw.to),
    }
}

fn decode_field(field: &Option<Vec<u8>>) -> (text: Option<String>)
    ensures
        text.deep_view() == field_text(opt_bytes(*field)),
{
    match field {
        Some(bytes) => Some(decode_lossy(bytes.as_slice())),
        None => None,
    }
}

fn decode_address(addresses: &Option<Vec<RawAddress>>) -> (text: Option<String>)
    ensures
        text.deep_view() == address_text(addresses.deep_view()),
{
    match addresses {
        Some(list) => {
            if list.len() == 0 {
                return None;
            }
            let first = &list[0];
            assert(addresses.deep_view().unwrap()[0] == first@);
            match (&first.mailbox, &first.host) {
                (Some(mailbox), Some(host)) => {
                    let mut text = decode_lossy(mailbox.as_slice());
                    text.append("@");
                    let host_text = decode_lossy(host.as_slice());
                    text.append(host_text.as_str());
                    Some(text)
                },
                _ => None,
            }
        },
        None => None,
    }
}

/// The text shown for a missing subject.
pub open spec fn no_subject() -> Seq<char> {
    "No Subject"@
}

/// The text shown for a missing date.
pub open spec fn no_date() -> Seq<char> {
    "No Date"@
}

/// The text shown for a missing address.
pub open spec fn unknown_address() -> Seq<char> {
    "Unknown"@
}

/// `field`, or `fallback` where it is missing.
pub open spec fn shown(field: Option<Seq<char>>, fallback: Seq<char>) -> Seq<char> {
    match field {
        Some(text) => text,
        None => fallback,
    }
}

fn show(field: &Option<String>, fallback: &str) -> (text: String)
    ensures
        text@ == shown(field.deep_view(), fallback@),
{
    match field {
        Some(text) => text.clone(),
        None => String::from_str(fallback),
    }
}

impl Envelope {
    /// Reads the raw envelope `raw`.
    pub fn decode(raw: &RawEnvelope) -> (envelope: Envelope)
        ensures
            envelope@ == decoded(raw@),
    {
        Envelope {
            subject: decode_field(&raw.subject),
            date: decode_field(&raw.date),
            from_address: decode_address(&raw.from),
            to_address: decode_address(&raw.to),
        }
    }

    /// The subject as it is shown and classified: `No Subject` where there is none.
    pub fn subject_text(&self) -> (text: String)
        ensures
            text@ == shown(self@.subject, no_subject()),
    {
        show(&self.subject, "No Subject")
    }

    /// The date as it is shown: `No Date` where there is none.
    pub fn date_text(&self) -> (text: String)
        ensures
            text@ == shown(self@.date, no_date()),
    {
        show(&self.date, "No Date")
    }

    /// The sender as it is shown: `Unknown` where there is none.
    pub fn from_text(&self) -> (text: String)
        ensures
            text@ == shown(self@.from_address, unknown_address()),
    {
        show(&self.from_address, "Unknown")
    }

    /// The recipient as it is shown: `Unknown` where there is none.
    pub fn to_text(&self) -> (text: String)
        ensures
            text@ == shown(self@.to_address, unknown_address()),
    {
        show(&self.to_address, "Unknown")
    }
}

} // verus!
