use blackbird::envelope::{Envelope, RawAddress, RawEnvelope};

fn address(mailbox: Option<&[u8]>, host: Option<&[u8]>) -> RawAddress {
    RawAddress { mailbox: mailbox.map(|b| b.to_vec()), host: host.map(|b| b.to_vec()) }
}

#[test]
fn complete_envelope_is_decoded() {
    let raw = RawEnvelope {
        subject: Some(b"Command (x1)".to_vec()),
        date: Some(b"Mon, 1 Jan 2024 10:00:00 +0000".to_vec()),
        from: Some(vec![
            address(Some(b"alice"), Some(b"example.com")),
            address(Some(b"bob"), Some(b"example.org")),
        ]),
        to: Some(vec![address(Some(b"agent"), Some(b"example.net"))]),
    };
    let e = Envelope::decode(&raw);
    assert_eq!(e.subject.as_deref(), Some("Command (x1)"));
    assert_eq!(e.date.as_deref(), Some("Mon, 1 Jan 2024 10:00:00 +0000"));
    assert_eq!(e.from_address.as_deref(), Some("alice@example.com"));
    assert_eq!(e.to_address.as_deref(), Some("agent@example.net"));
    assert_eq!(e.subject_text(), "Command (x1)");
    assert_eq!(e.from_text(), "alice@example.com");
    assert_eq!(e.to_text(), "agent@example.net");
    assert_eq!(e.date_text(), "Mon, 1 Jan 2024 10:00:00 +0000");
}

#[test]
fn absent_fields_stay_absent_and_do_not_disturb_the_others() {
    let raw = RawEnvelope {
        subject: Some(b"hi".to_vec()),
        date: None,
        from: None,
        to: Some(vec![address(Some(b"agent"), Some(b"example.net"))]),
    };
    let e = Envelope::decode(&raw);
    assert_eq!(e.subject.as_deref(), Some("hi"));
    assert_eq!(e.date, None);
    assert_eq!(e.from_address, None);
    assert_eq!(e.to_address.as_deref(), Some("agent@example.net"));
    assert_eq!(e.date_text(), "No Date");
    assert_eq!(e.from_text(), "Unknown");
}

#[test]
fn empty_envelope_has_the_fallback_texts() {
    let raw = RawEnvelope { subject: None, date: None, from: None, to: None };
    let e = Envelope::decode(&raw);
    assert_eq!(e.subject_text(), "No Subject");
    assert_eq!(e.date_text(), "No Date");
    assert_eq!(e.from_text(), "Unknown");
    assert_eq!(e.to_text(), "Unknown");
}

#[test]
fn address_needs_both_halves_of_the_first_entry() {
    let cases: Vec<(Option<Vec<RawAddress>>, Option<&str>)> = vec![
        (None, None),
        (Some(vec![]), None),
        (Some(vec![address(None, Some(b"h"))]), None),
        (Some(vec![address(Some(b"m"), None)]), None),
        (Some(vec![address(None, None), address(Some(b"m"), Some(b"h"))]), None),
        (Some(vec![address(Some(b"m"), Some(b"h")), address(None, None)]), Some("m@h")),
        (Some(vec![address(Some(b""), Some(b""))]), Some("@")),
    ];
    for (from, expected) in cases {
        let raw = RawEnvelope { subject: None, date: None, from, to: None };
        assert_eq!(Envelope::decode(&raw).from_address.as_deref(), expected);
    }
}

#[test]
fn fields_are_decoded_lossily() {
    let raw = RawEnvelope {
        subject: Some(b"caf\xc3\xa9 \xff".to_vec()),
        date: Some(b"\x80".to_vec()),
        from: Some(vec![address(Some(b"a\xfe"), Some(b"b"))]),
        to: None,
    };
    let e = Envelope::decode(&raw);
    assert_eq!(e.subject.as_deref(), Some("caf\u{e9} \u{fffd}"));
    assert_eq!(e.date.as_deref(), Some("\u{fffd}"));
    assert_eq!(e.from_address.as_deref(), Some("a\u{fffd}@b"));
}
