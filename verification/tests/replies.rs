use blackbird::command::ExecutionResult;
use blackbird::envelope::Envelope;
use blackbird::reply::{compose_body, compose_reply, display};

fn envelope() -> Envelope {
    Envelope {
        subject: Some("Command (x1)".to_string()),
        date: Some("Mon, 1 Jan 2024 10:00:00 +0000".to_string()),
        from_address: Some("alice@example.com".to_string()),
        to_address: Some("agent@example.com".to_string()),
    }
}

const TRAILER: &str = "************* ORIGINAL MESSAGE BELOW: *************\n\n\n===================================================\n\n\nFrom:      alice@example.com\nTo:      agent@example.com\nDate:    Mon, 1 Jan 2024 10:00:00 +0000\nSubject: Command (x1)\n---------------------------------------------------\n\necho hello";

#[test]
fn reply_without_commands_is_the_quoted_request() {
    let body = compose_body(&Vec::new(), &envelope(), "echo hello");
    assert_eq!(body, TRAILER);
}

#[test]
fn reply_block_for_a_command_that_ran() {
    let results = vec![ExecutionResult::captured("echo hello".to_string(), b"hello\n", b"")];
    let body = compose_body(&results, &envelope(), "echo hello");
    let block = "Command Sent:\necho hello\n__________________________________________\n\nCommand Response:\n__________________________________________\n\nhello\n\n===================================================\n\n\n";
    assert_eq!(body, format!("{}{}", block, TRAILER));
}

#[test]
fn reply_block_with_both_streams() {
    let results = vec![ExecutionResult::from_text("ls x".to_string(), " out \n", "err\n\n")];
    let body = compose_body(&results, &envelope(), "echo hello");
    let block = "Command Sent:\nls x\n__________________________________________\n\nCommand Response:\n__________________________________________\n\nout\n\nerr===================================================\n\n\n";
    assert_eq!(body, format!("{}{}", block, TRAILER));
}

#[test]
fn reply_block_for_a_command_that_could_not_start() {
    let results =
        vec![ExecutionResult::launch_failed("nope".to_string(), "No such file".to_string())];
    let body = compose_body(&results, &envelope(), "echo hello");
    let block = "Command Sent:\nnope\n__________________________________________\n\nCommand Response:\n__________________________________________\n\nFailed to execute command: nope. Error: No such file===================================================\n\n\n";
    assert_eq!(body, format!("{}{}", block, TRAILER));
}

#[test]
fn reply_blocks_keep_the_order_of_the_commands() {
    let results = vec![
        ExecutionResult::from_text("echo A".to_string(), "A", ""),
        ExecutionResult::from_text("echo B".to_string(), "B", ""),
    ];
    let body = compose_body(&results, &envelope(), "echo hello");
    let a = body.find("Command Sent:\necho A\n").unwrap();
    let b = body.find("Command Sent:\necho B\n").unwrap();
    let t = body.find("ORIGINAL MESSAGE BELOW").unwrap();
    assert_eq!(a, 0);
    assert!(a < b && b < t);
    assert_eq!(body.matches("Command Sent:\n").count(), 2);
}

#[test]
fn reply_goes_to_the_sender_with_re_subject() {
    let results = vec![ExecutionResult::from_text("echo hello".to_string(), "hello", "")];
    let reply = compose_reply(&results, &envelope(), "echo hello").unwrap();
    assert_eq!(reply.to_address, "alice@example.com");
    assert_eq!(reply.subject, "Re: Command (x1)");
    assert_eq!(reply.body, compose_body(&results, &envelope(), "echo hello"));
}

#[test]
fn request_without_sender_has_no_reply() {
    let mut e = envelope();
    e.from_address = None;
    assert!(compose_reply(&Vec::new(), &e, "echo hello").is_none());
}

#[test]
fn missing_fields_are_named_in_the_trailer() {
    let e = Envelope {
        subject: None,
        date: None,
        from_address: Some("a@b.c".to_string()),
        to_address: None,
    };
    let reply = compose_reply(&Vec::new(), &e, "").unwrap();
    assert_eq!(reply.subject, "Re: No Subject");
    assert_eq!(
        reply.body,
        "************* ORIGINAL MESSAGE BELOW: *************\n\n\n===================================================\n\n\nFrom:      a@b.c\nTo:      Unknown\nDate:    No Date\nSubject: No Subject\n---------------------------------------------------\n\n"
    );
}

#[test]
fn composing_twice_gives_the_same_bytes() {
    let results = vec![
        ExecutionResult::captured("echo \u{e9}".to_string(), "\u{e9}\n".as_bytes(), b"\xff"),
        ExecutionResult::launch_failed("x".to_string(), "y".to_string()),
    ];
    let first = compose_reply(&results, &envelope(), "echo \u{e9}\nx").unwrap();
    let second = compose_reply(&results, &envelope(), "echo \u{e9}\nx").unwrap();
    assert_eq!(first.to_address.as_bytes(), second.to_address.as_bytes());
    assert_eq!(first.subject.as_bytes(), second.subject.as_bytes());
    assert_eq!(first.body.as_bytes(), second.body.as_bytes());
}

#[test]
fn informational_message_as_shown() {
    let text = display(&envelope(), "see you\r\n");
    assert_eq!(
        text,
        "From:    alice@example.com\nTo:      agent@example.com\nDate:    Mon, 1 Jan 2024 10:00:00 +0000\nSubject: Command (x1)\n__________________________________________\n\nsee you\r\n\n\n===================================================\n\n\n\n"
    );
}
