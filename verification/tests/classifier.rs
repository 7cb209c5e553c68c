use blackbird::classify::{classify, Classification};

#[test]
fn exact_tagged_subject_is_a_request() {
    assert_eq!(classify("Command (x1)", "x1"), Classification::CommandRequest);
}

#[test]
fn request_subject_ignores_case() {
    assert_eq!(classify("COMMAND (X1)", "x1"), Classification::CommandRequest);
    assert_eq!(classify("command (x1)", "X1"), Classification::CommandRequest);
    assert_eq!(classify("cOmMaNd (x675-1983ZZY)", "X675-1983zzy"), Classification::CommandRequest);
}

#[test]
fn other_tag_is_an_echo() {
    assert_eq!(classify("Command (x1x)", "x1"), Classification::CommandEcho);
    assert_eq!(classify("Command (TAGX)", "TAG"), Classification::CommandEcho);
    assert_eq!(classify("Command (TAG)", "TAGX"), Classification::CommandEcho);
    assert_eq!(classify("Command ()", "x1"), Classification::CommandEcho);
}

#[test]
fn reply_to_a_command_is_an_echo() {
    assert_eq!(classify("Re: Command (x1)", "x1"), Classification::CommandEcho);
    assert_eq!(classify("RE: COMMAND (x1)", "x1"), Classification::CommandEcho);
    assert_eq!(classify("re: command (anything", "x1"), Classification::CommandEcho);
}

#[test]
fn anything_after_the_request_subject_makes_an_echo() {
    assert_eq!(classify("Command (x1) ", "x1"), Classification::CommandEcho);
    assert_eq!(classify("Command (x1)!", "x1"), Classification::CommandEcho);
    assert_eq!(classify("Command (", "x1"), Classification::CommandEcho);
}

#[test]
fn other_subjects_are_informational() {
    assert_eq!(classify("Hello", "x1"), Classification::Informational);
    assert_eq!(classify("", "x1"), Classification::Informational);
    assert_eq!(classify(" Command (x1)", "x1"), Classification::Informational);
    assert_eq!(classify("Command(x1)", "x1"), Classification::Informational);
    assert_eq!(classify("Re:Command (x1)", "x1"), Classification::Informational);
    assert_eq!(classify("Fwd: Command (x1)", "x1"), Classification::Informational);
    assert_eq!(classify("Re: Re: Command (x1)", "x1"), Classification::Informational);
    assert_eq!(classify("No Subject", "x1"), Classification::Informational);
    assert_eq!(classify("Command", "x1"), Classification::Informational);
}

#[test]
fn empty_tag_is_matched_by_empty_brackets() {
    assert_eq!(classify("Command ()", ""), Classification::CommandRequest);
    assert_eq!(classify("Command (x)", ""), Classification::CommandEcho);
}

#[test]
fn case_is_folded_for_ascii_letters_only() {
    assert_eq!(classify("Command (\u{e9})", "\u{e9}"), Classification::CommandRequest);
    assert_eq!(classify("Command (\u{c9})", "\u{e9}"), Classification::CommandEcho);
}
