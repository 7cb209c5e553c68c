use blackbird::extract::{extract_plain_text, extract_plain_text_from};

#[test]
fn payload_without_plain_text_marker_comes_back_whole() {
    let payload = b"Subject: hi\r\n\r\njust some text -- with dashes\r\n\r\nand more";
    assert_eq!(
        extract_plain_text(payload),
        "Subject: hi\r\n\r\njust some text -- with dashes\r\n\r\nand more"
    );
}

#[test]
fn empty_payload_is_empty_text() {
    assert_eq!(extract_plain_text(b""), "");
}

#[test]
fn plain_text_part_of_a_multipart_payload() {
    let payload = "--b1\r\nContent-Type: text/plain; charset=\"UTF-8\"\r\n\r\necho hello\r\n\r\n--b1\r\nContent-Type: text/html\r\n\r\n<p>echo hello</p>\r\n--b1--";
    assert_eq!(extract_plain_text_from(payload), "echo hello\r\n\r\n");
}

#[test]
fn body_runs_to_the_end_of_the_part_without_a_second_blank_line() {
    let payload = "--b\r\nContent-Type: text/plain\r\n\r\necho A\r\necho B\r\n--b--";
    assert_eq!(extract_plain_text_from(payload), "echo A\r\necho B\r\n");
}

#[test]
fn body_keeps_its_later_blank_lines() {
    let payload = "Content-Type: text/plain\r\n\r\nfirst\r\n\r\nsecond";
    assert_eq!(extract_plain_text_from(payload), "first\r\n\r\nsecond");
    let payload = b"--b\r\nContent-Type: text/plain\r\n\r\necho A\r\n\r\necho B\r\n--b--";
    assert_eq!(extract_plain_text(payload), "echo A\r\n\r\necho B\r\n");
}

#[test]
fn body_may_be_empty() {
    assert_eq!(extract_plain_text_from("Content-Type: text/plain\r\n\r\n"), "");
}

#[test]
fn blank_line_may_stand_before_the_marker() {
    let payload = "X: y\r\n\r\nContent-Type: text/plain\r\n\r\nbody";
    assert_eq!(extract_plain_text_from(payload), "Content-Type: text/plain\r\n\r\nbody");
}

#[test]
fn boundary_inside_the_body_cuts_it() {
    let payload = "Content-Type: text/plain\r\n\r\nls --all\r\n";
    assert_eq!(extract_plain_text_from(payload), "ls ");
}

#[test]
fn the_first_part_with_marker_and_blank_line_wins() {
    let payload = "--b\r\nContent-Type: text/plain\r\nno blank line here--b\r\nContent-Type: text/plain\r\n\r\nsecond part--b\r\nContent-Type: text/plain\r\n\r\nthird part";
    assert_eq!(extract_plain_text_from(payload), "second part");
}

#[test]
fn marker_without_any_blank_line_falls_back_to_the_whole_text() {
    let payload = "Content-Type: text/plain\r\nno separator at all";
    assert_eq!(extract_plain_text_from(payload), payload);
}

#[test]
fn marker_is_case_sensitive() {
    let payload = "content-type: text/plain\r\n\r\nbody";
    assert_eq!(extract_plain_text_from(payload), payload);
}

#[test]
fn invalid_utf8_is_replaced_not_refused() {
    let payload = b"Content-Type: text/plain\r\n\r\necho \xff!";
    assert_eq!(extract_plain_text(payload), "echo \u{fffd}!");
}

#[test]
fn invalid_utf8_in_the_fallback_is_replaced() {
    assert_eq!(extract_plain_text(b"\xc3\x28 raw"), "\u{fffd}( raw");
}

#[test]
fn utf8_text_is_decoded() {
    let payload = "Content-Type: text/plain\r\n\r\necho gr\u{fc}\u{df}e".as_bytes();
    assert_eq!(extract_plain_text(payload), "echo gr\u{fc}\u{df}e");
}
