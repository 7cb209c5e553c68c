use blackbird::command::{command_lines, results, ExecutionResult, HostFamily, Outcome};

#[test]
fn two_commands_with_a_blank_line_between() {
    assert_eq!(command_lines("echo A\n\necho B\n"), vec!["echo A", "echo B"]);
}

#[test]
fn blank_lines_end_nothing() {
    assert_eq!(
        command_lines("\n\n  echo A  \r\n \t \r\n\r\necho B\r\n\r\n\r\nls -l"),
        vec!["echo A", "echo B", "ls -l"]
    );
}

#[test]
fn body_without_commands() {
    assert_eq!(command_lines(""), Vec::<String>::new());
    assert_eq!(command_lines("\n \r\n\t\n"), Vec::<String>::new());
}

#[test]
fn single_command_without_line_end() {
    assert_eq!(command_lines("echo hello"), vec!["echo hello"]);
}

#[test]
fn carriage_return_alone_does_not_end_a_line() {
    assert_eq!(command_lines("echo A\recho B"), vec!["echo A\recho B"]);
}

#[test]
fn command_lines_agree_with_lines_and_trim() {
    for body in ["", "a", "a\n", "a\r\n", "\ra\r", "a\n\nb", " a \n b\t\r\n\r\n", "x\r\r\ny\n\r"] {
        let theirs: Vec<String> = body
            .lines()
            .map(|l| l.trim())
            .filter(|l| !l.is_empty())
            .map(|l| l.to_string())
            .collect();
        assert_eq!(command_lines(body), theirs);
    }
}

#[test]
fn host_family_by_name() {
    assert_eq!(HostFamily::of("windows"), HostFamily::Windows);
    assert_eq!(HostFamily::of("linux"), HostFamily::Posix);
    assert_eq!(HostFamily::of("macos"), HostFamily::Posix);
    assert_eq!(HostFamily::of("Windows"), HostFamily::Posix);
    assert_eq!(HostFamily::of(""), HostFamily::Posix);
}

#[test]
fn shell_invocation_per_family() {
    assert_eq!(HostFamily::Posix.program(), "sh");
    assert_eq!(HostFamily::Posix.arguments("echo hello"), vec!["-c", "echo hello"]);
    assert_eq!(HostFamily::Windows.program(), "cmd");
    assert_eq!(HostFamily::Windows.arguments("dir /b"), vec!["/C", "dir /b"]);
}

#[test]
fn captured_output_is_decoded_and_trimmed() {
    let r = ExecutionResult::captured("echo hello".to_string(), b"hello\n", b"  warn \xff\r\n");
    assert_eq!(r.command, "echo hello");
    assert_eq!(r.stdout, "hello");
    assert_eq!(r.stderr, "warn \u{fffd}");
    assert_eq!(r.failure, None);
}

#[test]
fn output_text_is_trimmed() {
    let r = ExecutionResult::from_text("ls".to_string(), "\n a\n b \n\n", "");
    assert_eq!(r.stdout, "a\n b");
    assert_eq!(r.stderr, "");
    assert_eq!(r.failure, None);
}

#[test]
fn launch_failure_keeps_the_reason() {
    let r = ExecutionResult::launch_failed("nope".to_string(), "No such file".to_string());
    assert_eq!(r.command, "nope");
    assert_eq!(r.stdout, "");
    assert_eq!(r.stderr, "");
    assert_eq!(r.failure, Some("No such file".to_string()));
}

#[test]
fn one_result_for_each_command_in_order() {
    let commands = command_lines("echo A\n\necho B\nnope\n");
    let outcomes = vec![
        Outcome::Printed { stdout: b"A\n".to_vec(), stderr: Vec::new() },
        Outcome::Printed { stdout: b"B\n".to_vec(), stderr: b" warn ".to_vec() },
        Outcome::NotStarted("No such file".to_string()),
    ];
    let paired = results(commands, outcomes).unwrap();
    assert_eq!(paired.len(), 3);
    assert_eq!(paired[0].command, "echo A");
    assert_eq!(paired[0].stdout, "A");
    assert_eq!(paired[0].failure, None);
    assert_eq!(paired[1].command, "echo B");
    assert_eq!(paired[1].stdout, "B");
    assert_eq!(paired[1].stderr, "warn");
    assert_eq!(paired[2].command, "nope");
    assert_eq!(paired[2].stdout, "");
    assert_eq!(paired[2].failure.as_deref(), Some("No such file"));
}

#[test]
fn outcomes_must_be_as_many_as_the_commands() {
    let one = vec![Outcome::NotStarted("x".to_string())];
    assert!(results(vec!["a".to_string(), "b".to_string()], one.clone()).is_none());
    assert!(results(Vec::new(), one).is_none());
    assert_eq!(results(Vec::new(), Vec::new()).map(|r| r.len()), Some(0));
}
