//! The command runner's rules: which lines of a body are commands, how a command is handed
//! to the host's shell, and what is kept of its outcome.

use crate::extract::{decode_lossy, utf8_lossy};
use crate::text::{
    chars_of, is_white_space, lemma_trimmed, same_chars, split, split_on, string_of, trim,
    trimmed, views,
};
use vstd::prelude::*;
use vstd::string::StringExecFns;

verus! {

/// The line feed at which a body is cut into lines.
pub open spec fn line_feed() -> Seq<char> {
    seq!['\n']
}

/// Each of `lines` without the white space around it, in order, the blank ones left out.
pub open spec fn nonblank_trimmed(lines: Seq<Seq<char>>) -> Seq<Seq<char>>
    decreases lines.len(),
{
    if lines.len() == 0 {
        Seq::empty()
    } else {
        let before = nonblank_trimmed(lines.drop_last());
        let line = trimmed(lines.last());
        if line.len() == 0 {
            before
        } else {
            before.push(line)
        }
    }
}

/// The commands that `body` holds: one for each line that is not blank, trimmed, in the
/// order of the lines. A line ends at a line feed; the carriage return before it is white
/// space and leaves with the trimming. A blank line ends nothing: the lines after it count.
pub open spec fn commands_of(body: Seq<char>) -> Seq<Seq<char>> {
    nonblank_trimmed(split_on(body, line_feed()))
}

/// No command is blank, and none begins or ends with white space.
pub proof fn lemma_commands_are_trimmed(body: Seq<char>, i: int)
    requires
        0 <= i < commands_of(body).len(),
    ensures
        commands_of(body)[i].len() > 0,
        !is_white_space(commands_of(body)[i].first()),
        !is_white_space(commands_of(body)[i].last()),
{
    lemma_nonblank_trimmed(split_on(body, line_feed()), i);
}

proof fn lemma_nonblank_trimmed(lines: Seq<Seq<char>>, i: int)
    requires
        0 <= i < nonblank_trimmed(lines).len(),
    ensures
        nonblank_trimmed(lines)[i].len() > 0,
        !is_white_space(nonblank_trimmed(lines)[i].first()),
        !is_white_space(nonblank_trimmed(lines)[i].last()),
    decreases lines.len(),
{
    if lines.len() > 0 {
        let before = nonblank_trimmed(lines.drop_last());
        if i < before.len() {
            lemma_nonblank_trimmed(lines.drop_last(), i);
        } else {
            lemma_trimmed(lines.last());
        }
    }
}

/// The commands that `body` holds, in the order in which they are to run.
pub fn command_lines(body: &str) -> (commands: Vec<String>)
    ensures
        commands.deep_view() == commands_of(body@),
{
    let chars = chars_of(body);
    let feed: Vec<char> = vec!['\n'];
    assert(feed@ =~= line_feed());
    let lines = split(chars.as_slice(), feed.as_slice());
    let ghost all = views(lines@);
    let mut commands: Vec<String> = Vec::new();
    let mut i: usize = 0;
    assert(all.take(0) =~= Seq::<Seq<char>>::empty());
    assert(commands.deep_view() =~= Seq::<Seq<char>>::empty());
    while i < lines.len()
        invariant
            i <= lines.len(),
            all == views(lines@),
            commands.deep_view() == nonblank_trimmed(all.take(i as int)),
        decreases lines.len() - i,
    {
        let ghost before = commands.deep_view();
        let line = trim(lines[i].as_slice());
        assert(all.take(i + 1).drop_last() =~= all.take(i as int));
        assert(all.take(i + 1).last() == lines@[i as int]@);
        if line.len() > 0 {
            commands.push(string_of(line.as_slice()));
            assert(commands.deep_view() =~= before.push(line@));
        }
        i += 1;
    }
    assert(all.take(lines.len() as int) =~= all);
    commands
}

/// The family of the host's operating system, which decides the shell.
#[derive(Clone, Copy, Debug, PartialEq, Eq, Structural)]
pub enum HostFamily {
    Windows,
    Posix,
}

/// The program that runs a command on a host of `family`.
pub open spec fn shell_program(family: HostFamily) -> Seq<char> {
    match family {
        HostFamily::Windows => "cmd"@,
        HostFamily::Posix => "sh"@,
    }
}

/// The argument that makes the shell of `family` run the argument after it.
pub open spec fn shell_flag(family: HostFamily) -> Seq<char> {
    match family {
        HostFamily::Windows => "/C"@,
        HostFamily::Posix => "-c"@,
    }
}

impl HostFamily {
    /// The family of the operating system that calls itself `os`: Windows for `windows`,
    /// POSIX for every other name.
    pub fn of(os: &str) -> (family: HostFamily)
        ensures
            family == if os@ == "windows"@ {
                HostFamily::Windows
            } else {
                HostFamily::Posix
            },
    {
        let given = chars_of(os);
        let windows = chars_of("windows");
        if same_chars(given.as_slice(), windows.as_slice()) {
            HostFamily::Windows
        } else {
            HostFamily::Posix
        }
    }

    /// The program that runs a command on this host.
    pub fn program(&self) -> (name: String)
        ensures
            name@ == shell_program(*self),
    {
        match self {
            HostFamily::Windows => String::from_str("cmd"),
            HostFamily::Posix => String::from_str("sh"),
        }
    }

    /// The arguments with which the shell of this host runs `command`: the flag, then the
    /// command as one argument.
    pub fn arguments(&self, command: &str) -> (args: Vec<String>)
        ensures
            args.deep_view() == seq![shell_flag(*self), command@],
    {
        let flag = match self {
            HostFamily::Windows => String::from_str("/C"),
            HostFamily::Posix => String::from_str("-c"),
        };
        let mut args: Vec<String> = Vec::new();
        args.push(flag);
        args.push(String::from_str(command));
        assert(args.deep_view() =~= seq![shell_flag(*self), command@]);
        args
    }
}

/// The outcome of one command: what it printed, or why it could not be started. A command
/// that ran and failed is an outcome like any other, with what it printed; `failure` is for
/// one that never ran.
#[derive(Clone, Debug)]
pub struct ExecutionResult {
    pub command: String,
    pub stdout: String,
    pub stderr: String,
    pub failure: Option<String>,
}

/// The model of an [`ExecutionResult`].
pub struct ExecutionResultView {
    pub command: Seq<char>,
    pub stdout: Seq<char>,
    pub stderr: Seq<char>,
    pub failure: Option<Seq<char>>,
}

impl View for ExecutionResult {
    type V = ExecutionResultView;

    open spec fn view(&self) -> ExecutionResultView {
        ExecutionResultView {
            command: self.command@,
            stdout: self.stdout@,
            stderr: self.stderr@,
            failure: self.failure.deep_view(),
        }
    }
}

impl DeepView for ExecutionResult {
    type V = ExecutionResultView;

    open spec fn deep_view(&self) -> ExecutionResultView {
        self@
    }
}

impl ExecutionResult {
    /// The outcome of `command` that printed `stdout` and `stderr`: both are kept without
    /// the white space around them.
    pub fn from_text(command: String, stdout: &str, stderr: &str) -> (result: ExecutionResult)
        ensures
            result@ == (ExecutionResultView {
                command: command@,
                stdout: trimmed(stdout@),
                stderr: trimmed(stderr@),
                failure: None,
            }),
    {
        let out = trim(chars_of(stdout).as_slice());
        let err = trim(chars_of(stderr).as_slice());
        ExecutionResult {
            command,
            stdout: string_of(out.as_slice()),
            stderr: string_of(err.as_slice()),
            failure: None,
        }
    }

    /// The outcome of `command` that wrote the bytes `stdout` and `stderr`, which are decoded
    /// lossily as UTF-8.
    pub fn captured(command: String, stdout: &[u8], stderr: &[u8]) -> (result: ExecutionResult)
        ensures
            result@ == (ExecutionResultView {
                command: command@,
                stdout: trimmed(utf8_lossy(stdout@)),
                stderr: trimmed(utf8_lossy(stderr@)),
                failure: None,
            }),
    {
        let out = decode_lossy(stdout);
        let err = decode_lossy(stderr);
        ExecutionResult::from_text(command, out.as_str(), err.as_str())
    }

    /// The outcome of `command` that could not be started, for the reason `error`.
    pub fn launch_failed(command: String, error: String) -> (result: ExecutionResult)
        ensures
            result@ == (ExecutionResultView {
                command: command@,
                stdout: Seq::empty(),
                stderr: Seq::empty(),
                failure: Some(error@),
            }),
    {
        ExecutionResult {
            command,
            stdout: String::new(),
            stderr: String::new(),
            failure: Some(error),
        }
    }
}

/// What became of one command on the host, as the caller saw it.
#[derive(Clone, Debug)]
pub enum Outcome {
    /// The command ran, whatever its exit status, and wrote these bytes.
    Printed { stdout: Vec<u8>, stderr: Vec<u8> },
    /// The command could not be started, for this reason.
    NotStarted(String),
}

/// The model of an [`Outcome`].
pub enum OutcomeView {
    Printed { stdout: Seq<u8>, stderr: Seq<u8> },
    NotStarted(Seq<char>),
}

impl View for Outcome {
    type V = OutcomeView;

    open spec fn view(&self) -> OutcomeView {
        match self {
            Outcome::Printed { stdout, stderr } => OutcomeView::Printed {
                stdout: stdout@,
                stderr: stderr@,
            },
            Outcome::NotStarted(reason) => OutcomeView::NotStarted(reason@),
        }
    }
}

impl DeepView for Outcome {
    type V = OutcomeView;

    open spec fn deep_view(&self) -> OutcomeView {
        self@
    }
}

/// The result of `command` with `outcome`.
pub open spec fn result_of(command: Seq<char>, outcome: OutcomeView) -> ExecutionResultView {
    match outcome {
        OutcomeView::Printed { stdout, stderr } => ExecutionResultView {
            command,
            stdout: trimmed(utf8_lossy(stdout)),
            stderr: trimmed(utf8_lossy(stderr)),
            failure: None,
        },
        OutcomeView::NotStarted(reason) => ExecutionResultView {
            command,
            stdout: Seq::empty(),
            stderr: Seq::empty(),
            failure: Some(reason),
        },
    }
}

/// The results of `commands` with `outcomes`: one for each command, in the order of the
/// commands. There are none where the outcomes are not as many as the commands.
pub open spec fn results_of(commands: Seq<Seq<char>>, outcomes: Seq<OutcomeView>) -> Option<
    Seq<ExecutionResultView>,
> {
    if commands.len() == outcomes.len() {
        Some(Seq::new(commands.len(), |i: int| result_of(commands[i], outcomes[i])))
    } else {
        None
    }
}

/// The results of `commands` with `outcomes`, or `None` where the outcomes are not as many
/// as the commands.
pub fn results(commands: Vec<String>, outcomes: Vec<Outcome>) -> (paired: Option<
    Vec<ExecutionResult>,
>)
    ensures
        paired.deep_view() == results_of(commands.deep_view(), outcomes.deep_view()),
{
    if commands.len() != outcomes.len() {
        return None;
    }
    let ghost all_commands = commands.deep_view();
    let ghost all_outcomes = outcomes.deep_view();
    let mut paired: Vec<ExecutionResult> = Vec::new();
    let mut i: usize = 0;
    while i < commands.len()
        invariant
            i <= commands.len(),
            commands.len() == outcomes.len(),
            all_commands == commands.deep_view(),
            all_outcomes == outcomes.deep_view(),
            paired.deep_view() == Seq::new(
                i as nat,
                |k: int| result_of(all_commands[k], all_outcomes[k]),
            ),
        decreases commands.len() - i,
    {
        let ghost before = paired.deep_view();
        let command = commands[i].clone();
        let result = match &outcomes[i] {
            Outcome::Printed { stdout, stderr } => ExecutionResult::captured(
                command,
                stdout.as_slice(),
                stderr.as_slice(),
            ),
            Outcome::NotStarted(reason) => ExecutionResult::launch_failed(command, reason.clone()),
        };
        let ghost added = result@;
        assert(added == result_of(all_commands[i as int], all_outcomes[i as int]));
        paired.push(result);
        assert(paired.deep_view() =~= before.push(added));
        i += 1;
        assert(paired.deep_view() =~= Seq::new(
            i as nat,
            |k: int| result_of(all_commands[k], all_outcomes[k]),
        ));
    }
    assert(paired.deep_view() =~= results_of(all_commands, all_outcomes).unwrap());
    Some(paired)
}

} // verus!
