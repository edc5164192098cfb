//! Running a program: its arguments, and what becomes of its output.

use crate::action::{line, Action, ActionView, Stream};
use vstd::prelude::*;

verus! {

/// The error of `shell_words::split`. It holds nothing.
#[verifier::external_type_specification]
#[verifier::external_body]
pub struct ExParseError(shell_words::ParseError);

/// The words that `shell_words::split` makes of a text by the quoting rules
/// of a Unix shell, or `None` where the text ends inside a quotation.
pub uninterp spec fn shell_split(text: Seq<char>) -> Option<Seq<Seq<char>>>;

/// `shell_words::split` reads nothing but its argument and always returns:
/// the words of the text, or its error where a quotation is left open.
pub assume_specification[ shell_words::split ](s: &str) -> (r: Result<
    Vec<String>,
    shell_words::ParseError,
>)
    ensures
        shell_split(s@) == match r {
            Ok(words) => Some(words.deep_view()),
            Err(_) => None,
        },
;

/// What `shell_words::ParseError` prints as: its `Display` writes these three
/// words and nothing else.
#[verifier::external_body]
fn parse_error_text(e: &shell_words::ParseError) -> (text: String)
    ensures
        text@ == "missing closing quote"@,
{
    format!("{e}")
}

/// The arguments that a text stands for, or why it stands for none.
pub open spec fn split_outcome(text: Seq<char>) -> Result<Seq<Seq<char>>, Seq<char>> {
    match shell_split(text) {
        Some(words) => Ok(words),
        None => Err("missing closing quote"@),
    }
}

/// What a split of arguments looks like to contracts.
pub open spec fn split_view(split: Result<Vec<String>, String>) -> Result<
    Seq<Seq<char>>,
    Seq<char>,
> {
    match split {
        Ok(words) => Ok(words.deep_view()),
        Err(reason) => Err(reason@),
    }
}

/// Splits an argument text into arguments by the quoting rules of a Unix
/// shell: single quotes, double quotes and backslashes.
pub fn split_arguments(args: &str) -> (split: Result<Vec<String>, String>)
    ensures
        split_view(split) == split_outcome(args@),
{
    match shell_words::split(args) {
        Ok(words) => Ok(words),
        Err(e) => Err(parse_error_text(&e)),
    }
}

/// What is done for a program and a split of its argument text: with
/// arguments the program is run with them; without, the reason is reported
/// and nothing is run.
pub open spec fn invocation(program: Seq<char>, split: Result<Seq<Seq<char>>, Seq<char>>) -> ActionView {
    match split {
        Ok(args) => ActionView::Spawn { program, args },
        Err(reason) => line(Stream::Stderr, "failed to parse arguments: "@ + reason),
    }
}

/// Decides what is done for a program once its argument text has been split.
pub fn plan_invocation(program: String, split: Result<Vec<String>, String>) -> (action: Action)
    ensures
        action@ == invocation(program@, split_view(split)),
{
    match split {
        Ok(args) => Action::Spawn { program, args },
        Err(reason) => {
            let text = String::from_str("failed to parse arguments: ").concat(reason.as_str());
            Action::line(Stream::Stderr, text)
        },
    }
}

/// Prepares the run of the program at `cmd` with the arguments that `args`
/// stands for. Where `args` ends inside a quotation nothing is run, and the
/// answer is a report to standard error.
pub fn executable_invoke(cmd: String, args: &str) -> (action: Action)
    ensures
        action@ == invocation(cmd@, split_outcome(args@)),
{
    plan_invocation(cmd, split_arguments(args))
}

/// What a program left behind when it ended.
#[derive(Debug, PartialEq, Eq)]
pub struct InvocationResult {
    /// All that the program wrote to its standard output.
    pub stdout: Vec<u8>,
    /// All that the program wrote to its standard error.
    pub stderr: Vec<u8>,
    /// The status it ended with; `None` where it gave none.
    pub status: Option<i32>,
}

/// What is done once a run is over. What the program wrote to its standard
/// output goes to the shell's standard output and what it wrote to its
/// standard error goes to the shell's standard error, each byte for byte;
/// the status is not looked at. Of a program that could not be started, the
/// reason is reported and nothing else is done.
pub open spec fn relayed(outcome: Result<InvocationResult, String>) -> Seq<ActionView> {
    match outcome {
        Ok(result) => seq![
            ActionView::Write { stream: Stream::Stdout, bytes: result.stdout@ },
            ActionView::Write { stream: Stream::Stderr, bytes: result.stderr@ },
        ],
        Err(reason) => seq![line(Stream::Stderr, reason@)],
    }
}

/// Decides what is done once a run is over: `Ok` with what the program left
/// behind, or `Err` with the reason why it could not be started.
pub fn relay(outcome: Result<InvocationResult, String>) -> (actions: Vec<Action>)
    ensures
        actions.deep_view() == relayed(outcome),
{
    let mut actions: Vec<Action> = Vec::new();
    match outcome {
        Ok(result) => {
            actions.push(Action::Write { stream: Stream::Stdout, bytes: result.stdout });
            actions.push(Action::Write { stream: Stream::Stderr, bytes: result.stderr });
        },
        Err(reason) => {
            actions.push(Action::line(Stream::Stderr, reason));
        },
    }
    assert(actions.deep_view() =~= relayed(outcome));
    actions
}

} // verus!
