//! From a line of input to the actions that carry it out.

use crate::action::{line, Action, ActionView, Stream};
use crate::command::{builtin, builtin_names, built, Command, CommandView};
use crate::invoke::{executable_invoke, invocation, split_outcome};
use crate::resolve::{resolved, Metadata, SearchDirView};
use crate::text::{
    first_word, first_word_of_line, is_whitespace, number_has_no_whitespace, parsed_i32,
    slice_is_trimmed, split_first_word, trim_after, trimmed, trimmed_is_slice, words,
    words_of_word,
};
use vstd::prelude::*;

verus! {

/// The argument text of a line: what is left of the line once as many
/// characters as the command word has are taken from its front, without the
/// white space on either side. Spacing and quoting inside it stay as typed.
pub open spec fn argument_text(line: Seq<char>, word: Seq<char>) -> Seq<char> {
    if word.len() <= line.len() {
        trimmed(line.skip(word.len() as int))
    } else {
        Seq::empty()
    }
}

/// What `type` does for one name: a built-in is reported at once; any other
/// name has to be looked up first.
pub open spec fn type_action(token: Seq<char>) -> ActionView {
    match builtin(token) {
        Some(kind) => line(Stream::Stdout, kind.name() + " is a shell builtin"@),
        None => ActionView::Describe { token },
    }
}

/// What `type` does for its names: one action for each, in their order.
pub open spec fn type_actions(tokens: Seq<Seq<char>>) -> Seq<ActionView> {
    Seq::new(tokens.len(), |i: int| type_action(tokens[i]))
}

/// What carrying out a built-in command consists of.
pub open spec fn effects(command: CommandView) -> Seq<ActionView> {
    match command {
        CommandView::Exit { code } => seq![ActionView::Exit { code }],
        CommandView::Echo { message } => seq![line(Stream::Stdout, message)],
        CommandView::Type { tokens } => type_actions(tokens),
    }
}

/// What is done for a line whose command word is `word`. A built-in is
/// carried out, or the fault in its arguments is reported and nothing else is
/// tried; any other word has to be looked up as a program.
pub open spec fn dispatch(text: Seq<char>, word: Seq<char>) -> Seq<ActionView> {
    let args = argument_text(text, word);
    match builtin(word) {
        Some(kind) => match built(kind, args) {
            Ok(command) => effects(command),
            Err(error) => seq![line(Stream::Stderr, error.message())],
        },
        None => seq![ActionView::Launch { word, text: args }],
    }
}

/// What is done for a word that is no built-in, once it has been looked up:
/// the program found is run with the arguments; without one, the word is
/// reported as not found and nothing is run.
pub open spec fn external(word: Seq<char>, args: Seq<char>, found: Option<Seq<char>>) -> ActionView {
    match found {
        Some(program) => invocation(program, split_outcome(args)),
        None => line(Stream::Stderr, word + ": command not found"@),
    }
}

/// Where a program was found.
#[derive(Debug, PartialEq, Eq)]
pub struct Location {
    /// The path as the search gave it.
    pub path: String,
    /// The canonical form of that path, where the file system gives one.
    pub canonical: Option<String>,
}

/// What `type` reports of a name that is no built-in, once it has been
/// looked up: the canonical path of the program found, or the path as it was
/// found where there is no canonical form; without a program, that the name
/// was not found.
pub open spec fn description(token: Seq<char>, found: Option<Location>) -> ActionView {
    match found {
        Some(location) => line(
            Stream::Stdout,
            token + " is "@ + match location.canonical {
                Some(canonical) => canonical@,
                None => location.path@,
            },
        ),
        None => line(Stream::Stderr, token + " not found"@),
    }
}

/// The argument text of a line whose command word is `cmd`.
pub fn argument_text_of(text: &str, cmd: &str) -> (args: String)
    ensures
        args@ == argument_text(text@, cmd@),
{
    let n: usize = cmd.unicode_len();
    if n <= text.unicode_len() {
        trim_after(text, n)
    } else {
        String::new()
    }
}

/// What `type` does for its names.
pub fn get_command_types(tokens: &[String]) -> (actions: Vec<Action>)
    ensures
        actions.deep_view() == type_actions(tokens.deep_view()),
{
    let mut actions: Vec<Action> = Vec::new();
    let mut i: usize = 0;
    while i < tokens.len()
        invariant
            i <= tokens.len(),
            actions.len() == i,
            forall|k: int| 0 <= k < i ==> actions[k]@ == type_action(tokens[k]@),
        decreases tokens.len() - i,
    {
        let token = &tokens[i];
        let action = match Command::from_word(token.as_str()) {
            Some(kind) => Action::line(
                Stream::Stdout,
                String::from_str(kind.name()).concat(" is a shell builtin"),
            ),
            None => Action::Describe { token: token.clone() },
        };
        actions.push(action);
        i += 1;
    }
    assert(actions.deep_view() =~= type_actions(tokens.deep_view()));
    actions
}

impl Command {
    /// What carrying out the command consists of.
    pub fn execute(self) -> (actions: Vec<Action>)
        ensures
            actions.deep_view() == effects(self@),
    {
        match self {
            Command::Exit { code } => one(Action::Exit { code }),
            Command::Echo { message } => one(Action::line(Stream::Stdout, message)),
            Command::Type { tokens } => get_command_types(tokens.as_slice()),
        }
    }
}

/// Decides what is done for a line whose command word is `cmd`.
pub fn handle_input(text: &str, cmd: &str) -> (actions: Vec<Action>)
    ensures
        actions.deep_view() == dispatch(text@, cmd@),
{
    let args = argument_text_of(text, cmd);
    match Command::from_word(cmd) {
        Some(kind) => match kind.build(args.as_str()) {
            Ok(command) => command.execute(),
            Err(error) => one(Action::line(Stream::Stderr, error.message())),
        },
        None => one(Action::Launch { word: cmd.to_owned(), text: args }),
    }
}

/// Decides what is done for a word that is no built-in, once it has been
/// looked up; `found` is the answer of `executable_find`.
pub fn handle_external(word: &str, args: &str, found: Option<String>) -> (action: Action)
    ensures
        action@ == external(word@, args@, found.deep_view()),
{
    match found {
        Some(program) => executable_invoke(program, args),
        None => Action::line(Stream::Stderr, word.to_owned().concat(": command not found")),
    }
}

/// Decides what `type` reports of a name that is no built-in, once it has
/// been looked up.
pub fn describe(token: &str, found: Option<Location>) -> (action: Action)
    ensures
        action@ == description(token@, found),
{
    match found {
        Some(location) => {
            let shown = match location.canonical {
                Some(canonical) => canonical,
                None => location.path,
            };
            Action::line(Stream::Stdout, token.to_owned().concat(" is ").concat(shown.as_str()))
        },
        None => Action::line(Stream::Stderr, token.to_owned().concat(" not found")),
    }
}

/// What came of an attempt to read a line.
#[derive(Debug, PartialEq, Eq)]
pub enum ReadEvent {
    /// A line was read; it comes without its line end.
    Line(String),
    /// The user interrupted the read.
    Interrupted,
    /// The input is at its end.
    Eof,
    /// The read failed; the text describes the failure.
    Failed(String),
}

/// What the read loop does for one event.
#[derive(Debug, PartialEq, Eq)]
pub struct Step {
    /// What is carried out, in order, before anything else is read.
    pub actions: Vec<Action>,
    /// Whether the loop then reads again.
    pub proceed: bool,
}

/// What is done for a line that was read: nothing for a line without a word,
/// else what its first word asks for.
pub open spec fn line_actions(text: Seq<char>) -> Seq<ActionView> {
    match first_word(text) {
        Some(word) => dispatch(text, word),
        None => Seq::empty(),
    }
}

/// What is done for an event of the read loop.
pub open spec fn step_actions(event: ReadEvent) -> Seq<ActionView> {
    match event {
        ReadEvent::Line(text) => line_actions(text@),
        ReadEvent::Interrupted => seq![line(Stream::Stderr, "^C"@)],
        ReadEvent::Eof => seq![line(Stream::Stderr, "^D"@)],
        ReadEvent::Failed(reason) => seq![line(Stream::Stderr, "error: "@ + reason@)],
    }
}

/// Whether the loop reads again after an event: it does after a line and
/// after an interrupt, and not at the end of the input or after a failure.
pub open spec fn reads_on(event: ReadEvent) -> bool {
    event is Line || event is Interrupted
}

/// One turn of the read loop: decides what is done for what the read gave,
/// and whether the loop goes on.
pub fn repl_step(event: ReadEvent) -> (step: Step)
    ensures
        step.actions.deep_view() == step_actions(event),
        step.proceed == reads_on(event),
{
    match event {
        ReadEvent::Line(text) => {
            let actions = match split_first_word(text.as_str()) {
                Some(cmd) => handle_input(text.as_str(), cmd.as_str()),
                None => {
                    let actions: Vec<Action> = Vec::new();
                    assert(actions.deep_view() =~= Seq::empty());
                    actions
                },
            };
            Step { actions, proceed: true }
        },
        ReadEvent::Interrupted => Step {
            actions: one(Action::line(Stream::Stderr, String::from_str("^C"))),
            proceed: true,
        },
        ReadEvent::Eof => Step {
            actions: one(Action::line(Stream::Stderr, String::from_str("^D"))),
            proceed: false,
        },
        ReadEvent::Failed(reason) => Step {
            actions: one(
                Action::line(Stream::Stderr, String::from_str("error: ").concat(reason.as_str())),
            ),
            proceed: false,
        },
    }
}

/// The list that holds one action.
fn one(action: Action) -> (actions: Vec<Action>)
    ensures
        actions.deep_view() == seq![action@],
{
    let mut actions: Vec<Action> = Vec::new();
    actions.push(action);
    assert(actions.deep_view() =~= seq![action@]);
    actions
}

/// The environment variable that lists the directories of the search path.
pub const PATH: &'static str = "PATH";

/// What the shell reports at its start where the search path cannot be had.
pub open spec fn path_diagnostic() -> ActionView {
    line(Stream::Stderr, "failed to parse environment variable: "@ + PATH@)
}

/// The search path that the shell starts with, and what it reports of it.
///
/// `listed` holds the directories that the variable [`PATH`] lists, in order,
/// or `None` where the variable is not set or is not valid text. Without a
/// list the search path is empty and the shell says so once; it starts all
/// the same.
pub fn get_env_paths(listed: Option<Vec<String>>) -> (start: (Vec<String>, Vec<Action>))
    ensures
        match listed {
            Some(dirs) => start.0 == dirs && start.1.deep_view() == Seq::<ActionView>::empty(),
            None => start.0@ == Seq::<String>::empty() && start.1.deep_view() == seq![
                path_diagnostic(),
            ],
        },
{
    match listed {
        Some(dirs) => {
            let actions: Vec<Action> = Vec::new();
            assert(actions.deep_view() =~= Seq::empty());
            (dirs, actions)
        },
        None => {
            let text = String::from_str("failed to parse environment variable: ").concat(PATH);
            (Vec::new(), one(Action::line(Stream::Stderr, text)))
        },
    }
}

/// The argument text is one contiguous piece of the line, after the
/// characters taken for the command word: spacing inside it is kept as
/// typed, what is cut off on either side is white space, and the piece
/// neither begins nor ends with white space.
pub proof fn argument_text_is_slice(text: Seq<char>, word: Seq<char>) -> (bounds: (int, int))
    requires
        word.len() <= text.len(),
    ensures
        word.len() <= bounds.0 <= bounds.1 <= text.len(),
        argument_text(text, word) == text.subrange(bounds.0, bounds.1),
        forall|i: int| word.len() <= i < bounds.0 ==> is_whitespace(text[i]),
        forall|i: int| bounds.1 <= i < text.len() ==> is_whitespace(text[i]),
        bounds.0 < bounds.1 ==> !is_whitespace(text[bounds.0]) && !is_whitespace(
            text[bounds.1 - 1],
        ),
{
    let n = word.len() as int;
    let rest = text.skip(n);
    let kept = trimmed_is_slice(rest);
    assert(rest.subrange(kept.0, kept.1) =~= text.subrange(n + kept.0, n + kept.1));
    assert forall|i: int| n <= i < n + kept.0 implies is_whitespace(text[i]) by {
        assert(text[i] == rest[i - n]);
    }
    assert forall|i: int| n + kept.1 <= i < text.len() implies is_whitespace(text[i]) by {
        assert(text[i] == rest[i - n]);
    }
    if kept.0 < kept.1 {
        assert(text[n + kept.0] == rest[kept.0]);
        assert(text[n + kept.1 - 1] == rest[kept.1 - 1]);
    }
    (n + kept.0, n + kept.1)
}

/// A line whose first word is `exit` ends the shell: with status 0 where no
/// argument follows; where one follows, with the integer that it stands for,
/// or with status 1 where it stands for none that fits. Where more than one
/// follows, nothing ends: the fault is reported and that is all.
pub proof fn exit_law(text: Seq<char>)
    requires
        first_word(text) == Some("exit"@),
    ensures
        ({
            let args = words(argument_text(text, "exit"@));
            &&& args.len() == 0 ==> line_actions(text) == seq![ActionView::Exit { code: 0 }]
            &&& args.len() == 1 ==> line_actions(text) == seq![
                ActionView::Exit {
                    code: match parsed_i32(args[0]) {
                        Some(n) => n,
                        None => 1,
                    },
                },
            ]
            &&& args.len() > 1 ==> line_actions(text) == seq![
                line(Stream::Stderr, "invalid arguments: too many supplied"@),
            ]
        }),
{
    reveal_strlit("invalid arguments: ");
    reveal_strlit("too many supplied");
    reveal_strlit("invalid arguments: too many supplied");
    assert("invalid arguments: "@ + "too many supplied"@
        =~= "invalid arguments: too many supplied"@);
}

/// For every text that stands for an integer `n` of 32 bits, the line made
/// of `exit`, a space and that text ends the shell with status `n`.
pub proof fn exit_with_status(number: Seq<char>, n: i32)
    requires
        parsed_i32(number) == Some(n),
    ensures
        line_actions("exit "@ + number) == seq![ActionView::Exit { code: n }],
{
    reveal_strlit("exit");
    reveal_strlit("exit ");
    let text = "exit "@ + number;
    assert(text =~= "exit"@ + seq![' '] + number);
    first_word_of_line("exit"@, number);
    number_has_no_whitespace(number);
    let rest = text.skip(4);
    assert(rest =~= seq![' '] + number);
    assert forall|i: int| 1 <= i < rest.len() implies !is_whitespace(rest[i]) by {
        assert(rest[i] == number[i - 1]);
    }
    slice_is_trimmed(rest, 1, rest.len() as int);
    assert(rest.subrange(1, rest.len() as int) =~= number);
    assert(argument_text(text, "exit"@) == number);
    words_of_word(number);
    exit_law(text);
}

/// A line whose first word is `echo` prints its argument text, and does
/// nothing else.
pub proof fn echo_law(text: Seq<char>)
    requires
        first_word(text) == Some("echo"@),
    ensures
        line_actions(text) == seq![line(Stream::Stdout, argument_text(text, "echo"@))],
{
    builtin_names();
}

/// A command word that names no built-in and that the file system has no
/// program for comes to one report on standard error, of the word as not
/// found: nothing is run.
pub proof fn unknown_command(
    text: Seq<char>,
    word: Seq<char>,
    direct: Option<Metadata>,
    dirs: Seq<SearchDirView>,
)
    requires
        builtin(word) is None,
        resolved(word, direct, dirs) is None,
    ensures
        dispatch(text, word) == seq![
            ActionView::Launch { word, text: argument_text(text, word) },
        ],
        external(word, argument_text(text, word), resolved(word, direct, dirs)) == line(
            Stream::Stderr,
            word + ": command not found"@,
        ),
{
}

} // verus!
