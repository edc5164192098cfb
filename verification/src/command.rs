//! The built-in commands: their names, and how their arguments are read.

use crate::text::{parse_i32, parsed_i32, split_ascii_whitespace, str_eq, words};
use vstd::prelude::*;

verus! {

/// A built-in command with its arguments.
#[derive(Debug, PartialEq, Eq)]
pub enum Command {
    /// End the shell with a status.
    Exit { code: i32 },
    /// Print a message.
    Echo { message: String },
    /// Say what each of some names stands for.
    Type { tokens: Vec<String> },
}

/// A built-in command as contracts see it.
pub enum CommandView {
    Exit { code: i32 },
    Echo { message: Seq<char> },
    Type { tokens: Seq<Seq<char>> },
}

/// Why a built-in command cannot be had from a line.
#[derive(Debug, PartialEq, Eq)]
pub enum CommandError {
    /// The arguments do not suit the command; the text says in what way.
    Argument(String),
}

/// An error as contracts see it.
pub enum CommandErrorView {
    Argument(Seq<char>),
}

impl View for Command {
    type V = CommandView;

    open spec fn view(&self) -> CommandView {
        match self {
            Command::Exit { code } => CommandView::Exit { code: *code },
            Command::Echo { message } => CommandView::Echo { message: message@ },
            Command::Type { tokens } => CommandView::Type { tokens: tokens.deep_view() },
        }
    }
}

impl DeepView for Command {
    type V = CommandView;

    open spec fn deep_view(&self) -> CommandView {
        self@
    }
}

impl View for CommandError {
    type V = CommandErrorView;

    open spec fn view(&self) -> CommandErrorView {
        match self {
            CommandError::Argument(detail) => CommandErrorView::Argument(detail@),
        }
    }
}

impl DeepView for CommandError {
    type V = CommandErrorView;

    open spec fn deep_view(&self) -> CommandErrorView {
        self@
    }
}

impl CommandErrorView {
    /// The error in words.
    pub open spec fn message(self) -> Seq<char> {
        match self {
            CommandErrorView::Argument(detail) => "invalid arguments: "@ + detail,
        }
    }
}

impl CommandError {
    /// The error in words, as it is shown to the user.
    pub fn message(&self) -> (text: String)
        ensures
            text@ == self@.message(),
    {
        match self {
            CommandError::Argument(detail) => String::from_str("invalid arguments: ").concat(
                detail.as_str(),
            ),
        }
    }
}

impl CommandView {
    /// The word that names the command.
    pub open spec fn name(self) -> Seq<char> {
        match self {
            CommandView::Exit { .. } => "exit"@,
            CommandView::Echo { .. } => "echo"@,
            CommandView::Type { .. } => "type"@,
        }
    }
}

/// The built-in command that a word names, still without arguments. Only the
/// three names in lower case name one.
pub open spec fn builtin(word: Seq<char>) -> Option<CommandView> {
    if word == "exit"@ {
        Some(CommandView::Exit { code: 0 })
    } else if word == "echo"@ {
        Some(CommandView::Echo { message: Seq::empty() })
    } else if word == "type"@ {
        Some(CommandView::Type { tokens: Seq::empty() })
    } else {
        None
    }
}

/// The `exit` command that a list of arguments gives: status 0 without an
/// argument; with one, the integer it stands for, or 1 where it stands for
/// none that fits; with more, an error.
pub open spec fn exit_command(tokens: Seq<Seq<char>>) -> Result<CommandView, CommandErrorView> {
    if tokens.len() > 1 {
        Err(CommandErrorView::Argument("too many supplied"@))
    } else if tokens.len() == 1 {
        Ok(
            CommandView::Exit {
                code: match parsed_i32(tokens[0]) {
                    Some(code) => code,
                    None => 1,
                },
            },
        )
    } else {
        Ok(CommandView::Exit { code: 0 })
    }
}

/// The command of the given kind with the arguments that the text holds.
/// `echo` takes the text as it is; `exit` and `type` take its words.
pub open spec fn built(kind: CommandView, args: Seq<char>) -> Result<CommandView, CommandErrorView> {
    match kind {
        CommandView::Exit { .. } => exit_command(words(args)),
        CommandView::Echo { .. } => Ok(CommandView::Echo { message: args }),
        CommandView::Type { .. } => Ok(CommandView::Type { tokens: words(args) }),
    }
}

/// What the outcome of building a command looks like to contracts.
pub open spec fn outcome_view(outcome: Result<Command, CommandError>) -> Result<
    CommandView,
    CommandErrorView,
> {
    match outcome {
        Ok(command) => Ok(command@),
        Err(error) => Err(error@),
    }
}

impl Command {
    /// The built-in command that a word names, still without arguments.
    pub fn from_word(word: &str) -> (kind: Option<Command>)
        ensures
            kind.deep_view() == builtin(word@),
    {
        if str_eq(word, "exit") {
            Some(Command::Exit { code: 0 })
        } else if str_eq(word, "echo") {
            let kind = Command::Echo { message: String::new() };
            Some(kind)
        } else if str_eq(word, "type") {
            let kind = Command::Type { tokens: Vec::new() };
            assert(kind@->tokens =~= Seq::<Seq<char>>::empty());
            Some(kind)
        } else {
            None
        }
    }

    /// The word that names the command.
    pub fn name(&self) -> (word: &'static str)
        ensures
            word@ == self@.name(),
    {
        match self {
            Command::Exit { .. } => "exit",
            Command::Echo { .. } => "echo",
            Command::Type { .. } => "type",
        }
    }

    /// Gives a command of this kind the arguments that `args` holds.
    pub fn build(self, args: &str) -> (outcome: Result<Command, CommandError>)
        ensures
            outcome_view(outcome) == built(self@, args@),
    {
        match self {
            Command::Exit { .. } => {
                let tokens = split_ascii_whitespace(args);
                build_command_exit(tokens.as_slice())
            },
            Command::Echo { .. } => Ok(Command::Echo { message: args.to_owned() }),
            Command::Type { .. } => Ok(Command::Type { tokens: split_ascii_whitespace(args) }),
        }
    }
}

/// The `exit` command that a list of arguments gives.
pub fn build_command_exit(tokens: &[String]) -> (outcome: Result<Command, CommandError>)
    ensures
        outcome_view(outcome) == exit_command(tokens.deep_view()),
{
    if tokens.len() > 1 {
        Err(CommandError::Argument(String::from_str("too many supplied")))
    } else if tokens.len() == 1 {
        let code: i32 = match parse_i32(tokens[0].as_str()) {
            Some(code) => code,
            None => 1,
        };
        Ok(Command::Exit { code })
    } else {
        Ok(Command::Exit { code: 0 })
    }
}

/// A built-in command is named by the very word that names it: the three
/// names are told apart in one place only.
pub proof fn builtin_keeps_name(word: Seq<char>)
    requires
        builtin(word) is Some,
    ensures
        builtin(word)->0.name() == word,
{
}

/// The three names name three different commands, and no word with a
/// separator in it names one.
pub proof fn builtin_names()
    ensures
        builtin("exit"@) == Some(CommandView::Exit { code: 0 }),
        builtin("echo"@) == Some(CommandView::Echo { message: Seq::empty() }),
        builtin("type"@) == Some(CommandView::Type { tokens: Seq::empty() }),
{
    reveal_strlit("exit");
    reveal_strlit("echo");
    reveal_strlit("type");
    assert("echo"@ != "exit"@) by {
        assert("echo"@[1] != "exit"@[1]);
    }
    assert("type"@ != "exit"@) by {
        assert("type"@[0] != "exit"@[0]);
    }
    assert("type"@ != "echo"@) by {
        assert("type"@[0] != "echo"@[0]);
    }
}

} // verus!
