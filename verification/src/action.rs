//! What the shell asks its caller to do.
//!
//! The shell itself writes nothing, ends nothing and runs nothing. It answers
//! each event with a list of [`Action`]s, which the caller carries out in
//! order. Three of them end in a question to the file system or to a process;
//! the caller hands the outcome to the function that the action names.

use vstd::prelude::*;
use vstd::utf8::encode_utf8;

verus! {

/// One of the shell's two output streams.
#[derive(Clone, Copy, Debug, PartialEq, Eq)]
pub enum Stream {
    /// Standard output.
    Stdout,
    /// Standard error.
    Stderr,
}

/// One step for the caller to carry out.
#[derive(Debug, PartialEq, Eq)]
pub enum Action {
    /// Write the bytes to the stream, as they are.
    Write { stream: Stream, bytes: Vec<u8> },
    /// End the process with this status. Nothing after it is carried out.
    Exit { code: i32 },
    /// Look `token` up with `executable_find`, find the canonical form of the
    /// path it gave, and carry out what `describe` answers.
    Describe { token: String },
    /// Look `word` up with `executable_find` and carry out what
    /// `handle_external` answers for the word, the argument text and what
    /// was found.
    Launch { word: String, text: String },
    /// Run `program` with `args`, both of its output streams captured, wait
    /// for it to end, and carry out what `relay` answers.
    Spawn { program: String, args: Vec<String> },
}

/// An action as contracts see it.
pub enum ActionView {
    Write { stream: Stream, bytes: Seq<u8> },
    Exit { code: i32 },
    Describe { token: Seq<char> },
    Launch { word: Seq<char>, text: Seq<char> },
    Spawn { program: Seq<char>, args: Seq<Seq<char>> },
}

impl View for Action {
    type V = ActionView;

    open spec fn view(&self) -> ActionView {
        match self {
            Action::Write { stream, bytes } => ActionView::Write { stream: *stream, bytes: bytes@ },
            Action::Exit { code } => ActionView::Exit { code: *code },
            Action::Describe { token } => ActionView::Describe { token: token@ },
            Action::Launch { word, text } => ActionView::Launch { word: word@, text: text@ },
            Action::Spawn { program, args } => ActionView::Spawn {
                program: program@,
                args: args.deep_view(),
            },
        }
    }
}

impl DeepView for Action {
    type V = ActionView;

    open spec fn deep_view(&self) -> ActionView {
        self@
    }
}

/// The bytes of a line of text: the text in UTF-8, then a line feed.
pub open spec fn line_bytes(text: Seq<char>) -> Seq<u8> {
    encode_utf8(text + seq!['\n'])
}

/// The action that writes one line of text to a stream.
pub open spec fn line(stream: Stream, text: Seq<char>) -> ActionView {
    ActionView::Write { stream, bytes: line_bytes(text) }
}

impl Action {
    /// The action that writes one line of text to a stream.
    pub fn line(stream: Stream, text: String) -> (action: Action)
        ensures
            action@ == line(stream, text@),
    {
        let ended = text.concat("\n");
        proof {
            reveal_strlit("\n");
            assert("\n"@ =~= seq!['\n']);
        }
        Action::Write { stream, bytes: ended.as_str().as_bytes_vec() }
    }
}

} // verus!
