//! What the viewer asks of the world around it, and what the world answers.

use vstd::prelude::*;

use crate::text::texts;

verus! {

/// A piece of outside work.
pub enum Action {
    /// Nothing: wait for the next key.
    Wait,
    /// Find the paths that match the query, as indices, best first.
    Filter { paths: Vec<String>, query: String },
    /// Measure the terminal.
    Width,
    /// Look a program up on the search path.
    Find { program: String },
    /// Run a program and capture what it prints.
    Capture { program: String, args: Vec<String> },
    /// Run a program on the given input and capture what it prints.
    Pipe { program: String, args: Vec<String>, input: Vec<u8> },
    /// Run a program on the given text and see whether it succeeds.
    Feed { program: String, args: Vec<String>, text: String },
    /// Hand the terminal over to an editor.
    Edit { program: String, args: Vec<String> },
}

/// The contents of an `Action`.
pub enum ActionView {
    Wait,
    Filter { paths: Seq<Seq<char>>, query: Seq<char> },
    Width,
    Find { program: Seq<char> },
    Capture { program: Seq<char>, args: Seq<Seq<char>> },
    Pipe { program: Seq<char>, args: Seq<Seq<char>>, input: Seq<u8> },
    Feed { program: Seq<char>, args: Seq<Seq<char>>, text: Seq<char> },
    Edit { program: Seq<char>, args: Seq<Seq<char>> },
}

impl View for Action {
    type V = ActionView;

    open spec fn view(&self) -> ActionView {
        match *self {
            Action::Wait => ActionView::Wait,
            Action::Filter { paths, query } => ActionView::Filter {
                paths: texts(paths@),
                query: query@,
            },
            Action::Width => ActionView::Width,
            Action::Find { program } => ActionView::Find { program: program@ },
            Action::Capture { program, args } => ActionView::Capture {
                program: program@,
                args: texts(args@),
            },
            Action::Pipe { program, args, input } => ActionView::Pipe {
                program: program@,
                args: texts(args@),
                input: input@,
            },
            Action::Feed { program, args, text } => ActionView::Feed {
                program: program@,
                args: texts(args@),
                text: text@,
            },
            Action::Edit { program, args } => ActionView::Edit {
                program: program@,
                args: texts(args@),
            },
        }
    }
}

/// The answer to an `Action`.
pub enum Reply {
    /// The indices of the matching paths.
    Filtered(Vec<usize>),
    /// The columns of the terminal, if it has a size.
    Width(Option<u16>),
    /// Whether the program was found.
    Found(bool),
    /// What the program printed, or `None` if it could not be run.
    Output(Option<Vec<u8>>),
    /// Whether the program ran and succeeded.
    Fed(bool),
    /// The editor has returned.
    Edited,
}

/// The contents of a `Reply`.
pub enum ReplyView {
    Filtered(Seq<usize>),
    Width(Option<u16>),
    Found(bool),
    Output(Option<Seq<u8>>),
    Fed(bool),
    Edited,
}

/// The bytes of an output, if there is one.
pub open spec fn output_view(output: Option<Vec<u8>>) -> Option<Seq<u8>> {
    match output {
        Some(bytes) => Some(bytes@),
        None => None,
    }
}

impl View for Reply {
    type V = ReplyView;

    open spec fn view(&self) -> ReplyView {
        match *self {
            Reply::Filtered(indices) => ReplyView::Filtered(indices@),
            Reply::Width(columns) => ReplyView::Width(columns),
            Reply::Found(found) => ReplyView::Found(found),
            Reply::Output(output) => ReplyView::Output(output_view(output)),
            Reply::Fed(ok) => ReplyView::Fed(ok),
            Reply::Edited => ReplyView::Edited,
        }
    }
}

/// Whether a reply is of the kind that an action calls for.
pub open spec fn answers(action: ActionView, reply: ReplyView) -> bool {
    match action {
        ActionView::Wait => false,
        ActionView::Filter { .. } => reply is Filtered,
        ActionView::Width => reply is Width,
        ActionView::Find { .. } => reply is Found,
        ActionView::Capture { .. } => reply is Output,
        ActionView::Pipe { .. } => reply is Output,
        ActionView::Feed { .. } => reply is Fed,
        ActionView::Edit { .. } => reply is Edited,
    }
}

/// The view of an action holds all that it names.
pub proof fn law_action_views(
    program: String,
    args: Vec<String>,
    paths: Vec<String>,
    text: String,
    input: Vec<u8>,
)
    ensures
        Action::Wait@ == ActionView::Wait,
        (Action::Filter { paths, query: text })@ == (ActionView::Filter {
            paths: texts(paths@),
            query: text@,
        }),
        Action::Width@ == ActionView::Width,
        (Action::Find { program })@ == (ActionView::Find { program: program@ }),
        (Action::Capture { program, args })@ == (ActionView::Capture {
            program: program@,
            args: texts(args@),
        }),
        (Action::Pipe { program, args, input })@ == (ActionView::Pipe {
            program: program@,
            args: texts(args@),
            input: input@,
        }),
        (Action::Feed { program, args, text })@ == (ActionView::Feed {
            program: program@,
            args: texts(args@),
            text: text@,
        }),
        (Action::Edit { program, args })@ == (ActionView::Edit {
            program: program@,
            args: texts(args@),
        }),
{
}

/// The view of a reply holds all that it says.
pub proof fn law_reply_views(
    indices: Vec<usize>,
    columns: Option<u16>,
    bytes: Vec<u8>,
    yes: bool,
)
    ensures
        Reply::Filtered(indices)@ == ReplyView::Filtered(indices@),
        Reply::Width(columns)@ == ReplyView::Width(columns),
        Reply::Found(yes)@ == ReplyView::Found(yes),
        Reply::Output(Some(bytes))@ == ReplyView::Output(Some(bytes@)),
        Reply::Output(None)@ == ReplyView::Output(None),
        Reply::Fed(yes)@ == ReplyView::Fed(yes),
        Reply::Edited@ == ReplyView::Edited,
{
}

/// A reply of the right kind answers an action, whatever it says.
pub proof fn law_replies_answer(
    program: Seq<char>,
    args: Seq<Seq<char>>,
    text: Seq<char>,
    input: Seq<u8>,
    indices: Seq<usize>,
    columns: Option<u16>,
    output: Option<Seq<u8>>,
    yes: bool,
)
    ensures
        answers(ActionView::Filter { paths: args, query: text }, ReplyView::Filtered(indices)),
        answers(ActionView::Width, ReplyView::Width(columns)),
        answers(ActionView::Find { program }, ReplyView::Found(yes)),
        answers(ActionView::Capture { program, args }, ReplyView::Output(output)),
        answers(ActionView::Pipe { program, args, input }, ReplyView::Output(output)),
        answers(ActionView::Feed { program, args, text }, ReplyView::Fed(yes)),
        answers(ActionView::Edit { program, args }, ReplyView::Edited),
{
}

} // verus!
