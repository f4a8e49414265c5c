//! Copying to the system clipboard, through the first program that does it.

use vstd::prelude::*;

use crate::effect::{Action, ActionView, Reply, ReplyView};
use crate::text::texts;

verus! {

/// How many programs are tried.
pub const CANDIDATES: usize = 3;

/// The program to try in a turn: one for Wayland, then two for X11.
pub open spec fn candidate(turn: int) -> Seq<char> {
    if turn == 0 {
        "wl-copy"@
    } else if turn == 1 {
        "xclip"@
    } else {
        "xsel"@
    }
}

/// The arguments that make it read the clipboard's new contents.
pub open spec fn candidate_args(turn: int) -> Seq<Seq<char>> {
    if turn == 0 {
        seq![]
    } else if turn == 1 {
        seq!["-selection"@, "clipboard"@]
    } else {
        seq!["--clipboard"@, "--input"@]
    }
}

/// The program to try in a turn.
fn candidate_program(turn: usize) -> (program: String)
    ensures
        program@ == candidate(turn as int),
{
    if turn == 0 {
        "wl-copy".to_string()
    } else if turn == 1 {
        "xclip".to_string()
    } else {
        "xsel".to_string()
    }
}

/// The arguments of the program to try in a turn.
fn candidate_arguments(turn: usize) -> (args: Vec<String>)
    ensures
        texts(args@) == candidate_args(turn as int),
{
    let mut args: Vec<String> = Vec::new();
    if turn == 0 {
    } else if turn == 1 {
        args.push("-selection".to_string());
        args.push("clipboard".to_string());
    } else {
        args.push("--clipboard".to_string());
        args.push("--input".to_string());
    }
    assert(texts(args@) =~= candidate_args(turn as int));
    args
}

/// How far the copying of a text has come.
pub enum CopyJob {
    /// A program is being looked up.
    Find { text: String, turn: usize },
    /// A program is being fed the text.
    Feed { text: String, turn: usize },
    /// The text is copied, or every program has failed.
    Done { text: String, copied: bool },
}

/// The contents of a `CopyJob`.
pub enum CopyJobView {
    Find { text: Seq<char>, turn: int },
    Feed { text: Seq<char>, turn: int },
    Done { text: Seq<char>, copied: bool },
}

impl View for CopyJob {
    type V = CopyJobView;

    open spec fn view(&self) -> CopyJobView {
        match *self {
            CopyJob::Find { text, turn } => CopyJobView::Find { text: text@, turn: turn as int },
            CopyJob::Feed { text, turn } => CopyJobView::Feed { text: text@, turn: turn as int },
            CopyJob::Done { text, copied } => CopyJobView::Done { text: text@, copied },
        }
    }
}

/// The job with its next turn, if there is one.
pub open spec fn next_turn(text: Seq<char>, turn: int) -> CopyJobView {
    if turn + 1 < CANDIDATES {
        CopyJobView::Find { text, turn: turn + 1 }
    } else {
        CopyJobView::Done { text, copied: false }
    }
}

/// The outside work that a job waits for.
pub open spec fn copy_action(job: CopyJobView) -> ActionView {
    match job {
        CopyJobView::Find { text, turn } => ActionView::Find { program: candidate(turn) },
        CopyJobView::Feed { text, turn } => ActionView::Feed {
            program: candidate(turn),
            args: candidate_args(turn),
            text,
        },
        CopyJobView::Done { .. } => ActionView::Wait,
    }
}

/// What becomes of a job when its outside work is answered.
pub open spec fn copy_next(job: CopyJobView, reply: ReplyView) -> CopyJobView {
    match (job, reply) {
        (CopyJobView::Find { text, turn }, ReplyView::Found(true)) => CopyJobView::Feed {
            text,
            turn,
        },
        (CopyJobView::Find { text, turn }, _) => next_turn(text, turn),
        (CopyJobView::Feed { text, turn }, ReplyView::Fed(true)) => CopyJobView::Done {
            text,
            copied: true,
        },
        (CopyJobView::Feed { text, turn }, _) => next_turn(text, turn),
        (CopyJobView::Done { text, copied }, _) => CopyJobView::Done { text, copied },
    }
}

/// The job with its next turn, if there is one.
fn try_next(text: String, turn: usize) -> (job: CopyJob)
    ensures
        job@ == next_turn(text@, turn as int),
{
    if turn < CANDIDATES - 1 {
        CopyJob::Find { text, turn: turn + 1 }
    } else {
        CopyJob::Done { text, copied: false }
    }
}

/// Starts copying a text to the clipboard.
pub fn copy_to_clipboard(text: &str) -> (job: CopyJob)
    ensures
        job@ == (CopyJobView::Find { text: text@, turn: 0 }),
{
    CopyJob::Find { text: text.to_string(), turn: 0 }
}

impl CopyJob {
    /// The outside work that comes next.
    pub fn action(&self) -> (action: Action)
        ensures
            action@ == copy_action(self@),
    {
        match self {
            CopyJob::Find { turn, .. } => Action::Find { program: candidate_program(*turn) },
            CopyJob::Feed { text, turn } => Action::Feed {
                program: candidate_program(*turn),
                args: candidate_arguments(*turn),
                text: text.clone(),
            },
            CopyJob::Done { .. } => Action::Wait,
        }
    }

    /// Takes the answer to the outside work.
    pub fn advance(self, reply: Reply) -> (next: CopyJob)
        ensures
            next@ == copy_next(self@, reply@),
    {
        match self {
            CopyJob::Find { text, turn } => match reply {
                Reply::Found(true) => CopyJob::Feed { text, turn },
                _ => try_next(text, turn),
            },
            CopyJob::Feed { text, turn } => match reply {
                Reply::Fed(true) => CopyJob::Done { text, copied: true },
                _ => try_next(text, turn),
            },
            CopyJob::Done { text, copied } => CopyJob::Done { text, copied },
        }
    }
}

/// What the world answers while a text is copied: for each program, whether it is found, and
/// whether it succeeds.
pub struct CopyAnswers {
    pub found: Seq<bool>,
    pub fed: Seq<bool>,
}

/// The answer to the outside work that a job waits for.
pub open spec fn copy_answer(job: CopyJobView, world: CopyAnswers) -> ReplyView {
    match job {
        CopyJobView::Find { text, turn } => ReplyView::Found(world.found[turn]),
        CopyJobView::Feed { text, turn } => ReplyView::Fed(world.fed[turn]),
        CopyJobView::Done { .. } => ReplyView::Edited,
    }
}

/// A job after `steps` answers.
pub open spec fn copy_run(job: CopyJobView, world: CopyAnswers, steps: nat) -> CopyJobView
    decreases steps,
{
    if steps == 0 {
        job
    } else {
        copy_run(copy_next(job, copy_answer(job, world)), world, (steps - 1) as nat)
    }
}

/// After six answers the copying has ended, and it has succeeded exactly if some program is
/// found and succeeds.
pub proof fn law_copy_ends(text: Seq<char>, world: CopyAnswers)
    ensures
        copy_run(CopyJobView::Find { text, turn: 0 }, world, 6) == (CopyJobView::Done {
            text,
            copied: exists|i: int|
                0 <= i < CANDIDATES && #[trigger] world.found[i] && world.fed[i],
        }),
{
    reveal_with_fuel(copy_run, 7);
    let any = exists|i: int| 0 <= i < CANDIDATES && #[trigger] world.found[i] && world.fed[i];
    if any {
        let i = choose|i: int| 0 <= i < CANDIDATES && #[trigger] world.found[i] && world.fed[i];
        assert(i == 0 || i == 1 || i == 2);
    }
}

/// How many answers a job can still take.
pub open spec fn copy_rank(job: CopyJobView) -> int {
    match job {
        CopyJobView::Find { turn, .. } => if turn < CANDIDATES {
            2 * (CANDIDATES - turn)
        } else {
            2
        },
        CopyJobView::Feed { turn, .. } => if turn < CANDIDATES {
            2 * (CANDIDATES - turn) - 1
        } else {
            1
        },
        CopyJobView::Done { .. } => 0,
    }
}

/// Whatever the answers are, a job that is not done comes nearer to its end.
pub proof fn law_copy_terminates(job: CopyJobView, reply: ReplyView)
    requires
        !(job is Done),
    ensures
        0 <= copy_rank(copy_next(job, reply)) < copy_rank(job),
{
}

/// The programs that are tried, with their arguments, and the text that they are fed.
pub proof fn law_copy_programs(text: Seq<char>)
    ensures
        copy_action(CopyJobView::Find { text, turn: 0 }) == (ActionView::Find {
            program: "wl-copy"@,
        }),
        copy_action(CopyJobView::Find { text, turn: 1 }) == (ActionView::Find {
            program: "xclip"@,
        }),
        copy_action(CopyJobView::Find { text, turn: 2 }) == (ActionView::Find { program: "xsel"@ }),
        copy_action(CopyJobView::Feed { text, turn: 0 }) == (ActionView::Feed {
            program: "wl-copy"@,
            args: seq![],
            text,
        }),
        copy_action(CopyJobView::Feed { text, turn: 1 }) == (ActionView::Feed {
            program: "xclip"@,
            args: seq!["-selection"@, "clipboard"@],
            text,
        }),
        copy_action(CopyJobView::Feed { text, turn: 2 }) == (ActionView::Feed {
            program: "xsel"@,
            args: seq!["--clipboard"@, "--input"@],
            text,
        }),
        forall|copied: bool| #[trigger]
            copy_action(CopyJobView::Done { text, copied }) == ActionView::Wait,
{
}

/// The programs are tried in turn. One that is found is fed the text; one that is not found, or
/// fails, gives way to the next; the first that takes the text ends the copying, and so does the
/// failure of the third.
pub proof fn law_copy_tries_programs_in_turn(text: Seq<char>, turn: int)
    requires
        0 <= turn < 3,
    ensures
        ({
            let finding = CopyJobView::Find { text, turn };
            let feeding = CopyJobView::Feed { text, turn };
            let next = if turn < 2 {
                CopyJobView::Find { text, turn: turn + 1 }
            } else {
                CopyJobView::Done { text, copied: false }
            };
            &&& copy_next(finding, ReplyView::Found(true)) == feeding
            &&& copy_next(finding, ReplyView::Found(false)) == next
            &&& copy_next(feeding, ReplyView::Fed(true)) == (CopyJobView::Done {
                text,
                copied: true,
            })
            &&& copy_next(feeding, ReplyView::Fed(false)) == next
        }),
{
}

/// The view of a job holds its text, its turn and its outcome.
pub proof fn law_copy_job_views(text: String, turn: usize, copied: bool)
    ensures
        (CopyJob::Find { text, turn })@ == (CopyJobView::Find { text: text@, turn: turn as int }),
        (CopyJob::Feed { text, turn })@ == (CopyJobView::Feed { text: text@, turn: turn as int }),
        (CopyJob::Done { text, copied })@ == (CopyJobView::Done { text: text@, copied }),
{
}

/// Behind the third program there is no other, an answer of another kind counts as a failure, and a
/// job that is done stays as it is.
pub proof fn law_copy_stops_at_third(
    text: Seq<char>,
    turn: int,
    copied: bool,
    reply: ReplyView,
)
    requires
        turn >= 0,
    ensures
        turn >= 2 ==> copy_action(CopyJobView::Find { text, turn }) == copy_action(
            CopyJobView::Find { text, turn: 2 },
        ),
        turn >= 2 ==> copy_action(CopyJobView::Feed { text, turn }) == copy_action(
            CopyJobView::Feed { text, turn: 2 },
        ),
        turn >= 2 && reply != ReplyView::Found(true) ==> copy_next(
            CopyJobView::Find { text, turn },
            reply,
        ) == (CopyJobView::Done { text, copied: false }),
        turn >= 2 && reply != ReplyView::Fed(true) ==> copy_next(
            CopyJobView::Feed { text, turn },
            reply,
        ) == (CopyJobView::Done { text, copied: false }),
        copy_next(CopyJobView::Find { text, turn }, ReplyView::Found(true)) == (CopyJobView::Feed {
            text,
            turn,
        }),
        copy_next(CopyJobView::Feed { text, turn }, ReplyView::Fed(true)) == (CopyJobView::Done {
            text,
            copied: true,
        }),
        !(reply is Found) ==> copy_next(CopyJobView::Find { text, turn }, reply) == copy_next(
            CopyJobView::Find { text, turn },
            ReplyView::Found(false),
        ),
        !(reply is Fed) ==> copy_next(CopyJobView::Feed { text, turn }, reply) == copy_next(
            CopyJobView::Feed { text, turn },
            ReplyView::Fed(false),
        ),
        copy_next(CopyJobView::Done { text, copied }, reply) == (CopyJobView::Done {
            text,
            copied,
        }),
{
}

} // verus!
