//! The command lines that produce a diff, and the order in which they are tried.

use vstd::prelude::*;
use vstd::utf8::encode_utf8;

use crate::config::{DiffConfig, DiffConfigView};
use crate::effect::{answers, Action, ActionView, Reply, ReplyView};
use crate::number::{decimal, decimal_text};
use crate::text::{append_strings, chars_of, copy_strings, same_text, texts};

verus! {

/// A path with a backslash put before each backslash and double quote.
pub open spec fn escaped(path: Seq<char>) -> Seq<char>
    decreases path.len(),
{
    if path.len() == 0 {
        seq![]
    } else if path.last() == '\\' || path.last() == '"' {
        escaped(path.drop_last()).push('\\').push(path.last())
    } else {
        escaped(path.drop_last()).push(path.last())
    }
}

/// A path as a double-quoted fileset string.
pub open spec fn quoted(path: Seq<char>) -> Seq<char> {
    seq!['"'] + escaped(path) + seq!['"']
}

/// Quotes a path so that `jj` takes every character of it literally.
///
/// `jj` reads the arguments after `--` as fileset expressions, in which `$`, spaces and glob
/// characters have a meaning of their own. In a double-quoted string only `\` and `"` do, and
/// those are escaped.
pub fn fileset_literal(file_path: &str) -> (literal: String)
    ensures
        literal@ == quoted(file_path@),
{
    let chars = chars_of(file_path);
    let mut literal = String::new();
    literal.push('"');
    let mut i: usize = 0;
    assert(literal@ =~= seq!['"'] + escaped(chars@.take(0)));
    while i < chars.len()
        invariant
            chars@ == file_path@,
            i <= chars@.len(),
            literal@ == seq!['"'] + escaped(chars@.take(i as int)),
        decreases chars.len() - i,
    {
        let c = chars[i];
        proof {
            assert(chars@.take(i + 1).drop_last() =~= chars@.take(i as int));
        }
        if c == '\\' || c == '"' {
            literal.push('\\');
        }
        literal.push(c);
        i += 1;
        assert(literal@ =~= seq!['"'] + escaped(chars@.take(i as int)));
    }
    assert(chars@.take(i as int) =~= file_path@);
    literal.push('"');
    literal
}

/// The arguments of `jj` for the uncolored diff of one file.
pub open spec fn raw_args(path: Seq<char>, selection: Seq<Seq<char>>) -> Seq<Seq<char>> {
    seq!["diff"@] + selection + seq!["--git"@, "--"@, quoted(path)]
}

/// The arguments of `jj` for the colored diff of one file.
pub open spec fn color_args(path: Seq<char>, selection: Seq<Seq<char>>) -> Seq<Seq<char>> {
    seq!["--color=always"@, "diff"@] + selection + seq!["--git"@, "--"@, quoted(path)]
}

/// Adds to `args` what both diff commands end with.
fn finish_args(args: &mut Vec<String>, path: &str, selection: &Vec<String>)
    ensures
        texts(final(args)@) == texts(old(args)@) + texts(selection@) + seq![
            "--git"@,
            "--"@,
            quoted(path@),
        ],
{
    append_strings(args, selection);
    let ghost before = args@;
    args.push("--git".to_string());
    args.push("--".to_string());
    args.push(fileset_literal(path));
    assert(texts(args@) =~= texts(before) + seq!["--git"@, "--"@, quoted(path@)]);
}

/// The arguments of `jj` for the uncolored git-format diff of one file.
pub fn jj_diff_args(path: &str, selection: &Vec<String>) -> (args: Vec<String>)
    ensures
        texts(args@) == raw_args(path@, texts(selection@)),
{
    let mut args: Vec<String> = Vec::new();
    args.push("diff".to_string());
    assert(texts(args@) =~= seq!["diff"@]);
    finish_args(&mut args, path, selection);
    args
}

/// The arguments of `jj` for its own colored git-format diff of one file.
pub fn jj_color_diff_args(path: &str, selection: &Vec<String>) -> (args: Vec<String>)
    ensures
        texts(args@) == color_args(path@, texts(selection@)),
{
    let mut args: Vec<String> = Vec::new();
    args.push("--color=always".to_string());
    args.push("diff".to_string());
    assert(texts(args@) =~= seq!["--color=always"@, "diff"@]);
    finish_args(&mut args, path, selection);
    args
}

/// What a diff is taken of: one file, within a selection of revisions.
pub struct Source {
    pub path: String,
    pub selection: Vec<String>,
}

/// The texts of a `Source`.
pub struct SourceView {
    pub path: Seq<char>,
    pub selection: Seq<Seq<char>>,
}

impl View for Source {
    type V = SourceView;

    open spec fn view(&self) -> SourceView {
        SourceView { path: self.path@, selection: texts(self.selection@) }
    }
}

/// A program that renders a diff, with its arguments.
pub struct Tool {
    pub program: String,
    pub args: Vec<String>,
}

/// The texts of a `Tool`.
pub struct ToolView {
    pub program: Seq<char>,
    pub args: Seq<Seq<char>>,
}

impl View for Tool {
    type V = ToolView;

    open spec fn view(&self) -> ToolView {
        ToolView { program: self.program@, args: texts(self.args@) }
    }
}

/// The extra arguments without `--width`.
pub open spec fn without_width(extra: Seq<Seq<char>>) -> Seq<Seq<char>>
    decreases extra.len(),
{
    if extra.len() == 0 {
        seq![]
    } else if extra.last() == "--width"@ {
        without_width(extra.drop_last())
    } else {
        without_width(extra.drop_last()).push(extra.last())
    }
}

/// A program with the arguments that it is run with. `delta` is told the width to render for,
/// in place of any `--width` among the extra arguments.
pub open spec fn tool_for(program: Seq<char>, width: u16, extra: Seq<Seq<char>>) -> ToolView {
    ToolView {
        program,
        args: if program == "delta"@ {
            seq!["--width"@, decimal(width as nat)] + without_width(extra)
        } else {
            extra
        },
    }
}

/// The program and arguments that a diff is piped through.
fn tool_with_args(program: &str, width: u16, extra: &Vec<String>) -> (tool: Tool)
    ensures
        tool@ == tool_for(program@, width, texts(extra@)),
{
    let mut args: Vec<String> = Vec::new();
    if same_text(program, "delta") {
        args.push("--width".to_string());
        args.push(decimal_text(width as usize));
        let mut i: usize = 0;
        let ghost all = texts(extra@);
        assert(texts(args@) =~= seq!["--width"@, decimal(width as nat)] + without_width(
            all.take(0),
        ));
        while i < extra.len()
            invariant
                i <= extra@.len(),
                all == texts(extra@),
                texts(args@) == seq!["--width"@, decimal(width as nat)] + without_width(
                    all.take(i as int),
                ),
            decreases extra.len() - i,
        {
            let ghost before = args@;
            proof {
                assert(all.take(i + 1).drop_last() =~= all.take(i as int));
            }
            if !same_text(extra[i].as_str(), "--width") {
                args.push(extra[i].clone());
                assert(texts(args@) =~= texts(before).push(extra@[i as int]@));
            }
            i += 1;
            assert(texts(args@) =~= seq!["--width"@, decimal(width as nat)] + without_width(
                all.take(i as int),
            ));
        }
        assert(all.take(i as int) =~= all);
    } else {
        append_strings(&mut args, extra);
        assert(texts(args@) =~= texts(extra@));
    }
    Tool { program: program.to_string(), args }
}

/// How far the making of a diff has come.
pub enum DiffJob {
    /// The rendering tool is being looked up.
    Find(Tool, Source),
    /// The uncolored diff is being taken.
    Raw(Tool, Source),
    /// The diff is being piped through the tool.
    Pipe(Tool, Source, Vec<u8>),
    /// The colored diff of `jj` itself is being taken.
    Color(Source),
    /// The diff is there.
    Done(Vec<u8>),
}

/// The contents of a `DiffJob`.
pub enum DiffJobView {
    Find(ToolView, SourceView),
    Raw(ToolView, SourceView),
    Pipe(ToolView, SourceView, Seq<u8>),
    Color(SourceView),
    Done(Seq<u8>),
}

impl View for DiffJob {
    type V = DiffJobView;

    open spec fn view(&self) -> DiffJobView {
        match *self {
            DiffJob::Find(tool, source) => DiffJobView::Find(tool@, source@),
            DiffJob::Raw(tool, source) => DiffJobView::Raw(tool@, source@),
            DiffJob::Pipe(tool, source, input) => DiffJobView::Pipe(tool@, source@, input@),
            DiffJob::Color(source) => DiffJobView::Color(source@),
            DiffJob::Done(diff) => DiffJobView::Done(diff@),
        }
    }
}

/// Where the making of a diff starts. The tool `auto` stands for `delta`; `jj` and `git` stand
/// for the colored diff of `jj` itself.
pub open spec fn diff_start(
    path: Seq<char>,
    width: u16,
    config: DiffConfigView,
    selection: Seq<Seq<char>>,
) -> DiffJobView {
    let source = SourceView { path, selection };
    if config.tool == "auto"@ {
        DiffJobView::Find(tool_for("delta"@, width, seq!["--width"@]), source)
    } else if config.tool == "jj"@ || config.tool == "git"@ {
        DiffJobView::Color(source)
    } else {
        DiffJobView::Find(tool_for(config.tool, width, config.args), source)
    }
}

/// Starts making the diff of one file, rendered for the given width.
///
/// The configured tool is tried first; where it is not found, has nothing to render or cannot be
/// run, the colored diff of `jj` itself takes its place.
pub fn get_diff(
    file_path: &str,
    width: u16,
    config: &DiffConfig,
    selection: &Vec<String>,
) -> (job: DiffJob)
    ensures
        job@ == diff_start(file_path@, width, config@, texts(selection@)),
{
    let source = Source { path: file_path.to_string(), selection: copy_strings(selection) };
    let tool = config.tool.as_str();
    if same_text(tool, "auto") {
        let mut extra: Vec<String> = Vec::new();
        extra.push("--width".to_string());
        assert(texts(extra@) =~= seq!["--width"@]);
        DiffJob::Find(tool_with_args("delta", width, &extra), source)
    } else if same_text(tool, "jj") || same_text(tool, "git") {
        DiffJob::Color(source)
    } else {
        DiffJob::Find(tool_with_args(tool, width, &config.args), source)
    }
}

/// What a diff reads where it could not be made.
pub open spec fn failure() -> Seq<u8> {
    encode_utf8("Failed to get diff"@)
}

/// The outside work that a job waits for.
pub open spec fn diff_action(job: DiffJobView) -> ActionView {
    match job {
        DiffJobView::Find(tool, _) => ActionView::Find { program: tool.program },
        DiffJobView::Raw(_, source) => ActionView::Capture {
            program: "jj"@,
            args: raw_args(source.path, source.selection),
        },
        DiffJobView::Pipe(tool, _, input) => ActionView::Pipe {
            program: tool.program,
            args: tool.args,
            input,
        },
        DiffJobView::Color(source) => ActionView::Capture {
            program: "jj"@,
            args: color_args(source.path, source.selection),
        },
        DiffJobView::Done(_) => ActionView::Wait,
    }
}

/// What becomes of a job when its outside work is answered.
pub open spec fn diff_next(job: DiffJobView, reply: ReplyView) -> DiffJobView {
    match (job, reply) {
        (DiffJobView::Find(tool, source), ReplyView::Found(true)) => DiffJobView::Raw(tool, source),
        (DiffJobView::Find(_, source), _) => DiffJobView::Color(source),
        (DiffJobView::Raw(tool, source), ReplyView::Output(Some(input))) => if input.len() > 0 {
            DiffJobView::Pipe(tool, source, input)
        } else {
            DiffJobView::Color(source)
        },
        (DiffJobView::Raw(_, source), _) => DiffJobView::Color(source),
        (DiffJobView::Pipe(_, _, _), ReplyView::Output(Some(diff))) => DiffJobView::Done(diff),
        (DiffJobView::Pipe(_, source, _), _) => DiffJobView::Color(source),
        (DiffJobView::Color(_), ReplyView::Output(Some(diff))) => DiffJobView::Done(diff),
        (DiffJobView::Color(_), _) => DiffJobView::Done(failure()),
        (DiffJobView::Done(diff), _) => DiffJobView::Done(diff),
    }
}

impl DiffJob {
    /// The outside work that comes next.
    pub fn action(&self) -> (action: Action)
        ensures
            action@ == diff_action(self@),
    {
        match self {
            DiffJob::Find(tool, _) => Action::Find { program: tool.program.clone() },
            DiffJob::Raw(_, source) => Action::Capture {
                program: "jj".to_string(),
                args: jj_diff_args(source.path.as_str(), &source.selection),
            },
            DiffJob::Pipe(tool, _, input) => Action::Pipe {
                program: tool.program.clone(),
                args: copy_strings(&tool.args),
                input: copy_bytes(input),
            },
            DiffJob::Color(source) => Action::Capture {
                program: "jj".to_string(),
                args: jj_color_diff_args(source.path.as_str(), &source.selection),
            },
            DiffJob::Done(_) => Action::Wait,
        }
    }

    /// Takes the answer to the outside work.
    pub fn advance(self, reply: Reply) -> (next: DiffJob)
        ensures
            next@ == diff_next(self@, reply@),
    {
        match self {
            DiffJob::Find(tool, source) => match reply {
                Reply::Found(true) => DiffJob::Raw(tool, source),
                _ => DiffJob::Color(source),
            },
            DiffJob::Raw(tool, source) => match reply {
                Reply::Output(Some(input)) => if input.len() > 0 {
                    DiffJob::Pipe(tool, source, input)
                } else {
                    DiffJob::Color(source)
                },
                _ => DiffJob::Color(source),
            },
            DiffJob::Pipe(tool, source, input) => match reply {
                Reply::Output(Some(diff)) => DiffJob::Done(diff),
                _ => DiffJob::Color(source),
            },
            DiffJob::Color(source) => match reply {
                Reply::Output(Some(diff)) => DiffJob::Done(diff),
                _ => DiffJob::Done("Failed to get diff".as_bytes_vec()),
            },
            DiffJob::Done(diff) => DiffJob::Done(diff),
        }
    }
}

/// A copy of some bytes.
fn copy_bytes(bytes: &Vec<u8>) -> (copy: Vec<u8>)
    ensures
        copy@ == bytes@,
{
    let copy = bytes.clone();
    assert(copy@ =~= bytes@);
    copy
}

/// The characters that the inside of a double-quoted string stands for: a backslash takes the
/// backslash or double quote after it literally, and a double quote of its own would end the
/// string.
pub open spec fn unescaped(body: Seq<char>) -> Option<Seq<char>>
    decreases body.len(),
{
    if body.len() == 0 {
        Some(seq![])
    } else if body[0] == '"' {
        None
    } else if body[0] == '\\' {
        if body.len() >= 2 && (body[1] == '\\' || body[1] == '"') {
            match unescaped(body.skip(2)) {
                Some(rest) => Some(seq![body[1]] + rest),
                None => None,
            }
        } else {
            None
        }
    } else {
        match unescaped(body.skip(1)) {
            Some(rest) => Some(seq![body[0]] + rest),
            None => None,
        }
    }
}

/// The path that a double-quoted string stands for.
pub open spec fn unquoted(literal: Seq<char>) -> Option<Seq<char>> {
    if literal.len() >= 2 && literal[0] == '"' && literal.last() == '"' {
        unescaped(literal.subrange(1, literal.len() - 1))
    } else {
        None
    }
}

proof fn lemma_unescaped_prefix(path: Seq<char>, tail: Seq<char>)
    ensures
        unescaped(escaped(path) + tail) == (match unescaped(tail) {
            Some(rest) => Some(path + rest),
            None => None::<Seq<char>>,
        }),
    decreases path.len(),
{
    if path.len() == 0 {
        assert(escaped(path) + tail =~= tail);
        if let Some(rest) = unescaped(tail) {
            assert(path + rest =~= rest);
        }
    } else {
        let c = path.last();
        let init = path.drop_last();
        if c == '\\' || c == '"' {
            let next = seq!['\\', c] + tail;
            assert(escaped(path) + tail =~= escaped(init) + next);
            lemma_unescaped_prefix(init, next);
            assert(next.skip(2) =~= tail);
        } else {
            let next = seq![c] + tail;
            assert(escaped(path) + tail =~= escaped(init) + next);
            lemma_unescaped_prefix(init, next);
            assert(next.skip(1) =~= tail);
        }
        if let Some(rest) = unescaped(tail) {
            assert(init + (seq![c] + rest) =~= path + rest);
        }
    }
}

/// A quoted path stands for exactly that path, whatever characters it holds.
pub proof fn law_quoted_path_reads_back(path: Seq<char>)
    ensures
        unquoted(quoted(path)) == Some(path),
{
    let body = escaped(path);
    assert(quoted(path).subrange(1, quoted(path).len() - 1) =~= body);
    lemma_unescaped_prefix(path, seq![]);
    assert(body + seq![] =~= body);
    assert(path + seq![] =~= path);
}

/// Two paths with the same quoted form are the same path.
pub proof fn law_quoting_is_injective(a: Seq<char>, b: Seq<char>)
    requires
        quoted(a) == quoted(b),
    ensures
        a == b,
{
    law_quoted_path_reads_back(a);
    law_quoted_path_reads_back(b);
}

/// What the world answers while one diff is made.
pub struct DiffAnswers {
    /// Whether the tool is found.
    pub found: bool,
    /// The uncolored diff.
    pub raw: Option<Seq<u8>>,
    /// What the tool makes of it.
    pub piped: Option<Seq<u8>>,
    /// The colored diff.
    pub colored: Option<Seq<u8>>,
}

/// The answer to the outside work that a job waits for.
pub open spec fn diff_answer(job: DiffJobView, world: DiffAnswers) -> ReplyView {
    match job {
        DiffJobView::Find(_, _) => ReplyView::Found(world.found),
        DiffJobView::Raw(_, _) => ReplyView::Output(world.raw),
        DiffJobView::Pipe(_, _, _) => ReplyView::Output(world.piped),
        DiffJobView::Color(_) => ReplyView::Output(world.colored),
        DiffJobView::Done(_) => ReplyView::Edited,
    }
}

/// A job after `steps` answers.
pub open spec fn diff_run(job: DiffJobView, world: DiffAnswers, steps: nat) -> DiffJobView
    decreases steps,
{
    if steps == 0 {
        job
    } else {
        diff_run(diff_next(job, diff_answer(job, world)), world, (steps - 1) as nat)
    }
}

/// The diff that is shown: what the tool made of the uncolored diff, where a tool is configured
/// and found, there is something to render and the tool ran; else the colored diff of `jj`, and
/// a note of failure where that could not be taken either.
pub open spec fn diff_shown(tool: Seq<char>, world: DiffAnswers) -> Seq<u8> {
    let rendered = tool == "auto"@ || (tool != "jj"@ && tool != "git"@);
    match (world.raw, world.piped) {
        (Some(raw), Some(piped)) if rendered && world.found && raw.len() > 0 => piped,
        _ => match world.colored {
            Some(colored) => colored,
            None => failure(),
        },
    }
}

/// Every answer that a job receives is one that its action calls for, and after four answers
/// the diff is there: the tool's rendering if there is one, else the fallback.
pub proof fn law_diff_is_made(
    path: Seq<char>,
    width: u16,
    config: DiffConfigView,
    selection: Seq<Seq<char>>,
    world: DiffAnswers,
)
    ensures
        ({
            let start = diff_start(path, width, config, selection);
            &&& diff_run(start, world, 4) == DiffJobView::Done(diff_shown(config.tool, world))
            &&& forall|n: nat|
                #![trigger diff_run(start, world, n)]
                n < 4 ==> diff_run(start, world, n) is Done || answers(
                    diff_action(diff_run(start, world, n)),
                    diff_answer(diff_run(start, world, n), world),
                )
        }),
{
    reveal_with_fuel(diff_run, 5);
}

/// How many answers a job can still take.
pub open spec fn diff_rank(job: DiffJobView) -> nat {
    match job {
        DiffJobView::Find(_, _) => 4,
        DiffJobView::Raw(_, _) => 3,
        DiffJobView::Pipe(_, _, _) => 2,
        DiffJobView::Color(_) => 1,
        DiffJobView::Done(_) => 0,
    }
}

/// Whatever the answers are, a job that is not done moves on to a later stage.
pub proof fn law_diff_terminates(job: DiffJobView, reply: ReplyView)
    requires
        !(job is Done),
    ensures
        diff_rank(diff_next(job, reply)) < diff_rank(job),
{
}

/// Both diffs of a file are asked for with `diff`, the selection as it is, `--git`, `--`, and a
/// literal that stands for the path; the colored one with `--color=always` before that.
pub proof fn law_diff_commands(path: Seq<char>, selection: Seq<Seq<char>>)
    ensures
        ({
            let n = selection.len() as int;
            let raw = raw_args(path, selection);
            &&& raw.len() == n + 4
            &&& raw[0] == "diff"@
            &&& forall|i: int| 0 <= i < n ==> raw[i + 1] == #[trigger] selection[i]
            &&& raw[n + 1] == "--git"@
            &&& raw[n + 2] == "--"@
            &&& unquoted(raw[n + 3]) == Some(path)
            &&& color_args(path, selection) == seq!["--color=always"@] + raw
        }),
{
    law_quoted_path_reads_back(path);
    assert(color_args(path, selection) =~= seq!["--color=always"@] + raw_args(path, selection));
}

/// A string in double quotes that stands for a path is the quoted path: there is no other.
pub proof fn law_quoted_form_is_unique(literal: Seq<char>, path: Seq<char>)
    requires
        unquoted(literal) == Some(path),
    ensures
        quoted(path) == literal,
{
    let body = literal.subrange(1, literal.len() - 1);
    lemma_escaped_back(body);
    assert(literal =~= seq!['"'] + body + seq!['"']);
}

proof fn lemma_escaped_concat(a: Seq<char>, b: Seq<char>)
    ensures
        escaped(a + b) == escaped(a) + escaped(b),
    decreases b.len(),
{
    if b.len() == 0 {
        assert(a + b =~= a);
        assert(escaped(a) + escaped(b) =~= escaped(a));
    } else {
        assert((a + b).drop_last() =~= a + b.drop_last());
        lemma_escaped_concat(a, b.drop_last());
        assert(escaped(a + b) =~= escaped(a) + escaped(b));
    }
}

proof fn lemma_escaped_back(body: Seq<char>)
    ensures
        unescaped(body) matches Some(path) ==> escaped(path) == body,
    decreases body.len(),
{
    if body.len() > 0 && body[0] != '"' {
        let n = if body[0] == '\\' { 2int } else { 1 };
        if n <= body.len() {
            let c = body[n - 1];
            lemma_escaped_back(body.skip(n));
            if let Some(rest) = unescaped(body.skip(n)) {
                lemma_escaped_concat(seq![c], rest);
                assert(seq![c].drop_last() =~= seq![]);
                assert(escaped(seq![c].drop_last()) =~= seq![]);
                assert(unescaped(body) is Some ==> escaped(seq![c]) =~= body.take(n));
                assert(body =~= body.take(n) + body.skip(n));
            }
        }
    } else if body.len() == 0 {
        assert(escaped(seq![]) =~= body);
    }
}

/// A tool is run under its own name. `delta` is told the width first, and then what else is
/// configured, in order, without any `--width`; any other tool gets what is configured.
pub proof fn law_tool_arguments(program: Seq<char>, width: u16, extra: Seq<Seq<char>>)
    ensures
        tool_for(program, width, extra).program == program,
        program != "delta"@ ==> tool_for(program, width, extra).args == extra,
        tool_for("delta"@, width, extra).args == seq!["--width"@, decimal(width as nat)]
            + extra.filter(|arg: Seq<char>| arg != "--width"@),
{
    lemma_without_width(extra, |arg: Seq<char>| arg != "--width"@);
}

proof fn lemma_without_width(extra: Seq<Seq<char>>, kept: spec_fn(Seq<char>) -> bool)
    requires
        forall|arg: Seq<char>| #[trigger] kept(arg) == (arg != "--width"@),
    ensures
        without_width(extra) == extra.filter(kept),
    decreases extra.len(),
{
    reveal(Seq::filter);
    if extra.len() > 0 {
        lemma_without_width(extra.drop_last(), kept);
    } else {
        assert(without_width(extra) =~= extra.filter(kept));
    }
}

/// How the making of a diff starts: for the tool `auto`, with `delta` and the width alone; for `jj`
/// and `git`, with the colored diff; for any other tool, with that tool and its arguments.
pub proof fn law_configured_tool_is_tried(
    path: Seq<char>,
    width: u16,
    config: DiffConfigView,
    selection: Seq<Seq<char>>,
)
    ensures
        config.tool == "auto"@ ==> diff_start(path, width, config, selection) == DiffJobView::Find(
            ToolView { program: "delta"@, args: seq!["--width"@, decimal(width as nat)] },
            SourceView { path, selection },
        ),
        config.tool == "jj"@ || config.tool == "git"@ ==> diff_start(path, width, config, selection)
            == DiffJobView::Color(SourceView { path, selection }),
        config.tool == "delta"@ ==> diff_start(path, width, config, selection) == DiffJobView::Find(
            ToolView {
                program: "delta"@,
                args: seq!["--width"@, decimal(width as nat)] + config.args.filter(
                    |arg: Seq<char>| arg != "--width"@,
                ),
            },
            SourceView { path, selection },
        ),
        config.tool != "auto"@ && config.tool != "jj"@ && config.tool != "git"@ && config.tool
            != "delta"@ ==> diff_start(path, width, config, selection) == DiffJobView::Find(
            ToolView { program: config.tool, args: config.args },
            SourceView { path, selection },
        ),
{
    reveal_strlit("auto");
    reveal_strlit("jj");
    reveal_strlit("git");
    reveal_strlit("delta");
    assert("auto"@.len() == 4 && "jj"@.len() == 2 && "git"@.len() == 3 && "delta"@.len() == 5);
    let only = seq!["--width"@];
    assert(only.drop_last() =~= seq![]);
    assert(without_width(only.drop_last()) =~= seq![]);
    assert(without_width(only) =~= seq![]);
    assert(seq!["--width"@, decimal(width as nat)] + without_width(only) =~= seq![
        "--width"@,
        decimal(width as nat),
    ]);
    lemma_without_width(config.args, |arg: Seq<char>| arg != "--width"@);
}

/// What a job waits for at each stage.
pub proof fn law_diff_actions(tool: ToolView, source: SourceView, input: Seq<u8>)
    ensures
        diff_action(DiffJobView::Find(tool, source)) == (ActionView::Find {
            program: tool.program,
        }),
        diff_action(DiffJobView::Raw(tool, source)) == (ActionView::Capture {
            program: "jj"@,
            args: raw_args(source.path, source.selection),
        }),
        diff_action(DiffJobView::Pipe(tool, source, input)) == (ActionView::Pipe {
            program: tool.program,
            args: tool.args,
            input,
        }),
        diff_action(DiffJobView::Color(source)) == (ActionView::Capture {
            program: "jj"@,
            args: color_args(source.path, source.selection),
        }),
        diff_action(DiffJobView::Done(input)) == ActionView::Wait,
{
}

/// A tool that is found is given the uncolored diff, unless that is empty, and what it prints is
/// the diff. Wherever this fails, the colored diff takes its place, and where that fails too, a
/// note of failure.
pub proof fn law_diff_steps(tool: ToolView, source: SourceView, bytes: Seq<u8>, input: Seq<u8>)
    ensures
        ({
            let find = DiffJobView::Find(tool, source);
            let raw = DiffJobView::Raw(tool, source);
            let pipe = DiffJobView::Pipe(tool, source, input);
            let color = DiffJobView::Color(source);
            &&& diff_next(find, ReplyView::Found(true)) == raw
            &&& diff_next(find, ReplyView::Found(false)) == color
            &&& diff_next(raw, ReplyView::Output(Some(bytes))) == (if bytes.len() == 0 {
                color
            } else {
                DiffJobView::Pipe(tool, source, bytes)
            })
            &&& diff_next(raw, ReplyView::Output(None)) == color
            &&& diff_next(pipe, ReplyView::Output(Some(bytes))) == DiffJobView::Done(bytes)
            &&& diff_next(pipe, ReplyView::Output(None)) == color
            &&& diff_next(color, ReplyView::Output(Some(bytes))) == DiffJobView::Done(bytes)
            &&& diff_next(color, ReplyView::Output(None)) == DiffJobView::Done(
                encode_utf8("Failed to get diff"@),
            )
        }),
{
}

/// The view of a job holds its tool, its source and its bytes.
pub proof fn law_diff_job_views(tool: Tool, source: Source, bytes: Vec<u8>)
    ensures
        tool@.program == tool.program@,
        tool@.args == texts(tool.args@),
        source@.path == source.path@,
        source@.selection == texts(source.selection@),
        DiffJob::Find(tool, source)@ == DiffJobView::Find(tool@, source@),
        DiffJob::Raw(tool, source)@ == DiffJobView::Raw(tool@, source@),
        DiffJob::Pipe(tool, source, bytes)@ == DiffJobView::Pipe(tool@, source@, bytes@),
        DiffJob::Color(source)@ == DiffJobView::Color(source@),
        DiffJob::Done(bytes)@ == DiffJobView::Done(bytes@),
{
}

/// An answer of another kind counts as a failure, and a diff that is made stays as it is.
pub proof fn law_odd_answers_fail(
    tool: ToolView,
    source: SourceView,
    bytes: Seq<u8>,
    reply: ReplyView,
)
    ensures
        !(reply is Found) ==> diff_next(DiffJobView::Find(tool, source), reply)
            == DiffJobView::Color(source),
        !(reply is Output) ==> diff_next(DiffJobView::Raw(tool, source), reply)
            == DiffJobView::Color(source),
        !(reply is Output) ==> diff_next(DiffJobView::Pipe(tool, source, bytes), reply)
            == DiffJobView::Color(source),
        !(reply is Output) ==> diff_next(DiffJobView::Color(source), reply) == DiffJobView::Done(
            encode_utf8("Failed to get diff"@),
        ),
        diff_next(DiffJobView::Done(bytes), reply) == DiffJobView::Done(bytes),
{
}

} // verus!
