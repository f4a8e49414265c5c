//! The command line.

use vstd::prelude::*;

use crate::number::{decimal, decimal_text};
use crate::text::texts;

verus! {

/// The options that select what is shown.
pub struct Cli {
    /// Revset to diff.
    pub revisions: Option<String>,
    /// Show changes from this revision.
    pub from: Option<String>,
    /// Show changes to this revision.
    pub to: Option<String>,
    /// Ignore whitespace entirely when comparing lines.
    pub ignore_all_space: bool,
    /// Ignore changes in amount of whitespace.
    pub ignore_space_change: bool,
    /// Number of context lines to show.
    pub context: Option<usize>,
}

/// An option with its value, if it is given.
pub open spec fn valued(flag: Seq<char>, value: Option<String>) -> Seq<Seq<char>> {
    match value {
        Some(v) => seq![flag, v@],
        None => seq![],
    }
}

/// An option without a value, if it is given.
pub open spec fn switch(flag: Seq<char>, on: bool) -> Seq<Seq<char>> {
    if on {
        seq![flag]
    } else {
        seq![]
    }
}

/// The arguments of `jj diff` that the options stand for.
pub open spec fn selection_args(cli: Cli) -> Seq<Seq<char>> {
    valued("-r"@, cli.revisions) + valued("--from"@, cli.from) + valued("--to"@, cli.to) + switch(
        "--ignore-all-space"@,
        cli.ignore_all_space,
    ) + switch("--ignore-space-change"@, cli.ignore_space_change) + (match cli.context {
        Some(n) => seq!["--context"@, decimal(n as nat)],
        None => seq![],
    })
}

/// Appends an option with its value, if it is given.
fn push_valued(args: &mut Vec<String>, flag: &str, value: &Option<String>)
    ensures
        texts(final(args)@) == texts(old(args)@) + valued(flag@, *value),
{
    if let Some(v) = value {
        args.push(flag.to_string());
        args.push(v.clone());
    }
    assert(texts(args@) =~= texts(old(args)@) + valued(flag@, *value));
}

/// Appends an option without a value, if it is given.
fn push_switch(args: &mut Vec<String>, flag: &str, on: bool)
    ensures
        texts(final(args)@) == texts(old(args)@) + switch(flag@, on),
{
    if on {
        args.push(flag.to_string());
    }
    assert(texts(args@) =~= texts(old(args)@) + switch(flag@, on));
}

impl Cli {
    /// The arguments of `jj diff` that the list of files and the diffs of single files share.
    /// Empty means the working copy, as for a bare `jj diff`.
    pub fn selection(&self) -> (args: Vec<String>)
        ensures
            texts(args@) == selection_args(*self),
    {
        let mut args: Vec<String> = Vec::new();
        assert(texts(args@) =~= seq![]);
        push_valued(&mut args, "-r", &self.revisions);
        push_valued(&mut args, "--from", &self.from);
        push_valued(&mut args, "--to", &self.to);
        push_switch(&mut args, "--ignore-all-space", self.ignore_all_space);
        push_switch(&mut args, "--ignore-space-change", self.ignore_space_change);
        let ghost before = args@;
        if let Some(n) = self.context {
            args.push("--context".to_string());
            args.push(decimal_text(n));
            assert(texts(args@) =~= texts(before) + seq!["--context"@, decimal(n as nat)]);
        }
        assert(texts(args@) =~= selection_args(*self));
        args
    }
}

/// Nothing is selected exactly if no option is given.
pub proof fn law_no_options_no_selection(cli: Cli)
    ensures
        selection_args(cli).len() == 0 <==> cli.revisions is None && cli.from is None && cli.to
            is None && !cli.ignore_all_space && !cli.ignore_space_change && cli.context is None,
{
}

/// Each option is passed on under its own flag, whatever the others are: the revisions, both ends,
/// the switches and the context, in this order, and nothing else.
#[verifier::rlimit(40)]
pub proof fn law_options_keep_their_flags(cli: Cli)
    ensures
        ({
            let args = selection_args(cli);
            let from = if cli.revisions is Some { 2int } else { 0 };
            let to = if cli.from is Some { from + 2 } else { from };
            let all_space = if cli.to is Some { to + 2 } else { to };
            let space_change = if cli.ignore_all_space { all_space + 1 } else { all_space };
            let context = if cli.ignore_space_change { space_change + 1 } else { space_change };
            &&& args.len() == (if cli.context is Some { context + 2 } else { context })
            &&& cli.revisions matches Some(v) ==> args[0] == "-r"@ && args[1] == v@
            &&& cli.from matches Some(v) ==> args[from] == "--from"@ && args[from + 1] == v@
            &&& cli.to matches Some(v) ==> args[to] == "--to"@ && args[to + 1] == v@
            &&& cli.ignore_all_space ==> args[all_space] == "--ignore-all-space"@
            &&& cli.ignore_space_change ==> args[space_change] == "--ignore-space-change"@
            &&& cli.context matches Some(n) ==> args[context] == "--context"@ && args[context + 1]
                == decimal(n as nat)
        }),
{
}

} // verus!
