//! Where the hunks of a git-format diff change the new file.

use vstd::prelude::*;

use crate::number::{decimal, law_number_at_start, leading_number, read_number};
use crate::text::{
    decode_lossy, find_char, find_from, law_lines_of_parts, lemma_find_char, lines_of, lossy_text,
    rows, split_lines,
};

verus! {

/// The new-file line that a hunk header `@@ -a,b +c,d @@` gives: `c`. `None` for any other line,
/// and for a header without a readable `c`.
pub open spec fn hunk_start(line: Seq<char>) -> Option<u32> {
    if line.len() >= 2 && line[0] == '@' && line[1] == '@' {
        let rest = line.skip(2);
        let plus = find_char(rest, '+');
        if plus < rest.len() {
            leading_number(rest.skip(plus + 1))
        } else {
            None
        }
    } else {
        None
    }
}

/// Whether a line of a hunk adds or removes something.
pub open spec fn is_change(line: Seq<char>) -> bool {
    line.len() > 0 && (line[0] == '+' || line[0] == '-')
}

/// Whether a line of a hunk is context, present in the old and the new file.
pub open spec fn is_context(line: Seq<char>) -> bool {
    line.len() > 0 && line[0] == ' '
}

/// The new-file line of the first change in a hunk. `body` is what follows the header, up to the
/// next header or the end; `at` is the new-file line of its first line.
pub open spec fn first_change(body: Seq<Seq<char>>, at: int) -> Option<int>
    decreases body.len(),
{
    if body.len() == 0 || hunk_start(body[0]) is Some {
        None
    } else if is_change(body[0]) {
        Some(at)
    } else {
        first_change(body.skip(1), if is_context(body[0]) { at + 1 } else { at })
    }
}

/// The list of one item, or of none.
pub open spec fn listed(item: Option<int>) -> Seq<int> {
    match item {
        Some(n) => seq![n],
        None => seq![],
    }
}

/// The new-file line of the first change of each hunk that has one, in order.
pub open spec fn change_lines(lines: Seq<Seq<char>>) -> Seq<int>
    decreases lines.len(),
{
    if lines.len() == 0 {
        seq![]
    } else {
        match hunk_start(lines[0]) {
            Some(c) => listed(first_change(lines.skip(1), c as int)) + change_lines(lines.skip(1)),
            None => change_lines(lines.skip(1)),
        }
    }
}

/// How far the line number is counted in a hunk: over its context, up to its first change or
/// its end.
pub open spec fn count_end(body: Seq<Seq<char>>, at: int) -> int
    decreases body.len(),
{
    if body.len() == 0 || hunk_start(body[0]) is Some || is_change(body[0]) {
        at
    } else {
        count_end(body.skip(1), if is_context(body[0]) { at + 1 } else { at })
    }
}

/// Whether no line number counted in any hunk exceeds 32 bits.
pub open spec fn counts_fit(lines: Seq<Seq<char>>) -> bool
    decreases lines.len(),
{
    if lines.len() == 0 {
        true
    } else {
        &&& hunk_start(lines[0]) matches Some(c) ==> count_end(lines.skip(1), c as int) <= u32::MAX
        &&& counts_fit(lines.skip(1))
    }
}

/// The line numbers as integers.
pub open spec fn as_ints(numbers: Seq<u32>) -> Seq<int> {
    Seq::new(numbers.len(), |i: int| numbers[i] as int)
}

proof fn lemma_count_end_grows(body: Seq<Seq<char>>, at: int)
    ensures
        count_end(body, at) >= at,
    decreases body.len(),
{
    if !(body.len() == 0 || hunk_start(body[0]) is Some || is_change(body[0])) {
        lemma_count_end_grows(body.skip(1), if is_context(body[0]) { at + 1 } else { at });
    }
}

/// The new-file line in a hunk header.
fn read_hunk_start(line: &Vec<char>) -> (start: Option<u32>)
    ensures
        start == hunk_start(line@),
{
    if line.len() >= 2 && line[0] == '@' && line[1] == '@' {
        let plus = find_from(line, 2, '+');
        if plus < line.len() {
            assert(line@.skip(2).skip(plus - 2 + 1) =~= line@.skip(plus + 1));
            read_number(line, plus + 1)
        } else {
            None
        }
    } else {
        None
    }
}

/// What remains to be found in the lines from position `i` on.
spec fn remaining(lines: Seq<Seq<char>>, i: int, at: int, searching: bool) -> Seq<int> {
    (if searching {
        listed(first_change(lines.skip(i), at))
    } else {
        seq![]
    }) + change_lines(lines.skip(i))
}

/// Whether the counts from position `i` on fit.
spec fn remaining_fits(lines: Seq<Seq<char>>, i: int, at: int, searching: bool) -> bool {
    &&& searching ==> count_end(lines.skip(i), at) <= u32::MAX
    &&& counts_fit(lines.skip(i))
}

/// The new-file line of the first change of each hunk, as `first_change_lines`; `None` if a line
/// number exceeds 32 bits.
pub fn checked_first_change_lines(text: &str) -> (numbers: Option<Vec<u32>>)
    ensures
        numbers is Some <==> counts_fit(lines_of(text@)),
        numbers matches Some(n) ==> as_ints(n@) == change_lines(lines_of(text@)),
{
    let lines = split_lines(text);
    let ghost all = rows(lines@);
    let mut result: Vec<u32> = Vec::new();
    let mut new_line: u32 = 0;
    let mut in_hunk = false;
    let mut found = false;
    let mut i: usize = 0;
    proof {
        assert(all.skip(0) =~= all);
        assert(as_ints(result@) + remaining(all, 0, 0, false) =~= change_lines(all));
    }
    while i < lines.len()
        invariant
            i <= lines@.len(),
            all == rows(lines@),
            all == lines_of(text@),
            as_ints(result@) + remaining(all, i as int, new_line as int, in_hunk && !found)
                == change_lines(all),
            counts_fit(all) == remaining_fits(all, i as int, new_line as int, in_hunk && !found),
        decreases lines.len() - i,
    {
        let line = &lines[i];
        let start = read_hunk_start(line);
        let ghost before = result@;
        let ghost at = new_line as int;
        let ghost searching = in_hunk && !found;
        proof {
            assert(all.skip(i as int)[0] == line@);
            assert(all.skip(i as int).skip(1) =~= all.skip(i + 1));
        }
        if let Some(c) = start {
            new_line = c;
            in_hunk = true;
            found = false;
        } else if in_hunk && !found && line.len() > 0 {
            let c = line[0];
            if c == '+' || c == '-' {
                result.push(new_line);
                found = true;
                assert(as_ints(result@) =~= as_ints(before).push(at));
            } else if c == ' ' {
                if new_line == u32::MAX {
                    proof {
                        lemma_count_end_grows(all.skip(i + 1), at + 1);
                    }
                    return None;
                }
                new_line += 1;
            }
        }
        i += 1;
        assert(as_ints(result@) + remaining(all, i as int, new_line as int, in_hunk && !found)
            =~= as_ints(before) + remaining(all, i - 1, at, searching));
    }
    assert(all.skip(i as int) =~= Seq::<Seq<char>>::empty());
    assert(as_ints(result@) + remaining(all, i as int, new_line as int, in_hunk && !found)
        =~= as_ints(result@));
    Some(result)
}

/// The new-file line of the first changed line in each hunk of a git-format diff, in order.
///
/// A header gives the line of the hunk's first line, which is usually context. The context is
/// counted up to the first added or removed line; a removed line stands for the new-file line
/// that now occupies its position. Hunks without a change are left out.
pub fn first_change_lines(text: &str) -> (numbers: Vec<u32>)
    requires
        counts_fit(lines_of(text@)),
    ensures
        as_ints(numbers@) == change_lines(lines_of(text@)),
{
    checked_first_change_lines(text).unwrap()
}

/// The text of a captured diff; empty if it could not be captured.
pub open spec fn captured_text(raw: Option<Seq<u8>>) -> Seq<char> {
    match raw {
        Some(bytes) => lossy_text(bytes),
        None => seq![],
    }
}

/// The text of a captured diff.
pub(crate) fn text_of_capture(raw: &Option<Vec<u8>>) -> (text: String)
    ensures
        text@ == captured_text(crate::effect::output_view(*raw)),
{
    match raw {
        Some(bytes) => decode_lossy(bytes),
        None => String::new(),
    }
}

/// The new-file line of the first change of each hunk in a captured diff, in order; none if the
/// diff could not be captured.
pub fn hunk_first_change_lines(raw: &Option<Vec<u8>>) -> (numbers: Vec<u32>)
    requires
        counts_fit(lines_of(captured_text(crate::effect::output_view(*raw)))),
    ensures
        as_ints(numbers@) == change_lines(
            lines_of(captured_text(crate::effect::output_view(*raw))),
        ),
{
    let text = text_of_capture(raw);
    first_change_lines(text.as_str())
}

/// How many lines are headers that open a hunk.
pub open spec fn hunk_count(lines: Seq<Seq<char>>) -> nat
    decreases lines.len(),
{
    if lines.len() == 0 {
        0
    } else {
        hunk_count(lines.skip(1)) + (if hunk_start(lines[0]) is Some {
            1nat
        } else {
            0
        })
    }
}

/// The first change of a hunk lies before the header of the next, and so does what is counted.
proof fn lemma_first_change_before_header(body: Seq<Seq<char>>, next: Seq<Seq<char>>, at: int)
    requires
        next.len() > 0 ==> hunk_start(next[0]) is Some,
    ensures
        first_change(body + next, at) == first_change(body, at),
        count_end(body + next, at) == count_end(body, at),
    decreases body.len(),
{
    if body.len() == 0 {
        assert(body + next =~= next);
    } else {
        assert((body + next)[0] == body[0]);
        assert((body + next).skip(1) =~= body.skip(1) + next);
        if !(hunk_start(body[0]) is Some) && !is_change(body[0]) {
            lemma_first_change_before_header(
                body.skip(1),
                next,
                if is_context(body[0]) {
                    at + 1
                } else {
                    at
                },
            );
        }
    }
}

/// Hunks are read one by one, in order: what a diff yields up to a header, followed by what it
/// yields from that header on, is what the whole yields.
pub proof fn law_hunks_are_independent(earlier: Seq<Seq<char>>, later: Seq<Seq<char>>)
    requires
        later.len() > 0 ==> hunk_start(later[0]) is Some,
    ensures
        change_lines(earlier + later) == change_lines(earlier) + change_lines(later),
        counts_fit(earlier + later) <==> counts_fit(earlier) && counts_fit(later),
    decreases earlier.len(),
{
    if earlier.len() == 0 {
        assert(earlier + later =~= later);
        assert(change_lines(earlier) + change_lines(later) =~= change_lines(later));
    } else {
        let all = earlier + later;
        assert(all[0] == earlier[0]);
        assert(all.skip(1) =~= earlier.skip(1) + later);
        law_hunks_are_independent(earlier.skip(1), later);
        if let Some(c) = hunk_start(earlier[0]) {
            lemma_first_change_before_header(earlier.skip(1), later, c as int);
        }
        assert(change_lines(all) =~= change_lines(earlier) + change_lines(later));
    }
}

/// A diff may be read in parts: if the first part ends with a line feed and the second begins with
/// a hunk header, the whole yields what the parts yield, one after the other.
pub proof fn law_diff_is_read_in_parts(earlier: Seq<char>, later: Seq<char>)
    requires
        earlier.len() == 0 || earlier.last() == '\n',
        later.len() > 0 ==> hunk_start(lines_of(later)[0]) is Some,
    ensures
        change_lines(lines_of(earlier + later)) == change_lines(lines_of(earlier)) + change_lines(
            lines_of(later),
        ),
        counts_fit(lines_of(earlier + later)) <==> counts_fit(lines_of(earlier)) && counts_fit(
            lines_of(later),
        ),
{
    law_lines_of_parts(earlier, later);
    law_hunks_are_independent(lines_of(earlier), lines_of(later));
}

/// Each hunk yields one line at most.
pub proof fn law_at_most_one_line_per_hunk(lines: Seq<Seq<char>>)
    ensures
        change_lines(lines).len() <= hunk_count(lines),
    decreases lines.len(),
{
    if lines.len() > 0 {
        law_at_most_one_line_per_hunk(lines.skip(1));
    }
}

/// A hunk whose first change comes after some context yields the line that its header gives,
/// plus one for each line of context, whether the change is an addition or a removal.
pub proof fn law_context_is_counted(
    header: Seq<char>,
    context: Seq<Seq<char>>,
    change: Seq<char>,
    tail: Seq<Seq<char>>,
)
    requires
        hunk_start(header) is Some,
        forall|i: int| 0 <= i < context.len() ==> is_context(#[trigger] context[i]),
        is_change(change),
    ensures
        change_lines(seq![header] + context + seq![change] + tail) == seq![
            hunk_start(header)->0 + context.len(),
        ] + change_lines(context + seq![change] + tail),
{
    let lines = seq![header] + context + seq![change] + tail;
    assert(lines.skip(1) =~= context + seq![change] + tail);
    lemma_context_then_change(context, change, tail, hunk_start(header)->0 as int);
}

proof fn lemma_context_then_change(
    context: Seq<Seq<char>>,
    change: Seq<char>,
    tail: Seq<Seq<char>>,
    at: int,
)
    requires
        forall|i: int| 0 <= i < context.len() ==> is_context(#[trigger] context[i]),
        is_change(change),
    ensures
        first_change(context + seq![change] + tail, at) == Some(at + context.len()),
    decreases context.len(),
{
    let body = context + seq![change] + tail;
    if context.len() == 0 {
        assert(body[0] == change);
    } else {
        assert(body[0] == context[0]);
        assert(is_context(context[0]));
        assert(body.skip(1) =~= context.skip(1) + seq![change] + tail);
        assert forall|i: int| 0 <= i < context.skip(1).len() implies is_context(
            #[trigger] context.skip(1)[i],
        ) by {
            assert(context.skip(1)[i] == context[i + 1]);
        }
        lemma_context_then_change(context.skip(1), change, tail, at + 1);
    }
}

/// A line that is neither context nor a change nor opens a hunk, such as the note that a file
/// lacks its final newline, makes no difference wherever it stands.
pub proof fn law_other_lines_are_ignored(
    before: Seq<Seq<char>>,
    line: Seq<char>,
    after: Seq<Seq<char>>,
)
    requires
        !is_context(line),
        !is_change(line),
        hunk_start(line) is None,
    ensures
        change_lines(before + seq![line] + after) == change_lines(before + after),
    decreases before.len(),
{
    let with = before + seq![line] + after;
    let without = before + after;
    if before.len() == 0 {
        assert(with.skip(1) =~= without);
    } else {
        assert(with.skip(1) =~= before.skip(1) + seq![line] + after);
        assert(without.skip(1) =~= before.skip(1) + after);
        law_other_lines_are_ignored(before.skip(1), line, after);
        if let Some(c) = hunk_start(before[0]) {
            lemma_first_change_ignores(before.skip(1), line, after, c as int);
        }
    }
}

proof fn lemma_first_change_ignores(
    before: Seq<Seq<char>>,
    line: Seq<char>,
    after: Seq<Seq<char>>,
    at: int,
)
    requires
        !is_context(line),
        !is_change(line),
        hunk_start(line) is None,
    ensures
        first_change(before + seq![line] + after, at) == first_change(before + after, at),
    decreases before.len(),
{
    let with = before + seq![line] + after;
    let without = before + after;
    if before.len() == 0 {
        assert(with.skip(1) =~= without);
    } else {
        assert(with.skip(1) =~= before.skip(1) + seq![line] + after);
        assert(without.skip(1) =~= before.skip(1) + after);
        lemma_first_change_ignores(
            before.skip(1),
            line,
            after,
            if is_context(before[0]) {
                at + 1
            } else {
                at
            },
        );
    }
}

/// A text without a hunk header yields nothing.
pub proof fn law_no_header_no_lines(lines: Seq<Seq<char>>)
    requires
        forall|i: int| 0 <= i < lines.len() ==> hunk_start(#[trigger] lines[i]) is None,
    ensures
        change_lines(lines) == Seq::<int>::empty(),
    decreases lines.len(),
{
    if lines.len() > 0 {
        assert forall|i: int| 0 <= i < lines.skip(1).len() implies hunk_start(
            #[trigger] lines.skip(1)[i],
        ) is None by {
            assert(lines.skip(1)[i] == lines[i + 1]);
        }
        assert(hunk_start(lines[0]) is None);
        law_no_header_no_lines(lines.skip(1));
    }
}

/// Line numbers fit 32 bits wherever each header's line, plus the lines that follow in the whole
/// diff, does.
pub proof fn law_counts_fit(lines: Seq<Seq<char>>)
    requires
        forall|i: int|
            0 <= i < lines.len() ==> (hunk_start(#[trigger] lines[i]) matches Some(c) ==> c
                + lines.len() <= u32::MAX),
    ensures
        counts_fit(lines),
    decreases lines.len(),
{
    if lines.len() > 0 {
        assert forall|i: int| 0 <= i < lines.skip(1).len() implies (hunk_start(
            #[trigger] lines.skip(1)[i],
        ) matches Some(c) ==> c + lines.skip(1).len() <= u32::MAX) by {
            assert(lines.skip(1)[i] == lines[i + 1]);
        }
        law_counts_fit(lines.skip(1));
        if let Some(c) = hunk_start(lines[0]) {
            lemma_count_end_bounded(lines.skip(1), c as int);
        }
    }
}

proof fn lemma_count_end_bounded(body: Seq<Seq<char>>, at: int)
    ensures
        count_end(body, at) <= at + body.len(),
    decreases body.len(),
{
    if !(body.len() == 0 || hunk_start(body[0]) is Some || is_change(body[0])) {
        lemma_count_end_bounded(body.skip(1), if is_context(body[0]) { at + 1 } else { at });
    }
}

/// A line opens a hunk if it begins with `@@` and holds a readable number right behind the first
/// `+`, and the hunk begins at that number. Any other line opens none.
pub proof fn law_header_gives_line(
    before: Seq<char>,
    rest: Seq<char>,
    n: nat,
    line: Seq<char>,
    after: Seq<char>,
)
    requires
        forall|i: int| 0 <= i < before.len() ==> before[i] != '+',
        rest.len() > 0 ==> !('0' <= rest[0] <= '9'),
    ensures
        n <= 0xFFFF_FFFF ==> hunk_start(
            seq!['@', '@'] + before + seq!['+'] + (decimal(n) + rest),
        ) == Some(n as u32),
        n > 0xFFFF_FFFF ==> hunk_start(
            seq!['@', '@'] + before + seq!['+'] + (decimal(n) + rest),
        ) is None,
        hunk_start(seq!['@', '@'] + before + seq!['+'] + rest) is None,
        hunk_start(seq!['@', '@'] + before + seq!['+'] + after) == leading_number(after),
        hunk_start(seq!['@', '@'] + before) is None,
        line.len() < 2 || line[0] != '@' || line[1] != '@' ==> hunk_start(line) is None,
{
    law_number_at_start(rest, n, rest);
    lemma_header(before, decimal(n) + rest);
    lemma_header(before, rest);
    lemma_header(before, after);
    let bare = seq!['@', '@'] + before;
    assert(bare.skip(2) =~= before);
    lemma_find_char(before, '+', before.len() as int);
}

/// The number of a header is what is read behind the first `+`.
proof fn lemma_header(before: Seq<char>, rest: Seq<char>)
    requires
        forall|i: int| 0 <= i < before.len() ==> before[i] != '+',
    ensures
        hunk_start(seq!['@', '@'] + before + seq!['+'] + rest) == leading_number(rest),
{
    let line = seq!['@', '@'] + before + seq!['+'] + rest;
    let body = before + seq!['+'] + rest;
    let n = before.len() as int;
    assert(line.skip(2) =~= body);
    assert forall|j: int| 0 <= j < n implies body[j] != '+' by {
        assert(body[j] == before[j]);
    }
    lemma_find_char(body, '+', n);
    assert(body.skip(n + 1) =~= rest);
}

/// Lines that begin with a space are counted, each of them, whatever follows the space. A hunk
/// whose first change comes after such lines yields the line of its header plus their number; what
/// follows the change, up to the next header, yields nothing. A number beyond 32 bits is noticed.
pub proof fn law_hunk_yields_its_first_change(
    header: Seq<char>,
    c: u32,
    context: Seq<Seq<char>>,
    change: Seq<char>,
    tail: Seq<Seq<char>>,
)
    requires
        hunk_start(header) == Some(c),
        forall|i: int|
            0 <= i < context.len() ==> (#[trigger] context[i]).len() > 0 && context[i][0] == ' ',
        change.len() > 0,
        change[0] == '+' || change[0] == '-',
    ensures
        change_lines(seq![header] + context + seq![change] + tail) == seq![c + context.len()]
            + change_lines(tail),
        counts_fit(seq![header] + context + seq![change] + tail) <==> c + context.len()
            <= 0xFFFF_FFFF && counts_fit(tail),
{
    assert forall|i: int| 0 <= i < context.len() implies is_context(#[trigger] context[i]) by {}
    law_context_is_counted(header, context, change, tail);
    let lines = seq![header] + context + seq![change] + tail;
    let body = context + seq![change] + tail;
    assert(lines[0] == header);
    assert(lines.skip(1) =~= body);
    lemma_skip_body(context + seq![change], tail);
    lemma_count_to_change(context, change, tail, c as int);
}

/// A hunk without a change yields nothing, but its lines are counted all the same.
pub proof fn law_hunk_without_change(
    header: Seq<char>,
    c: u32,
    context: Seq<Seq<char>>,
    later: Seq<Seq<char>>,
)
    requires
        hunk_start(header) == Some(c),
        forall|i: int|
            0 <= i < context.len() ==> (#[trigger] context[i]).len() > 0 && context[i][0] == ' ',
        later.len() > 0 ==> hunk_start(later[0]) is Some,
    ensures
        change_lines(seq![header] + context + later) == change_lines(later),
        counts_fit(seq![header] + context + later) <==> c + context.len() <= 0xFFFF_FFFF
            && counts_fit(later),
{
    let lines = seq![header] + context + later;
    assert(lines[0] == header);
    assert(lines.skip(1) =~= context + later);
    lemma_skip_body(context, later);
    lemma_count_to_header(context, later, c as int);
    assert(listed(None) + change_lines(later) =~= change_lines(later));
}

/// A line that does not begin with a space, `+` or `-` and opens no hunk makes no difference,
/// wherever it stands: it is not counted either.
pub proof fn law_other_lines_are_not_counted(
    before: Seq<Seq<char>>,
    line: Seq<char>,
    after: Seq<Seq<char>>,
)
    requires
        line.len() == 0 || (line[0] != ' ' && line[0] != '+' && line[0] != '-'),
        hunk_start(line) is None,
    ensures
        change_lines(before + seq![line] + after) == change_lines(before + after),
        counts_fit(before + seq![line] + after) == counts_fit(before + after),
    decreases before.len(),
{
    law_other_lines_are_ignored(before, line, after);
    let with = before + seq![line] + after;
    let without = before + after;
    if before.len() == 0 {
        assert(with.skip(1) =~= without);
    } else {
        assert(with.skip(1) =~= before.skip(1) + seq![line] + after);
        assert(without.skip(1) =~= before.skip(1) + after);
        law_other_lines_are_not_counted(before.skip(1), line, after);
        if let Some(c) = hunk_start(before[0]) {
            lemma_count_ignores(before.skip(1), line, after, c as int);
        }
    }
}

proof fn lemma_count_ignores(
    before: Seq<Seq<char>>,
    line: Seq<char>,
    after: Seq<Seq<char>>,
    at: int,
)
    requires
        !is_context(line),
        !is_change(line),
        hunk_start(line) is None,
    ensures
        count_end(before + seq![line] + after, at) == count_end(before + after, at),
    decreases before.len(),
{
    let with = before + seq![line] + after;
    let without = before + after;
    if before.len() == 0 {
        assert(with.skip(1) =~= without);
    } else {
        assert(with.skip(1) =~= before.skip(1) + seq![line] + after);
        assert(without.skip(1) =~= before.skip(1) + after);
        lemma_count_ignores(
            before.skip(1),
            line,
            after,
            if is_context(before[0]) {
                at + 1
            } else {
                at
            },
        );
    }
}

/// Lines without a header add nothing to what follows them.
proof fn lemma_skip_body(body: Seq<Seq<char>>, tail: Seq<Seq<char>>)
    requires
        forall|i: int|
            0 <= i < body.len() ==> (#[trigger] body[i]).len() > 0 && body[i][0] != '@',
    ensures
        change_lines(body + tail) == change_lines(tail),
        counts_fit(body + tail) == counts_fit(tail),
    decreases body.len(),
{
    if body.len() == 0 {
        assert(body + tail =~= tail);
    } else {
        assert((body + tail)[0] == body[0]);
        assert((body + tail).skip(1) =~= body.skip(1) + tail);
        assert forall|i: int| 0 <= i < body.skip(1).len() implies (#[trigger] body.skip(1)[i]).len()
            > 0 && body.skip(1)[i][0] != '@' by {
            assert(body.skip(1)[i] == body[i + 1]);
        }
        lemma_skip_body(body.skip(1), tail);
    }
}

proof fn lemma_count_to_change(
    context: Seq<Seq<char>>,
    change: Seq<char>,
    tail: Seq<Seq<char>>,
    at: int,
)
    requires
        forall|i: int| 0 <= i < context.len() ==> is_context(#[trigger] context[i]),
        is_change(change),
    ensures
        count_end(context + seq![change] + tail, at) == at + context.len(),
    decreases context.len(),
{
    let body = context + seq![change] + tail;
    if context.len() == 0 {
        assert(body[0] == change);
    } else {
        assert(body[0] == context[0]);
        assert(is_context(context[0]));
        assert(body.skip(1) =~= context.skip(1) + seq![change] + tail);
        assert forall|i: int| 0 <= i < context.skip(1).len() implies is_context(
            #[trigger] context.skip(1)[i],
        ) by {
            assert(context.skip(1)[i] == context[i + 1]);
        }
        lemma_count_to_change(context.skip(1), change, tail, at + 1);
    }
}

proof fn lemma_count_to_header(context: Seq<Seq<char>>, later: Seq<Seq<char>>, at: int)
    requires
        forall|i: int|
            0 <= i < context.len() ==> (#[trigger] context[i]).len() > 0 && context[i][0] == ' ',
        later.len() > 0 ==> hunk_start(later[0]) is Some,
    ensures
        count_end(context + later, at) == at + context.len(),
        first_change(context + later, at) is None,
    decreases context.len(),
{
    let body = context + later;
    if context.len() == 0 {
        assert(body =~= later);
    } else {
        assert(body[0] == context[0]);
        assert(body.skip(1) =~= context.skip(1) + later);
        assert forall|i: int| 0 <= i < context.skip(1).len() implies (
        #[trigger] context.skip(1)[i]).len() > 0 && context.skip(1)[i][0] == ' ' by {
            assert(context.skip(1)[i] == context[i + 1]);
        }
        lemma_count_to_header(context.skip(1), later, at + 1);
    }
}

/// Before the first header, nothing is yielded or counted.
pub proof fn law_preamble_is_skipped(preamble: Seq<Seq<char>>, later: Seq<Seq<char>>)
    requires
        forall|i: int| 0 <= i < preamble.len() ==> hunk_start(#[trigger] preamble[i]) is None,
    ensures
        change_lines(preamble + later) == change_lines(later),
        counts_fit(preamble + later) == counts_fit(later),
        change_lines(seq![]) == Seq::<int>::empty(),
        counts_fit(seq![]),
    decreases preamble.len(),
{
    if preamble.len() == 0 {
        assert(preamble + later =~= later);
    } else {
        assert((preamble + later)[0] == preamble[0]);
        assert((preamble + later).skip(1) =~= preamble.skip(1) + later);
        assert forall|i: int| 0 <= i < preamble.skip(1).len() implies hunk_start(
            #[trigger] preamble.skip(1)[i],
        ) is None by {
            assert(preamble.skip(1)[i] == preamble[i + 1]);
        }
        law_preamble_is_skipped(preamble.skip(1), later);
    }
}

/// A captured diff is read as the text that its bytes stand for, and one that could not be captured
/// as an empty text. Its line numbers are those of the text.
pub proof fn law_captured_text(bytes: Seq<u8>, numbers: Seq<u32>)
    ensures
        captured_text(Some(bytes)) == lossy_text(bytes),
        captured_text(None) == Seq::<char>::empty(),
        as_ints(numbers).len() == numbers.len(),
        forall|i: int| 0 <= i < numbers.len() ==> #[trigger] as_ints(numbers)[i] == numbers[i],
{
}

} // verus!
