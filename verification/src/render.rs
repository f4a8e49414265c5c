//! A rendered diff: styled lines, and the rows at which its hunks begin.

use vstd::prelude::*;

use crate::text::{decode_lossy, lines_of, lossy_text, rows, split_lines, text_from};

verus! {

/// The style of a piece of text, carried from the parser to the screen.
#[verifier::external_type_specification]
#[verifier::external_body]
pub struct ExStyle(ratatui::style::Style);

/// A piece of text in one style; no style means the terminal's own.
pub struct DiffSpan {
    pub content: String,
    pub style: Option<ratatui::style::Style>,
}

/// The contents of a `DiffSpan`.
pub struct SpanView {
    pub content: Seq<char>,
    pub style: Option<ratatui::style::Style>,
}

impl View for DiffSpan {
    type V = SpanView;

    open spec fn view(&self) -> SpanView {
        SpanView { content: self.content@, style: self.style }
    }
}

/// A line of a rendered diff.
pub struct DiffLine {
    pub spans: Vec<DiffSpan>,
}

impl View for DiffLine {
    type V = Seq<SpanView>;

    open spec fn view(&self) -> Seq<SpanView> {
        Seq::new(self.spans@.len(), |i: int| self.spans@[i]@)
    }
}

/// The contents of some lines.
pub open spec fn line_views(lines: Seq<DiffLine>) -> Seq<Seq<SpanView>> {
    Seq::new(lines.len(), |i: int| lines[i]@)
}

/// The contents of some lines, if there are any.
pub open spec fn parsed_view(lines: Option<Vec<DiffLine>>) -> Option<Seq<Seq<SpanView>>> {
    match lines {
        Some(lines) => Some(line_views(lines@)),
        None => None,
    }
}

/// The styled lines that `ansi_to_tui` reads in bytes with ANSI escape sequences; `None` where it
/// fails.
pub uninterp spec fn ansi_lines(bytes: Seq<u8>) -> Option<Seq<Seq<SpanView>>>;

/// `ansi_to_tui::IntoText::into_text`: a function of the bytes alone. Each span of the text that
/// it returns is kept with its content and style; nothing is claimed of what those are.
#[verifier::external_body]
fn parse_ansi(bytes: &Vec<u8>) -> (lines: Option<Vec<DiffLine>>)
    ensures
        parsed_view(lines) == ansi_lines(bytes@),
{
    let text = ansi_to_tui::IntoText::into_text(bytes).ok()?;
    let convert = |span: ratatui::text::Span| DiffSpan {
        content: span.content.to_string(),
        style: Some(span.style),
    };
    Some(
        text.lines
            .into_iter()
            .map(|line| DiffLine { spans: line.spans.into_iter().map(convert).collect() })
            .collect(),
    )
}

/// A line of plain text: one span without a style, or none if the line is empty.
pub open spec fn plain_line(text: Seq<char>) -> Seq<SpanView> {
    if text.len() == 0 {
        seq![]
    } else {
        seq![SpanView { content: text, style: None }]
    }
}

/// The lines of plain text.
pub open spec fn plain_lines(text: Seq<char>) -> Seq<Seq<SpanView>> {
    Seq::new(lines_of(text).len(), |i: int| plain_line(lines_of(text)[i]))
}

/// The lines shown for the bytes of a diff: the styled lines, or plain text where the escape
/// sequences could not be read.
pub open spec fn shown_lines(
    parsed: Option<Seq<Seq<SpanView>>>,
    bytes: Seq<u8>,
) -> Seq<Seq<SpanView>> {
    match parsed {
        Some(lines) => lines,
        None => plain_lines(lossy_text(bytes)),
    }
}

/// The lines of plain text.
pub fn plain_text_lines(text: &str) -> (lines: Vec<DiffLine>)
    ensures
        line_views(lines@) == plain_lines(text@),
{
    let split = split_lines(text);
    let ghost all = lines_of(text@);
    let mut lines: Vec<DiffLine> = Vec::new();
    let mut i: usize = 0;
    while i < split.len()
        invariant
            i <= split@.len(),
            all == lines_of(text@),
            rows(split@) == all,
            all.len() == split@.len(),
            line_views(lines@) == Seq::new(i as nat, |j: int| plain_line(all[j])),
        decreases split.len() - i,
    {
        let ghost before = lines@;
        let line = &split[i];
        assert(all[i as int] == line@);
        let mut spans: Vec<DiffSpan> = Vec::new();
        if line.len() > 0 {
            let content = text_from(line, 0, line.len());
            assert(content@ =~= line@);
            spans.push(DiffSpan { content, style: None });
        }
        let made = DiffLine { spans };
        assert(made@ =~= plain_line(all[i as int]));
        lines.push(made);
        assert(line_views(lines@) =~= line_views(before).push(plain_line(all[i as int])));
        i += 1;
        assert(line_views(lines@) =~= Seq::new(i as nat, |j: int| plain_line(all[j])));
    }
    assert(line_views(lines@) =~= plain_lines(text@));
    lines
}

/// The styled lines if there are any, else the bytes as plain text.
pub fn lines_or_plain(parsed: Option<Vec<DiffLine>>, bytes: &Vec<u8>) -> (lines: Vec<DiffLine>)
    ensures
        line_views(lines@) == shown_lines(parsed_view(parsed), bytes@),
{
    match parsed {
        Some(lines) => lines,
        None => {
            let text = decode_lossy(bytes);
            plain_text_lines(text.as_str())
        },
    }
}

/// The lines shown for the bytes of a diff.
pub fn render_lines(bytes: &Vec<u8>) -> (lines: Vec<DiffLine>)
    ensures
        line_views(lines@) == shown_lines(ansi_lines(bytes@), bytes@),
{
    lines_or_plain(parse_ansi(bytes), bytes)
}

/// Whether a character has the Unicode property `White_Space`.
pub open spec fn is_space(c: char) -> bool {
    let n = c as int;
    ||| 0x9 <= n <= 0xD
    ||| n == 0x20
    ||| n == 0x85
    ||| n == 0xA0
    ||| n == 0x1680
    ||| 0x2000 <= n <= 0x200A
    ||| n == 0x2028
    ||| n == 0x2029
    ||| n == 0x202F
    ||| n == 0x205F
    ||| n == 0x3000
}

/// Whether a character is white space.
pub fn is_whitespace(c: char) -> (space: bool)
    ensures
        space == is_space(c),
{
    let n = c as u32;
    (0x9 <= n && n <= 0xD) || n == 0x20 || n == 0x85 || n == 0xA0 || n == 0x1680 || (0x2000 <= n
        && n <= 0x200A) || n == 0x2028 || n == 0x2029 || n == 0x202F || n == 0x205F || n == 0x3000
}

/// The character that rules are drawn with.
pub const RULE: char = '\u{2500}';

/// The least number of such characters in a rule.
pub const RULE_LEN: usize = 10;

/// The text of a line.
pub open spec fn line_text(line: Seq<SpanView>) -> Seq<char>
    decreases line.len(),
{
    if line.len() == 0 {
        seq![]
    } else {
        line_text(line.drop_last()) + line.last().content
    }
}

/// How many rule characters a text holds.
pub open spec fn rule_count(text: Seq<char>) -> nat
    decreases text.len(),
{
    if text.len() == 0 {
        0
    } else {
        rule_count(text.drop_last()) + (if text.last() == RULE {
            1nat
        } else {
            0
        })
    }
}

/// Whether a text is a rule: a run of rule characters, and nothing else but white space.
pub open spec fn is_rule(text: Seq<char>) -> bool {
    &&& rule_count(text) >= RULE_LEN
    &&& forall|i: int| 0 <= i < text.len() ==> (#[trigger] text[i] == RULE || is_space(text[i]))
}

/// Whether a line is the rule that separates hunks.
pub fn is_rule_row(line: &DiffLine) -> (rule: bool)
    ensures
        rule == is_rule(line_text(line@)),
{
    let mut count: usize = 0;
    let mut s: usize = 0;
    let ghost spans = line@;
    let ghost whole = line_text(spans);
    let ghost mut seen: Seq<char> = seq![];
    assert(spans.take(0) =~= seq![]);
    assert(seen =~= line_text(spans.take(0)));
    while s < line.spans.len()
        invariant
            s <= line.spans@.len(),
            spans == line@,
            whole == line_text(spans),
            seen == line_text(spans.take(s as int)),
            count <= RULE_LEN,
            count == rule_count(seen) || (count == RULE_LEN && rule_count(seen) >= RULE_LEN),
            forall|i: int| 0 <= i < seen.len() ==> (#[trigger] seen[i] == RULE || is_space(
                seen[i],
            )),
        decreases line.spans.len() - s,
    {
        let ghost before = seen;
        let ghost content = spans[s as int].content;
        proof {
            assert(spans.take(s + 1).drop_last() =~= spans.take(s as int));
            assert(spans.take(s + 1).last() == spans[s as int]);
        }
        let chars = crate::text::chars_of(line.spans[s].content.as_str());
        let mut i: usize = 0;
        assert(before + content.take(0) =~= before);
        while i < chars.len()
            invariant
                i <= chars@.len(),
                chars@ == content,
                s < line.spans@.len(),
                spans == line@,
                whole == line_text(spans),
                before + content == line_text(spans.take(s + 1)),
                seen == before + content.take(i as int),
                count <= RULE_LEN,
                count == rule_count(seen) || (count == RULE_LEN && rule_count(seen) >= RULE_LEN),
                forall|j: int| 0 <= j < seen.len() ==> (#[trigger] seen[j] == RULE || is_space(
                    seen[j],
                )),
            decreases chars.len() - i,
        {
            let c = chars[i];
            if c != RULE && !is_whitespace(c) {
                proof {
                    lemma_prefix_text(spans, s + 1);
                    let at = (before.len() + i) as int;
                    assert(line_text(spans.take(s + 1))[at] == c);
                    assert(whole[at] == c);
                }
                return false;
            }
            proof {
                let next = before + content.take(i + 1);
                assert(next.drop_last() =~= seen);
                assert(next.last() == c);
                assert forall|j: int| 0 <= j < next.len() implies (#[trigger] next[j] == RULE
                    || is_space(next[j])) by {
                    if j < seen.len() {
                        assert(next[j] == seen[j]);
                    }
                }
                seen = next;
            }
            if c == RULE && count < RULE_LEN {
                count += 1;
            }
            i += 1;
        }
        assert(content.take(i as int) =~= content);
        s += 1;
    }
    assert(spans.take(s as int) =~= spans);
    count == RULE_LEN
}

/// The text of the first spans begins the text of the line.
proof fn lemma_prefix_text(line: Seq<SpanView>, n: int)
    requires
        0 <= n <= line.len(),
    ensures
        line_text(line.take(n)).is_prefix_of(line_text(line)),
    decreases line.len(),
{
    if n == line.len() {
        assert(line.take(n) =~= line);
    } else {
        lemma_prefix_text(line.drop_last(), n);
        assert(line.drop_last().take(n) =~= line.take(n));
    }
}

/// The rows of the rules, from the top.
pub open spec fn rule_rows(lines: Seq<Seq<SpanView>>) -> Seq<int>
    decreases lines.len(),
{
    if lines.len() == 0 {
        seq![]
    } else if is_rule(line_text(lines.last())) {
        rule_rows(lines.drop_last()).push(lines.len() - 1)
    } else {
        rule_rows(lines.drop_last())
    }
}

/// The row at which a hunk begins: the one above its rule, if there is one above.
pub open spec fn hunk_row(rule: int) -> int {
    if rule > 0 {
        rule - 1
    } else {
        0
    }
}

/// Rows paired with line numbers, the first with the first and so on, as far as both go.
pub open spec fn paired(rules: Seq<int>, starts: Seq<u32>) -> Seq<(usize, u32)> {
    Seq::new(
        if rules.len() < starts.len() {
            rules.len()
        } else {
            starts.len()
        },
        |i: int| (hunk_row(rules[i]) as usize, starts[i]),
    )
}

/// The hunks of a rendered diff: the row at which each begins, and its line in the new file.
pub open spec fn markers(lines: Seq<Seq<SpanView>>, starts: Seq<u32>) -> Seq<(usize, u32)> {
    paired(rule_rows(lines), starts)
}

/// Pairs each rule with the new-file line of the hunk's first change.
pub fn mark_hunks(lines: &Vec<DiffLine>, starts: &Vec<u32>) -> (marks: Vec<(usize, u32)>)
    ensures
        marks@ == markers(line_views(lines@), starts@),
{
    let ghost all = line_views(lines@);
    let mut marks: Vec<(usize, u32)> = Vec::new();
    let mut i: usize = 0;
    assert(rule_rows(all.take(0)) =~= seq![]);
    while i < lines.len()
        invariant
            i <= lines@.len(),
            all == line_views(lines@),
            marks@ == paired(rule_rows(all.take(i as int)), starts@),
        decreases lines.len() - i,
    {
        let ghost before = rule_rows(all.take(i as int));
        proof {
            assert(all.take(i + 1).drop_last() =~= all.take(i as int));
            assert(all.take(i + 1).last() == lines@[i as int]@);
        }
        if is_rule_row(&lines[i]) {
            if marks.len() < starts.len() {
                let row = i.saturating_sub(1);
                let k = marks.len();
                marks.push((row, starts[k]));
            }
            assert(marks@ =~= paired(before.push(i as int), starts@));
        }
        i += 1;
    }
    assert(all.take(i as int) =~= all);
    marks
}

/// How many hunks begin at or above a row, counted from the top up to the first that does not.
pub open spec fn hunks_above(marks: Seq<(usize, u32)>, row: int) -> int
    decreases marks.len(),
{
    if marks.len() == 0 || marks[0].0 > row {
        0
    } else {
        1 + hunks_above(marks.skip(1), row)
    }
}

/// The new-file line of the hunk at a row: of the last hunk that begins at or above it, else of
/// the first hunk. `None` where there are no hunks.
pub open spec fn line_at(marks: Seq<(usize, u32)>, row: int) -> Option<u32> {
    let above = hunks_above(marks, row);
    if marks.len() == 0 {
        None
    } else if above == 0 {
        Some(marks[0].1)
    } else {
        Some(marks[above - 1].1)
    }
}

/// The new-file line of the hunk at a row.
pub fn hunk_line_at(marks: &Vec<(usize, u32)>, row: usize) -> (line: Option<u32>)
    ensures
        line == line_at(marks@, row as int),
{
    if marks.len() == 0 {
        return None;
    }
    let mut line: u32 = marks[0].1;
    let mut i: usize = 0;
    assert(marks@.skip(0) =~= marks@);
    while i < marks.len() && marks[i].0 <= row
        invariant
            marks@.len() > 0,
            i <= marks@.len(),
            hunks_above(marks@, row as int) == i + hunks_above(marks@.skip(i as int), row as int),
            line == (if i == 0 {
                marks@[0].1
            } else {
                marks@[i - 1].1
            }),
        decreases marks.len() - i,
    {
        assert(marks@.skip(i as int).skip(1) =~= marks@.skip(i + 1));
        line = marks[i].1;
        i += 1;
    }
    Some(line)
}

/// Whether the rows of the hunks never go up the screen, and lie on it.
pub open spec fn marks_in_order(marks: Seq<(usize, u32)>, rows: nat) -> bool {
    &&& forall|i: int, j: int|
        0 <= i <= j < marks.len() ==> (#[trigger] marks[i]).0 <= (#[trigger] marks[j]).0
    &&& forall|i: int| 0 <= i < marks.len() ==> (#[trigger] marks[i]).0 < rows
}

proof fn lemma_rule_rows(lines: Seq<Seq<SpanView>>)
    ensures
        forall|i: int, j: int|
            0 <= i < j < rule_rows(lines).len() ==> #[trigger] rule_rows(lines)[i]
                < #[trigger] rule_rows(lines)[j],
        forall|i: int|
            0 <= i < rule_rows(lines).len() ==> 0 <= #[trigger] rule_rows(lines)[i] < lines.len(),
    decreases lines.len(),
{
    if lines.len() > 0 {
        lemma_rule_rows(lines.drop_last());
        let earlier = rule_rows(lines.drop_last());
        let all = rule_rows(lines);
        assert forall|i: int| 0 <= i < all.len() implies 0 <= #[trigger] all[i] < lines.len() by {
            if i < earlier.len() {
                assert(all[i] == earlier[i]);
            }
        }
        assert forall|i: int, j: int| 0 <= i < j < all.len() implies #[trigger] all[i]
            < #[trigger] all[j] by {
            assert(all[i] == earlier[i]);
            if j < earlier.len() {
                assert(all[j] == earlier[j]);
            }
        }
    }
}

/// The hunks are marked from the top of the rendered diff down, each on a row of it.
pub proof fn law_marks_are_in_order(lines: Seq<Seq<SpanView>>, starts: Seq<u32>)
    requires
        lines.len() <= usize::MAX,
    ensures
        marks_in_order(markers(lines, starts), lines.len()),
{
    lemma_rule_rows(lines);
    let rules = rule_rows(lines);
    let marks = markers(lines, starts);
    assert forall|i: int, j: int| 0 <= i <= j < marks.len() implies (#[trigger] marks[i]).0 <= (
    #[trigger] marks[j]).0 by {
        assert(rules[i] <= rules[j]);
        assert(0 <= rules[i] < lines.len() && 0 <= rules[j] < lines.len());
    }
    assert forall|i: int| 0 <= i < marks.len() implies (#[trigger] marks[i]).0 < lines.len() by {
        assert(0 <= rules[i] < lines.len());
    }
}

/// The line at a row is that of the last hunk that begins at or above it.
pub proof fn law_line_is_of_hunk_in_view(marks: Seq<(usize, u32)>, rows: nat, row: int, k: int)
    requires
        marks_in_order(marks, rows),
        0 <= k < marks.len(),
        marks[k].0 <= row,
        k + 1 < marks.len() ==> marks[k + 1].0 > row,
    ensures
        line_at(marks, row) == Some(marks[k].1),
{
    lemma_hunks_above(marks, row, k + 1);
}

/// Above the first hunk, the line is that of the first hunk.
pub proof fn law_line_above_first_hunk(marks: Seq<(usize, u32)>, row: int)
    requires
        marks.len() > 0,
        marks[0].0 > row,
    ensures
        line_at(marks, row) == Some(marks[0].1),
{
}

proof fn lemma_hunks_above(marks: Seq<(usize, u32)>, row: int, n: int)
    requires
        0 <= n <= marks.len(),
        forall|i: int, j: int|
            0 <= i <= j < marks.len() ==> (#[trigger] marks[i]).0 <= (#[trigger] marks[j]).0,
        n > 0 ==> marks[n - 1].0 <= row,
        n < marks.len() ==> marks[n].0 > row,
    ensures
        hunks_above(marks, row) == n,
    decreases marks.len(),
{
    if n > 0 {
        let rest = marks.skip(1);
        assert(marks[0].0 <= marks[n - 1].0);
        assert forall|i: int, j: int| 0 <= i <= j < rest.len() implies (#[trigger] rest[i]).0 <= (
        #[trigger] rest[j]).0 by {
            assert(rest[i] == marks[i + 1] && rest[j] == marks[j + 1]);
        }
        if n > 1 {
            assert(rest[n - 2] == marks[n - 1]);
        }
        lemma_hunks_above(rest, row, n - 1);
    }
}

/// The hunks are marked in turn, none passed over: the first rule goes with the first line number,
/// and so on.
pub proof fn law_marks_pair_in_turn(lines: Seq<Seq<SpanView>>, starts: Seq<u32>, i: int)
    requires
        0 <= i < markers(lines, starts).len(),
    ensures
        i < starts.len(),
        i < rule_rows(lines).len(),
        markers(lines, starts)[i] == (hunk_row(rule_rows(lines)[i]) as usize, starts[i]),
{
}

/// The view of a line holds each of its spans, with its text and its style; the view of some lines
/// holds each of them.
pub proof fn law_line_views(lines: Seq<DiffLine>, line: DiffLine, parsed: Vec<DiffLine>)
    ensures
        line@.len() == line.spans@.len(),
        forall|i: int|
            0 <= i < line@.len() ==> (#[trigger] line@[i]).content == line.spans@[i].content@
                && line@[i].style == line.spans@[i].style,
        line_views(lines).len() == lines.len(),
        forall|i: int| 0 <= i < lines.len() ==> #[trigger] line_views(lines)[i] == lines[i]@,
        parsed_view(Some(parsed)) == Some(line_views(parsed@)),
        parsed_view(None) is None,
{
}

/// The text of a line is that of its spans, one after the other.
pub proof fn law_line_text(a: Seq<SpanView>, b: Seq<SpanView>, span: SpanView)
    ensures
        line_text(seq![]) == Seq::<char>::empty(),
        line_text(seq![span]) == span.content,
        line_text(a + b) == line_text(a) + line_text(b),
    decreases b.len(),
{
    assert(seq![span].drop_last() =~= seq![]);
    assert(line_text(seq![span].drop_last()) =~= seq![]);
    assert(line_text(seq![span]) =~= span.content);
    if b.len() == 0 {
        assert(a + b =~= a);
        assert(line_text(a) + line_text(b) =~= line_text(a));
    } else {
        assert((a + b).drop_last() =~= a + b.drop_last());
        law_line_text(a, b.drop_last(), span);
        assert(line_text(a + b) =~= line_text(a) + line_text(b));
    }
}

/// Styled lines are shown as they are. Where there are none, the text of the bytes is shown, line
/// by line, without styles.
pub proof fn law_shown_lines(lines: Seq<Seq<SpanView>>, bytes: Seq<u8>)
    ensures
        shown_lines(Some(lines), bytes) == lines,
        ({
            let shown = shown_lines(None, bytes);
            let texts = lines_of(lossy_text(bytes));
            &&& shown.len() == texts.len()
            &&& forall|i: int|
                0 <= i < shown.len() ==> {
                    &&& line_text(#[trigger] shown[i]) == texts[i]
                    &&& forall|k: int|
                        0 <= k < shown[i].len() ==> (#[trigger] shown[i][k]).style is None
                }
        }),
{
    let shown = shown_lines(None, bytes);
    let texts = lines_of(lossy_text(bytes));
    assert forall|i: int| 0 <= i < shown.len() implies line_text(#[trigger] shown[i]) == texts[i]
        && forall|k: int| 0 <= k < shown[i].len() ==> (#[trigger] shown[i][k]).style is None by {
        assert(shown[i] == plain_line(texts[i]));
        if texts[i].len() > 0 {
            law_line_text(seq![], seq![], SpanView { content: texts[i], style: None });
        } else {
            assert(line_text(shown[i]) =~= texts[i]);
        }
    }
}

/// Plain text has a line for each of its lines, with that text, in one piece if there is any, and
/// without a style.
pub proof fn law_plain_text_lines(text: Seq<char>)
    ensures
        plain_lines(text).len() == lines_of(text).len(),
        forall|i: int|
            0 <= i < lines_of(text).len() ==> line_text(#[trigger] plain_lines(text)[i])
                == lines_of(text)[i],
        forall|i: int|
            0 <= i < lines_of(text).len() ==> (#[trigger] plain_lines(text)[i]).len() == (
            if lines_of(text)[i].len() == 0 {
                0nat
            } else {
                1nat
            }),
        forall|i: int, k: int|
            0 <= i < plain_lines(text).len() && 0 <= k < plain_lines(text)[i].len() ==> (
            #[trigger] plain_lines(text)[i][k]).style is None,
{
    assert forall|i: int| 0 <= i < lines_of(text).len() implies line_text(
        #[trigger] plain_lines(text)[i],
    ) == lines_of(text)[i] by {
        let line = lines_of(text)[i];
        assert(plain_lines(text)[i] == plain_line(line));
        if line.len() > 0 {
            law_line_text(seq![], seq![], SpanView { content: line, style: None });
        } else {
            assert(line_text(plain_line(line)) =~= line);
        }
    }
}

proof fn lemma_rule_count_is_filter(text: Seq<char>, stroke: spec_fn(char) -> bool)
    requires
        forall|c: char| #[trigger] stroke(c) == (c == '\u{2500}'),
    ensures
        text.filter(stroke).len() == rule_count(text),
    decreases text.len(),
{
    reveal(Seq::filter);
    if text.len() > 0 {
        lemma_rule_count_is_filter(text.drop_last(), stroke);
    }
}

/// A rule is at least ten strokes, with white space around or between them and nothing else.
pub proof fn law_rules(text: Seq<char>)
    ensures
        is_rule(text) <==> text.filter(|c: char| c == '\u{2500}').len() >= 10 && forall|i: int|
            0 <= i < text.len() ==> #[trigger] text[i] == '\u{2500}' || is_space(text[i]),
{
    lemma_rule_count_is_filter(text, |c: char| c == '\u{2500}');
}

/// White space is what Unicode calls so.
pub proof fn law_white_space(c: char)
    ensures
        is_space(c) <==> c == '\t' || c == '\n' || c == '\u{b}' || c == '\u{c}' || c == '\r' || c
            == ' ' || c == '\u{85}' || c == '\u{a0}' || c == '\u{1680}' || ('\u{2000}' <= c
            <= '\u{200a}') || c == '\u{2028}' || c == '\u{2029}' || c == '\u{202f}' || c
            == '\u{205f}' || c == '\u{3000}',
{
}

proof fn lemma_rule_is_listed(lines: Seq<Seq<SpanView>>, r: int)
    requires
        0 <= r < lines.len(),
        is_rule(line_text(lines[r])),
    ensures
        rule_rows(lines).contains(r),
    decreases lines.len(),
{
    let all = rule_rows(lines);
    if r == lines.len() - 1 {
        assert(all[all.len() - 1] == r);
    } else {
        let init = lines.drop_last();
        assert(init[r] == lines[r]);
        lemma_rule_is_listed(init, r);
        let k = choose|k: int| 0 <= k < rule_rows(init).len() && rule_rows(init)[k] == r;
        assert(all[k] == r);
    }
}

proof fn lemma_listed_is_rule(lines: Seq<Seq<SpanView>>, k: int)
    requires
        0 <= k < rule_rows(lines).len(),
    ensures
        0 <= rule_rows(lines)[k] < lines.len(),
        is_rule(line_text(lines[rule_rows(lines)[k]])),
    decreases lines.len(),
{
    let init = lines.drop_last();
    if k < rule_rows(init).len() {
        lemma_listed_is_rule(init, k);
        assert(rule_rows(lines)[k] == rule_rows(init)[k]);
    }
}

/// The rows of the rules are exactly the rows whose text is a rule, each once, from the top down.
pub proof fn law_rule_rows(lines: Seq<Seq<SpanView>>)
    ensures
        forall|r: int| #[trigger]
            rule_rows(lines).contains(r) <==> 0 <= r < lines.len() && is_rule(line_text(lines[r])),
        forall|i: int, j: int|
            0 <= i < j < rule_rows(lines).len() ==> #[trigger] rule_rows(lines)[i]
                < #[trigger] rule_rows(lines)[j],
{
    lemma_rule_rows(lines);
    assert forall|r: int| #[trigger]
        rule_rows(lines).contains(r) <==> 0 <= r < lines.len() && is_rule(line_text(lines[r])) by {
        if rule_rows(lines).contains(r) {
            let k = choose|k: int| 0 <= k < rule_rows(lines).len() && rule_rows(lines)[k] == r;
            lemma_listed_is_rule(lines, k);
        }
        if 0 <= r < lines.len() && is_rule(line_text(lines[r])) {
            lemma_rule_is_listed(lines, r);
        }
    }
}

/// As many hunks are marked as there are both rules and line numbers. Each is marked on the row
/// above its rule (on the rule itself, if that is the top row), with the line number in its turn.
pub proof fn law_marks(lines: Seq<Seq<SpanView>>, starts: Seq<u32>)
    requires
        lines.len() <= usize::MAX,
    ensures
        ({
            let rules = rule_rows(lines);
            let marks = markers(lines, starts);
            &&& marks.len() == (if rules.len() <= starts.len() {
                rules.len()
            } else {
                starts.len()
            })
            &&& forall|i: int|
                0 <= i < marks.len() ==> (#[trigger] marks[i]).1 == starts[i] && marks[i].0 as int
                    == (if rules[i] == 0 {
                    0
                } else {
                    rules[i] - 1
                })
        }),
{
    lemma_rule_rows(lines);
    let rules = rule_rows(lines);
    let marks = markers(lines, starts);
    assert forall|i: int| 0 <= i < marks.len() implies (#[trigger] marks[i]).1 == starts[i]
        && marks[i].0 as int == (if rules[i] == 0 {
        0
    } else {
        rules[i] - 1
    }) by {
        assert(0 <= rules[i] < lines.len());
    }
}

/// However hunks are marked, those are passed that begin at or above a row, up to the first that
/// does not, and the line at the row is that of the last one passed.
pub proof fn law_line_at_row_by_scan(marks: Seq<(usize, u32)>, row: int, k: int)
    requires
        0 <= k < marks.len(),
        forall|i: int| 0 <= i <= k ==> (#[trigger] marks[i]).0 <= row,
        k + 1 < marks.len() ==> marks[k + 1].0 > row,
    ensures
        line_at(marks, row) == Some(marks[k].1),
{
    lemma_scan(marks, row, k + 1);
}

proof fn lemma_scan(marks: Seq<(usize, u32)>, row: int, n: int)
    requires
        0 <= n <= marks.len(),
        forall|i: int| 0 <= i < n ==> (#[trigger] marks[i]).0 <= row,
        n < marks.len() ==> marks[n].0 > row,
    ensures
        hunks_above(marks, row) == n,
    decreases n,
{
    if n > 0 {
        let rest = marks.skip(1);
        assert(marks[0].0 <= row);
        assert forall|i: int| 0 <= i < n - 1 implies (#[trigger] rest[i]).0 <= row by {
            assert(rest[i] == marks[i + 1]);
        }
        lemma_scan(rest, row, n - 1);
    }
}

/// In hunks marked from the top down, the line at a row is that of hunk `k` if `k` is the last that
/// begins at or above the row, and that of the first hunk if none does. Without hunks there is no
/// line.
pub proof fn law_line_at_row(marks: Seq<(usize, u32)>, row: int, k: int)
    requires
        forall|i: int, j: int|
            0 <= i <= j < marks.len() ==> (#[trigger] marks[i]).0 <= (#[trigger] marks[j]).0,
        0 <= k < marks.len(),
        k + 1 < marks.len() ==> marks[k + 1].0 > row,
    ensures
        marks[k].0 <= row ==> line_at(marks, row) == Some(marks[k].1),
        marks[0].0 > row ==> line_at(marks, row) == Some(marks[0].1),
        line_at(seq![], row) is None,
{
    if marks[k].0 <= row {
        lemma_hunks_above(marks, row, k + 1);
    }
}

} // verus!
