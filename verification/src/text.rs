//! Text: characters, lines, decimal numbers and the decoding of bytes.

use vstd::prelude::*;
use vstd::utf8::{decode_utf8, valid_utf8};

verus! {

/// `String::push` appends one character.
pub assume_specification[ String::push ](s: &mut String, c: char)
    ensures
        final(s)@ == old(s)@.push(c),
;

/// `String::pop` removes the last character and returns it, or returns `None` for an empty
/// string, which it leaves as it is.
pub assume_specification[ String::pop ](s: &mut String) -> (popped: Option<char>)
    ensures
        old(s)@.len() == 0 ==> popped is None && final(s)@ == old(s)@,
        old(s)@.len() > 0 ==> popped == Some(old(s)@.last()) && final(s)@ == old(s)@.drop_last(),
;

/// What `String::from_utf8_lossy` makes of bytes: the text that they encode, with a replacement
/// character for each ill-formed stretch.
pub uninterp spec fn lossy_text(bytes: Seq<u8>) -> Seq<char>;

/// `String::from_utf8_lossy`: a function of the bytes alone, which decodes well-formed UTF-8
/// faithfully. Which stretches of ill-formed input share one replacement character is left to
/// the name `lossy_text`.
#[verifier::external_body]
pub(crate) fn decode_lossy(bytes: &Vec<u8>) -> (text: String)
    ensures
        text@ == lossy_text(bytes@),
        valid_utf8(bytes@) ==> text@ == decode_utf8(bytes@),
{
    String::from_utf8_lossy(bytes).into_owned()
}

/// `String::from_utf8`: decodes the bytes if they are well-formed UTF-8, and fails if they are
/// not.
#[verifier::external_body]
pub(crate) fn decode_strict(bytes: Vec<u8>) -> (text: Option<String>)
    ensures
        text is Some <==> valid_utf8(bytes@),
        text matches Some(t) ==> t@ == decode_utf8(bytes@),
{
    String::from_utf8(bytes).ok()
}

/// The texts of a list of strings.
pub open spec fn texts(strings: Seq<String>) -> Seq<Seq<char>> {
    Seq::new(strings.len(), |i: int| strings[i]@)
}

/// The rows of a list of character vectors.
pub open spec fn rows(lines: Seq<Vec<char>>) -> Seq<Seq<char>> {
    Seq::new(lines.len(), |i: int| lines[i]@)
}

/// The characters of a text.
pub fn chars_of(text: &str) -> (chars: Vec<char>)
    ensures
        chars@ == text@,
{
    let mut chars: Vec<char> = Vec::new();
    for c in it: text.chars()
        invariant
            it.seq() == text@,
            chars@ == text@.take(it.index()),
    {
        chars.push(c);
    }
    assert(text@.take(text@.len() as int) == text@);
    chars
}

/// The text made of the characters from `start` up to `end`.
pub fn text_from(chars: &Vec<char>, start: usize, end: usize) -> (text: String)
    requires
        start <= end <= chars@.len(),
    ensures
        text@ == chars@.subrange(start as int, end as int),
{
    let mut text = String::new();
    let mut i: usize = start;
    while i < end
        invariant
            start <= i <= end <= chars@.len(),
            text@ == chars@.subrange(start as int, i as int),
        decreases end - i,
    {
        text.push(chars[i]);
        i += 1;
    }
    text
}

/// Whether two texts are the same.
pub fn same_text(a: &str, b: &str) -> (same: bool)
    ensures
        same == (a@ == b@),
{
    let left = chars_of(a);
    let right = chars_of(b);
    if left.len() != right.len() {
        return false;
    }
    let mut i: usize = 0;
    while i < left.len()
        invariant
            left@ == a@,
            right@ == b@,
            left@.len() == right@.len(),
            i <= left@.len(),
            forall|j: int| 0 <= j < i ==> left@[j] == right@[j],
        decreases left.len() - i,
    {
        if left[i] != right[i] {
            assert(a@[i as int] != b@[i as int]);
            return false;
        }
        i += 1;
    }
    assert(a@ =~= b@);
    true
}

/// A copy of a list of strings.
pub fn copy_strings(strings: &Vec<String>) -> (copy: Vec<String>)
    ensures
        texts(copy@) == texts(strings@),
{
    let mut copy: Vec<String> = Vec::new();
    append_strings(&mut copy, strings);
    assert(texts(copy@) =~= texts(strings@));
    copy
}

/// Appends copies of `more` to `list`.
pub fn append_strings(list: &mut Vec<String>, more: &Vec<String>)
    ensures
        texts(final(list)@) == texts(old(list)@) + texts(more@),
{
    let ghost before = list@;
    let mut i: usize = 0;
    while i < more.len()
        invariant
            i <= more@.len(),
            texts(list@) == texts(before) + texts(more@).take(i as int),
        decreases more.len() - i,
    {
        let ghost last = list@;
        list.push(more[i].clone());
        assert(texts(list@) =~= texts(last).push(more@[i as int]@));
        i += 1;
        assert(texts(more@).take(i as int) =~= texts(more@).take(i - 1).push(more@[i - 1]@));
        assert(texts(list@) =~= texts(before) + texts(more@).take(i as int));
    }
    assert(texts(more@).take(i as int) =~= texts(more@));
}

/// The position of the first `c` in `s`, or the length of `s` if there is none.
pub open spec fn find_char(s: Seq<char>, c: char) -> int
    decreases s.len(),
{
    if s.len() == 0 || s[0] == c {
        0
    } else {
        1 + find_char(s.skip(1), c)
    }
}

/// `find_char` is the least position that holds `c`.
pub proof fn lemma_find_char(s: Seq<char>, c: char, n: int)
    requires
        0 <= n <= s.len(),
        forall|j: int| 0 <= j < n ==> s[j] != c,
        n < s.len() ==> s[n] == c,
    ensures
        find_char(s, c) == n,
    decreases s.len(),
{
    if n > 0 {
        assert(s[0] != c);
        assert forall|j: int| 0 <= j < n - 1 implies s.skip(1)[j] != c by {
            assert(s.skip(1)[j] == s[j + 1]);
        }
        lemma_find_char(s.skip(1), c, n - 1);
    }
}

/// The first position from `from` on that holds `c`, or the length if there is none.
pub(crate) fn find_from(chars: &Vec<char>, from: usize, c: char) -> (at: usize)
    requires
        from <= chars@.len(),
    ensures
        from <= at <= chars@.len(),
        at - from == find_char(chars@.skip(from as int), c),
        forall|j: int| from <= j < at ==> chars@[j] != c,
        at < chars@.len() ==> chars@[at as int] == c,
{
    let mut at: usize = from;
    while at < chars.len() && chars[at] != c
        invariant
            from <= at <= chars@.len(),
            forall|j: int| from <= j < at ==> chars@[j] != c,
        decreases chars.len() - at,
    {
        at += 1;
    }
    proof {
        let s = chars@.skip(from as int);
        assert forall|j: int| 0 <= j < at - from implies s[j] != c by {
            assert(s[j] == chars@[j + from]);
        }
        lemma_find_char(s, c, at - from);
    }
    at
}

/// A line without the carriage return that ended it.
pub open spec fn without_cr(line: Seq<char>) -> Seq<char> {
    if line.len() > 0 && line.last() == '\r' {
        line.drop_last()
    } else {
        line
    }
}

/// The lines of a text. A line ends at a line feed, which may follow a carriage return; neither
/// belongs to the line. The last line may lack its line feed, and then keeps a carriage return.
pub open spec fn lines_of(text: Seq<char>) -> Seq<Seq<char>>
    decreases text.len(),
{
    let end = find_char(text, '\n');
    if text.len() == 0 {
        seq![]
    } else if end < 0 || end >= text.len() {
        seq![text]
    } else {
        seq![without_cr(text.take(end))] + lines_of(text.skip(end + 1))
    }
}

/// A character that is in a text is found, at the first of its positions.
proof fn lemma_found(s: Seq<char>, c: char, at: int)
    requires
        0 <= at < s.len(),
        s[at] == c,
    ensures
        0 <= find_char(s, c) <= at,
        s[find_char(s, c)] == c,
        forall|j: int| 0 <= j < find_char(s, c) ==> s[j] != c,
    decreases s.len(),
{
    if s[0] != c {
        let rest = s.skip(1);
        assert(rest[at - 1] == c);
        lemma_found(rest, c, at - 1);
        assert forall|j: int| 0 <= j < find_char(s, c) implies s[j] != c by {
            if j > 0 {
                assert(rest[j - 1] == s[j]);
            }
        }
    }
}

/// A text that ends with a line feed, followed by another, has the lines of the first and then
/// those of the second.
pub proof fn law_lines_of_parts(a: Seq<char>, b: Seq<char>)
    requires
        a.len() == 0 || a.last() == '\n',
    ensures
        lines_of(a + b) == lines_of(a) + lines_of(b),
    decreases a.len(),
{
    if a.len() == 0 {
        assert(a + b =~= b);
        assert(lines_of(a) + lines_of(b) =~= lines_of(b));
    } else {
        lemma_found(a, '\n', a.len() - 1);
        let end = find_char(a, '\n');
        let all = a + b;
        assert forall|j: int| 0 <= j < end implies all[j] != '\n' by {
            assert(all[j] == a[j]);
        }
        lemma_find_char(all, '\n', end);
        let rest = a.skip(end + 1);
        assert(all.take(end) =~= a.take(end));
        assert(all.skip(end + 1) =~= rest + b);
        law_lines_of_parts(rest, b);
        assert(lines_of(all) =~= lines_of(a) + lines_of(b));
    }
}

/// Splits a text into its lines.
pub fn split_lines(text: &str) -> (lines: Vec<Vec<char>>)
    ensures
        rows(lines@) == lines_of(text@),
{
    let chars = chars_of(text);
    let mut lines: Vec<Vec<char>> = Vec::new();
    let mut start: usize = 0;
    assert(chars@.skip(0) =~= chars@);
    assert(rows(lines@) + lines_of(text@) =~= lines_of(text@));
    while start < chars.len()
        invariant
            chars@ == text@,
            start <= chars@.len(),
            rows(lines@) + lines_of(chars@.skip(start as int)) == lines_of(text@),
        decreases chars.len() - start,
    {
        let ghost rest = chars@.skip(start as int);
        let ghost before = lines@;
        let end = find_from(&chars, start, '\n');
        let mut stop: usize = end;
        if end < chars.len() && end > start && chars[end - 1] == '\r' {
            stop = end - 1;
        }
        let line = slice_of(&chars, start, stop);
        let next = if end < chars.len() { end + 1 } else { end };
        lines.push(line);
        proof {
            assert(rows(lines@) =~= rows(before).push(line@));
            if end < chars@.len() {
                assert(rest.take(end - start) =~= chars@.subrange(start as int, end as int));
                assert(line@ =~= without_cr(rest.take(end - start)));
                assert(rest.skip(end - start + 1) =~= chars@.skip(next as int));
                assert(lines_of(rest) == seq![line@] + lines_of(chars@.skip(next as int)));
            } else {
                assert(line@ =~= rest);
                assert(lines_of(chars@.skip(next as int)) =~= Seq::<Seq<char>>::empty());
                assert(lines_of(rest) =~= seq![line@] + lines_of(chars@.skip(next as int)));
            }
            assert(rows(lines@) + lines_of(chars@.skip(next as int)) =~= rows(before) + lines_of(
                rest,
            ));
        }
        start = next;
    }
    assert(rows(lines@) =~= rows(lines@) + lines_of(chars@.skip(start as int)));
    lines
}

/// The characters from `start` up to `end`.
pub(crate) fn slice_of(chars: &Vec<char>, start: usize, end: usize) -> (slice: Vec<char>)
    requires
        start <= end <= chars@.len(),
    ensures
        slice@ == chars@.subrange(start as int, end as int),
{
    let mut slice: Vec<char> = Vec::new();
    let mut i: usize = start;
    while i < end
        invariant
            start <= i <= end <= chars@.len(),
            slice@ == chars@.subrange(start as int, i as int),
        decreases end - i,
    {
        slice.push(chars[i]);
        i += 1;
    }
    slice
}

/// Whether `a` comes before `b`, character by character.
pub open spec fn text_less(a: Seq<char>, b: Seq<char>) -> bool
    decreases a.len(),
{
    if b.len() == 0 {
        false
    } else if a.len() == 0 {
        true
    } else if a[0] != b[0] {
        a[0] < b[0]
    } else {
        text_less(a.skip(1), b.skip(1))
    }
}

/// Whether one text comes before another.
pub fn comes_before(a: &str, b: &str) -> (before: bool)
    ensures
        before == text_less(a@, b@),
{
    let left = chars_of(a);
    let right = chars_of(b);
    let mut i: usize = 0;
    assert(left@.skip(0) =~= a@ && right@.skip(0) =~= b@);
    while i < left.len() && i < right.len()
        invariant
            i <= left@.len(),
            i <= right@.len(),
            text_less(a@, b@) == text_less(left@.skip(i as int), right@.skip(i as int)),
        decreases left.len() - i,
    {
        assert(left@.skip(i as int).skip(1) =~= left@.skip(i + 1));
        assert(right@.skip(i as int).skip(1) =~= right@.skip(i + 1));
        if left[i] != right[i] {
            return left[i] < right[i];
        }
        i += 1;
    }
    i < right.len()
}

/// No text comes before itself.
pub proof fn lemma_text_less_irreflexive(a: Seq<char>)
    ensures
        !text_less(a, a),
    decreases a.len(),
{
    if a.len() > 0 {
        lemma_text_less_irreflexive(a.skip(1));
    }
}

/// The order of texts is transitive.
pub proof fn lemma_text_less_transitive(a: Seq<char>, b: Seq<char>, c: Seq<char>)
    requires
        text_less(a, b),
        text_less(b, c),
    ensures
        text_less(a, c),
    decreases a.len(),
{
    if a.len() > 0 && a[0] == b[0] && b[0] == c[0] {
        lemma_text_less_transitive(a.skip(1), b.skip(1), c.skip(1));
    }
}

/// Of two different texts, one comes before the other.
pub proof fn lemma_text_less_total(a: Seq<char>, b: Seq<char>)
    ensures
        text_less(a, b) || text_less(b, a) || a == b,
    decreases a.len(),
{
    if a.len() > 0 && b.len() > 0 && a[0] == b[0] {
        lemma_text_less_total(a.skip(1), b.skip(1));
        if a.skip(1) == b.skip(1) {
            assert(a =~= seq![a[0]] + a.skip(1));
            assert(b =~= seq![b[0]] + b.skip(1));
        }
    } else if a.len() == 0 && b.len() == 0 {
        assert(a =~= b);
    }
}

/// The texts of a list of strings are those of its strings, one for one.
pub proof fn law_texts(strings: Seq<String>)
    ensures
        texts(strings).len() == strings.len(),
        forall|i: int| 0 <= i < strings.len() ==> #[trigger] texts(strings)[i] == strings[i]@,
{
}

/// The rows of a list of character vectors are those vectors, one for one.
pub proof fn law_rows(lines: Seq<Vec<char>>)
    ensures
        rows(lines).len() == lines.len(),
        forall|i: int| 0 <= i < lines.len() ==> #[trigger] rows(lines)[i] == lines[i]@,
{
}

/// A character is found at the first position that holds it, or at the end if none does.
pub proof fn law_first_occurrence(s: Seq<char>, c: char)
    ensures
        0 <= find_char(s, c) <= s.len(),
        forall|j: int| 0 <= j < find_char(s, c) ==> s[j] != c,
        find_char(s, c) < s.len() ==> s[find_char(s, c)] == c,
    decreases s.len(),
{
    if s.len() > 0 && s[0] != c {
        law_first_occurrence(s.skip(1), c);
        assert forall|j: int| 0 <= j < find_char(s, c) implies s[j] != c by {
            if j > 0 {
                assert(s.skip(1)[j - 1] == s[j]);
            }
        }
    }
}

/// A line feed ends a line, together with a carriage return right before it, and what follows
/// begins the next line. Without a line feed, the whole text is one line, if there is any.
pub proof fn law_line_feeds_end_lines(line: Seq<char>, rest: Seq<char>)
    requires
        forall|i: int| 0 <= i < line.len() ==> line[i] != '\n',
    ensures
        line.len() == 0 || line.last() != '\r' ==> lines_of(line + seq!['\n'] + rest) == seq![line]
            + lines_of(rest),
        lines_of(line + seq!['\r', '\n'] + rest) == seq![line] + lines_of(rest),
        line.len() > 0 ==> lines_of(line) == seq![line],
        lines_of(seq![]) == Seq::<Seq<char>>::empty(),
{
    let n = line.len() as int;
    let plain = line + seq!['\n'] + rest;
    lemma_find_char(plain, '\n', n);
    assert(plain.take(n) =~= line);
    assert(plain.skip(n + 1) =~= rest);
    let returned = line + seq!['\r', '\n'] + rest;
    assert forall|j: int| 0 <= j < n + 1 implies returned[j] != '\n' by {
        if j < line.len() {
            assert(returned[j] == line[j]);
        }
    }
    lemma_find_char(returned, '\n', n + 1);
    assert(returned.take(n + 1) =~= line.push('\r'));
    assert(line.push('\r').drop_last() =~= line);
    assert(returned.skip(n + 2) =~= rest);
    if line.len() > 0 {
        lemma_find_char(line, '\n', n);
    }
}

/// Of a text that comes before another, the first character that differs is the lesser one, unless
/// the text is over before that.
pub proof fn law_text_order(a: Seq<char>, b: Seq<char>, k: int)
    requires
        0 <= k <= a.len(),
        k <= b.len(),
        forall|i: int| 0 <= i < k ==> a[i] == b[i],
        k < a.len() && k < b.len() ==> a[k] != b[k],
    ensures
        k < a.len() && k < b.len() ==> (text_less(a, b) <==> a[k] < b[k]),
        k == a.len() ==> (text_less(a, b) <==> a.len() < b.len()),
        k == b.len() ==> !text_less(a, b),
    decreases k,
{
    if k > 0 {
        let x = a.skip(1);
        let y = b.skip(1);
        assert forall|i: int| 0 <= i < k - 1 implies x[i] == y[i] by {
            assert(x[i] == a[i + 1] && y[i] == b[i + 1]);
        }
        assert(a[0] == b[0]);
        law_text_order(x, y, k - 1);
    }
}

} // verus!
