//! The changed files of a `jj` repository.

use vstd::prelude::*;
use vstd::utf8::{
    decode_utf8, encode_utf8, encode_utf8_decode_utf8, encode_utf8_valid_utf8, valid_utf8,
};

use crate::effect::output_view;
use crate::git::diff::{color_args, raw_args};
use crate::text::{
    append_strings, chars_of, comes_before, decode_strict, find_char, find_from,
    law_lines_of_parts, lemma_find_char, lemma_text_less_irreflexive, lemma_text_less_total,
    lemma_text_less_transitive, lines_of, rows, split_lines, text_from, text_less, texts,
};

verus! {

/// What happened to a file.
#[derive(Debug, Clone, Copy, PartialEq, Eq, Structural)]
pub enum FileStatus {
    Modified,
    Added,
    Deleted,
    Renamed,
    /// Never reported by `jj`, which lists new files as added.
    Untracked,
}

/// A changed file.
#[derive(Debug)]
pub struct ChangedFile {
    pub path: String,
    pub status: FileStatus,
}

impl Clone for ChangedFile {
    fn clone(&self) -> (copy: Self)
        ensures
            copy@ == self@,
    {
        ChangedFile { path: self.path.clone(), status: self.status }
    }
}

/// The contents of a `ChangedFile`.
pub struct FileView {
    pub path: Seq<char>,
    pub status: FileStatus,
}

impl View for ChangedFile {
    type V = FileView;

    open spec fn view(&self) -> FileView {
        FileView { path: self.path@, status: self.status }
    }
}

/// The contents of a list of files.
pub open spec fn file_views(files: Seq<ChangedFile>) -> Seq<FileView> {
    Seq::new(files.len(), |i: int| files[i]@)
}

/// Whether ` => ` stands in `s` at position `i`.
pub open spec fn arrow_at(s: Seq<char>, i: int) -> bool {
    0 <= i && i + 4 <= s.len() && s[i] == ' ' && s[i + 1] == '=' && s[i + 2] == '>' && s[i + 3]
        == ' '
}

/// What follows the last ` => ` in `s` that begins before position `hi`; all of `s` if there is
/// none.
pub open spec fn after_arrow(s: Seq<char>, hi: int) -> Seq<char>
    decreases hi,
{
    if hi <= 0 {
        s
    } else if arrow_at(s, hi - 1) {
        s.skip(hi - 1 + 4)
    } else {
        after_arrow(s, hi - 1)
    }
}

/// The path that a line of the summary is about. A rename is written `old => new`, and the new
/// path is meant.
pub open spec fn shown_path(s: Seq<char>) -> Seq<char> {
    after_arrow(s, s.len() as int)
}

/// The status that a marker stands for.
pub open spec fn marked_status(marker: Seq<char>) -> Option<FileStatus> {
    if marker == seq!['A'] {
        Some(FileStatus::Added)
    } else if marker == seq!['D'] {
        Some(FileStatus::Deleted)
    } else if marker == seq!['R'] {
        Some(FileStatus::Renamed)
    } else if marker == seq!['M'] || marker == seq!['C'] {
        Some(FileStatus::Modified)
    } else {
        None
    }
}

/// The file that a line of `jj diff --summary` reports: a marker, a space, and the path. `None`
/// where there is no space, the marker is unknown or the path is empty.
pub open spec fn summary_entry(line: Seq<char>) -> Option<FileView> {
    let space = find_char(line, ' ');
    let path = shown_path(line.skip(space + 1));
    if space >= line.len() || path.len() == 0 {
        None
    } else {
        match marked_status(line.take(space)) {
            Some(status) => Some(FileView { path, status }),
            None => None,
        }
    }
}

/// The contents of an optional file.
pub open spec fn entry_view(entry: Option<ChangedFile>) -> Option<FileView> {
    match entry {
        Some(file) => Some(file@),
        None => None,
    }
}

/// The position after the last ` => ` from `start` on, or `start` if there is none.
fn find_shown_path(line: &Vec<char>, start: usize) -> (at: usize)
    requires
        start <= line@.len(),
    ensures
        start <= at <= line@.len(),
        line@.skip(at as int) == shown_path(line@.skip(start as int)),
{
    let ghost s = line@.skip(start as int);
    let len: usize = line.len();
    let mut hi: usize = len - start;
    while hi > 0
        invariant
            start <= len == line@.len(),
            s == line@.skip(start as int),
            start + hi <= line@.len(),
            shown_path(s) == after_arrow(s, hi as int),
        decreases hi,
    {
        let i = start + (hi - 1);
        if len - i >= 4 && line[i] == ' ' && line[i + 1] == '=' && line[i + 2] == '>'
            && line[i + 3] == ' ' {
            assert(arrow_at(s, hi - 1));
            assert(s.skip(hi - 1 + 4) =~= line@.skip(i + 4));
            return i + 4;
        }
        hi -= 1;
    }
    start
}

/// Reads one line of the summary.
fn read_summary_line(line: &Vec<char>) -> (entry: Option<ChangedFile>)
    ensures
        entry_view(entry) == summary_entry(line@),
{
    assert(line@.skip(0) =~= line@);
    let space = find_from(line, 0, ' ');
    if space >= line.len() {
        return None;
    }
    let at = find_shown_path(line, space + 1);
    proof {
        let marker = line@.take(space as int);
        assert(marker.len() == 1 ==> marker =~= seq![line@[0]]);
        assert(seq!['A'][0] == 'A' && seq!['D'][0] == 'D' && seq!['R'][0] == 'R');
        assert(seq!['M'][0] == 'M' && seq!['C'][0] == 'C');
    }
    if space != 1 || at == line.len() {
        return None;
    }
    let status = match line[0] {
        'A' => FileStatus::Added,
        'D' => FileStatus::Deleted,
        'R' => FileStatus::Renamed,
        'M' => FileStatus::Modified,
        'C' => FileStatus::Modified,
        _ => return None,
    };
    let path = text_from(line, at, line.len());
    assert(path@ =~= line@.skip(at as int));
    Some(ChangedFile { path, status })
}

/// Parses one line of `jj diff --summary`, such as `M path/to/file` or `R old => new`.
pub fn parse_summary_line(line: &str) -> (entry: Option<ChangedFile>)
    ensures
        entry_view(entry) == summary_entry(line@),
{
    let chars = chars_of(line);
    read_summary_line(&chars)
}

/// The files that a summary reports, in its order.
pub open spec fn summary_entries(lines: Seq<Seq<char>>) -> Seq<FileView>
    decreases lines.len(),
{
    if lines.len() == 0 {
        seq![]
    } else {
        match summary_entry(lines.last()) {
            Some(file) => summary_entries(lines.drop_last()).push(file),
            None => summary_entries(lines.drop_last()),
        }
    }
}

/// Where a file with the given path goes in a list: behind the last file whose path does not
/// come after it.
pub open spec fn place_for(files: Seq<FileView>, path: Seq<char>) -> int
    decreases files.len(),
{
    if files.len() == 0 || !text_less(path, files.last().path) {
        files.len() as int
    } else {
        place_for(files.drop_last(), path)
    }
}

/// The files in the order of their paths; files with the same path stay in the order in which
/// they came.
pub open spec fn by_path(files: Seq<FileView>) -> Seq<FileView>
    decreases files.len(),
{
    if files.len() == 0 {
        seq![]
    } else {
        let sorted = by_path(files.drop_last());
        sorted.insert(place_for(sorted, files.last().path), files.last())
    }
}

/// The changed files that a summary reports, in the order of their paths.
pub open spec fn listing(summary: Seq<char>) -> Seq<FileView> {
    by_path(summary_entries(lines_of(summary)))
}

/// `place_for` is a position in the list.
pub proof fn lemma_place_for(files: Seq<FileView>, path: Seq<char>)
    ensures
        0 <= place_for(files, path) <= files.len(),
        forall|j: int|
            place_for(files, path) <= j < files.len() ==> text_less(
                path,
                (#[trigger] files[j]).path,
            ),
        place_for(files, path) > 0 ==> !text_less(
            path,
            files[place_for(files, path) - 1].path,
        ),
    decreases files.len(),
{
    if files.len() > 0 && text_less(path, files.last().path) {
        lemma_place_for(files.drop_last(), path);
        assert forall|j: int| place_for(files, path) <= j < files.len() implies text_less(
            path,
            (#[trigger] files[j]).path,
        ) by {
            if j < files.len() - 1 {
                assert(files[j] == files.drop_last()[j]);
            }
        }
    }
}

/// Puts a file in its place.
fn insert_by_path(files: &mut Vec<ChangedFile>, file: ChangedFile)
    ensures
        file_views(final(files)@) == file_views(old(files)@).insert(
            place_for(file_views(old(files)@), file.path@),
            file@,
        ),
{
    let ghost all = file_views(files@);
    let mut at: usize = files.len();
    proof {
        lemma_place_for(all, file.path@);
        assert(all.take(at as int) =~= all);
    }
    while at > 0 && comes_before(file.path.as_str(), files[at - 1].path.as_str())
        invariant
            at <= files@.len(),
            all == file_views(files@),
            place_for(all.take(at as int), file.path@) == place_for(all, file.path@),
        decreases at,
    {
        proof {
            assert(all.take(at as int).last() == files@[at - 1]@);
            assert(all.take(at as int).drop_last() =~= all.take(at - 1));
        }
        at -= 1;
    }
    proof {
        if at > 0 {
            assert(all.take(at as int).last() == files@[at - 1]@);
        }
    }
    let ghost added = file@;
    files.insert(at, file);
    assert(file_views(files@) =~= all.insert(at as int, added));
}

/// Why a repository could not be read.
#[derive(Debug, Clone, Copy, PartialEq, Eq, Structural)]
pub enum RepositoryError {
    /// `jj` could not be run.
    JjNotRun,
    /// There is no repository here.
    NotARepository,
    /// The summary of changes could not be taken.
    SummaryNotRun,
    /// The summary of changes is not UTF-8.
    SummaryNotUtf8,
}

impl RepositoryError {
    /// What a reader is told.
    pub open spec fn text(self) -> Seq<char> {
        match self {
            RepositoryError::JjNotRun => "Failed to run jj. Is jj installed and on PATH?"@,
            RepositoryError::NotARepository =>
                "Not a jj repository. Please run this command inside a jj repository."@,
            RepositoryError::SummaryNotRun => "Failed to run jj diff --summary"@,
            RepositoryError::SummaryNotUtf8 => "jj diff --summary returned invalid UTF-8"@,
        }
    }

    /// What a reader is told.
    pub fn message(self) -> (message: String)
        ensures
            message@ == self.text(),
    {
        match self {
            RepositoryError::JjNotRun =>
                "Failed to run jj. Is jj installed and on PATH?".to_string(),
            RepositoryError::NotARepository =>
                "Not a jj repository. Please run this command inside a jj repository.".to_string(),
            RepositoryError::SummaryNotRun => "Failed to run jj diff --summary".to_string(),
            RepositoryError::SummaryNotUtf8 =>
                "jj diff --summary returned invalid UTF-8".to_string(),
        }
    }
}

/// A source of changed files. `selection` holds the revision arguments of `jj` (such as
/// `--from x --to y`), which the diffs of single files share; empty means the working copy.
pub struct Repository {
    selection: Vec<String>,
}

impl View for Repository {
    type V = Seq<Seq<char>>;

    closed spec fn view(&self) -> Seq<Seq<char>> {
        texts(self.selection@)
    }
}

/// Whether there is a repository, given the exit of `jj root`: `None` if it could not be run,
/// else whether it succeeded.
pub open spec fn root_error(root: Option<bool>) -> Option<RepositoryError> {
    match root {
        None => Some(RepositoryError::JjNotRun),
        Some(false) => Some(RepositoryError::NotARepository),
        Some(true) => None,
    }
}

/// The files that the output of `jj diff --summary` reports.
pub open spec fn changed_files(output: Option<Seq<u8>>) -> Result<Seq<FileView>, RepositoryError> {
    match output {
        None => Err(RepositoryError::SummaryNotRun),
        Some(bytes) => if valid_utf8(bytes) {
            Ok(listing(decode_utf8(bytes)))
        } else {
            Err(RepositoryError::SummaryNotUtf8)
        },
    }
}

/// The contents of a result of listing the files.
pub open spec fn files_view(
    files: Result<Vec<ChangedFile>, RepositoryError>,
) -> Result<Seq<FileView>, RepositoryError> {
    match files {
        Ok(files) => Ok(file_views(files@)),
        Err(e) => Err(e),
    }
}

/// The arguments of `jj` for the summary of changes.
pub open spec fn summary_args(selection: Seq<Seq<char>>) -> Seq<Seq<char>> {
    seq!["diff"@] + selection + seq!["--summary"@]
}

impl Repository {
    /// Opens the repository, given the exit of `jj root`.
    pub fn open(selection: Vec<String>, root: Option<bool>) -> (result: Result<
        Repository,
        RepositoryError,
    >)
        ensures
            match root_error(root) {
                Some(e) => result == Err::<Repository, RepositoryError>(e),
                None => result is Ok && result->Ok_0@ == texts(selection@),
            },
    {
        match root {
            None => Err(RepositoryError::JjNotRun),
            Some(success) => if success {
                Ok(Repository { selection })
            } else {
                Err(RepositoryError::NotARepository)
            },
        }
    }

    /// The arguments of `jj` for the summary of changes.
    pub fn summary_command(&self) -> (args: Vec<String>)
        ensures
            texts(args@) == summary_args(self@),
    {
        let mut args: Vec<String> = Vec::new();
        args.push("diff".to_string());
        assert(texts(args@) =~= seq!["diff"@]);
        append_strings(&mut args, &self.selection);
        let ghost before = args@;
        args.push("--summary".to_string());
        assert(texts(args@) =~= texts(before).push("--summary"@));
        assert(texts(args@) =~= summary_args(self@));
        args
    }

    /// The changed files in the order of their paths, given the output of the summary command.
    pub fn get_changed_files(&self, output: Option<Vec<u8>>) -> (files: Result<
        Vec<ChangedFile>,
        RepositoryError,
    >)
        ensures
            files_view(files) == changed_files(output_view(output)),
    {
        let bytes = match output {
            Some(bytes) => bytes,
            None => return Err(RepositoryError::SummaryNotRun),
        };
        let summary = match decode_strict(bytes) {
            Some(summary) => summary,
            None => return Err(RepositoryError::SummaryNotUtf8),
        };
        Ok(list_files(summary.as_str()))
    }
}

/// The changed files that a summary reports, in the order of their paths.
fn list_files(summary: &str) -> (files: Vec<ChangedFile>)
    ensures
        file_views(files@) == listing(summary@),
{
    let lines = split_lines(summary);
    let ghost all = rows(lines@);
    let mut files: Vec<ChangedFile> = Vec::new();
    let mut i: usize = 0;
    assert(summary_entries(all.take(0)) =~= seq![]);
    assert(file_views(files@) =~= by_path(seq![]));
    while i < lines.len()
        invariant
            i <= lines@.len(),
            all == rows(lines@),
            file_views(files@) == by_path(summary_entries(all.take(i as int))),
        decreases lines.len() - i,
    {
        proof {
            assert(all.take(i + 1).drop_last() =~= all.take(i as int));
            assert(all.take(i + 1).last() == lines@[i as int]@);
            if let Some(file) = summary_entry(all[i as int]) {
                let entries = summary_entries(all.take(i as int));
                assert(entries.push(file).drop_last() =~= entries);
            }
        }
        if let Some(file) = read_summary_line(&lines[i]) {
            insert_by_path(&mut files, file);
        }
        i += 1;
    }
    assert(all.take(i as int) =~= all);
    files
}

/// Whether no file comes before one whose path comes before its own.
pub open spec fn ordered(files: Seq<FileView>) -> bool {
    forall|i: int, j: int|
        0 <= i < j < files.len() ==> !text_less((#[trigger] files[j]).path, (#[trigger] files[i]).path)
}

/// The files with a given path, in order.
pub open spec fn with_path(files: Seq<FileView>, path: Seq<char>) -> Seq<FileView>
    decreases files.len(),
{
    if files.len() == 0 {
        seq![]
    } else if files.last().path == path {
        with_path(files.drop_last(), path).push(files.last())
    } else {
        with_path(files.drop_last(), path)
    }
}

/// Sorted files are in the order of their paths.
pub proof fn law_by_path_is_ordered(files: Seq<FileView>)
    ensures
        ordered(by_path(files)),
    decreases files.len(),
{
    if files.len() > 0 {
        let sorted = by_path(files.drop_last());
        let file = files.last();
        let at = place_for(sorted, file.path);
        law_by_path_is_ordered(files.drop_last());
        lemma_place_for(sorted, file.path);
        let all = by_path(files);
        assert forall|i: int, j: int| 0 <= i < j < all.len() implies !text_less(
            (#[trigger] all[j]).path,
            (#[trigger] all[i]).path,
        ) by {
            if i == at {
                assert(all[j] == sorted[j - 1]);
                if text_less(sorted[j - 1].path, file.path) {
                    lemma_text_less_transitive(file.path, sorted[j - 1].path, file.path);
                    lemma_text_less_irreflexive(file.path);
                }
            } else if j == at {
                assert(all[i] == sorted[i]);
                if text_less(file.path, sorted[i].path) {
                    // Nothing before the place comes after the file: the last does not, and
                    // the others do not come after the last.
                    assert(!text_less(file.path, sorted[at - 1].path));
                    if i != at - 1 {
                        assert(!text_less(sorted[at - 1].path, sorted[i].path));
                        lemma_text_less_total(file.path, sorted[at - 1].path);
                        if text_less(sorted[at - 1].path, file.path) {
                            lemma_text_less_transitive(
                                sorted[at - 1].path,
                                file.path,
                                sorted[i].path,
                            );
                        }
                    }
                }
            } else {
                let i2 = if i < at { i } else { i - 1 };
                let j2 = if j < at { j } else { j - 1 };
                assert(all[i] == sorted[i2] && all[j] == sorted[j2]);
            }
        }
    }
}

proof fn lemma_with_path_concat(a: Seq<FileView>, b: Seq<FileView>, path: Seq<char>)
    ensures
        with_path(a + b, path) == with_path(a, path) + with_path(b, path),
    decreases b.len(),
{
    if b.len() == 0 {
        assert(a + b =~= a);
        assert(with_path(a, path) + with_path(b, path) =~= with_path(a, path));
    } else {
        assert((a + b).drop_last() =~= a + b.drop_last());
        lemma_with_path_concat(a, b.drop_last(), path);
        assert(with_path(a + b, path) =~= with_path(a, path) + with_path(b, path));
    }
}

proof fn lemma_with_path_none(files: Seq<FileView>, path: Seq<char>)
    requires
        forall|j: int| 0 <= j < files.len() ==> (#[trigger] files[j]).path != path,
    ensures
        with_path(files, path) == Seq::<FileView>::empty(),
    decreases files.len(),
{
    if files.len() > 0 {
        assert forall|j: int| 0 <= j < files.drop_last().len() implies (
        #[trigger] files.drop_last()[j]).path != path by {
            assert(files.drop_last()[j] == files[j]);
        }
        lemma_with_path_none(files.drop_last(), path);
    }
}

/// Sorting keeps the files of each path in the order in which they came.
pub proof fn law_by_path_is_stable(files: Seq<FileView>, path: Seq<char>)
    ensures
        with_path(by_path(files), path) == with_path(files, path),
    decreases files.len(),
{
    if files.len() > 0 {
        let sorted = by_path(files.drop_last());
        let file = files.last();
        let at = place_for(sorted, file.path);
        law_by_path_is_stable(files.drop_last(), path);
        lemma_place_for(sorted, file.path);
        let head = sorted.take(at);
        let tail = sorted.skip(at);
        assert(sorted =~= head + tail);
        assert(by_path(files) =~= head + seq![file] + tail);
        lemma_with_path_concat(head, tail, path);
        lemma_with_path_concat(head, seq![file], path);
        lemma_with_path_concat(head + seq![file], tail, path);
        assert(seq![file].drop_last() =~= seq![]);
        assert(with_path(seq![file].drop_last(), path) =~= seq![]);
        if file.path == path {
            assert forall|j: int| 0 <= j < tail.len() implies (#[trigger] tail[j]).path != path by {
                assert(tail[j] == sorted[at + j]);
                assert(text_less(file.path, sorted[at + j].path));
                lemma_text_less_irreflexive(path);
            }
            lemma_with_path_none(tail, path);
            assert(with_path(by_path(files), path) =~= with_path(files, path));
        } else {
            assert(with_path(by_path(files), path) =~= with_path(files, path));
        }
    }
}

/// Sorting neither adds nor loses a file.
pub proof fn law_by_path_is_permutation(files: Seq<FileView>)
    ensures
        by_path(files).to_multiset() == files.to_multiset(),
    decreases files.len(),
{
    if files.len() > 0 {
        let sorted = by_path(files.drop_last());
        let at = place_for(sorted, files.last().path);
        law_by_path_is_permutation(files.drop_last());
        lemma_place_for(sorted, files.last().path);
        vstd::seq_lib::to_multiset_insert(sorted, at, files.last());
        vstd::seq_lib::to_multiset_build(files.drop_last(), files.last());
        assert(files.drop_last().push(files.last()) =~= files);
    } else {
        assert(files =~= by_path(files));
    }
}

/// A path that occurs in a list occurs among the files with that path.
proof fn lemma_with_path_some(files: Seq<FileView>, path: Seq<char>)
    ensures
        with_path(files, path).len() > 0 <==> exists|j: int|
            0 <= j < files.len() && (#[trigger] files[j]).path == path,
        files.len() > 0 && files.last().path == path ==> with_path(files, path).last()
            == files.last(),
    decreases files.len(),
{
    if files.len() > 0 {
        let init = files.drop_last();
        lemma_with_path_some(init, path);
        if files.last().path == path {
            assert(files[files.len() - 1].path == path);
        } else if with_path(init, path).len() > 0 {
            let j = choose|j: int| 0 <= j < init.len() && (#[trigger] init[j]).path == path;
            assert(files[j].path == path);
        } else if exists|j: int| 0 <= j < files.len() && (#[trigger] files[j]).path == path {
            let j = choose|j: int| 0 <= j < files.len() && (#[trigger] files[j]).path == path;
            assert(init[j].path == path);
        }
    }
}

/// There is one arrangement of files only that is in the order of the paths and keeps the files
/// of each path in their order.
pub proof fn law_order_is_unique(a: Seq<FileView>, b: Seq<FileView>)
    requires
        ordered(a),
        ordered(b),
        forall|path: Seq<char>| #[trigger] with_path(a, path) == with_path(b, path),
    ensures
        a == b,
    decreases a.len(),
{
    if a.len() == 0 {
        if b.len() > 0 {
            lemma_with_path_some(b, b.last().path);
            assert(with_path(a, b.last().path) == with_path(b, b.last().path));
            assert(b[b.len() - 1].path == b.last().path);
        }
        assert(a =~= b);
    } else {
        let p = a.last().path;
        lemma_with_path_some(a, p);
        assert(a[a.len() - 1].path == p);
        assert(with_path(a, p) == with_path(b, p));
        lemma_with_path_some(b, p);
        let j = choose|j: int| 0 <= j < b.len() && (#[trigger] b[j]).path == p;
        let q = b.last().path;
        lemma_with_path_some(b, q);
        assert(b[b.len() - 1].path == q);
        assert(with_path(a, q) == with_path(b, q));
        lemma_with_path_some(a, q);
        let i = choose|i: int| 0 <= i < a.len() && (#[trigger] a[i]).path == q;
        lemma_text_less_irreflexive(p);
        assert(!text_less(q, p)) by {
            if j < b.len() - 1 {
                assert(!text_less(b[b.len() - 1].path, b[j].path));
            }
        }
        assert(!text_less(p, q)) by {
            if i < a.len() - 1 {
                assert(!text_less(a[a.len() - 1].path, a[i].path));
            }
        }
        lemma_text_less_total(p, q);
        assert(a.last() == b.last());
        let a0 = a.drop_last();
        let b0 = b.drop_last();
        assert(ordered(a0)) by {
            assert forall|x: int, y: int| 0 <= x < y < a0.len() implies !text_less(
                (#[trigger] a0[y]).path,
                (#[trigger] a0[x]).path,
            ) by {
                assert(a0[y] == a[y] && a0[x] == a[x]);
            }
        }
        assert(ordered(b0)) by {
            assert forall|x: int, y: int| 0 <= x < y < b0.len() implies !text_less(
                (#[trigger] b0[y]).path,
                (#[trigger] b0[x]).path,
            ) by {
                assert(b0[y] == b[y] && b0[x] == b[x]);
            }
        }
        assert forall|path: Seq<char>| #[trigger] with_path(a0, path) == with_path(b0, path) by {
            assert(with_path(a, path) == with_path(b, path));
            if path == p {
                assert(with_path(a, path).drop_last() =~= with_path(a0, path));
                assert(with_path(b, path).drop_last() =~= with_path(b0, path));
            }
        }
        law_order_is_unique(a0, b0);
        assert(a =~= a0.push(a.last()));
        assert(b =~= b0.push(b.last()));
    }
}

/// Whether every file has a path.
pub open spec fn all_named(files: Seq<FileView>) -> bool {
    forall|i: int| 0 <= i < files.len() ==> (#[trigger] files[i]).path.len() > 0
}

proof fn lemma_entries_named(lines: Seq<Seq<char>>)
    ensures
        all_named(summary_entries(lines)),
    decreases lines.len(),
{
    if lines.len() > 0 {
        lemma_entries_named(lines.drop_last());
    }
}

proof fn lemma_by_path_named(files: Seq<FileView>)
    requires
        all_named(files),
    ensures
        all_named(by_path(files)),
    decreases files.len(),
{
    if files.len() > 0 {
        assert(all_named(files.drop_last())) by {
            assert forall|i: int| 0 <= i < files.drop_last().len() implies (
            #[trigger] files.drop_last()[i]).path.len() > 0 by {
                assert(files.drop_last()[i] == files[i]);
            }
        }
        lemma_by_path_named(files.drop_last());
        lemma_place_for(by_path(files.drop_last()), files.last().path);
    }
}

/// A listing is in the order of its paths, and no path in it is empty.
pub proof fn law_listing(summary: Seq<char>)
    ensures
        ordered(listing(summary)),
        all_named(listing(summary)),
{
    let entries = summary_entries(lines_of(summary));
    law_by_path_is_ordered(entries);
    lemma_entries_named(lines_of(summary));
    lemma_by_path_named(entries);
}

proof fn lemma_after_arrow_none(s: Seq<char>, hi: int)
    requires
        forall|i: int| !arrow_at(s, i),
    ensures
        after_arrow(s, hi) == s,
    decreases hi,
{
    if hi > 0 {
        lemma_after_arrow_none(s, hi - 1);
    }
}

proof fn lemma_after_arrow_last(s: Seq<char>, at: int, hi: int)
    requires
        arrow_at(s, at),
        at < hi,
        forall|i: int| at < i ==> !arrow_at(s, i),
    ensures
        after_arrow(s, hi) == s.skip(at + 4),
    decreases hi,
{
    if hi - 1 > at {
        lemma_after_arrow_last(s, at, hi - 1);
    }
}

/// A summary line of a marker and a path without an arrow reports that path.
pub proof fn law_plain_line(marker: char, path: Seq<char>)
    requires
        marked_status(seq![marker]) is Some,
        path.len() > 0,
        forall|i: int| !arrow_at(path, i),
    ensures
        summary_entry(seq![marker, ' '] + path) == Some(
            FileView { path, status: marked_status(seq![marker])->0 },
        ),
{
    let line = seq![marker, ' '] + path;
    assert(marker != ' ') by {
        assert(seq![marker][0] == marker);
        assert(seq!['A'][0] == 'A' && seq!['D'][0] == 'D' && seq!['R'][0] == 'R');
        assert(seq!['M'][0] == 'M' && seq!['C'][0] == 'C');
    }
    crate::text::lemma_find_char(line, ' ', 1);
    assert(line.take(1) =~= seq![marker]);
    assert(line.skip(2) =~= path);
    lemma_after_arrow_none(path, path.len() as int);
}

/// A rename reports the new path. The new path may hold no arrow, neither by itself nor together
/// with the space before it.
pub proof fn law_rename_reports_new_path(old_path: Seq<char>, new_path: Seq<char>)
    requires
        new_path.len() > 0,
        forall|i: int| !arrow_at(seq![' '] + new_path, i),
    ensures
        summary_entry(seq!['R', ' '] + old_path + seq![' ', '=', '>', ' '] + new_path) == Some(
            FileView { path: new_path, status: FileStatus::Renamed },
        ),
{
    let line = seq!['R', ' '] + old_path + seq![' ', '=', '>', ' '] + new_path;
    let rest = old_path + seq![' ', '=', '>', ' '] + new_path;
    crate::text::lemma_find_char(line, ' ', 1);
    assert(line.take(1) =~= seq!['R']);
    assert(line.skip(2) =~= rest);
    assert(seq!['R'][0] == 'R' && seq!['A'][0] == 'A' && seq!['D'][0] == 'D');
    let at = old_path.len() as int;
    assert(arrow_at(rest, at));
    assert forall|i: int| at < i implies !arrow_at(rest, i) by {
        let tail = seq![' '] + new_path;
        if arrow_at(rest, i) {
            if i >= at + 3 {
                assert(forall|k: int| 0 <= k < tail.len() ==> tail[k] == rest[at + 3 + k]);
                assert(arrow_at(tail, i - at - 3));
            } else {
                assert(rest[at + 1] == '=' && rest[at + 2] == '>');
            }
        }
    }
    lemma_after_arrow_last(rest, at, rest.len() as int);
    assert(rest.skip(at + 4) =~= new_path);
}

/// The list of changed files and both diffs of a file speak of the same selection of revisions:
/// the three commands agree in `diff` and the arguments after it that make up the selection.
pub proof fn law_commands_share_selection(path: Seq<char>, selection: Seq<Seq<char>>)
    ensures
        ({
            let n = 1 + selection.len() as int;
            &&& summary_args(selection).take(n) == seq!["diff"@] + selection
            &&& raw_args(path, selection).take(n) == seq!["diff"@] + selection
            &&& color_args(path, selection).skip(1).take(n) == seq!["diff"@] + selection
        }),
{
    let n = 1 + selection.len() as int;
    assert(summary_args(selection).take(n) =~= seq!["diff"@] + selection);
    assert(raw_args(path, selection).take(n) =~= seq!["diff"@] + selection);
    assert(color_args(path, selection).skip(1).take(n) =~= seq!["diff"@] + selection);
}

/// Whether a text holds ` => ` nowhere.
pub open spec fn without_arrow(s: Seq<char>) -> bool {
    forall|i: int|
        0 <= i && i + 3 < s.len() ==> !(#[trigger] s[i] == ' ' && s[i + 1] == '=' && s[i + 2] == '>'
            && s[i + 3] == ' ')
}

/// A line of a marker letter, a space and a path without an arrow reports that path, with the
/// status that the letter stands for: added, deleted, renamed, or modified (for a modified or a
/// copied file). A line with another marker reports nothing.
pub proof fn law_letters_stand_for_statuses(marker: char, path: Seq<char>)
    requires
        path.len() > 0,
        without_arrow(path),
    ensures
        ({
            let entry = summary_entry(seq![marker, ' '] + path);
            &&& marker == 'A' ==> entry == Some(FileView { path, status: FileStatus::Added })
            &&& marker == 'D' ==> entry == Some(FileView { path, status: FileStatus::Deleted })
            &&& marker == 'R' ==> entry == Some(FileView { path, status: FileStatus::Renamed })
            &&& marker == 'M' ==> entry == Some(FileView { path, status: FileStatus::Modified })
            &&& marker == 'C' ==> entry == Some(FileView { path, status: FileStatus::Modified })
        }),
{
    assert(seq![marker][0] == marker);
    assert(seq!['A'][0] == 'A' && seq!['D'][0] == 'D' && seq!['R'][0] == 'R');
    assert(seq!['M'][0] == 'M' && seq!['C'][0] == 'C');
    assert(marked_status(seq!['A']) == Some(FileStatus::Added));
    assert(marked_status(seq!['D']) == Some(FileStatus::Deleted));
    assert(marked_status(seq!['R']) == Some(FileStatus::Renamed));
    assert(marked_status(seq!['M']) == Some(FileStatus::Modified));
    assert(marked_status(seq!['C']) == Some(FileStatus::Modified));
    assert forall|i: int| !arrow_at(path, i) by {
        assert(0 <= i && i + 3 < path.len() ==> path[i] == path[i]);
    }
    if marked_status(seq![marker]) is Some {
        law_plain_line(marker, path);
    }
}

/// Whatever the marker, what is reported is the path behind the last arrow.
pub proof fn law_path_is_behind_last_arrow(
    marker: char,
    old_path: Seq<char>,
    new_path: Seq<char>,
)
    requires
        new_path.len() > 0,
        without_arrow(seq![' '] + new_path),
        marker == 'A' || marker == 'D' || marker == 'R' || marker == 'M' || marker == 'C',
    ensures
        ({
            let entry = summary_entry(
                seq![marker, ' '] + old_path + seq![' ', '=', '>', ' '] + new_path,
            );
            &&& entry is Some
            &&& entry->0.path == new_path
            &&& marker == 'A' ==> entry->0.status == FileStatus::Added
            &&& marker == 'D' ==> entry->0.status == FileStatus::Deleted
            &&& marker == 'R' ==> entry->0.status == FileStatus::Renamed
            &&& marker == 'M' || marker == 'C' ==> entry->0.status == FileStatus::Modified
        }),
{
    let tail = seq![' '] + new_path;
    let line = seq![marker, ' '] + old_path + seq![' ', '=', '>', ' '] + new_path;
    let rest = old_path + seq![' ', '=', '>', ' '] + new_path;
    assert(line[0] == marker && line[1] == ' ');
    lemma_find_char(line, ' ', 1);
    assert(line.take(1) =~= seq![marker]);
    assert(line.skip(2) =~= rest);
    assert(seq![marker][0] == marker);
    assert(seq!['A'][0] == 'A' && seq!['D'][0] == 'D' && seq!['R'][0] == 'R');
    assert(seq!['M'][0] == 'M' && seq!['C'][0] == 'C');
    let at = old_path.len() as int;
    assert(arrow_at(rest, at));
    assert forall|i: int| at < i implies !arrow_at(rest, i) by {
        if arrow_at(rest, i) {
            if i >= at + 3 {
                assert(forall|k: int| 0 <= k < tail.len() ==> tail[k] == rest[at + 3 + k]);
                assert(tail[i - at - 3] == ' ');
            } else {
                assert(rest[at + 1] == '=' && rest[at + 2] == '>');
            }
        }
    }
    lemma_after_arrow_last(rest, at, rest.len() as int);
    assert(rest.skip(at + 4) =~= new_path);
}

/// A line reports nothing without a space, with a marker that is not one of five letters, or
/// without a path.
pub proof fn law_other_lines_report_nothing(
    marker: Seq<char>,
    rest: Seq<char>,
    old_path: Seq<char>,
)
    requires
        forall|i: int| 0 <= i < marker.len() ==> marker[i] != ' ',
    ensures
        summary_entry(marker) is None,
        marker.len() != 1 || (marker[0] != 'A' && marker[0] != 'D' && marker[0] != 'R' && marker[0]
            != 'M' && marker[0] != 'C') ==> summary_entry(marker + seq![' '] + rest) is None,
        summary_entry(marker + seq![' ']) is None,
        summary_entry(marker + seq![' '] + (old_path + seq![' ', '=', '>', ' '])) is None,
{
    let n = marker.len() as int;
    lemma_find_char(marker, ' ', n);
    let line = marker + seq![' '] + rest;
    lemma_find_char(line, ' ', n);
    assert(line.take(n) =~= marker);
    assert(seq!['A'][0] == 'A' && seq!['D'][0] == 'D' && seq!['R'][0] == 'R');
    assert(seq!['M'][0] == 'M' && seq!['C'][0] == 'C');
    let bare = marker + seq![' '];
    lemma_find_char(bare, ' ', n);
    assert(bare.skip(n + 1) =~= seq![]);
    let renamed = marker + seq![' '] + (old_path + seq![' ', '=', '>', ' ']);
    lemma_find_char(renamed, ' ', n);
    let shown = old_path + seq![' ', '=', '>', ' '];
    assert(renamed.skip(n + 1) =~= shown);
    let at = old_path.len() as int;
    assert(arrow_at(shown, at));
    lemma_after_arrow_last(shown, at, shown.len() as int);
    assert(shown.skip(at + 4).len() == 0);
}

/// What the lines of a summary report, line by line, without the lines that report nothing.
pub open spec fn reported(lines: Seq<Seq<char>>) -> Seq<FileView> {
    lines.map_values(|line: Seq<char>| summary_entry(line)).filter(
        |entry: Option<FileView>| entry is Some,
    ).map_values(|entry: Option<FileView>| entry->0)
}

proof fn lemma_entries_are_reported(lines: Seq<Seq<char>>)
    ensures
        summary_entries(lines) == reported(lines),
    decreases lines.len(),
{
    reveal(Seq::filter);
    if lines.len() == 0 {
        assert(summary_entries(lines) =~= reported(lines));
    } else {
        let init = lines.drop_last();
        lemma_entries_are_reported(init);
        let all = lines.map_values(|line: Seq<char>| summary_entry(line));
        assert(all.drop_last() =~= init.map_values(|line: Seq<char>| summary_entry(line)));
        assert(all.last() == summary_entry(lines.last()));
        assert(summary_entries(lines) =~= reported(lines));
    }
}

proof fn lemma_entry_is_kept(lines: Seq<Seq<char>>, i: int)
    requires
        0 <= i < lines.len(),
        summary_entry(lines[i]) is Some,
    ensures
        summary_entries(lines).contains(summary_entry(lines[i])->0),
    decreases lines.len(),
{
    let all = summary_entries(lines);
    if i == lines.len() - 1 {
        assert(all.last() == summary_entry(lines[i])->0);
        assert(all[all.len() - 1] == summary_entry(lines[i])->0);
    } else {
        let init = lines.drop_last();
        assert(init[i] == lines[i]);
        lemma_entry_is_kept(init, i);
        let k = choose|k: int|
            0 <= k < summary_entries(init).len() && summary_entries(init)[k] == summary_entry(
                lines[i],
            )->0;
        assert(all[k] == summary_entries(init)[k]);
    }
}

proof fn lemma_entry_has_line(lines: Seq<Seq<char>>, k: int) -> (i: int)
    requires
        0 <= k < summary_entries(lines).len(),
    ensures
        0 <= i < lines.len(),
        summary_entry(lines[i]) == Some(summary_entries(lines)[k]),
    decreases lines.len(),
{
    let init = lines.drop_last();
    let n = summary_entries(init).len();
    if k < n {
        let i = lemma_entry_has_line(init, k);
        assert(lines[i] == init[i]);
        assert(summary_entries(lines)[k] == summary_entries(init)[k]);
        i
    } else {
        lines.len() - 1
    }
}

/// A listing loses nothing and invents nothing: it holds exactly what the lines of the summary
/// report, each as often as it is reported.
pub proof fn law_listing_is_complete(summary: Seq<char>)
    ensures
        listing(summary).to_multiset() == reported(lines_of(summary)).to_multiset(),
        listing(summary).len() == reported(lines_of(summary)).len(),
        forall|i: int|
            0 <= i < lines_of(summary).len() ==> (summary_entry(
                #[trigger] lines_of(summary)[i],
            ) matches Some(file) ==> listing(summary).contains(file)),
        forall|k: int|
            0 <= k < listing(summary).len() ==> exists|i: int|
                0 <= i < lines_of(summary).len() && summary_entry(#[trigger] lines_of(summary)[i])
                    == Some(#[trigger] listing(summary)[k]),
{
    let lines = lines_of(summary);
    let entries = summary_entries(lines);
    let files = listing(summary);
    lemma_entries_are_reported(lines);
    law_by_path_is_permutation(entries);
    entries.to_multiset_ensures();
    files.to_multiset_ensures();
    assert forall|i: int| 0 <= i < lines.len() implies (summary_entry(
        #[trigger] lines[i],
    ) matches Some(file) ==> files.contains(file)) by {
        if summary_entry(lines[i]) is Some {
            lemma_entry_is_kept(lines, i);
            let file = summary_entry(lines[i])->0;
            assert(entries.to_multiset().count(file) > 0);
        }
    }
    assert forall|k: int| 0 <= k < files.len() implies exists|i: int|
        0 <= i < lines.len() && summary_entry(#[trigger] lines[i]) == Some(
            #[trigger] files[k],
        ) by {
        assert(files.contains(files[k]));
        assert(files.to_multiset().count(files[k]) > 0);
        assert(entries.contains(files[k]));
        let j = choose|j: int| 0 <= j < entries.len() && entries[j] == files[k];
        let i = lemma_entry_has_line(lines, j);
        assert(summary_entry(lines[i]) == Some(files[k]));
    }
}

/// A listing is sorted: of two files, the later one has the same path or one that comes later.
/// Files with the same path stay in the order in which the summary reports them.
pub proof fn law_listing_is_sorted(summary: Seq<char>, path: Seq<char>)
    ensures
        forall|i: int, j: int|
            0 <= i < j < listing(summary).len() ==> (#[trigger] listing(summary)[i]).path == (
            #[trigger] listing(summary)[j]).path || text_less(
                listing(summary)[i].path,
                listing(summary)[j].path,
            ),
        listing(summary).filter(|file: FileView| file.path == path) == reported(
            lines_of(summary),
        ).filter(|file: FileView| file.path == path),
{
    let files = listing(summary);
    let entries = summary_entries(lines_of(summary));
    law_by_path_is_ordered(entries);
    assert forall|i: int, j: int| 0 <= i < j < files.len() implies (#[trigger] files[i]).path == (
    #[trigger] files[j]).path || text_less(files[i].path, files[j].path) by {
        lemma_text_less_total(files[i].path, files[j].path);
    }
    law_by_path_is_stable(entries, path);
    lemma_entries_are_reported(lines_of(summary));
    let same = |file: FileView| file.path == path;
    lemma_with_path_is_filter(files, path, same);
    lemma_with_path_is_filter(entries, path, same);
}

proof fn lemma_with_path_is_filter(
    files: Seq<FileView>,
    path: Seq<char>,
    same: spec_fn(FileView) -> bool,
)
    requires
        forall|file: FileView| #[trigger] same(file) == (file.path == path),
    ensures
        files.filter(same) == with_path(files, path),
    decreases files.len(),
{
    reveal(Seq::filter);
    if files.len() > 0 {
        lemma_with_path_is_filter(files.drop_last(), path, same);
    } else {
        assert(files.filter(same) =~= with_path(files, path));
    }
}

proof fn lemma_entries_of_parts(a: Seq<Seq<char>>, b: Seq<Seq<char>>)
    ensures
        summary_entries(a + b) == summary_entries(a) + summary_entries(b),
    decreases b.len(),
{
    if b.len() == 0 {
        assert(a + b =~= a);
        assert(summary_entries(a) + summary_entries(b) =~= summary_entries(a));
    } else {
        assert((a + b).drop_last() =~= a + b.drop_last());
        lemma_entries_of_parts(a, b.drop_last());
        assert(summary_entries(a + b) =~= summary_entries(a) + summary_entries(b));
    }
}

/// Two summaries, one after the other, list what the first lists and what the second lists.
pub proof fn law_listing_of_parts(a: Seq<char>, b: Seq<char>)
    requires
        a.len() == 0 || a.last() == '\n',
    ensures
        listing(a + b).to_multiset() == listing(a).to_multiset().add(listing(b).to_multiset()),
        listing(a + b).len() == listing(a).len() + listing(b).len(),
{
    law_lines_of_parts(a, b);
    let x = summary_entries(lines_of(a));
    let y = summary_entries(lines_of(b));
    lemma_entries_of_parts(lines_of(a), lines_of(b));
    law_by_path_is_permutation(x);
    law_by_path_is_permutation(y);
    law_by_path_is_permutation(x + y);
    vstd::seq_lib::lemma_multiset_commutative(x, y);
    listing(a + b).to_multiset_ensures();
    listing(a).to_multiset_ensures();
    listing(b).to_multiset_ensures();
    x.to_multiset_ensures();
    y.to_multiset_ensures();
    (x + y).to_multiset_ensures();
}

/// What `jj` prints for a text is listed as that text. Output that is no text, and no output at
/// all, are errors.
pub proof fn law_output_is_listed(text: Seq<char>, bytes: Seq<u8>)
    ensures
        changed_files(Some(encode_utf8(text))) == Ok::<Seq<FileView>, RepositoryError>(
            listing(text),
        ),
        !valid_utf8(bytes) ==> changed_files(Some(bytes)) == Err::<Seq<FileView>, RepositoryError>(
            RepositoryError::SummaryNotUtf8,
        ),
        changed_files(None) == Err::<Seq<FileView>, RepositoryError>(
            RepositoryError::SummaryNotRun,
        ),
{
    encode_utf8_valid_utf8(text);
    encode_utf8_decode_utf8(text);
}

/// There is a repository exactly if `jj root` could be run and succeeded.
pub proof fn law_root_decides()
    ensures
        root_error(None) == Some(RepositoryError::JjNotRun),
        root_error(Some(false)) == Some(RepositoryError::NotARepository),
        root_error(Some(true)) is None,
{
}

/// What a reader is told of each error.
pub proof fn law_messages()
    ensures
        RepositoryError::JjNotRun.text() == "Failed to run jj. Is jj installed and on PATH?"@,
        RepositoryError::NotARepository.text()
            == "Not a jj repository. Please run this command inside a jj repository."@,
        RepositoryError::SummaryNotRun.text() == "Failed to run jj diff --summary"@,
        RepositoryError::SummaryNotUtf8.text() == "jj diff --summary returned invalid UTF-8"@,
{
}

/// The summary is asked for with `diff`, the selection as it is, and `--summary`.
pub proof fn law_summary_command(selection: Seq<Seq<char>>)
    ensures
        summary_args(selection).len() == selection.len() + 2,
        summary_args(selection)[0] == "diff"@,
        forall|i: int|
            0 <= i < selection.len() ==> summary_args(selection)[i + 1] == #[trigger] selection[i],
        summary_args(selection).last() == "--summary"@,
{
}

/// The view of a list of files holds each file, with its path and its status.
pub proof fn law_file_views(files: Seq<ChangedFile>)
    ensures
        file_views(files).len() == files.len(),
        forall|i: int|
            0 <= i < files.len() ==> (#[trigger] file_views(files)[i]).path == files[i].path@
                && file_views(files)[i].status == files[i].status,
        forall|file: ChangedFile| #[trigger] entry_view(Some(file)) == Some(file@),
        entry_view(None) is None,
{
}

} // verus!
