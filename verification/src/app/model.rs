//! What the viewer does, as a function of its state.
//!
//! A key changes the state, and may leave outside work pending. Each answer to pending work
//! changes the state again, until nothing is pending and the next key can come.

use vstd::prelude::*;

use crate::clipboard::{copy_action, copy_next, CopyJob, CopyJobView};
use crate::config::ConfigView;
use crate::effect::{ActionView, ReplyView};
use crate::git::diff::{diff_action, diff_next, diff_start, raw_args, DiffJob, DiffJobView};
use crate::git::hunks::{captured_text, change_lines, counts_fit};
use crate::git::repository::{all_named, changed_files, ordered, summary_args, FileView};
use crate::number::decimal;
use crate::render::{ansi_lines, line_at, markers, marks_in_order, shown_lines, SpanView};
use crate::text::lines_of;

verus! {

/// What is on the screen.
#[derive(Debug, Clone, Copy, PartialEq, Eq, Structural)]
pub enum Screen {
    FileList,
    DiffView,
}

/// A key, as far as the viewer tells keys apart.
#[derive(Debug, Clone, Copy)]
pub enum Key {
    Esc,
    Enter,
    Backspace,
    Up,
    Down,
    PageUp,
    PageDown,
    Home,
    End,
    Char(char),
    Other,
}

/// What the terminal reports.
#[derive(Debug, Clone, Copy)]
pub enum Event {
    /// A key is pressed, or (where `press` is false) repeated or released.
    Key { key: Key, press: bool },
    /// Anything else.
    Other,
}

/// Which entry of the list is highlighted, and which is the first in view.
#[derive(Debug, Clone, Copy)]
pub struct ListState {
    pub offset: usize,
    pub selected: Option<usize>,
}

/// What is done once a diff is loaded.
#[derive(Debug, Clone, Copy)]
pub enum AfterLoad {
    /// The diff is opened.
    Open,
    /// The diff takes the place of another.
    Stay,
    /// The diff is the same as before, read again, and was scrolled this far.
    Restore(u16),
}

/// What a reload has to find again: the file, and how far its diff was scrolled.
pub struct Reload {
    pub path: Option<String>,
    pub scroll: u16,
}

/// The contents of a `Reload`.
pub struct ReloadView {
    pub path: Option<Seq<char>>,
    pub scroll: u16,
}

/// The text of an optional string.
pub open spec fn optional_text(text: Option<String>) -> Option<Seq<char>> {
    match text {
        Some(t) => Some(t@),
        None => None,
    }
}

impl View for Reload {
    type V = ReloadView;

    open spec fn view(&self) -> ReloadView {
        ReloadView { path: optional_text(self.path), scroll: self.scroll }
    }
}

/// The outside work that is under way.
pub enum Pending {
    Idle,
    /// The search is being run; within a reload, the rest of the reload follows.
    Filter(Option<Reload>),
    /// The changed files are being listed again.
    List(Reload),
    /// The terminal is being measured, for a diff to load.
    Width(AfterLoad),
    /// A diff is being made.
    Diff(AfterLoad, DiffJob),
    /// A diff is made, and its hunks are being located.
    Starts(AfterLoad, Vec<u8>),
    /// A path is being copied.
    Copy(CopyJob),
    /// A file is being edited.
    Edit,
}

/// The contents of a `Pending`.
pub enum PendingView {
    Idle,
    Filter(Option<ReloadView>),
    List(ReloadView),
    Width(AfterLoad),
    Diff(AfterLoad, DiffJobView),
    Starts(AfterLoad, Seq<u8>),
    Copy(CopyJobView),
    Edit,
}

impl View for Pending {
    type V = PendingView;

    open spec fn view(&self) -> PendingView {
        match *self {
            Pending::Idle => PendingView::Idle,
            Pending::Filter(reload) => PendingView::Filter(
                match reload {
                    Some(r) => Some(r@),
                    None => None,
                },
            ),
            Pending::List(reload) => PendingView::List(reload@),
            Pending::Width(after) => PendingView::Width(after),
            Pending::Diff(after, job) => PendingView::Diff(after, job@),
            Pending::Starts(after, content) => PendingView::Starts(after, content@),
            Pending::Copy(job) => PendingView::Copy(job@),
            Pending::Edit => PendingView::Edit,
        }
    }
}

/// The state of the viewer.
#[verifier::ext_equal]
pub struct AppView {
    pub running: bool,
    pub screen: Screen,
    pub files: Seq<FileView>,
    pub file_paths: Seq<Seq<char>>,
    pub filtered_indices: Seq<usize>,
    pub list_state: ListState,
    pub search_mode: bool,
    pub search_query: Seq<char>,
    pub diff_content: Seq<u8>,
    pub diff_lines: Seq<Seq<SpanView>>,
    pub diff_scroll: u16,
    pub wrap: bool,
    pub selected_file: Option<Seq<char>>,
    pub config: ConfigView,
    pub needs_redraw: bool,
    pub repository: Seq<Seq<char>>,
    pub selection: Seq<Seq<char>>,
    pub hunk_markers: Seq<(usize, u32)>,
    pub status_message: Option<Seq<char>>,
    pub pending: PendingView,
}

/// The paths of some files.
pub open spec fn paths_of(files: Seq<FileView>) -> Seq<Seq<char>> {
    Seq::new(files.len(), |i: int| files[i].path)
}

/// The indices of all of `n` files.
pub open spec fn all_indices(n: nat) -> Seq<usize> {
    Seq::new(n, |i: int| i as usize)
}

/// The list with an entry highlighted, or (for `None`) with none, which brings its top into view.
pub open spec fn select(list: ListState, index: Option<usize>) -> ListState {
    ListState {
        offset: if index is None {
            0
        } else {
            list.offset
        },
        selected: index,
    }
}

/// The first entry of a list of length `n`, if there is one.
pub open spec fn first_of(n: nat) -> Option<usize> {
    if n > 0 {
        Some(0)
    } else {
        None
    }
}

/// The state in which the viewer starts: all files listed, the first one highlighted.
pub open spec fn initial(
    selection: Seq<Seq<char>>,
    config: ConfigView,
    files: Seq<FileView>,
) -> AppView {
    AppView {
        running: true,
        screen: Screen::FileList,
        files,
        file_paths: paths_of(files),
        filtered_indices: all_indices(files.len()),
        list_state: ListState { offset: 0, selected: first_of(files.len()) },
        search_mode: false,
        search_query: seq![],
        diff_content: seq![],
        diff_lines: seq![],
        diff_scroll: 0,
        wrap: true,
        selected_file: None,
        config,
        needs_redraw: false,
        repository: selection,
        selection,
        hunk_markers: seq![],
        status_message: None,
        pending: PendingView::Idle,
    }
}

/// The lesser of two scroll positions.
pub open spec fn lesser(a: int, b: u16) -> u16 {
    if a <= b {
        a as u16
    } else {
        b
    }
}

/// The scroll position that brings the last line of the diff to the top, or the greatest one that
/// there is, if the diff is longer than that.
pub open spec fn max_scroll(app: AppView) -> u16 {
    lesser(
        if app.diff_lines.len() > 0 {
            app.diff_lines.len() - 1
        } else {
            0
        },
        u16::MAX,
    )
}

/// The scroll position less `n`, and not below the top.
pub open spec fn scrolled_up(scroll: u16, n: int) -> u16 {
    if scroll >= n {
        (scroll - n) as u16
    } else {
        0
    }
}

/// The file that the highlighted entry of the list stands for.
pub open spec fn selected_entry(app: AppView) -> Option<FileView> {
    match app.list_state.selected {
        Some(i) => if i < app.filtered_indices.len() && app.filtered_indices[i as int]
            < app.files.len() {
            Some(app.files[app.filtered_indices[i as int] as int])
        } else {
            None
        },
        None => None,
    }
}

/// The highlight one entry further down, at most on the last.
pub open spec fn select_next(app: AppView) -> AppView {
    let n = app.filtered_indices.len();
    if n == 0 {
        app
    } else {
        AppView {
            list_state: select(
                app.list_state,
                Some(
                    match app.list_state.selected {
                        Some(i) => if i + 1 < n {
                            (i + 1) as usize
                        } else {
                            (n - 1) as usize
                        },
                        None => 0,
                    },
                ),
            ),
            ..app
        }
    }
}

/// The highlight one entry further up, at most on the first.
pub open spec fn select_previous(app: AppView) -> AppView {
    if app.filtered_indices.len() == 0 {
        app
    } else {
        AppView {
            list_state: select(
                app.list_state,
                Some(
                    match app.list_state.selected {
                        Some(i) => if i > 0 {
                            (i - 1) as usize
                        } else {
                            0
                        },
                        None => 0,
                    },
                ),
            ),
            ..app
        }
    }
}

/// The search is run on all paths.
pub open spec fn update_filter(app: AppView, reload: Option<ReloadView>) -> AppView {
    AppView { pending: PendingView::Filter(reload), ..app }
}

/// The list shows the files that were found, the first one highlighted.
pub open spec fn filtered(app: AppView, indices: Seq<usize>) -> AppView {
    AppView {
        filtered_indices: indices,
        list_state: select(app.list_state, first_of(indices.len())),
        ..app
    }
}

/// The diff, loaded again, is scrolled as it was, as far as it reaches.
pub open spec fn restored(app: AppView, scroll: u16) -> AppView {
    AppView { diff_scroll: lesser(scroll as int, max_scroll(app)), needs_redraw: true, ..app }
}

/// The diff of the highlighted file is loaded, if there is such a file.
pub open spec fn load_diff(app: AppView, after: AfterLoad) -> AppView {
    match selected_entry(app) {
        Some(file) => AppView {
            selected_file: Some(file.path),
            pending: PendingView::Width(after),
            ..app
        },
        None => match after {
            AfterLoad::Restore(scroll) => restored(app, scroll),
            _ => app,
        },
    }
}

/// The diff is there, with its lines and the lines of its hunks.
pub open spec fn loaded(
    app: AppView,
    after: AfterLoad,
    content: Seq<u8>,
    lines: Seq<Seq<SpanView>>,
    starts: Seq<u32>,
) -> AppView {
    let next = AppView {
        diff_content: content,
        diff_lines: lines,
        hunk_markers: markers(lines, starts),
        diff_scroll: 0,
        pending: PendingView::Idle,
        ..app
    };
    match after {
        AfterLoad::Open => AppView { screen: Screen::DiffView, ..next },
        AfterLoad::Stay => next,
        AfterLoad::Restore(scroll) => restored(next, scroll),
    }
}

/// The diff of the next or previous file takes the place of the one on the screen. Where there is
/// no such file, the list comes back.
pub open spec fn show_adjacent_file(app: AppView, forward: bool) -> AppView {
    let moved = if forward {
        select_next(app)
    } else {
        select_previous(app)
    };
    if moved.list_state.selected == app.list_state.selected {
        AppView { screen: Screen::FileList, ..moved }
    } else {
        load_diff(moved, AfterLoad::Stay)
    }
}

/// The path to copy: of the open file, or of the highlighted one.
pub open spec fn current_path(app: AppView) -> Option<Seq<char>> {
    match app.screen {
        Screen::DiffView => app.selected_file,
        Screen::FileList => match selected_entry(app) {
            Some(file) => Some(file.path),
            None => None,
        },
    }
}

/// The path is copied to the clipboard, if there is one.
pub open spec fn copy_current_path(app: AppView) -> AppView {
    match current_path(app) {
        Some(path) => AppView {
            pending: PendingView::Copy(CopyJobView::Find { text: path, turn: 0 }),
            ..app
        },
        None => app,
    }
}

/// The open file is edited, if there is one.
pub open spec fn open_in_editor(app: AppView) -> AppView {
    match app.selected_file {
        Some(_) => AppView { pending: PendingView::Edit, ..app },
        None => app,
    }
}

/// The highlighted file is edited, if there is one.
pub open spec fn open_selected_in_editor(app: AppView) -> AppView {
    match selected_entry(app) {
        Some(file) => open_in_editor(AppView { selected_file: Some(file.path), ..app }),
        None => app,
    }
}

/// The files are listed again, and the open diff is loaded again.
pub open spec fn refresh(app: AppView) -> AppView {
    AppView {
        pending: PendingView::List(
            ReloadView { path: app.selected_file, scroll: app.diff_scroll },
        ),
        ..app
    }
}

/// The first entry of the list from `k` on that stands for a file with the given path.
pub open spec fn entry_of(app: AppView, path: Seq<char>, k: int) -> Option<usize>
    decreases app.filtered_indices.len() - k,
{
    if k < 0 || k >= app.filtered_indices.len() {
        None
    } else {
        let i = app.filtered_indices[k];
        if i < app.files.len() && app.files[i as int].path == path {
            Some(k as usize)
        } else {
            entry_of(app, path, k + 1)
        }
    }
}

/// Whether a file has the given path.
pub open spec fn has_path(files: Seq<FileView>, path: Seq<char>) -> bool {
    exists|i: int| 0 <= i < files.len() && (#[trigger] files[i]).path == path
}

/// The highlight is on the file that it was on, if the list still has it.
pub open spec fn reselected(app: AppView, path: Option<Seq<char>>) -> AppView {
    match path {
        Some(p) => match entry_of(app, p, 0) {
            Some(k) => AppView { list_state: select(app.list_state, Some(k)), ..app },
            None => app,
        },
        None => app,
    }
}

/// The rest of a reload, once the files are listed: the highlight goes back to the file that it
/// was on, and an open diff is loaded again, or closed if its file is gone.
pub open spec fn relisted(app: AppView, reload: ReloadView) -> AppView {
    let next = reselected(app, reload.path);
    if next.screen != Screen::DiffView {
        AppView { needs_redraw: true, ..next }
    } else if reload.path is Some && has_path(next.files, reload.path->0) {
        load_diff(next, AfterLoad::Restore(reload.scroll))
    } else {
        AppView { screen: Screen::FileList, diff_scroll: 0, needs_redraw: true, ..next }
    }
}

/// What a key does in the search box.
pub open spec fn search_key(app: AppView, key: Key) -> AppView {
    match key {
        Key::Esc => update_filter(
            AppView { search_mode: false, search_query: seq![], ..app },
            None,
        ),
        Key::Enter => {
            let next = AppView { search_mode: false, ..app };
            if next.filtered_indices.len() > 0 {
                load_diff(next, AfterLoad::Open)
            } else {
                next
            }
        },
        Key::Backspace => update_filter(
            AppView {
                search_query: if app.search_query.len() > 0 {
                    app.search_query.drop_last()
                } else {
                    app.search_query
                },
                ..app
            },
            None,
        ),
        Key::Char(c) => update_filter(
            AppView { search_query: app.search_query.push(c), ..app },
            None,
        ),
        Key::Down => select_next(app),
        Key::Up => select_previous(app),
        _ => app,
    }
}

/// What a key does in the list of files.
pub open spec fn list_key(app: AppView, key: Key) -> AppView {
    match key {
        Key::Char('q') => AppView { running: false, ..app },
        Key::Char('j') | Key::Char('n') | Key::Down => select_next(app),
        Key::Char('k') | Key::Char('N') | Key::Up => select_previous(app),
        Key::Char('/') => AppView { search_mode: true, ..app },
        Key::Char('e') => open_selected_in_editor(app),
        Key::Char('c') => copy_current_path(app),
        Key::Char('r') => refresh(app),
        Key::Enter | Key::Char('l') => load_diff(app, AfterLoad::Open),
        _ => app,
    }
}

/// What a key does in the diff.
pub open spec fn diff_key(app: AppView, key: Key) -> AppView {
    match key {
        Key::Char('q') => AppView { running: false, ..app },
        Key::Esc | Key::Char('h') => AppView { screen: Screen::FileList, diff_scroll: 0, ..app },
        Key::Char('j') | Key::Down => AppView {
            diff_scroll: lesser(app.diff_scroll + 1, max_scroll(app)),
            ..app
        },
        Key::Char('k') | Key::Up => AppView { diff_scroll: scrolled_up(app.diff_scroll, 1), ..app },
        Key::Char('d') | Key::PageDown => AppView {
            diff_scroll: lesser(app.diff_scroll + 20, max_scroll(app)),
            ..app
        },
        Key::Char('u') | Key::PageUp => AppView {
            diff_scroll: scrolled_up(app.diff_scroll, 20),
            ..app
        },
        Key::Char('g') | Key::Home => AppView { diff_scroll: 0, ..app },
        Key::Char('G') | Key::End => AppView { diff_scroll: max_scroll(app), ..app },
        Key::Char('e') => open_in_editor(app),
        Key::Char('r') => refresh(app),
        Key::Char('c') => copy_current_path(app),
        Key::Char('w') => AppView { wrap: !app.wrap, ..app },
        Key::Char('n') => show_adjacent_file(app, true),
        Key::Char('N') => show_adjacent_file(app, false),
        _ => app,
    }
}

/// What a key that is pressed does. The last status message goes away.
pub open spec fn press(app: AppView, key: Key) -> AppView {
    let next = AppView { status_message: None, ..app };
    match next.screen {
        Screen::FileList => if next.search_mode {
            search_key(next, key)
        } else {
            list_key(next, key)
        },
        Screen::DiffView => diff_key(next, key),
    }
}

/// What an event does.
pub open spec fn handle(app: AppView, event: Event) -> AppView {
    match event {
        Event::Key { key, press: true } => press(app, key),
        _ => app,
    }
}

/// Whether an event scrolls the diff beyond what 16 bits count.
pub open spec fn scroll_overflows(app: AppView, event: Event) -> bool {
    &&& app.screen == Screen::DiffView
    &&& match event {
        Event::Key { key, press: true } => match key {
            Key::Char('j') | Key::Down => app.diff_scroll + 1 > u16::MAX,
            Key::Char('d') | Key::PageDown => app.diff_scroll + 20 > u16::MAX,
            _ => false,
        },
        _ => false,
    }
}

/// The file line to open the editor at: the first changed line of the hunk at the top of the
/// diff. `None` where no diff is on the screen or it has no hunks.
pub open spec fn current_hunk_line(app: AppView) -> Option<u32> {
    if app.screen == Screen::DiffView {
        line_at(app.hunk_markers, app.diff_scroll as int)
    } else {
        None
    }
}

/// The arguments of the editor: its own, the line as `+N` if there is one, and the file.
pub open spec fn editor_args(
    args: Seq<Seq<char>>,
    line: Option<u32>,
    path: Seq<char>,
) -> Seq<Seq<char>> {
    args + (match line {
        Some(n) => seq![seq!['+'] + decimal(n as nat)],
        None => seq![],
    }) + seq![path]
}

/// The outside work that the viewer waits for.
pub open spec fn action(app: AppView) -> ActionView {
    match app.pending {
        PendingView::Idle => ActionView::Wait,
        PendingView::Filter(_) => ActionView::Filter {
            paths: app.file_paths,
            query: app.search_query,
        },
        PendingView::List(_) => ActionView::Capture {
            program: "jj"@,
            args: summary_args(app.repository),
        },
        PendingView::Width(_) => ActionView::Width,
        PendingView::Diff(_, job) => diff_action(job),
        PendingView::Starts(_, _) => match app.selected_file {
            Some(path) => ActionView::Capture {
                program: "jj"@,
                args: raw_args(path, app.selection),
            },
            None => ActionView::Wait,
        },
        PendingView::Copy(job) => copy_action(job),
        PendingView::Edit => match app.selected_file {
            Some(path) => ActionView::Edit {
                program: app.config.editor.command,
                args: editor_args(app.config.editor.args, current_hunk_line(app), path),
            },
            None => ActionView::Wait,
        },
    }
}

/// The width to render a diff for: that of the terminal without the border, or 80 columns if the
/// terminal has no size.
pub open spec fn diff_width(columns: Option<u16>) -> u16 {
    match columns {
        Some(w) => if w >= 2 {
            (w - 2) as u16
        } else {
            0
        },
        None => 80,
    }
}

/// What the status line says after copying.
pub open spec fn copy_status(path: Seq<char>, copied: bool) -> Seq<char> {
    if copied {
        "Copied: "@ + path
    } else {
        "Copy failed: no wl-copy/xclip/xsel found"@
    }
}

/// The new-file lines of the first changes in a captured diff.
pub open spec fn captured_starts(raw: Option<Seq<u8>>) -> Seq<u32> {
    let lines = change_lines(lines_of(captured_text(raw)));
    Seq::new(lines.len(), |i: int| lines[i] as u32)
}

/// What the viewer does when its outside work is answered.
pub open spec fn answered(app: AppView, reply: ReplyView) -> AppView {
    let idle = AppView { pending: PendingView::Idle, ..app };
    match (app.pending, reply) {
        (PendingView::Filter(reload), ReplyView::Filtered(indices)) => match reload {
            Some(r) => relisted(filtered(idle, indices), r),
            None => filtered(idle, indices),
        },
        (PendingView::List(reload), ReplyView::Output(output)) => match changed_files(output) {
            Ok(files) => update_filter(
                AppView { files, file_paths: paths_of(files), ..idle },
                Some(reload),
            ),
            Err(_) => relisted(idle, reload),
        },
        (PendingView::Width(after), ReplyView::Width(columns)) => match app.selected_file {
            Some(path) => AppView {
                pending: PendingView::Diff(
                    after,
                    diff_start(path, diff_width(columns), app.config.diff, app.selection),
                ),
                ..app
            },
            None => idle,
        },
        (PendingView::Diff(after, job), _) => AppView {
            pending: match diff_next(job, reply) {
                DiffJobView::Done(content) => PendingView::Starts(after, content),
                next => PendingView::Diff(after, next),
            },
            ..app
        },
        (PendingView::Starts(after, content), ReplyView::Output(raw)) => loaded(
            idle,
            after,
            content,
            shown_lines(ansi_lines(content), content),
            captured_starts(raw),
        ),
        (PendingView::Copy(job), _) => match copy_next(job, reply) {
            CopyJobView::Done { text, copied } => AppView {
                status_message: Some(copy_status(text, copied)),
                ..idle
            },
            next => AppView { pending: PendingView::Copy(next), ..app },
        },
        (PendingView::Edit, _) => refresh(idle),
        _ => app,
    }
}

/// Whether an answer makes the line number of a hunk exceed 32 bits.
pub open spec fn line_overflows(app: AppView, reply: ReplyView) -> bool {
    match (app.pending, reply) {
        (PendingView::Starts(_, _), ReplyView::Output(raw)) => !counts_fit(
            lines_of(captured_text(raw)),
        ),
        _ => false,
    }
}

/// What holds of every state of the viewer.
pub open spec fn valid(app: AppView) -> bool {
    // The paths that are searched are those of the files.
    &&& app.file_paths == paths_of(app.files)
    // The files are in the order of their paths, and each has one.
    &&& ordered(app.files)
    &&& all_named(app.files)
    // The highlight is on an entry of the list.
    &&& app.filtered_indices.len() <= usize::MAX
    &&& app.list_state.selected matches Some(i) ==> i < app.filtered_indices.len()
    // The diff is not scrolled beyond its last line, and its hunks lie on it from the top down.
    &&& app.diff_scroll <= max_scroll(app)
    &&& app.diff_lines.len() <= usize::MAX ==> marks_in_order(
        app.hunk_markers,
        app.diff_lines.len(),
    )
    // A diff on the screen is that of a file.
    &&& app.screen == Screen::DiffView ==> app.selected_file is Some
    // The list and the diffs are taken of the same revisions.
    &&& app.repository == app.selection
    // Outside work that is pending can be named.
    &&& match app.pending {
        PendingView::Width(_) | PendingView::Starts(_, _) | PendingView::Edit =>
            app.selected_file is Some,
        PendingView::Diff(_, job) => app.selected_file is Some && !(job is Done),
        PendingView::Copy(job) => !(job is Done),
        _ => true,
    }
}

} // verus!
