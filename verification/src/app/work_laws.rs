//! What the viewer asks for, and what each answer does.

use vstd::prelude::*;

use crate::app::key_laws::{file_of_entry, highlighted, highlighting, pressed};
use crate::app::machine::{started, App};
use crate::app::model::{
    action, all_indices, answered, captured_starts, copy_current_path, current_hunk_line,
    current_path, diff_key, diff_width, editor_args, entry_of, filtered, has_path, initial,
    line_overflows, list_key, load_diff, loaded, max_scroll, open_in_editor,
    open_selected_in_editor, optional_text, paths_of, relisted, reselected, search_key, select,
    select_next, select_previous, selected_entry, show_adjacent_file, valid, AfterLoad, AppView,
    Key, ListState, Pending, PendingView, Reload, ReloadView, Screen,
};
use crate::clipboard::{copy_action, copy_next, CopyJob, CopyJobView};
use crate::config::ConfigView;
use crate::effect::{ActionView, ReplyView};
use crate::git::diff::{diff_action, diff_next, diff_start, raw_args, DiffJob, DiffJobView};
use crate::git::hunks::{captured_text, change_lines, counts_fit};
use crate::git::repository::{changed_files, file_views, summary_args, FileView, RepositoryError};
use crate::number::decimal;
use crate::render::{
    ansi_lines, law_line_at_row, law_line_at_row_by_scan, line_views, markers, shown_lines,
    SpanView,
};
use crate::text::{lines_of, text_less, texts};

verus! {

/// The view of the viewer holds all of its state.
pub proof fn law_app_view(app: App)
    ensures
        app@.running == app.running,
        app@.screen == app.screen,
        app@.files == file_views(app.files@),
        app@.file_paths == texts(app.file_paths@),
        app@.filtered_indices == app.filtered_indices@,
        app@.list_state == app.list_state,
        app@.search_mode == app.search_mode,
        app@.search_query == app.search_query@,
        app@.diff_content == app.diff_content@,
        app@.diff_lines == line_views(app.diff_lines@),
        app@.diff_scroll == app.diff_scroll,
        app@.wrap == app.wrap,
        app@.selected_file == optional_text(app.selected_file),
        app@.config == app.config@,
        app@.needs_redraw == app.needs_redraw,
        app@.repository == app.repository@,
        app@.selection == texts(app.selection@),
        app@.hunk_markers == app.hunk_markers@,
        app@.status_message == optional_text(app.status_message),
        app@.pending == app.pending@,
{
}

/// The view of pending work holds all that it needs.
pub proof fn law_pending_views(
    text: String,
    scroll: u16,
    reload: Reload,
    after: AfterLoad,
    job: DiffJob,
    content: Vec<u8>,
    copy: CopyJob,
)
    ensures
        optional_text(Some(text)) == Some(text@),
        optional_text(None) is None,
        reload@.path == optional_text(reload.path),
        reload@.scroll == reload.scroll,
        Pending::Idle@ == PendingView::Idle,
        Pending::Filter(None)@ == PendingView::Filter(None),
        Pending::Filter(Some(reload))@ == PendingView::Filter(Some(reload@)),
        Pending::List(reload)@ == PendingView::List(reload@),
        Pending::Width(after)@ == PendingView::Width(after),
        Pending::Diff(after, job)@ == PendingView::Diff(after, job@),
        Pending::Starts(after, content)@ == PendingView::Starts(after, content@),
        Pending::Copy(copy)@ == PendingView::Copy(copy@),
        Pending::Edit@ == PendingView::Edit,
{
}

/// Highlighting an entry leaves the list in view as it is; highlighting none brings its top into
/// view.
pub proof fn law_select(list: ListState, i: usize)
    ensures
        select(list, Some(i)) == (ListState { offset: list.offset, selected: Some(i) }),
        select(list, None) == (ListState { offset: 0, selected: None }),
{
}

/// The status message has no part in moving, loading, copying or editing.
proof fn lemma_status_is_idle(app: AppView)
    ensures
        ({
            let quiet = AppView { status_message: None, ..app };
            &&& select_next(quiet) == (AppView { status_message: None, ..select_next(app) })
            &&& select_previous(quiet) == (AppView { status_message: None, ..select_previous(app) })
            &&& copy_current_path(quiet) == (AppView {
                status_message: None,
                ..copy_current_path(app)
            })
            &&& open_in_editor(quiet) == (AppView { status_message: None, ..open_in_editor(app) })
            &&& open_selected_in_editor(quiet) == (AppView {
                status_message: None,
                ..open_selected_in_editor(app)
            })
            &&& select_next(app).status_message == app.status_message
            &&& select_previous(app).status_message == app.status_message
            &&& copy_current_path(app).status_message == app.status_message
            &&& open_in_editor(app).status_message == app.status_message
            &&& open_selected_in_editor(app).status_message == app.status_message
        }),
{
}

proof fn lemma_status_is_idle_in_loading(app: AppView, after: AfterLoad)
    ensures
        load_diff(AppView { status_message: None, ..app }, after) == (AppView {
            status_message: None,
            ..load_diff(app, after)
        }),
        load_diff(app, after).status_message == app.status_message,
{
}

proof fn lemma_status_is_idle_in_adjacent(app: AppView, forward: bool)
    ensures
        show_adjacent_file(AppView { status_message: None, ..app }, forward) == (AppView {
            status_message: None,
            ..show_adjacent_file(app, forward)
        }),
        show_adjacent_file(app, forward).status_message == app.status_message,
{
    lemma_status_is_idle(app);
    lemma_status_is_idle_in_loading(select_next(app), AfterLoad::Stay);
    lemma_status_is_idle_in_loading(select_previous(app), AfterLoad::Stay);
}

/// Handing a key to the diff does what pressing it there does, but for the status message, which
/// stays.
#[verifier::rlimit(40)]
#[verifier::spinoff_prover]
pub proof fn law_diff_takes_keys(app: AppView, key: Key)
    requires
        app.screen == Screen::DiffView,
    ensures
        diff_key(app, key).status_message == app.status_message,
        (AppView { status_message: None, ..diff_key(app, key) }) == pressed(app, key),
{
    lemma_status_is_idle(app);
    lemma_status_is_idle_in_adjacent(app, true);
    lemma_status_is_idle_in_adjacent(app, false);
}

/// Handing a key to the search box does what pressing it there does, but for the status message,
/// which stays.
pub proof fn law_search_takes_keys(app: AppView, key: Key)
    requires
        app.screen == Screen::FileList,
        app.search_mode,
    ensures
        search_key(app, key).status_message == app.status_message,
        (AppView { status_message: None, ..search_key(app, key) }) == pressed(app, key),
{
    lemma_status_is_idle(app);
    lemma_status_is_idle_in_loading(AppView { search_mode: false, ..app }, AfterLoad::Open);
}

/// Handing a key to the list does what pressing it there does, but for the status message, which
/// stays.
pub proof fn law_list_takes_keys(app: AppView, key: Key)
    requires
        app.screen == Screen::FileList,
        !app.search_mode,
    ensures
        list_key(app, key).status_message == app.status_message,
        (AppView { status_message: None, ..list_key(app, key) }) == pressed(app, key),
{
    lemma_status_is_idle(app);
    lemma_status_is_idle_in_loading(app, AfterLoad::Open);
}

/// The keys of the list and its search box do the same whatever is on the screen, which stays; only
/// copying takes the path of the open file where a diff is on it.
#[verifier::rlimit(40)]
#[verifier::spinoff_prover]
pub proof fn law_list_keys_leave_screen(app: AppView, key: Key)
    requires
        app.screen == Screen::DiffView,
    ensures
        ({
            let list = AppView { screen: Screen::FileList, ..app };
            &&& search_key(app, key) == (AppView {
                screen: Screen::DiffView,
                ..search_key(list, key)
            })
            &&& key != Key::Char('c') ==> list_key(app, key) == (AppView {
                screen: Screen::DiffView,
                ..list_key(list, key)
            })
            &&& list_key(app, Key::Char('c')) == (match app.selected_file {
                Some(path) => AppView {
                    pending: PendingView::Copy(CopyJobView::Find { text: path, turn: 0 }),
                    ..app
                },
                None => app,
            })
        }),
{
    let list = AppView { screen: Screen::FileList, ..app };
    assert(selected_entry(app) == selected_entry(list));
    assert(select_next(app) == AppView { screen: Screen::DiffView, ..select_next(list) });
    assert(select_previous(app) == AppView { screen: Screen::DiffView, ..select_previous(list) });
}

/// The highlight moves by one entry, at most to the last or the first; nothing else changes.
pub proof fn law_highlight_moves(app: AppView, i: int)
    requires
        app.filtered_indices.len() <= usize::MAX,
        0 <= i < app.filtered_indices.len(),
        app.list_state.selected == Some(i as usize),
    ensures
        i + 1 < app.filtered_indices.len() ==> select_next(app) == (AppView {
            list_state: highlighting(app.list_state, i + 1),
            ..app
        }),
        i + 1 == app.filtered_indices.len() ==> select_next(app) == app,
        i > 0 ==> select_previous(app) == (AppView {
            list_state: highlighting(app.list_state, i - 1),
            ..app
        }),
        i == 0 ==> select_previous(app) == app,
{
}

/// Without a highlight, moving it highlights the first entry, if there is one.
pub proof fn law_highlight_begins_at_top(app: AppView)
    requires
        app.list_state.selected is None,
    ensures
        app.filtered_indices.len() == 0 ==> select_next(app) == app && select_previous(app) == app,
        app.filtered_indices.len() > 0 ==> select_next(app) == (AppView {
            list_state: highlighting(app.list_state, 0),
            ..app
        }) && select_previous(app) == select_next(app),
{
}

/// What holds of every state of the viewer, in full.
pub proof fn law_validity(app: AppView)
    ensures
        valid(app) <==> {
            &&& app.file_paths.len() == app.files.len()
            &&& forall|i: int|
                0 <= i < app.files.len() ==> #[trigger] app.file_paths[i] == app.files[i].path
            &&& forall|i: int, j: int|
                0 <= i < j < app.files.len() ==> !text_less(
                    (#[trigger] app.files[j]).path,
                    (#[trigger] app.files[i]).path,
                )
            &&& forall|i: int| 0 <= i < app.files.len() ==> (#[trigger] app.files[i]).path.len() > 0
            &&& app.filtered_indices.len() <= usize::MAX
            &&& app.list_state.selected matches Some(i) ==> i < app.filtered_indices.len()
            &&& app.diff_scroll == 0 || app.diff_scroll < app.diff_lines.len()
            &&& app.diff_lines.len() <= usize::MAX ==> {
                &&& forall|i: int, j: int|
                    0 <= i <= j < app.hunk_markers.len() ==> (#[trigger] app.hunk_markers[i]).0 <= (
                    #[trigger] app.hunk_markers[j]).0
                &&& forall|i: int|
                    0 <= i < app.hunk_markers.len() ==> (#[trigger] app.hunk_markers[i]).0
                        < app.diff_lines.len()
            }
            &&& app.screen == Screen::DiffView ==> app.selected_file is Some
            &&& app.repository == app.selection
            &&& app.pending is Width || app.pending is Starts || app.pending is Edit
                || app.pending is Diff ==> app.selected_file is Some
            &&& app.pending matches PendingView::Diff(_, job) ==> !(job is Done)
            &&& app.pending matches PendingView::Copy(job) ==> !(job is Done)
        },
{
    if app.file_paths.len() == app.files.len() && forall|i: int|
        0 <= i < app.files.len() ==> #[trigger] app.file_paths[i] == app.files[i].path {
        assert(app.file_paths =~= paths_of(app.files));
    }
}

/// The viewer starts in the list, with every file listed in order and the first one highlighted,
/// nothing searched for, no diff, and lines wrapped.
pub proof fn law_start(selection: Seq<Seq<char>>, config: ConfigView, files: Seq<FileView>)
    requires
        files.len() <= usize::MAX,
    ensures
        ({
            let app = initial(selection, config, files);
            &&& app.running && app.wrap && !app.search_mode && !app.needs_redraw
            &&& app.screen == Screen::FileList
            &&& app.files == files
            &&& app.file_paths.len() == files.len()
            &&& forall|i: int|
                0 <= i < files.len() ==> #[trigger] app.file_paths[i] == files[i].path
            &&& app.filtered_indices.len() == files.len()
            &&& forall|i: int| 0 <= i < files.len() ==> #[trigger] app.filtered_indices[i] == i
            &&& app.list_state.offset == 0
            &&& files.len() > 0 ==> app.list_state.selected == Some(0usize)
            &&& files.len() == 0 ==> app.list_state.selected is None
            &&& app.search_query.len() == 0 && app.diff_content.len() == 0
            &&& app.diff_lines.len() == 0 && app.hunk_markers.len() == 0
            &&& app.diff_scroll == 0
            &&& app.selected_file is None && app.status_message is None
            &&& app.config == config
            &&& app.repository == selection && app.selection == selection
            &&& app.pending is Idle
        }),
{
}

/// The viewer starts if there is a repository and its changed files can be listed, and with
/// those files.
pub proof fn law_starting(
    selection: Seq<Seq<char>>,
    config: ConfigView,
    summary: Option<Seq<u8>>,
)
    ensures
        started(selection, config, None, summary) == Err::<AppView, RepositoryError>(
            RepositoryError::JjNotRun,
        ),
        started(selection, config, Some(false), summary) == Err::<AppView, RepositoryError>(
            RepositoryError::NotARepository,
        ),
        changed_files(summary) matches Err(e) ==> started(selection, config, Some(true), summary)
            == Err::<AppView, RepositoryError>(e),
        changed_files(summary) matches Ok(files) ==> started(selection, config, Some(true), summary)
            == Ok::<AppView, RepositoryError>(initial(selection, config, files)),
{
}

/// The paths of some files are theirs, one for one, and the indices of all files count up from 0.
pub proof fn law_paths_and_indices(files: Seq<FileView>, n: nat)
    ensures
        paths_of(files).len() == files.len(),
        forall|i: int| 0 <= i < files.len() ==> #[trigger] paths_of(files)[i] == files[i].path,
        all_indices(n).len() == n,
        forall|i: int|
            0 <= i < n && i <= usize::MAX ==> #[trigger] all_indices(n)[i] as int == i,
{
}

/// The highlighted entry stands for the file at its index. The path to copy is that of this file
/// in the list, and that of the open file in the diff.
pub proof fn law_current_file(app: AppView)
    ensures
        selected_entry(app) == highlighted(app),
        app.screen == Screen::DiffView ==> current_path(app) == app.selected_file,
        app.screen == Screen::FileList ==> match highlighted(app) {
            Some(file) => current_path(app) == Some(file.path),
            None => current_path(app) is None,
        },
{
}

/// What the viewer waits for: without pending work, for a key; in a search, for the paths that
/// match the query; in a reload, for the summary of changes; to load a diff, for the width of the
/// terminal, what the diff job waits for and the uncolored diff; and to copy, what the copy job
/// waits for.
pub proof fn law_actions(app: AppView, path: Seq<char>)
    requires
        app.selected_file == Some(path),
    ensures
        app.pending is Idle ==> action(app) == ActionView::Wait,
        app.pending is Filter ==> action(app) == (ActionView::Filter {
            paths: app.file_paths,
            query: app.search_query,
        }),
        app.pending is List ==> action(app) == (ActionView::Capture {
            program: "jj"@,
            args: summary_args(app.repository),
        }),
        app.pending is Width ==> action(app) == ActionView::Width,
        app.pending matches PendingView::Diff(_, job) ==> action(app) == diff_action(job),
        app.pending is Starts ==> action(app) == (ActionView::Capture {
            program: "jj"@,
            args: raw_args(path, app.selection),
        }),
        app.pending matches PendingView::Copy(job) ==> action(app) == copy_action(job),
{
}

/// Without an open file, searching, listing and copying ask for the same.
pub proof fn law_actions_without_file(app: AppView, path: Seq<char>)
    ensures
        app.pending is Filter || app.pending is List || app.pending is Copy || app.pending is Idle
            ==> action(app) == action(AppView { selected_file: Some(path), ..app }),
{
}

/// In the diff, the editor opens the file at the line of the hunk at the top of the view: the last
/// hunk that begins at or above the scroll position, or the first one if none does. Without hunks,
/// and from the list, it opens the file without a line.
pub proof fn law_editor_opens_at_hunk_in_view(app: AppView, path: Seq<char>, k: int)
    requires
        app.pending is Edit,
        app.selected_file == Some(path),
        forall|i: int, j: int|
            0 <= i <= j < app.hunk_markers.len() ==> (#[trigger] app.hunk_markers[i]).0 <= (
            #[trigger] app.hunk_markers[j]).0,
    ensures
        ({
            let marks = app.hunk_markers;
            let own = app.config.editor.args;
            let program = app.config.editor.command;
            let scroll = app.diff_scroll as int;
            &&& app.screen == Screen::DiffView && 0 <= k < marks.len() && marks[k].0 <= scroll && (k
                + 1 == marks.len() || marks[k + 1].0 > scroll) ==> action(app)
                == (ActionView::Edit {
                program,
                args: own + seq![seq!['+'] + decimal(marks[k].1 as nat), path],
            })
            &&& app.screen == Screen::DiffView && marks.len() > 0 && marks[0].0 > scroll ==> action(
                app,
            ) == (ActionView::Edit {
                program,
                args: own + seq![seq!['+'] + decimal(marks[0].1 as nat), path],
            })
            &&& app.screen == Screen::FileList || marks.len() == 0 ==> action(app)
                == (ActionView::Edit { program, args: own + seq![path] })
        }),
{
    let marks = app.hunk_markers;
    let own = app.config.editor.args;
    let scroll = app.diff_scroll as int;
    if 0 <= k < marks.len() && (k + 1 == marks.len() || marks[k + 1].0 > scroll) {
        law_line_at_row(marks, scroll, k);
        let jump = seq!['+'] + decimal(marks[k].1 as nat);
        assert(own + seq![jump] + seq![path] =~= own + seq![jump, path]);
    }
    if marks.len() > 0 {
        let jump = seq!['+'] + decimal(marks[0].1 as nat);
        assert(own + seq![jump] + seq![path] =~= own + seq![jump, path]);
    }
    assert(own + seq![] + seq![path] =~= own + seq![path]);
}

/// In a valid state, `e` in the diff opens the editor at the line of the last hunk that begins at
/// or above the scroll position.
pub proof fn law_edit_key_opens_at_hunk_in_view(app: AppView, k: int)
    requires
        valid(app),
        app.screen == Screen::DiffView,
        app.diff_lines.len() <= usize::MAX,
        0 <= k < app.hunk_markers.len(),
        app.hunk_markers[k].0 <= app.diff_scroll,
        k + 1 == app.hunk_markers.len() || app.hunk_markers[k + 1].0 > app.diff_scroll,
    ensures
        action(pressed(app, Key::Char('e'))) == (ActionView::Edit {
            program: app.config.editor.command,
            args: app.config.editor.args + seq![
                seq!['+'] + decimal(app.hunk_markers[k].1 as nat),
                app.selected_file->0,
            ],
        }),
        current_hunk_line(app) == Some(app.hunk_markers[k].1),
{
    let end = pressed(app, Key::Char('e'));
    law_editor_opens_at_hunk_in_view(end, app.selected_file->0, k);
    law_line_at_row(app.hunk_markers, app.diff_scroll as int, k);
}

/// The line to open the editor at, by the hunks in the diff and the scroll position. In the list,
/// and without hunks, there is none.
pub proof fn law_current_hunk_line(app: AppView, k: int)
    requires
        forall|i: int, j: int|
            0 <= i <= j < app.hunk_markers.len() ==> (#[trigger] app.hunk_markers[i]).0 <= (
            #[trigger] app.hunk_markers[j]).0,
    ensures
        app.screen == Screen::FileList || app.hunk_markers.len() == 0 ==> current_hunk_line(
            app,
        ) is None,
        app.screen == Screen::DiffView && 0 <= k < app.hunk_markers.len() && app.hunk_markers[k].0
            <= app.diff_scroll && (k + 1 == app.hunk_markers.len() || app.hunk_markers[k + 1].0
            > app.diff_scroll) ==> current_hunk_line(app) == Some(app.hunk_markers[k].1),
        app.screen == Screen::DiffView && app.hunk_markers.len() > 0 && app.hunk_markers[0].0
            > app.diff_scroll ==> current_hunk_line(app) == Some(app.hunk_markers[0].1),
{
    if 0 <= k < app.hunk_markers.len() && (k + 1 == app.hunk_markers.len() || app.hunk_markers[k
        + 1].0 > app.diff_scroll) {
        law_line_at_row(app.hunk_markers, app.diff_scroll as int, k);
    }
}

/// However the hunks are marked, the line is that of the last hunk passed on the way down to the
/// scroll position.
pub proof fn law_current_hunk_line_by_scan(app: AppView, k: int)
    requires
        app.screen == Screen::DiffView,
        0 <= k < app.hunk_markers.len(),
        forall|i: int| 0 <= i <= k ==> (#[trigger] app.hunk_markers[i]).0 <= app.diff_scroll,
        k + 1 < app.hunk_markers.len() ==> app.hunk_markers[k + 1].0 > app.diff_scroll,
    ensures
        current_hunk_line(app) == Some(app.hunk_markers[k].1),
{
    law_line_at_row_by_scan(app.hunk_markers, app.diff_scroll as int, k);
}

/// The editor gets its own arguments, the line as `+N` if there is one, and the file.
pub proof fn law_editor_arguments(own: Seq<Seq<char>>, n: u32, path: Seq<char>)
    ensures
        editor_args(own, Some(n), path) == own + seq![seq!['+'] + decimal(n as nat), path],
        editor_args(own, None, path) == own + seq![path],
{
    let jump = seq!['+'] + decimal(n as nat);
    assert(own + seq![jump] + seq![path] =~= own + seq![jump, path]);
    assert(own + seq![] + seq![path] =~= own + seq![path]);
}

/// When a search is answered, the list shows what was found, in that order, with the first entry
/// highlighted, or with none if nothing was found. Nothing else changes.
pub proof fn law_search_answered(app: AppView, indices: Seq<usize>)
    ensures
        ({
            let shown = AppView {
                filtered_indices: indices,
                list_state: if indices.len() == 0 {
                    ListState { offset: 0, selected: None }
                } else {
                    highlighting(app.list_state, 0)
                },
                ..app
            };
            let idle = AppView { pending: PendingView::Idle, ..shown };
            &&& filtered(app, indices) == shown
            &&& app.pending == PendingView::Filter(None) ==> answered(
                app,
                ReplyView::Filtered(indices),
            ) == idle
            &&& app.pending matches PendingView::Filter(Some(reload)) ==> answered(
                app,
                ReplyView::Filtered(indices),
            ) == relisted(idle, reload)
        }),
{
}

/// When the changed files are listed again, they take the place of those before, and the search is
/// run on their paths; if they cannot be listed, those before stay, and the reload goes on.
pub proof fn law_list_answered(app: AppView, reload: ReloadView, output: Option<Seq<u8>>)
    requires
        app.pending == PendingView::List(reload),
    ensures
        changed_files(output) matches Ok(files) ==> {
            let end = answered(app, ReplyView::Output(output));
            &&& end == (AppView {
                files,
                file_paths: end.file_paths,
                pending: PendingView::Filter(Some(reload)),
                ..app
            })
            &&& end.file_paths.len() == files.len()
            &&& forall|i: int|
                0 <= i < files.len() ==> #[trigger] end.file_paths[i] == files[i].path
        },
        changed_files(output) is Err ==> answered(app, ReplyView::Output(output)) == relisted(
            AppView { pending: PendingView::Idle, ..app },
            reload,
        ),
{
}

proof fn lemma_first_entry(app: AppView, path: Seq<char>, from: int, k: int)
    requires
        0 <= from <= k <= app.filtered_indices.len(),
        forall|j: int|
            from <= j < k ==> !((#[trigger] file_of_entry(app, j)) matches Some(file) && file.path
                == path),
        k < app.filtered_indices.len() ==> (file_of_entry(app, k) matches Some(file) && file.path
            == path),
    ensures
        entry_of(app, path, from) == (if k < app.filtered_indices.len() {
            Some(k as usize)
        } else {
            None
        }),
    decreases k - from,
{
    if from < k {
        assert(!(file_of_entry(app, from) matches Some(file) && file.path == path));
        lemma_first_entry(app, path, from + 1, k);
    }
}

/// After the files are listed again, the highlight goes to the first entry for the path of before,
/// and stays where it is if there is no such path or no such entry. Nothing else changes.
pub proof fn law_highlight_goes_back(app: AppView, path: Seq<char>, k: int)
    requires
        0 <= k <= app.filtered_indices.len(),
        forall|j: int|
            0 <= j < k ==> !((#[trigger] file_of_entry(app, j)) matches Some(file) && file.path
                == path),
    ensures
        k < app.filtered_indices.len() && (file_of_entry(app, k) matches Some(file) && file.path
            == path) ==> reselected(app, Some(path)) == (AppView {
            list_state: highlighting(app.list_state, k),
            ..app
        }),
        k == app.filtered_indices.len() ==> reselected(app, Some(path)) == app,
        reselected(app, None) == app,
{
    if k == app.filtered_indices.len() || (file_of_entry(app, k) matches Some(file) && file.path
        == path) {
        lemma_first_entry(app, path, 0, k);
    }
}

/// A reload ends, once the highlight is back, with a redraw of the list; or, in the diff, with
/// loading the diff of the highlighted file again, to be scrolled as before; or, if the file of the
/// diff is gone, with the list.
pub proof fn law_relisted(app: AppView, reload: ReloadView)
    ensures
        ({
            let moved = reselected(app, reload.path);
            let present = reload.path matches Some(path) && exists|i: int|
                0 <= i < app.files.len() && (#[trigger] app.files[i]).path == path;
            let last = if app.diff_lines.len() == 0 {
                0
            } else {
                app.diff_lines.len() - 1
            };
            let end = relisted(app, reload);
            &&& app.screen == Screen::FileList ==> end == (AppView { needs_redraw: true, ..moved })
            &&& app.screen == Screen::DiffView && !present ==> end == (AppView {
                screen: Screen::FileList,
                diff_scroll: 0,
                needs_redraw: true,
                ..moved
            })
            &&& app.screen == Screen::DiffView && present ==> match highlighted(moved) {
                Some(file) => end == (AppView {
                    selected_file: Some(file.path),
                    pending: PendingView::Width(AfterLoad::Restore(reload.scroll)),
                    ..moved
                }),
                None => {
                    &&& end == (AppView {
                        diff_scroll: end.diff_scroll,
                        needs_redraw: true,
                        ..moved
                    })
                    &&& end.diff_scroll == (if reload.scroll <= last {
                        reload.scroll as int
                    } else {
                        last
                    })
                },
            }
        }),
{
    let moved = reselected(app, reload.path);
    assert(moved.files == app.files && moved.diff_lines == app.diff_lines);
    if let Some(path) = reload.path {
        assert(has_path(app.files, path) <==> exists|i: int|
            0 <= i < app.files.len() && (#[trigger] app.files[i]).path == path);
    }
}

/// When the terminal is measured, the diff of the open file is made for its columns without the
/// border, or for 80 columns if the terminal has no size.
pub proof fn law_width_answered(
    app: AppView,
    after: AfterLoad,
    path: Seq<char>,
    columns: Option<u16>,
    width: u16,
)
    requires
        app.pending == PendingView::Width(after),
        app.selected_file == Some(path),
        match columns {
            Some(w) => width == (if w >= 2 {
                w - 2
            } else {
                0
            }),
            None => width == 80,
        },
    ensures
        diff_width(columns) == width,
        answered(app, ReplyView::Width(columns)) == (AppView {
            pending: PendingView::Diff(
                after,
                diff_start(path, width, app.config.diff, app.selection),
            ),
            ..app
        }),
{
}

/// While a diff is made, each answer goes to the job. Once it is made, its hunks are located.
pub proof fn law_diff_answered(
    app: AppView,
    after: AfterLoad,
    job: DiffJobView,
    reply: ReplyView,
)
    requires
        app.pending == PendingView::Diff(after, job),
    ensures
        diff_next(job, reply) matches DiffJobView::Done(content) ==> answered(app, reply)
            == (AppView { pending: PendingView::Starts(after, content), ..app }),
        !(diff_next(job, reply) is Done) ==> answered(app, reply) == (AppView {
            pending: PendingView::Diff(after, diff_next(job, reply)),
            ..app
        }),
{
}

/// Once the hunks of a diff are located, the diff is there, with the lines that its bytes stand for
/// and the new-file lines of the first changes in the captured text.
pub proof fn law_starts_answered(
    app: AppView,
    after: AfterLoad,
    content: Seq<u8>,
    raw: Option<Seq<u8>>,
)
    requires
        app.pending == PendingView::Starts(after, content),
    ensures
        answered(app, ReplyView::Output(raw)) == loaded(
            AppView { pending: PendingView::Idle, ..app },
            after,
            content,
            shown_lines(ansi_lines(content), content),
            captured_starts(raw),
        ),
        captured_starts(raw).len() == change_lines(lines_of(captured_text(raw))).len(),
        forall|i: int|
            0 <= i < captured_starts(raw).len() && 0 <= change_lines(
                lines_of(captured_text(raw)),
            )[i] <= 0xFFFF_FFFF ==> #[trigger] captured_starts(raw)[i] as int == change_lines(
                lines_of(captured_text(raw)),
            )[i],
        line_overflows(app, ReplyView::Output(raw)) <==> !counts_fit(
            lines_of(captured_text(raw)),
        ),
{
}

/// Only locating hunks can overflow.
pub proof fn law_other_answers_do_not_overflow(app: AppView, reply: ReplyView)
    requires
        !(app.pending is Starts),
    ensures
        !line_overflows(app, reply),
{
}

/// A diff that is there is held with its bytes, its lines and its hunks. One that was opened comes
/// to the screen, at its top; one that takes the place of another is at its top; one that was read
/// again is scrolled as before, as far as it reaches. Nothing else changes.
pub proof fn law_loaded(
    app: AppView,
    after: AfterLoad,
    content: Seq<u8>,
    lines: Seq<Seq<SpanView>>,
    starts: Seq<u32>,
)
    ensures
        ({
            let end = loaded(app, after, content, lines, starts);
            let held = AppView {
                diff_content: content,
                diff_lines: lines,
                hunk_markers: markers(lines, starts),
                pending: PendingView::Idle,
                ..app
            };
            let last = if lines.len() == 0 {
                0
            } else {
                lines.len() - 1
            };
            match after {
                AfterLoad::Open => end == (AppView {
                    screen: Screen::DiffView,
                    diff_scroll: 0,
                    ..held
                }),
                AfterLoad::Stay => end == (AppView { diff_scroll: 0, ..held }),
                AfterLoad::Restore(scroll) => {
                    &&& end == (AppView {
                        diff_scroll: end.diff_scroll,
                        needs_redraw: true,
                        ..held
                    })
                    &&& end.diff_scroll == (if scroll <= last {
                        scroll as int
                    } else {
                        last
                    })
                },
            }
        }),
{
}

/// While a path is copied, each answer goes to the job. At its end the status line says whether the
/// path was copied.
pub proof fn law_copy_answered(app: AppView, job: CopyJobView, reply: ReplyView)
    requires
        app.pending == PendingView::Copy(job),
    ensures
        copy_next(job, reply) matches CopyJobView::Done { text, copied } ==> answered(app, reply)
            == (AppView {
            status_message: Some(
                if copied {
                    "Copied: "@ + text
                } else {
                    "Copy failed: no wl-copy/xclip/xsel found"@
                },
            ),
            pending: PendingView::Idle,
            ..app
        }),
        !(copy_next(job, reply) is Done) ==> answered(app, reply) == (AppView {
            pending: PendingView::Copy(copy_next(job, reply)),
            ..app
        }),
{
}

/// When the editor returns, the files are listed again.
pub proof fn law_edit_answered(app: AppView)
    requires
        app.pending is Edit,
    ensures
        answered(app, ReplyView::Edited) == (AppView {
            pending: PendingView::List(
                ReloadView { path: app.selected_file, scroll: app.diff_scroll },
            ),
            ..app
        }),
{
}

/// The greatest scroll position is the last line, within 16 bits.
pub proof fn law_greatest_scroll(app: AppView)
    ensures
        app.diff_lines.len() == 0 ==> max_scroll(app) == 0,
        0 < app.diff_lines.len() <= 65536 ==> max_scroll(app) == app.diff_lines.len() - 1,
        app.diff_lines.len() > 65536 ==> max_scroll(app) == 65535,
{
}

} // verus!
