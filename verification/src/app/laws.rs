//! What holds of the viewer as a whole.

use vstd::prelude::*;

use vstd::utf8::decode_utf8;

use crate::app::model::{
    action, answered, captured_starts, copy_current_path, copy_status, current_hunk_line,
    current_path, diff_key, diff_width, entry_of, filtered, first_of, handle, has_path, initial,
    lesser, list_key, load_diff, loaded, max_scroll, open_in_editor, open_selected_in_editor,
    paths_of, refresh, relisted, reselected, search_key, select_next, select_previous,
    selected_entry, show_adjacent_file, update_filter, valid, AfterLoad, AppView, Event, Key,
    PendingView, ReloadView, Screen,
};
use crate::clipboard::{
    candidate, candidate_args, copy_rank, law_copy_terminates, CopyJobView, CANDIDATES,
};
use crate::config::{ConfigView, DiffConfigView};
use crate::effect::{answers, ActionView, ReplyView};
use crate::git::diff::{
    color_args, diff_action, diff_next, diff_rank, diff_shown, diff_start, law_diff_terminates,
    raw_args, tool_for, DiffAnswers, DiffJobView, ToolView,
};
use crate::git::repository::{
    all_named, changed_files, law_listing, ordered, summary_args, FileView,
};
use crate::number::decimal;
use crate::render::{ansi_lines, law_marks_are_in_order, markers, shown_lines, SpanView};

verus! {

/// The viewer starts in a valid state.
pub proof fn law_initial_state_is_valid(
    selection: Seq<Seq<char>>,
    config: ConfigView,
    files: Seq<FileView>,
)
    requires
        files.len() <= usize::MAX,
        ordered(files),
        all_named(files),
    ensures
        valid(initial(selection, config, files)),
{
}

proof fn lemma_load_diff_valid(app: AppView, after: AfterLoad)
    requires
        valid(app),
    ensures
        valid(load_diff(app, after)),
{
}

/// Moving the highlight leaves a valid state.
pub proof fn law_moving_keeps_validity(app: AppView)
    requires
        valid(app),
    ensures
        valid(select_next(app)),
        valid(select_previous(app)),
{
}

proof fn lemma_search_key_valid(app: AppView, key: Key)
    requires
        valid(app),
    ensures
        valid(search_key(app, key)),
{
    law_moving_keeps_validity(app);
    lemma_load_diff_valid(AppView { search_mode: false, ..app }, AfterLoad::Open);
}

proof fn lemma_copy_valid(app: AppView)
    requires
        valid(app),
    ensures
        valid(copy_current_path(app)),
{
}

proof fn lemma_edit_valid(app: AppView)
    requires
        valid(app),
    ensures
        valid(open_in_editor(app)),
        valid(open_selected_in_editor(app)),
{
}

proof fn lemma_list_key_valid(app: AppView, key: Key)
    requires
        valid(app),
    ensures
        valid(list_key(app, key)),
{
    law_moving_keeps_validity(app);
    lemma_copy_valid(app);
    lemma_edit_valid(app);
    lemma_load_diff_valid(app, AfterLoad::Open);
}

proof fn lemma_adjacent_valid(app: AppView, forward: bool)
    requires
        valid(app),
    ensures
        valid(show_adjacent_file(app, forward)),
{
    law_moving_keeps_validity(app);
    lemma_load_diff_valid(select_next(app), AfterLoad::Stay);
    lemma_load_diff_valid(select_previous(app), AfterLoad::Stay);
}

proof fn lemma_scroll_valid(app: AppView, scroll: u16)
    requires
        valid(app),
        scroll <= max_scroll(app),
    ensures
        valid(AppView { diff_scroll: scroll, ..app }),
        valid(AppView { diff_scroll: scroll, screen: Screen::FileList, ..app }),
{
}

/// Every key in the diff leaves a valid state.
pub proof fn law_diff_keys_keep_validity(app: AppView, key: Key)
    requires
        valid(app),
    ensures
        valid(diff_key(app, key)),
{
    lemma_scroll_valid(app, diff_key(app, key).diff_scroll);
    lemma_copy_valid(app);
    lemma_edit_valid(app);
    lemma_adjacent_valid(app, true);
    lemma_adjacent_valid(app, false);
}

/// Every key in the list, or in its search box, leaves a valid state.
pub proof fn law_list_keys_keep_validity(app: AppView, key: Key)
    requires
        valid(app),
    ensures
        valid(list_key(app, key)),
        valid(search_key(app, key)),
{
    lemma_list_key_valid(app, key);
    lemma_search_key_valid(app, key);
}

/// Every event leaves a valid state.
pub proof fn law_events_keep_validity(app: AppView, event: Event)
    requires
        valid(app),
    ensures
        valid(handle(app, event)),
{
    if let Event::Key { key, press: true } = event {
        let next = AppView { status_message: None, ..app };
        law_list_keys_keep_validity(next, key);
        law_diff_keys_keep_validity(next, key);
    }
}

/// A loaded diff leaves a valid state.
pub proof fn law_loading_keeps_validity(
    app: AppView,
    after: AfterLoad,
    content: Seq<u8>,
    lines: Seq<Seq<SpanView>>,
    starts: Seq<u32>,
)
    requires
        valid(app),
        app.selected_file is Some,
    ensures
        valid(loaded(app, after, content, lines, starts)),
{
    if lines.len() <= usize::MAX {
        law_marks_are_in_order(lines, starts);
    }
}

/// The entry that stands for a path is one of the list.
pub proof fn lemma_entry_of(app: AppView, path: Seq<char>, k: int)
    requires
        0 <= k,
        app.filtered_indices.len() <= usize::MAX,
    ensures
        entry_of(app, path, k) matches Some(e) ==> k <= e < app.filtered_indices.len(),
    decreases app.filtered_indices.len() - k,
{
    if k < app.filtered_indices.len() {
        lemma_entry_of(app, path, k + 1);
    }
}

proof fn lemma_relisted_valid(app: AppView, reload: ReloadView)
    requires
        valid(app),
    ensures
        valid(relisted(app, reload)),
{
    if let Some(path) = reload.path {
        lemma_entry_of(app, path, 0);
    }
    let next = reselected(app, reload.path);
    assert(valid(next));
    lemma_load_diff_valid(next, AfterLoad::Restore(reload.scroll));
}

/// Every answer leaves a valid state.
pub proof fn law_answers_keep_validity(app: AppView, reply: ReplyView)
    requires
        valid(app),
        reply matches ReplyView::Filtered(indices) ==> indices.len() <= usize::MAX,
    ensures
        valid(answered(app, reply)),
{
    let idle = AppView { pending: PendingView::Idle, ..app };
    assert(valid(idle));
    match (app.pending, reply) {
        (PendingView::Filter(reload), ReplyView::Filtered(indices)) => {
            assert(valid(filtered(idle, indices)));
            if let Some(r) = reload {
                lemma_relisted_valid(filtered(idle, indices), r);
            }
        },
        (PendingView::List(reload), ReplyView::Output(output)) => {
            match changed_files(output) {
                Ok(files) => {
                    law_listing(decode_utf8(output->0));
                },
                Err(_) => {
                    lemma_relisted_valid(idle, reload);
                },
            }
        },
        (PendingView::Starts(after, content), ReplyView::Output(raw)) => {
            law_loading_keeps_validity(
                idle,
                after,
                content,
                shown_lines(ansi_lines(content), content),
                captured_starts(raw),
            );
        },
        _ => {},
    }
}

/// In a valid state, the viewer waits for a key exactly if no outside work is pending.
pub proof fn law_waits_only_when_idle(app: AppView)
    requires
        valid(app),
    ensures
        action(app) is Wait <==> app.pending is Idle,
{
}

/// How many answers can at most follow before the next key.
pub open spec fn rank(app: AppView) -> int {
    match app.pending {
        PendingView::Idle => 0,
        PendingView::Filter(None) => 1,
        PendingView::Starts(_, _) => 1,
        PendingView::Diff(_, job) => diff_rank(job) as int + 1,
        PendingView::Width(_) => 6,
        PendingView::Filter(Some(_)) => 7,
        PendingView::List(_) => 8,
        PendingView::Edit => 9,
        PendingView::Copy(job) => copy_rank(job),
    }
}

/// Every answer that is called for brings the next key nearer.
pub proof fn law_answers_make_progress(app: AppView, reply: ReplyView)
    requires
        valid(app),
        answers(action(app), reply),
    ensures
        0 <= rank(answered(app, reply)) < rank(app),
{
    match app.pending {
        PendingView::Diff(_, job) => {
            law_diff_terminates(job, reply);
        },
        PendingView::Copy(job) => {
            law_copy_terminates(job, reply);
        },
        _ => {},
    }
}

/// A world that gives each action the kind of answer that it calls for.
pub open spec fn honest(world: spec_fn(ActionView) -> ReplyView) -> bool {
    forall|a: ActionView| !(a is Wait) ==> answers(a, #[trigger] world(a)) && (world(
        a,
    ) matches ReplyView::Filtered(indices) ==> indices.len() <= usize::MAX)
}

/// The state once the world has answered all that is pending.
pub open spec fn settled(app: AppView, world: spec_fn(ActionView) -> ReplyView) -> AppView
    decreases rank(app),
{
    let next = answered(app, world(action(app)));
    if app.pending is Idle || !(0 <= rank(next) < rank(app)) {
        app
    } else {
        settled(next, world)
    }
}

/// One answer on the way to the settled state.
proof fn lemma_step(app: AppView, world: spec_fn(ActionView) -> ReplyView)
    requires
        valid(app),
        honest(world),
        !(app.pending is Idle),
    ensures
        answers(action(app), world(action(app))),
        valid(answered(app, world(action(app)))),
        settled(app, world) == settled(answered(app, world(action(app))), world),
{
    law_waits_only_when_idle(app);
    let reply = world(action(app));
    law_answers_keep_validity(app, reply);
    law_answers_make_progress(app, reply);
}

/// Whatever is pending, the viewer comes to wait for the next key, in a valid state.
pub proof fn law_viewer_settles(app: AppView, world: spec_fn(ActionView) -> ReplyView)
    requires
        valid(app),
        honest(world),
    ensures
        settled(app, world).pending is Idle,
        valid(settled(app, world)),
    decreases rank(app),
{
    if !(app.pending is Idle) {
        lemma_step(app, world);
        law_answers_make_progress(app, world(action(app)));
        law_viewer_settles(answered(app, world(action(app))), world);
    }
}

/// The diff that a job comes to in a world.
pub open spec fn diff_made(job: DiffJobView, world: spec_fn(ActionView) -> ReplyView) -> Seq<u8>
    decreases diff_rank(job),
    via diff_made_decreases
{
    match job {
        DiffJobView::Done(content) => content,
        _ => diff_made(diff_next(job, world(diff_action(job))), world),
    }
}

#[via_fn]
proof fn diff_made_decreases(job: DiffJobView, world: spec_fn(ActionView) -> ReplyView) {
    if !(job is Done) {
        law_diff_terminates(job, world(diff_action(job)));
    }
}

/// What a world says to a capture or a pipe.
pub open spec fn output_of(reply: ReplyView) -> Option<Seq<u8>> {
    match reply {
        ReplyView::Output(output) => output,
        _ => None,
    }
}

/// The tool that a diff is rendered with, unless `jj` renders it.
pub open spec fn configured_tool(config: DiffConfigView, width: u16) -> ToolView {
    if config.tool == "auto"@ {
        tool_for("delta"@, width, seq!["--width"@])
    } else {
        tool_for(config.tool, width, config.args)
    }
}

/// What a world answers while one diff is made.
pub open spec fn diff_answers(
    path: Seq<char>,
    width: u16,
    config: DiffConfigView,
    selection: Seq<Seq<char>>,
    world: spec_fn(ActionView) -> ReplyView,
) -> DiffAnswers {
    let tool = configured_tool(config, width);
    let raw = output_of(
        world(ActionView::Capture { program: "jj"@, args: raw_args(path, selection) }),
    );
    DiffAnswers {
        found: world(ActionView::Find { program: tool.program }) == ReplyView::Found(true),
        raw,
        piped: match raw {
            Some(input) => output_of(
                world(ActionView::Pipe { program: tool.program, args: tool.args, input }),
            ),
            None => None,
        },
        colored: output_of(
            world(ActionView::Capture { program: "jj"@, args: color_args(path, selection) }),
        ),
    }
}

/// The diff of a file is what the configured tool makes of it, or else the fallback.
pub proof fn law_diff_made_is_shown(
    path: Seq<char>,
    width: u16,
    config: DiffConfigView,
    selection: Seq<Seq<char>>,
    world: spec_fn(ActionView) -> ReplyView,
)
    requires
        honest(world),
    ensures
        diff_made(diff_start(path, width, config, selection), world) == diff_shown(
            config.tool,
            diff_answers(path, width, config, selection, world),
        ),
{
    reveal_with_fuel(diff_made, 5);
    let tool = configured_tool(config, width);
    let raw_action = ActionView::Capture { program: "jj"@, args: raw_args(path, selection) };
    let color_action = ActionView::Capture { program: "jj"@, args: color_args(path, selection) };
    assert(answers(raw_action, world(raw_action)));
    assert(answers(color_action, world(color_action)));
    let find = ActionView::Find { program: tool.program };
    assert(answers(find, world(find)));
    if let Some(input) = output_of(world(raw_action)) {
        let pipe = ActionView::Pipe { program: tool.program, args: tool.args, input };
        assert(answers(pipe, world(pipe)));
    }
}

proof fn lemma_diff_settles(
    app: AppView,
    after: AfterLoad,
    job: DiffJobView,
    world: spec_fn(ActionView) -> ReplyView,
)
    requires
        valid(app),
        honest(world),
        app.pending == PendingView::Diff(after, job),
    ensures
        settled(app, world) == settled(
            AppView { pending: PendingView::Starts(after, diff_made(job, world)), ..app },
            world,
        ),
    decreases diff_rank(job),
{
    lemma_step(app, world);
    let reply = world(diff_action(job));
    let next = diff_next(job, reply);
    law_diff_terminates(job, reply);
    if !(next is Done) {
        lemma_diff_settles(answered(app, reply), after, next, world);
    } else {
        reveal_with_fuel(diff_made, 2);
    }
}

/// The diff that is loaded for a file: its bytes.
pub open spec fn content_for(
    app: AppView,
    path: Seq<char>,
    world: spec_fn(ActionView) -> ReplyView,
) -> Seq<u8> {
    let columns = match world(ActionView::Width) {
        ReplyView::Width(columns) => columns,
        _ => None,
    };
    diff_made(diff_start(path, diff_width(columns), app.config.diff, app.selection), world)
}

/// The new-file lines of the hunks of a file.
pub open spec fn starts_for(
    app: AppView,
    path: Seq<char>,
    world: spec_fn(ActionView) -> ReplyView,
) -> Seq<u32> {
    captured_starts(
        output_of(
            world(ActionView::Capture { program: "jj"@, args: raw_args(path, app.selection) }),
        ),
    )
}

/// The state with the diff of a file loaded.
pub open spec fn with_diff(
    app: AppView,
    path: Seq<char>,
    after: AfterLoad,
    world: spec_fn(ActionView) -> ReplyView,
) -> AppView {
    let content = content_for(app, path, world);
    loaded(
        AppView { selected_file: Some(path), ..app },
        after,
        content,
        shown_lines(ansi_lines(content), content),
        starts_for(app, path, world),
    )
}

/// Loading the diff of the highlighted file ends with that file's diff, its lines and its hunks
/// in place.
pub proof fn law_loading_ends_with_diff(
    app: AppView,
    after: AfterLoad,
    world: spec_fn(ActionView) -> ReplyView,
)
    requires
        valid(app),
        honest(world),
        app.pending is Idle,
        selected_entry(app) is Some,
    ensures
        settled(load_diff(app, after), world) == with_diff(
            app,
            selected_entry(app)->0.path,
            after,
            world,
        ),
{
    let path = selected_entry(app)->0.path;
    let measuring = load_diff(app, after);
    lemma_load_diff_valid(app, after);
    lemma_step(measuring, world);
    let making = answered(measuring, world(ActionView::Width));
    let job = making.pending->Diff_1;
    lemma_diff_settles(making, after, job, world);
    let content = diff_made(job, world);
    let locating = AppView { pending: PendingView::Starts(after, content), ..making };
    lemma_step(locating, world);
    let end = answered(locating, world(action(locating)));
    assert(end.pending is Idle);
    assert(end =~= with_diff(app, path, after, world));
}

/// Opening a file from the list: its diff is on the screen, at the top.
pub proof fn law_opening_shows_diff(app: AppView, world: spec_fn(ActionView) -> ReplyView)
    requires
        valid(app),
        honest(world),
        app.pending is Idle,
        app.screen == Screen::FileList,
        !app.search_mode,
        selected_entry(app) is Some,
    ensures
        ({
            let path = selected_entry(app)->0.path;
            let end = settled(handle(app, Event::Key { key: Key::Enter, press: true }), world);
            &&& end.screen == Screen::DiffView
            &&& end.selected_file == Some(path)
            &&& end.diff_scroll == 0
            &&& end.diff_content == content_for(app, path, world)
            &&& end.list_state == app.list_state
        }),
{
    let next = AppView { status_message: None, ..app };
    law_loading_ends_with_diff(next, AfterLoad::Open, world);
}

/// In the diff, the next-file key shows the diff of the entry below, at its top.
pub proof fn law_next_file_shows_its_diff(app: AppView, world: spec_fn(ActionView) -> ReplyView)
    requires
        valid(app),
        honest(world),
        app.pending is Idle,
        app.screen == Screen::DiffView,
        select_next(app).list_state.selected != app.list_state.selected,
        selected_entry(select_next(app)) is Some,
    ensures
        ({
            let path = selected_entry(select_next(app))->0.path;
            let end = settled(handle(app, Event::Key { key: Key::Char('n'), press: true }), world);
            &&& end.screen == Screen::DiffView
            &&& end.selected_file == Some(path)
            &&& end.diff_scroll == 0
            &&& end.diff_content == content_for(app, path, world)
            &&& end.list_state == select_next(app).list_state
        }),
{
    let next = AppView { status_message: None, ..app };
    law_moving_keeps_validity(next);
    law_loading_ends_with_diff(select_next(next), AfterLoad::Stay, world);
}

/// In the diff, the previous-file key shows the diff of the entry above, at its top.
pub proof fn law_previous_file_shows_its_diff(
    app: AppView,
    world: spec_fn(ActionView) -> ReplyView,
)
    requires
        valid(app),
        honest(world),
        app.pending is Idle,
        app.screen == Screen::DiffView,
        select_previous(app).list_state.selected != app.list_state.selected,
        selected_entry(select_previous(app)) is Some,
    ensures
        ({
            let path = selected_entry(select_previous(app))->0.path;
            let end = settled(handle(app, Event::Key { key: Key::Char('N'), press: true }), world);
            &&& end.screen == Screen::DiffView
            &&& end.selected_file == Some(path)
            &&& end.diff_scroll == 0
            &&& end.diff_content == content_for(app, path, world)
            &&& end.list_state == select_previous(app).list_state
        }),
{
    let next = AppView { status_message: None, ..app };
    law_moving_keeps_validity(next);
    law_loading_ends_with_diff(select_previous(next), AfterLoad::Stay, world);
}

/// In the diff of the last entry, the next-file key returns to the list, with that entry still
/// highlighted and nothing loaded; so does the previous-file key in the diff of the first.
pub proof fn law_boundary_returns_to_list(app: AppView)
    requires
        valid(app),
        app.pending is Idle,
        app.screen == Screen::DiffView,
        app.list_state.selected is Some,
    ensures
        ({
            let i = app.list_state.selected->0;
            let n = app.filtered_indices.len();
            let end = AppView { screen: Screen::FileList, status_message: None, ..app };
            &&& i + 1 == n ==> handle(app, Event::Key { key: Key::Char('n'), press: true }) == end
            &&& i == 0 ==> handle(app, Event::Key { key: Key::Char('N'), press: true }) == end
        }),
{
}

/// What a reload leaves as it is.
pub open spec fn same_settings(a: AppView, b: AppView) -> bool {
    &&& a.running == b.running
    &&& a.search_mode == b.search_mode
    &&& a.search_query == b.search_query
    &&& a.wrap == b.wrap
    &&& a.config == b.config
    &&& a.selection == b.selection
    &&& a.repository == b.repository
}

/// Whether the diff on the screen is that of the given file, as the world now has it.
pub open spec fn diff_shown_is_of(
    app: AppView,
    path: Seq<char>,
    end: AppView,
    world: spec_fn(ActionView) -> ReplyView,
) -> bool {
    let content = content_for(app, path, world);
    &&& end.selected_file == Some(path)
    &&& end.diff_content == content
    &&& end.diff_lines == shown_lines(ansi_lines(content), content)
    &&& end.hunk_markers == markers(end.diff_lines, starts_for(app, path, world))
}

/// How a reload that listed `app.files` and `app.filtered_indices` ends.
pub open spec fn reloaded(
    app: AppView,
    reload: ReloadView,
    end: AppView,
    world: spec_fn(ActionView) -> ReplyView,
) -> bool {
    &&& end.pending is Idle
    &&& end.needs_redraw
    &&& same_settings(app, end)
    &&& end.files == app.files
    &&& end.file_paths == app.file_paths
    &&& end.filtered_indices == app.filtered_indices
    &&& end.list_state == reselected(app, reload.path).list_state
    &&& app.screen == Screen::FileList ==> {
        &&& end.screen == Screen::FileList
        &&& end.diff_lines == app.diff_lines
        &&& end.diff_scroll == app.diff_scroll
        &&& end.selected_file == app.selected_file
    }
    &&& app.screen == Screen::DiffView ==> {
        let present = reload.path is Some && has_path(app.files, reload.path->0);
        &&& present ==> end.screen == Screen::DiffView && end.diff_scroll == lesser(
            reload.scroll as int,
            max_scroll(end),
        )
        // The diff is that of the file, if the list has it.
        &&& reload.path is Some && entry_of(app, reload.path->0, 0) is Some ==> present
            && diff_shown_is_of(app, reload.path->0, end, world)
        // If the search hides the file, the diff is that of the highlighted one.
        &&& present && entry_of(app, reload.path->0, 0) is None ==> match selected_entry(app) {
            Some(file) => diff_shown_is_of(app, file.path, end, world),
            None => end.selected_file == app.selected_file && end.diff_lines == app.diff_lines,
        }
        &&& !present ==> end.screen == Screen::FileList && end.diff_scroll == 0
    }
}

proof fn lemma_relisted_settles(
    app: AppView,
    reload: ReloadView,
    world: spec_fn(ActionView) -> ReplyView,
)
    requires
        valid(app),
        honest(world),
        app.pending is Idle,
    ensures
        reloaded(app, reload, settled(relisted(app, reload), world), world),
{
    lemma_relisted_valid(app, reload);
    if let Some(path) = reload.path {
        lemma_entry_of(app, path, 0);
        if entry_of(app, path, 0) is Some {
            lemma_entry_has_path(app, path, 0);
        }
    }
    let next = reselected(app, reload.path);
    assert(valid(next));
    let after = AfterLoad::Restore(reload.scroll);
    if selected_entry(next) is Some {
        law_loading_ends_with_diff(next, after, world);
    }
}

/// The files and entries that a reload lists: those that `jj` reports and the search finds among
/// them, or those of before if `jj` cannot be asked.
pub open spec fn listed_again(app: AppView, world: spec_fn(ActionView) -> ReplyView) -> AppView {
    let output = output_of(
        world(ActionView::Capture { program: "jj"@, args: summary_args(app.repository) }),
    );
    match changed_files(output) {
        Ok(files) => {
            let paths = paths_of(files);
            let found = match world(ActionView::Filter { paths, query: app.search_query }) {
                ReplyView::Filtered(indices) => indices,
                _ => seq![],
            };
            filtered(AppView { files, file_paths: paths, ..app }, found)
        },
        Err(_) => app,
    }
}

/// A reload lists the files again, runs the search again and puts the highlight back on the file
/// that was open. A diff on the screen is loaded again, of the same file, and stays scrolled as it
/// was, as far as it reaches; if its file is gone, the list comes back.
#[verifier::rlimit(40)]
pub proof fn law_reload(app: AppView, world: spec_fn(ActionView) -> ReplyView)
    requires
        valid(app),
        honest(world),
        app.pending is Idle,
    ensures
        reloaded(
            listed_again(app, world),
            ReloadView { path: app.selected_file, scroll: app.diff_scroll },
            settled(refresh(app), world),
            world,
        ),
        same_settings(app, listed_again(app, world)),
        listed_again(app, world).screen == app.screen,
{
    let reload = ReloadView { path: app.selected_file, scroll: app.diff_scroll };
    let listing = refresh(app);
    assert(valid(listing));
    lemma_step(listing, world);
    let reply = world(action(listing));
    let next = answered(listing, reply);
    match changed_files(output_of(reply)) {
        Ok(files) => {
            lemma_step(next, world);
            let searched = listed_again(app, world);
            let idle = AppView { pending: PendingView::Idle, ..next };
            assert(valid(idle));
            assert(searched =~= filtered(idle, world(action(next))->Filtered_0));
            assert(valid(searched));
            assert(answered(next, world(action(next))) == relisted(searched, reload));
            lemma_relisted_settles(searched, reload, world);
        },
        Err(_) => {
            assert(app =~= AppView { pending: PendingView::Idle, ..listing });
            lemma_relisted_settles(app, reload, world);
        },
    }
}

/// A diff that is loaded again, with at least as many lines as before, is scrolled exactly as it
/// was.
pub proof fn law_reload_keeps_place(app: AppView, world: spec_fn(ActionView) -> ReplyView)
    requires
        valid(app),
        honest(world),
        app.pending is Idle,
        app.screen == Screen::DiffView,
        has_path(listed_again(app, world).files, app.selected_file->0),
        app.diff_lines.len() <= settled(refresh(app), world).diff_lines.len(),
    ensures
        settled(refresh(app), world).screen == Screen::DiffView,
        settled(refresh(app), world).diff_scroll == app.diff_scroll,
{
    law_reload(app, world);
}

/// The entry found for a path stands for a file with that path.
proof fn lemma_entry_has_path(app: AppView, path: Seq<char>, k: int)
    requires
        0 <= k,
        app.filtered_indices.len() <= usize::MAX,
        entry_of(app, path, k) is Some,
    ensures
        ({
            let e = entry_of(app, path, k)->0;
            &&& k <= e < app.filtered_indices.len()
            &&& app.filtered_indices[e as int] < app.files.len()
            &&& app.files[app.filtered_indices[e as int] as int].path == path
        }),
    decreases app.filtered_indices.len() - k,
{
    let i = app.filtered_indices[k];
    if !(i < app.files.len() && app.files[i as int].path == path) {
        lemma_entry_has_path(app, path, k + 1);
    }
}

/// If the list has an entry for a path, one is found.
proof fn lemma_entry_found(app: AppView, path: Seq<char>, k: int, e: int)
    requires
        0 <= k <= e < app.filtered_indices.len(),
        app.filtered_indices[e] < app.files.len(),
        app.files[app.filtered_indices[e] as int].path == path,
    ensures
        entry_of(app, path, k) is Some,
    decreases e - k,
{
    if k < e {
        lemma_entry_found(app, path, k + 1, e);
    }
}

/// After a reload, the highlight is on the file that was open, if the list still has it.
pub proof fn law_reload_keeps_highlight(
    app: AppView,
    world: spec_fn(ActionView) -> ReplyView,
    e: int,
)
    requires
        valid(app),
        honest(world),
        app.pending is Idle,
        app.selected_file is Some,
        ({
            let list = listed_again(app, world);
            &&& 0 <= e < list.filtered_indices.len()
            &&& list.filtered_indices[e] < list.files.len()
            &&& list.files[list.filtered_indices[e] as int].path == app.selected_file->0
        }),
    ensures
        selected_entry(settled(refresh(app), world)) is Some,
        selected_entry(settled(refresh(app), world))->0.path == app.selected_file->0,
{
    law_reload(app, world);
    let list = listed_again(app, world);
    let path = app.selected_file->0;
    let end = settled(refresh(app), world);
    law_viewer_settles(refresh(app), world);
    lemma_entry_found(list, path, 0, e);
    lemma_entry_has_path(list, path, 0);
}

/// Returning from the editor is followed by a reload.
pub proof fn law_editing_reloads(app: AppView, world: spec_fn(ActionView) -> ReplyView)
    requires
        valid(app),
        honest(world),
        app.pending is Edit,
    ensures
        settled(app, world) == settled(
            refresh(AppView { pending: PendingView::Idle, ..app }),
            world,
        ),
{
    lemma_step(app, world);
}

/// The editor opens the file with the line of the hunk in view as `+N` before it, and without a
/// line from the list.
pub proof fn law_editor_opens_at_hunk(app: AppView)
    requires
        valid(app),
        app.pending is Edit,
    ensures
        action(app) == (ActionView::Edit {
            program: app.config.editor.command,
            args: match current_hunk_line(app) {
                Some(n) => app.config.editor.args.push(seq!['+'] + decimal(n as nat)).push(
                    app.selected_file->0,
                ),
                None => app.config.editor.args.push(app.selected_file->0),
            },
        }),
        app.screen == Screen::FileList ==> current_hunk_line(app) is None,
        app.hunk_markers.len() == 0 ==> current_hunk_line(app) is None,
{
    let args = app.config.editor.args;
    let path = app.selected_file->0;
    match current_hunk_line(app) {
        Some(n) => {
            let jump = seq!['+'] + decimal(n as nat);
            assert(args + seq![jump] + seq![path] =~= args.push(jump).push(path));
        },
        None => {
            assert(args + seq![] + seq![path] =~= args.push(path));
        },
    }
}

/// A status message lasts until the next key that is pressed; other events do nothing at all.
pub proof fn law_status_lasts_until_next_key(app: AppView, event: Event)
    ensures
        event matches Event::Key { key, press: true } ==> handle(app, event).status_message is None,
        !(event matches Event::Key { key, press: true }) ==> handle(app, event) == app,
{
}

/// Scrolling down and up again by the same key pair leads back, unless the end of the diff was
/// in the way.
pub proof fn law_scrolling_up_undoes_scrolling_down(app: AppView)
    requires
        valid(app),
        app.screen == Screen::DiffView,
    ensures
        app.diff_scroll + 1 <= max_scroll(app) ==> diff_key(
            diff_key(app, Key::Char('j')),
            Key::Char('k'),
        ) == app,
        app.diff_scroll + 20 <= max_scroll(app) ==> diff_key(
            diff_key(app, Key::Char('d')),
            Key::Char('u'),
        ) == app,
{
}

/// Scrolling down never moves the view up, however long the diff is: it moves by so many lines,
/// unless the last line or the greatest scroll position comes first. The end key goes as far.
pub proof fn law_scrolling_down_moves_down(app: AppView)
    requires
        valid(app),
        app.screen == Screen::DiffView,
    ensures
        ({
            let line = diff_key(app, Key::Char('j')).diff_scroll;
            let page = diff_key(app, Key::Char('d')).diff_scroll;
            let end = diff_key(app, Key::Char('G')).diff_scroll;
            let last = app.diff_lines.len() - 1;
            &&& app.diff_scroll <= line <= page <= end
            &&& app.diff_scroll + 1 <= last && app.diff_scroll < u16::MAX ==> line
                == app.diff_scroll + 1
            &&& app.diff_scroll + 20 <= last && app.diff_scroll + 20 <= u16::MAX ==> page
                == app.diff_scroll + 20
            &&& 0 <= last <= u16::MAX ==> end == last
            &&& last > u16::MAX ==> end == u16::MAX
        }),
{
}

/// Toggling the wrapping of lines changes nothing else, and toggling it twice leads back.
pub proof fn law_wrap_toggles(app: AppView)
    ensures
        diff_key(app, Key::Char('w')) == (AppView { wrap: !app.wrap, ..app }),
        diff_key(diff_key(app, Key::Char('w')), Key::Char('w')) == app,
        app.screen == Screen::DiffView ==> ({
            let toggle = Event::Key { key: Key::Char('w'), press: true };
            handle(handle(app, toggle), toggle) == (AppView { status_message: None, ..app })
        }),
{
}

/// In the list, moving down and up again leads back, unless the last entry was highlighted.
pub proof fn law_moving_up_undoes_moving_down(app: AppView)
    requires
        valid(app),
        app.list_state.selected is Some,
        app.list_state.selected->0 + 1 < app.filtered_indices.len(),
    ensures
        select_previous(select_next(app)) == app,
{
}

/// Typing a character into the search and deleting it again searches for the same as before.
pub proof fn law_backspace_undoes_typing(app: AppView, c: char)
    ensures
        search_key(search_key(app, Key::Char(c)), Key::Backspace) == update_filter(app, None),
{
    assert(app.search_query.push(c).drop_last() =~= app.search_query);
}

/// Leaving the search with Escape searches for nothing, and closes the box.
pub proof fn law_escape_cancels_search(app: AppView, world: spec_fn(ActionView) -> ReplyView)
    requires
        valid(app),
        honest(world),
        app.pending is Idle,
    ensures
        ({
            let end = settled(search_key(app, Key::Esc), world);
            &&& end.pending is Idle
            &&& !end.search_mode
            &&& end.search_query.len() == 0
            &&& world(ActionView::Filter { paths: app.file_paths, query: seq![] })
                == ReplyView::Filtered(end.filtered_indices)
            &&& end.list_state.selected == first_of(end.filtered_indices.len())
        }),
{
    let next = search_key(app, Key::Esc);
    lemma_search_key_valid(app, Key::Esc);
    lemma_step(next, world);
}

/// Whatever is typed, the list comes to show what the search finds for it, with the first entry
/// highlighted.
pub proof fn law_typing_searches(
    app: AppView,
    c: char,
    world: spec_fn(ActionView) -> ReplyView,
)
    requires
        valid(app),
        honest(world),
        app.pending is Idle,
    ensures
        ({
            let query = app.search_query.push(c);
            let end = settled(search_key(app, Key::Char(c)), world);
            &&& end.pending is Idle
            &&& end.search_query == query
            &&& world(ActionView::Filter { paths: app.file_paths, query })
                == ReplyView::Filtered(end.filtered_indices)
            &&& end.list_state.selected == first_of(end.filtered_indices.len())
        }),
{
    let next = search_key(app, Key::Char(c));
    lemma_search_key_valid(app, Key::Char(c));
    lemma_step(next, world);
}

/// Whether the program of a turn is found, and takes the text.
pub open spec fn takes(
    turn: int,
    text: Seq<char>,
    world: spec_fn(ActionView) -> ReplyView,
) -> bool {
    &&& world(ActionView::Find { program: candidate(turn) }) == ReplyView::Found(true)
    &&& world(
        ActionView::Feed { program: candidate(turn), args: candidate_args(turn), text },
    ) == ReplyView::Fed(true)
}

proof fn lemma_copy_settles(
    app: AppView,
    text: Seq<char>,
    turn: int,
    world: spec_fn(ActionView) -> ReplyView,
)
    requires
        valid(app),
        honest(world),
        0 <= turn < CANDIDATES,
        app.pending == PendingView::Copy(CopyJobView::Find { text, turn }),
    ensures
        settled(app, world) == (AppView {
            status_message: Some(
                copy_status(
                    text,
                    exists|i: int| turn <= i < CANDIDATES && #[trigger] takes(i, text, world),
                ),
            ),
            pending: PendingView::Idle,
            ..app
        }),
    decreases CANDIDATES - turn,
{
    lemma_step(app, world);
    let first = answered(app, world(action(app)));
    let found = world(ActionView::Find { program: candidate(turn) }) == ReplyView::Found(true);
    if found {
        lemma_step(first, world);
    }
    let second = if found {
        answered(first, world(action(first)))
    } else {
        first
    };
    if takes(turn, text, world) {
        assert(second.pending is Idle);
    } else {
        if turn + 1 < CANDIDATES {
            lemma_copy_settles(second, text, turn + 1, world);
        }
        assert((exists|i: int| turn <= i < CANDIDATES && #[trigger] takes(i, text, world)) == (
        exists|i: int| turn + 1 <= i < CANDIDATES && #[trigger] takes(i, text, world))) by {
            assert forall|i: int|
                turn <= i < CANDIDATES && #[trigger] takes(i, text, world) implies turn + 1
                <= i by {}
        }
    }
}

/// Copying the path of the open or highlighted file ends with a message, which confirms the path
/// exactly if one of the programs is found and takes it. Nothing else changes.
pub proof fn law_copying_reports(app: AppView, world: spec_fn(ActionView) -> ReplyView)
    requires
        valid(app),
        honest(world),
        app.pending is Idle,
    ensures
        settled(copy_current_path(app), world) == (match current_path(app) {
            Some(path) => AppView {
                status_message: Some(
                    copy_status(
                        path,
                        exists|i: int| 0 <= i < CANDIDATES && #[trigger] takes(i, path, world),
                    ),
                ),
                ..app
            },
            None => app,
        }),
{
    if let Some(path) = current_path(app) {
        lemma_copy_valid(app);
        lemma_copy_settles(copy_current_path(app), path, 0, world);
    }
}

} // verus!
