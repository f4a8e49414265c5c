//! The viewer at work.

use vstd::prelude::*;

use crate::app::laws::{
    law_answers_keep_validity, law_diff_keys_keep_validity, law_events_keep_validity,
    law_initial_state_is_valid, law_list_keys_keep_validity, law_loading_keeps_validity,
    law_moving_keeps_validity,
};
use crate::app::model::{
    action, all_indices, answered, captured_starts, copy_current_path, copy_status,
    current_hunk_line, diff_key, diff_width, editor_args, entry_of, filtered, handle, has_path,
    initial, lesser, line_overflows, list_key, load_diff, loaded, max_scroll, open_in_editor,
    open_selected_in_editor, optional_text, paths_of, refresh, relisted, reselected, restored,
    scroll_overflows, search_key, select, select_next, select_previous, selected_entry,
    show_adjacent_file, update_filter, valid, AfterLoad, AppView, Event, Key, ListState, Pending,
    PendingView, Reload, ReloadView, Screen,
};
use crate::clipboard::{copy_to_clipboard, CopyJob};
use crate::config::{Config, ConfigView};
use crate::effect::{answers, output_view, Action, Reply};
use crate::git::diff::{get_diff, jj_diff_args, DiffJob};
use crate::git::hunks::{
    as_ints, captured_text, checked_first_change_lines, counts_fit, hunk_first_change_lines,
    text_of_capture,
};
use crate::git::repository::{
    changed_files, file_views, law_listing, root_error, ChangedFile, Repository, RepositoryError,
};
use crate::number::push_decimal;
use crate::render::{
    ansi_lines, hunk_line_at, line_views, mark_hunks, render_lines, shown_lines, DiffLine,
};
use crate::text::{copy_strings, lines_of, same_text, texts};

verus! {

impl ListState {
    /// The highlighted entry.
    pub fn selected(&self) -> (index: Option<usize>)
        ensures
            index == self.selected,
    {
        self.selected
    }

    /// Highlights an entry, or none.
    pub fn select(&mut self, index: Option<usize>)
        ensures
            *final(self) == select(*old(self), index),
    {
        self.selected = index;
        if index.is_none() {
            self.offset = 0;
        }
    }
}

/// The viewer.
pub struct App {
    pub running: bool,
    pub screen: Screen,
    pub files: Vec<ChangedFile>,
    pub file_paths: Vec<String>,
    pub filtered_indices: Vec<usize>,
    pub list_state: ListState,
    pub search_mode: bool,
    pub search_query: String,
    pub diff_content: Vec<u8>,
    pub diff_lines: Vec<DiffLine>,
    pub diff_scroll: u16,
    pub wrap: bool,
    pub selected_file: Option<String>,
    pub config: Config,
    pub needs_redraw: bool,
    pub repository: Repository,
    pub selection: Vec<String>,
    /// The hunks of the open diff: the row at which each begins, and its line in the new file.
    pub hunk_markers: Vec<(usize, u32)>,
    /// A passing remark, such as `Copied: …`, until the next key.
    pub status_message: Option<String>,
    /// The outside work that is under way.
    pub pending: Pending,
}

impl View for App {
    type V = AppView;

    open spec fn view(&self) -> AppView {
        AppView {
            running: self.running,
            screen: self.screen,
            files: file_views(self.files@),
            file_paths: texts(self.file_paths@),
            filtered_indices: self.filtered_indices@,
            list_state: self.list_state,
            search_mode: self.search_mode,
            search_query: self.search_query@,
            diff_content: self.diff_content@,
            diff_lines: line_views(self.diff_lines@),
            diff_scroll: self.diff_scroll,
            wrap: self.wrap,
            selected_file: optional_text(self.selected_file),
            config: self.config@,
            needs_redraw: self.needs_redraw,
            repository: self.repository@,
            selection: texts(self.selection@),
            hunk_markers: self.hunk_markers@,
            status_message: optional_text(self.status_message),
            pending: self.pending@,
        }
    }
}

/// The paths of some files.
fn collect_paths(files: &Vec<ChangedFile>) -> (paths: Vec<String>)
    ensures
        texts(paths@) == paths_of(file_views(files@)),
{
    let mut paths: Vec<String> = Vec::new();
    let mut i: usize = 0;
    while i < files.len()
        invariant
            i <= files@.len(),
            paths@.len() == i,
            forall|j: int| 0 <= j < i ==> (#[trigger] paths@[j])@ == files@[j].path@,
        decreases files.len() - i,
    {
        paths.push(files[i].path.clone());
        i += 1;
    }
    assert(texts(paths@) =~= paths_of(file_views(files@)));
    paths
}

/// The indices of all of `n` files.
fn count_up(n: usize) -> (indices: Vec<usize>)
    ensures
        indices@ == all_indices(n as nat),
{
    let mut indices: Vec<usize> = Vec::new();
    let mut i: usize = 0;
    while i < n
        invariant
            i <= n,
            indices@ == all_indices(i as nat),
        decreases n - i,
    {
        indices.push(i);
        i += 1;
        assert(indices@ =~= all_indices(i as nat));
    }
    indices
}

/// A copy of an optional string.
pub(crate) fn copy_optional(text: &Option<String>) -> (copy: Option<String>)
    ensures
        optional_text(copy) == optional_text(*text),
{
    match text {
        Some(t) => Some(t.clone()),
        None => None,
    }
}

/// What the viewer starts with, or why it cannot.
pub open spec fn started(
    selection: Seq<Seq<char>>,
    config: ConfigView,
    root: Option<bool>,
    summary: Option<Seq<u8>>,
) -> Result<AppView, RepositoryError> {
    match root_error(root) {
        Some(e) => Err(e),
        None => match changed_files(summary) {
            Ok(files) => Ok(initial(selection, config, files)),
            Err(e) => Err(e),
        },
    }
}

impl App {
    /// Starts the viewer, given the exit of `jj root` and the output of `jj diff --summary`.
    pub fn new(
        selection: Vec<String>,
        config: Config,
        root: Option<bool>,
        summary: Option<Vec<u8>>,
    ) -> (app: Result<App, RepositoryError>)
        ensures
            match started(texts(selection@), config@, root, output_view(summary)) {
                Ok(start) => app is Ok && app->Ok_0@ == start && valid(start),
                Err(e) => app == Err::<App, RepositoryError>(e),
            },
    {
        let repository = match Repository::open(copy_strings(&selection), root) {
            Ok(repository) => repository,
            Err(e) => return Err(e),
        };
        let ghost bytes = output_view(summary);
        let files = match repository.get_changed_files(summary) {
            Ok(files) => files,
            Err(e) => return Err(e),
        };
        let file_paths = collect_paths(&files);
        let filtered_indices = count_up(files.len());
        let selected = if files.len() > 0 {
            Some(0usize)
        } else {
            None
        };
        let app = App {
            running: true,
            screen: Screen::FileList,
            files,
            file_paths,
            filtered_indices,
            list_state: ListState { offset: 0, selected },
            search_mode: false,
            search_query: String::new(),
            diff_content: Vec::new(),
            diff_lines: Vec::new(),
            diff_scroll: 0,
            wrap: true,
            selected_file: None,
            config,
            needs_redraw: false,
            repository,
            selection,
            hunk_markers: Vec::new(),
            status_message: None,
            pending: Pending::Idle,
        };
        proof {
            assert(app@ =~= initial(texts(selection@), config@, file_views(files@)));
            law_listing(vstd::utf8::decode_utf8(bytes->0));
            law_initial_state_is_valid(texts(selection@), config@, file_views(files@));
        }
        Ok(app)
    }
}

impl App {
    /// The file that the highlighted entry of the list stands for.
    fn entry(&self) -> (file: Option<&ChangedFile>)
        ensures
            match (file, selected_entry(self@)) {
                (Some(f), Some(v)) => f@ == v,
                (None, None) => true,
                _ => false,
            },
    {
        match self.list_state.selected() {
            Some(i) => if i < self.filtered_indices.len() && self.filtered_indices[i]
                < self.files.len() {
                let index = self.filtered_indices[i];
                assert(file_views(self.files@)[index as int] == self.files@[index as int]@);
                Some(&self.files[index])
            } else {
                None
            },
            None => None,
        }
    }

    /// Moves the highlight one entry down.
    pub fn select_next(&mut self)
        requires
            valid(old(self)@),
        ensures
            final(self)@ == select_next(old(self)@),
            valid(final(self)@),
    {
        proof {
            law_moving_keeps_validity(self@);
        }
        if self.filtered_indices.len() == 0 {
            return;
        }
        let last = self.filtered_indices.len() - 1;
        let next: usize = match self.list_state.selected() {
            Some(i) => if i < last {
                i + 1
            } else {
                last
            },
            None => 0,
        };
        self.list_state.select(Some(next));
    }

    /// Moves the highlight one entry up.
    pub fn select_previous(&mut self)
        requires
            valid(old(self)@),
        ensures
            final(self)@ == select_previous(old(self)@),
            valid(final(self)@),
    {
        proof {
            law_moving_keeps_validity(self@);
        }
        if self.filtered_indices.len() == 0 {
            return;
        }
        let next: usize = match self.list_state.selected() {
            Some(i) => i.saturating_sub(1),
            None => 0,
        };
        self.list_state.select(Some(next));
    }

    /// Asks for the search to be run.
    fn update_filter(&mut self, reload: Option<Reload>)
        ensures
            final(self)@ == update_filter(
                old(self)@,
                match reload {
                    Some(r) => Some(r@),
                    None => None,
                },
            ),
    {
        self.pending = Pending::Filter(reload);
    }

    /// Lists the files that were found.
    pub fn show_filtered(&mut self, indices: Vec<usize>)
        ensures
            final(self)@ == filtered(old(self)@, indices@),
            valid(old(self)@) ==> valid(final(self)@),
    {
        self.filtered_indices = indices;
        if self.filtered_indices.len() > 0 {
            self.list_state.select(Some(0));
        } else {
            self.list_state.select(None);
        }
    }

    /// The greatest scroll position.
    fn scroll_limit(&self) -> (limit: u16)
        ensures
            limit == max_scroll(self@),
    {
        let last: usize = self.diff_lines.len().saturating_sub(1);
        if last <= u16::MAX as usize {
            last as u16
        } else {
            u16::MAX
        }
    }

    /// Scrolls to where the diff was before it was loaded again.
    fn restore_scroll(&mut self, scroll: u16)
        ensures
            final(self)@ == restored(old(self)@, scroll),
    {
        let limit = self.scroll_limit();
        self.diff_scroll = if scroll <= limit {
            scroll
        } else {
            limit
        };
        self.needs_redraw = true;
    }

    /// Starts loading the diff of the highlighted file.
    fn load_diff_for_selected(&mut self, after: AfterLoad)
        ensures
            final(self)@ == load_diff(old(self)@, after),
    {
        let path = match self.entry() {
            Some(file) => Some(file.path.clone()),
            None => None,
        };
        match path {
            Some(path) => {
                self.selected_file = Some(path);
                self.pending = Pending::Width(after);
            },
            None => {
                if let AfterLoad::Restore(scroll) = after {
                    self.restore_scroll(scroll);
                }
            },
        }
    }

    /// Takes a diff with its lines and the new-file lines of its hunks.
    pub fn show_diff(
        &mut self,
        after: AfterLoad,
        content: Vec<u8>,
        lines: Vec<DiffLine>,
        starts: &Vec<u32>,
    )
        ensures
            final(self)@ == loaded(
                old(self)@,
                after,
                content@,
                line_views(lines@),
                starts@,
            ),
            valid(old(self)@) && old(self)@.selected_file is Some ==> valid(final(self)@),
    {
        proof {
            if valid(self@) && self@.selected_file is Some {
                law_loading_keeps_validity(self@, after, content@, line_views(lines@), starts@);
            }
        }
        self.diff_content = content;
        self.hunk_markers = mark_hunks(&lines, starts);
        self.diff_lines = lines;
        self.diff_scroll = 0;
        self.pending = Pending::Idle;
        match after {
            AfterLoad::Open => {
                self.screen = Screen::DiffView;
            },
            AfterLoad::Stay => {},
            AfterLoad::Restore(scroll) => {
                self.restore_scroll(scroll);
            },
        }
    }

    /// Shows the diff of the next or previous file.
    fn show_adjacent_file(&mut self, forward: bool)
        requires
            valid(old(self)@),
        ensures
            final(self)@ == show_adjacent_file(old(self)@, forward),
    {
        let current = self.list_state.selected();
        if forward {
            self.select_next();
        } else {
            self.select_previous();
        }
        let moved = match (current, self.list_state.selected()) {
            (Some(a), Some(b)) => a != b,
            (None, None) => false,
            _ => true,
        };
        if moved {
            self.load_diff_for_selected(AfterLoad::Stay);
        } else {
            self.screen = Screen::FileList;
        }
    }

    /// Starts copying the path of the open or highlighted file.
    fn copy_current_path(&mut self)
        ensures
            final(self)@ == copy_current_path(old(self)@),
    {
        let path = match self.screen {
            Screen::DiffView => copy_optional(&self.selected_file),
            Screen::FileList => match self.entry() {
                Some(file) => Some(file.path.clone()),
                None => None,
            },
        };
        if let Some(path) = path {
            self.pending = Pending::Copy(copy_to_clipboard(path.as_str()));
        }
    }

    /// Starts editing the open file.
    fn open_in_editor(&mut self)
        ensures
            final(self)@ == open_in_editor(old(self)@),
    {
        if self.selected_file.is_some() {
            self.pending = Pending::Edit;
        }
    }

    /// Starts editing the highlighted file.
    fn open_selected_in_editor(&mut self)
        ensures
            final(self)@ == open_selected_in_editor(old(self)@),
    {
        let path = match self.entry() {
            Some(file) => Some(file.path.clone()),
            None => None,
        };
        if let Some(path) = path {
            self.selected_file = Some(path);
            self.open_in_editor();
        }
    }

    /// Starts listing the files, and loading the open diff, again.
    fn refresh(&mut self)
        ensures
            final(self)@ == refresh(old(self)@),
    {
        let reload = Reload { path: copy_optional(&self.selected_file), scroll: self.diff_scroll };
        self.pending = Pending::List(reload);
    }

    /// The first entry of the list that stands for a file with the given path.
    fn entry_of_path(&self, path: &str) -> (entry: Option<usize>)
        ensures
            entry == entry_of(self@, path@, 0),
    {
        let mut k: usize = 0;
        while k < self.filtered_indices.len()
            invariant
                k <= self.filtered_indices@.len(),
                entry_of(self@, path@, 0) == entry_of(self@, path@, k as int),
            decreases self.filtered_indices.len() - k,
        {
            let i = self.filtered_indices[k];
            if i < self.files.len() {
                assert(file_views(self.files@)[i as int] == self.files@[i as int]@);
                if same_text(self.files[i].path.as_str(), path) {
                    return Some(k);
                }
            }
            k += 1;
        }
        None
    }

    /// Whether a file has the given path.
    fn has_file(&self, path: &str) -> (has: bool)
        ensures
            has == has_path(self@.files, path@),
    {
        let mut i: usize = 0;
        while i < self.files.len()
            invariant
                i <= self.files@.len(),
                forall|j: int| 0 <= j < i ==> (#[trigger] self@.files[j]).path != path@,
            decreases self.files.len() - i,
        {
            if same_text(self.files[i].path.as_str(), path) {
                assert(self@.files[i as int].path == path@);
                return true;
            }
            assert(self@.files[i as int] == self.files@[i as int]@);
            i += 1;
        }
        false
    }

    /// Highlights the file that was highlighted before the files were listed again.
    fn reselect(&mut self, path: &Option<String>)
        ensures
            final(self)@ == reselected(old(self)@, optional_text(*path)),
    {
        if let Some(p) = path {
            if let Some(k) = self.entry_of_path(p.as_str()) {
                self.list_state.select(Some(k));
            }
        }
    }

    /// Goes on with a reload once the files are listed.
    fn finish_relisting(&mut self, reload: Reload)
        ensures
            final(self)@ == relisted(old(self)@, reload@),
    {
        self.reselect(&reload.path);
        if self.screen != Screen::DiffView {
            self.needs_redraw = true;
            return;
        }
        let still_present = match &reload.path {
            Some(p) => self.has_file(p.as_str()),
            None => false,
        };
        if still_present {
            self.load_diff_for_selected(AfterLoad::Restore(reload.scroll));
        } else {
            self.screen = Screen::FileList;
            self.diff_scroll = 0;
            self.needs_redraw = true;
        }
    }
}

impl App {
    /// Takes a key in the search box.
    fn handle_search_keys(&mut self, key: Key)
        requires
            valid(old(self)@),
        ensures
            final(self)@ == search_key(old(self)@, key),
    {
        match key {
            Key::Esc => {
                self.search_mode = false;
                self.search_query = String::new();
                self.update_filter(None);
            },
            Key::Enter => {
                self.search_mode = false;
                if self.filtered_indices.len() > 0 {
                    self.load_diff_for_selected(AfterLoad::Open);
                }
            },
            Key::Backspace => {
                let _ = self.search_query.pop();
                self.update_filter(None);
            },
            Key::Char(c) => {
                self.search_query.push(c);
                self.update_filter(None);
            },
            Key::Down => self.select_next(),
            Key::Up => self.select_previous(),
            _ => {},
        }
    }

    /// Takes a key in the list of files.
    pub fn handle_file_list_keys(&mut self, key: Key)
        requires
            valid(old(self)@),
        ensures
            final(self)@ == (if old(self)@.search_mode {
                search_key(old(self)@, key)
            } else {
                list_key(old(self)@, key)
            }),
            valid(final(self)@),
    {
        proof {
            law_list_keys_keep_validity(self@, key);
        }
        if self.search_mode {
            self.handle_search_keys(key);
            return;
        }
        match key {
            Key::Char('q') => {
                self.running = false;
            },
            Key::Char('j') | Key::Char('n') | Key::Down => self.select_next(),
            Key::Char('k') | Key::Char('N') | Key::Up => self.select_previous(),
            Key::Char('/') => {
                self.search_mode = true;
            },
            Key::Char('e') => self.open_selected_in_editor(),
            Key::Char('c') => self.copy_current_path(),
            Key::Char('r') => self.refresh(),
            Key::Enter | Key::Char('l') => self.load_diff_for_selected(AfterLoad::Open),
            _ => {},
        }
    }

    /// Scrolls down by `n` lines, at most to the last line or the greatest scroll position.
    fn scroll_down(&mut self, n: u16)
        requires
            old(self)@.diff_scroll + n <= u16::MAX,
        ensures
            final(self)@ == (AppView {
                diff_scroll: lesser(old(self)@.diff_scroll + n, max_scroll(old(self)@)),
                ..old(self)@
            }),
    {
        let limit = self.scroll_limit();
        let scroll = self.diff_scroll + n;
        self.diff_scroll = if scroll <= limit {
            scroll
        } else {
            limit
        };
    }

    /// Takes a key in the diff.
    pub fn handle_diff_view_keys(&mut self, key: Key)
        requires
            valid(old(self)@),
            old(self)@.screen == Screen::DiffView,
            !scroll_overflows(old(self)@, Event::Key { key, press: true }),
        ensures
            final(self)@ == diff_key(old(self)@, key),
            valid(final(self)@),
    {
        proof {
            law_diff_keys_keep_validity(self@, key);
        }
        match key {
            Key::Char('q') => {
                self.running = false;
            },
            Key::Esc | Key::Char('h') => {
                self.screen = Screen::FileList;
                self.diff_scroll = 0;
            },
            Key::Char('j') | Key::Down => self.scroll_down(1),
            Key::Char('k') | Key::Up => {
                self.diff_scroll = self.diff_scroll.saturating_sub(1);
            },
            Key::Char('d') | Key::PageDown => self.scroll_down(20),
            Key::Char('u') | Key::PageUp => {
                self.diff_scroll = self.diff_scroll.saturating_sub(20);
            },
            Key::Char('g') | Key::Home => {
                self.diff_scroll = 0;
            },
            Key::Char('G') | Key::End => {
                self.diff_scroll = self.scroll_limit();
            },
            Key::Char('e') => self.open_in_editor(),
            Key::Char('r') => self.refresh(),
            Key::Char('c') => self.copy_current_path(),
            Key::Char('w') => {
                self.wrap = !self.wrap;
            },
            Key::Char('n') => self.show_adjacent_file(true),
            Key::Char('N') => self.show_adjacent_file(false),
            _ => {},
        }
    }

    /// Whether an event scrolls the diff beyond what 16 bits count.
    pub fn scroll_would_overflow(&self, event: Event) -> (overflows: bool)
        ensures
            overflows == scroll_overflows(self@, event),
    {
        if self.screen != Screen::DiffView {
            return false;
        }
        match event {
            Event::Key { key, press: true } => match key {
                Key::Char('j') | Key::Down => self.diff_scroll > u16::MAX - 1,
                Key::Char('d') | Key::PageDown => self.diff_scroll > u16::MAX - 20,
                _ => false,
            },
            _ => false,
        }
    }

    /// Takes an event. Only the press of a key has an effect.
    pub fn handle_event(&mut self, event: Event)
        requires
            valid(old(self)@),
            old(self)@.pending is Idle,
            !scroll_overflows(old(self)@, event),
        ensures
            final(self)@ == handle(old(self)@, event),
            valid(final(self)@),
    {
        proof {
            law_events_keep_validity(self@, event);
        }
        if let Event::Key { key, press: true } = event {
            self.status_message = None;
            match self.screen {
                Screen::FileList => self.handle_file_list_keys(key),
                Screen::DiffView => self.handle_diff_view_keys(key),
            }
        }
    }

    /// The file line to open the editor at.
    pub fn current_hunk_line(&self) -> (line: Option<u32>)
        ensures
            line == current_hunk_line(self@),
    {
        match self.screen {
            Screen::DiffView => hunk_line_at(&self.hunk_markers, self.diff_scroll as usize),
            Screen::FileList => None,
        }
    }

    /// The outside work that the viewer waits for.
    pub fn action(&self) -> (next: Action)
        ensures
            next@ == action(self@),
    {
        match &self.pending {
            Pending::Idle => Action::Wait,
            Pending::Filter(_) => Action::Filter {
                paths: copy_strings(&self.file_paths),
                query: self.search_query.clone(),
            },
            Pending::List(_) => Action::Capture {
                program: "jj".to_string(),
                args: self.repository.summary_command(),
            },
            Pending::Width(_) => Action::Width,
            Pending::Diff(_, job) => job.action(),
            Pending::Starts(_, _) => match &self.selected_file {
                Some(path) => Action::Capture {
                    program: "jj".to_string(),
                    args: jj_diff_args(path.as_str(), &self.selection),
                },
                None => Action::Wait,
            },
            Pending::Copy(job) => job.action(),
            Pending::Edit => match &self.selected_file {
                Some(path) => Action::Edit {
                    program: self.config.editor.command.clone(),
                    args: editor_arguments(
                        &self.config.editor.args,
                        self.current_hunk_line(),
                        path,
                    ),
                },
                None => Action::Wait,
            },
        }
    }
}

/// The arguments of the editor for a file, and a line in it if there is one.
pub fn editor_arguments(args: &Vec<String>, line: Option<u32>, path: &String) -> (all: Vec<String>)
    ensures
        texts(all@) == editor_args(texts(args@), line, path@),
{
    let mut all = copy_strings(args);
    let ghost own = all@;
    if let Some(n) = line {
        let mut jump = String::new();
        jump.push('+');
        push_decimal(&mut jump, n as usize);
        assert(jump@ =~= seq!['+'] + crate::number::decimal(n as nat));
        all.push(jump);
        assert(texts(all@) =~= texts(own).push(jump@));
    }
    let ghost before = all@;
    all.push(path.clone());
    assert(texts(all@) =~= texts(before).push(path@));
    assert(texts(all@) =~= editor_args(texts(args@), line, path@));
    all
}

/// The columns to render a diff for.
fn width_for_diff(columns: Option<u16>) -> (width: u16)
    ensures
        width == diff_width(columns),
{
    match columns {
        Some(w) => w.saturating_sub(2),
        None => 80,
    }
}

/// What the status line says after copying.
fn copy_status_text(path: &str, copied: bool) -> (status: String)
    ensures
        status@ == copy_status(path@, copied),
{
    if copied {
        "Copied: ".to_string().concat(path)
    } else {
        "Copy failed: no wl-copy/xclip/xsel found".to_string()
    }
}

/// The view of an optional reload.
spec fn reload_view(reload: Option<Reload>) -> Option<ReloadView> {
    match reload {
        Some(r) => Some(r@),
        None => None,
    }
}

impl App {
    /// Goes on once the search has been run.
    fn resume_filter(&mut self, reload: Option<Reload>, indices: Vec<usize>)
        ensures
            final(self)@ == (match reload_view(reload) {
                Some(r) => relisted(filtered(old(self)@, indices@), r),
                None => filtered(old(self)@, indices@),
            }),
    {
        self.show_filtered(indices);
        if let Some(r) = reload {
            self.finish_relisting(r);
        }
    }

    /// Goes on once the files have been listed again.
    fn resume_list(&mut self, reload: Reload, output: Option<Vec<u8>>)
        ensures
            final(self)@ == (match changed_files(output_view(output)) {
                Ok(files) => update_filter(
                    AppView { files, file_paths: paths_of(files), ..old(self)@ },
                    Some(reload@),
                ),
                Err(_) => relisted(old(self)@, reload@),
            }),
    {
        match self.repository.get_changed_files(output) {
            Ok(files) => {
                self.file_paths = collect_paths(&files);
                self.files = files;
                self.update_filter(Some(reload));
            },
            Err(_) => self.finish_relisting(reload),
        }
    }

    /// Goes on once the terminal has been measured.
    fn resume_width(&mut self, after: AfterLoad, columns: Option<u16>)
        requires
            old(self)@.selected_file is Some,
        ensures
            final(self)@ == (AppView {
                pending: PendingView::Diff(
                    after,
                    crate::git::diff::diff_start(
                        old(self)@.selected_file->0,
                        diff_width(columns),
                        old(self)@.config.diff,
                        old(self)@.selection,
                    ),
                ),
                ..old(self)@
            }),
    {
        if let Some(path) = &self.selected_file {
            let job = get_diff(
                path.as_str(),
                width_for_diff(columns),
                &self.config.diff,
                &self.selection,
            );
            self.pending = Pending::Diff(after, job);
        }
    }

    /// Goes on once the hunks of a diff have been captured.
    fn resume_starts(&mut self, after: AfterLoad, content: Vec<u8>, raw: Option<Vec<u8>>)
        requires
            counts_fit(lines_of(captured_text(output_view(raw)))),
        ensures
            final(self)@ == loaded(
                old(self)@,
                after,
                content@,
                shown_lines(ansi_lines(content@), content@),
                captured_starts(output_view(raw)),
            ),
    {
        let starts = hunk_first_change_lines(&raw);
        proof {
            assert forall|i: int| 0 <= i < starts@.len() implies starts@[i] == captured_starts(
                output_view(raw),
            )[i] by {
                assert(as_ints(starts@)[i] == starts@[i] as int);
            }
            assert(as_ints(starts@).len() == starts@.len());
            assert(starts@ =~= captured_starts(output_view(raw)));
        }
        let lines = render_lines(&content);
        self.show_diff(after, content, lines, &starts);
    }

    /// Takes the answer to the outside work that the viewer waits for.
    pub fn resume(&mut self, reply: Reply)
        requires
            valid(old(self)@),
            answers(action(old(self)@), reply@),
            !line_overflows(old(self)@, reply@),
        ensures
            final(self)@ == answered(old(self)@, reply@),
            valid(final(self)@),
    {
        let ghost before = self@;
        proof {
            assert(reply matches Reply::Filtered(indices) ==> indices@.len() == indices.len());
            law_answers_keep_validity(before, reply@);
        }
        let mut pending = Pending::Idle;
        std::mem::swap(&mut pending, &mut self.pending);
        assert(self@ =~= AppView { pending: PendingView::Idle, ..before });
        match pending {
            Pending::Idle => {},
            Pending::Filter(reload) => {
                if let Reply::Filtered(indices) = reply {
                    self.resume_filter(reload, indices);
                }
            },
            Pending::List(reload) => {
                if let Reply::Output(output) = reply {
                    self.resume_list(reload, output);
                }
            },
            Pending::Width(after) => {
                if let Reply::Width(columns) = reply {
                    self.resume_width(after, columns);
                }
            },
            Pending::Diff(after, job) => {
                self.pending = match job.advance(reply) {
                    DiffJob::Done(content) => Pending::Starts(after, content),
                    next => Pending::Diff(after, next),
                };
            },
            Pending::Starts(after, content) => {
                if let Reply::Output(raw) = reply {
                    self.resume_starts(after, content, raw);
                }
            },
            Pending::Copy(job) => match job.advance(reply) {
                CopyJob::Done { text, copied } => {
                    self.status_message = Some(copy_status_text(text.as_str(), copied));
                },
                next => {
                    self.pending = Pending::Copy(next);
                },
            },
            Pending::Edit => self.refresh(),
        }
    }

    /// Takes the answer to the outside work that the viewer waits for, unless it makes the line
    /// number of a hunk exceed 32 bits. Then nothing changes, and the result is false.
    pub fn try_resume(&mut self, reply: Reply) -> (resumed: bool)
        requires
            valid(old(self)@),
            answers(action(old(self)@), reply@),
        ensures
            resumed == !line_overflows(old(self)@, reply@),
            resumed ==> final(self)@ == answered(old(self)@, reply@),
            !resumed ==> final(self)@ == old(self)@,
            valid(final(self)@),
    {
        if let Pending::Starts(_, _) = &self.pending {
            if let Reply::Output(raw) = &reply {
                let text = text_of_capture(raw);
                if checked_first_change_lines(text.as_str()).is_none() {
                    return false;
                }
            }
        }
        self.resume(reply);
        true
    }

    /// Starts a frame: whether the viewer runs on, and (if so) whether the screen has to be
    /// cleared first.
    pub fn begin_frame(&mut self) -> (clear: Option<bool>)
        requires
            valid(old(self)@),
        ensures
            clear == (if old(self)@.running {
                Some(old(self)@.needs_redraw)
            } else {
                None
            }),
            final(self)@ == (AppView {
                needs_redraw: if old(self)@.running {
                    false
                } else {
                    old(self)@.needs_redraw
                },
                ..old(self)@
            }),
            valid(final(self)@),
    {
        if self.running {
            let clear = self.needs_redraw;
            self.needs_redraw = false;
            Some(clear)
        } else {
            None
        }
    }

    /// Takes over what drawing the list made of its state.
    pub fn set_list_state(&mut self, list_state: ListState)
        requires
            valid(old(self)@),
            list_state.selected matches Some(i) ==> i < old(self)@.filtered_indices.len(),
        ensures
            final(self)@ == (AppView { list_state, ..old(self)@ }),
            valid(final(self)@),
    {
        self.list_state = list_state;
    }
}

} // verus!
