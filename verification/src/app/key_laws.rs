//! What each key does, screen by screen.

use vstd::prelude::*;

use crate::app::model::{
    handle, scroll_overflows, AfterLoad, AppView, Event, Key, ListState, PendingView, ReloadView,
    Screen,
};
use crate::clipboard::CopyJobView;
use crate::git::repository::FileView;

verus! {

/// The state after a key is pressed.
pub open spec fn pressed(app: AppView, key: Key) -> AppView {
    handle(app, Event::Key { key, press: true })
}

/// The file that entry `i` of the list stands for, if the list has such an entry and the entry
/// stands for a file.
pub open spec fn file_of_entry(app: AppView, i: int) -> Option<FileView> {
    if 0 <= i < app.filtered_indices.len() && app.filtered_indices[i] < app.files.len() {
        Some(app.files[app.filtered_indices[i] as int])
    } else {
        None
    }
}

/// The file that is highlighted.
pub open spec fn highlighted(app: AppView) -> Option<FileView> {
    match app.list_state.selected {
        Some(i) => file_of_entry(app, i as int),
        None => None,
    }
}

/// The list with entry `i` highlighted.
pub open spec fn highlighting(list: ListState, i: int) -> ListState {
    ListState { offset: list.offset, selected: Some(i as usize) }
}

/// Only the press of a key has an effect.
pub proof fn law_only_presses_count(app: AppView, key: Key)
    ensures
        handle(app, Event::Other) == app,
        handle(app, Event::Key { key, press: false }) == app,
{
}

/// Scrolling overflows exactly where a key that scrolls down is pressed in the diff, and the
/// position cannot grow by so many lines within 16 bits.
pub proof fn law_scroll_overflows(app: AppView, key: Key)
    ensures
        !scroll_overflows(app, Event::Other),
        !scroll_overflows(app, Event::Key { key, press: false }),
        app.screen == Screen::FileList ==> !scroll_overflows(app, Event::Key { key, press: true }),
        app.screen == Screen::DiffView ==> ({
            let overflows = scroll_overflows(app, Event::Key { key, press: true });
            &&& key == Key::Char('j') || key == Key::Down ==> (overflows <==> app.diff_scroll
                == 65535)
            &&& key == Key::Char('d') || key == Key::PageDown ==> (overflows <==> app.diff_scroll
                > 65515)
            &&& key != Key::Char('j') && key != Key::Down && key != Key::Char('d') && key
                != Key::PageDown ==> !overflows
        }),
{
}

/// In the list, `j`, `n` and the down arrow do the same, and so do `k`, `N` and the up arrow, and
/// `l` and Enter.
pub proof fn law_list_keys_with_two_names(app: AppView)
    requires
        app.screen == Screen::FileList,
        !app.search_mode,
    ensures
        pressed(app, Key::Down) == pressed(app, Key::Char('j')),
        pressed(app, Key::Char('n')) == pressed(app, Key::Char('j')),
        pressed(app, Key::Up) == pressed(app, Key::Char('k')),
        pressed(app, Key::Char('N')) == pressed(app, Key::Char('k')),
        pressed(app, Key::Char('l')) == pressed(app, Key::Enter),
{
}

/// In the list, with or without the search box, the arrows move the highlight by one entry, at
/// most to the last or the first, and change nothing else. Where nothing is highlighted, they
/// highlight the first entry.
pub proof fn law_arrows_move_highlight(app: AppView)
    requires
        app.screen == Screen::FileList,
        app.filtered_indices.len() <= usize::MAX,
    ensures
        ({
            let n = app.filtered_indices.len() as int;
            let quiet = AppView { status_message: None, ..app };
            let down = pressed(app, Key::Down);
            let up = pressed(app, Key::Up);
            &&& n == 0 ==> down == quiet && up == quiet
            &&& n > 0 && app.list_state.selected is None ==> down == (AppView {
                list_state: highlighting(app.list_state, 0),
                ..quiet
            }) && up == down
            &&& n > 0 && app.list_state.selected is Some ==> {
                let i = app.list_state.selected->0 as int;
                &&& down == (AppView {
                    list_state: highlighting(
                        app.list_state,
                        if i + 1 < n {
                            i + 1
                        } else {
                            n - 1
                        },
                    ),
                    ..quiet
                })
                &&& up == (AppView {
                    list_state: highlighting(
                        app.list_state,
                        if i == 0 {
                            0
                        } else {
                            i - 1
                        },
                    ),
                    ..quiet
                })
            }
        }),
{
}

/// In the list, `q` stops the viewer and `/` opens the search box. Neither changes anything else.
pub proof fn law_list_quit_and_search(app: AppView)
    requires
        app.screen == Screen::FileList,
        !app.search_mode,
    ensures
        pressed(app, Key::Char('q')) == (AppView { running: false, status_message: None, ..app }),
        pressed(app, Key::Char('/')) == (AppView {
            search_mode: true,
            status_message: None,
            ..app
        }),
{
}

/// In the list, Enter starts loading the diff of the highlighted file, to open it; `e` starts
/// editing that file, and `c` starts copying its path. Where no file is highlighted, they do
/// nothing. `r` starts a reload, of the open file and its place.
pub proof fn law_list_work_keys(app: AppView)
    requires
        app.screen == Screen::FileList,
        !app.search_mode,
    ensures
        ({
            let quiet = AppView { status_message: None, ..app };
            &&& highlighted(app) matches Some(file) ==> {
                &&& pressed(app, Key::Enter) == (AppView {
                    selected_file: Some(file.path),
                    pending: PendingView::Width(AfterLoad::Open),
                    ..quiet
                })
                &&& pressed(app, Key::Char('e')) == (AppView {
                    selected_file: Some(file.path),
                    pending: PendingView::Edit,
                    ..quiet
                })
                &&& pressed(app, Key::Char('c')) == (AppView {
                    pending: PendingView::Copy(CopyJobView::Find { text: file.path, turn: 0 }),
                    ..quiet
                })
            }
            &&& highlighted(app) is None ==> {
                &&& pressed(app, Key::Enter) == quiet
                &&& pressed(app, Key::Char('e')) == quiet
                &&& pressed(app, Key::Char('c')) == quiet
            }
            &&& pressed(app, Key::Char('r')) == (AppView {
                pending: PendingView::List(
                    ReloadView { path: app.selected_file, scroll: app.diff_scroll },
                ),
                ..quiet
            })
        }),
{
}

/// In the list, any other key does nothing.
pub proof fn law_other_list_keys(app: AppView, c: char)
    requires
        app.screen == Screen::FileList,
        !app.search_mode,
    ensures
        ({
            let quiet = AppView { status_message: None, ..app };
            &&& pressed(app, Key::Esc) == quiet
            &&& pressed(app, Key::Backspace) == quiet
            &&& pressed(app, Key::PageUp) == quiet
            &&& pressed(app, Key::PageDown) == quiet
            &&& pressed(app, Key::Home) == quiet
            &&& pressed(app, Key::End) == quiet
            &&& pressed(app, Key::Other) == quiet
            &&& c != 'q' && c != 'j' && c != 'n' && c != 'k' && c != 'N' && c != '/' && c != 'e'
                && c != 'c' && c != 'r' && c != 'l' ==> pressed(app, Key::Char(c)) == quiet
        }),
{
}

/// In the search box, every character is typed, Backspace deletes the last one, and Escape deletes
/// all and closes the box; the search is run for what is then there. Enter closes the box and
/// starts loading the diff of the highlighted file. Other keys but the arrows do nothing.
pub proof fn law_search_keys(app: AppView, c: char)
    requires
        app.screen == Screen::FileList,
        app.search_mode,
    ensures
        ({
            let quiet = AppView { status_message: None, ..app };
            let n = app.search_query.len() as int;
            &&& pressed(app, Key::Char(c)) == (AppView {
                search_query: app.search_query + seq![c],
                pending: PendingView::Filter(None),
                ..quiet
            })
            &&& pressed(app, Key::Backspace) == (AppView {
                search_query: if n == 0 {
                    seq![]
                } else {
                    app.search_query.take(n - 1)
                },
                pending: PendingView::Filter(None),
                ..quiet
            })
            &&& pressed(app, Key::Esc) == (AppView {
                search_mode: false,
                search_query: seq![],
                pending: PendingView::Filter(None),
                ..quiet
            })
            &&& highlighted(app) is None ==> pressed(app, Key::Enter) == (AppView {
                search_mode: false,
                ..quiet
            })
            &&& highlighted(app) matches Some(file) ==> pressed(app, Key::Enter) == (AppView {
                search_mode: false,
                selected_file: Some(file.path),
                pending: PendingView::Width(AfterLoad::Open),
                ..quiet
            })
            &&& pressed(app, Key::PageUp) == quiet
            &&& pressed(app, Key::PageDown) == quiet
            &&& pressed(app, Key::Home) == quiet
            &&& pressed(app, Key::End) == quiet
            &&& pressed(app, Key::Other) == quiet
        }),
{
    let n = app.search_query.len() as int;
    assert(app.search_query.push(c) =~= app.search_query + seq![c]);
    if n == 0 {
        assert(app.search_query =~= seq![]);
    } else {
        assert(app.search_query.drop_last() =~= app.search_query.take(n - 1));
    }
}

/// In the diff, the named keys do what their letters do.
pub proof fn law_diff_keys_with_two_names(app: AppView)
    requires
        app.screen == Screen::DiffView,
    ensures
        pressed(app, Key::Down) == pressed(app, Key::Char('j')),
        pressed(app, Key::Up) == pressed(app, Key::Char('k')),
        pressed(app, Key::PageDown) == pressed(app, Key::Char('d')),
        pressed(app, Key::PageUp) == pressed(app, Key::Char('u')),
        pressed(app, Key::Home) == pressed(app, Key::Char('g')),
        pressed(app, Key::End) == pressed(app, Key::Char('G')),
        pressed(app, Key::Esc) == pressed(app, Key::Char('h')),
{
}

/// In the diff, the scroll keys move by one line, by twenty, to the top or to the bottom, at most
/// to the first or the last line (or the greatest position of 16 bits), and change nothing else.
pub proof fn law_scroll_keys(app: AppView)
    requires
        app.screen == Screen::DiffView,
    ensures
        ({
            let last = if app.diff_lines.len() == 0 {
                0
            } else {
                app.diff_lines.len() - 1
            };
            let limit = if last <= 65535 {
                last
            } else {
                65535
            };
            let at = app.diff_scroll as int;
            let down = pressed(app, Key::Down);
            let up = pressed(app, Key::Up);
            let page_down = pressed(app, Key::PageDown);
            let page_up = pressed(app, Key::PageUp);
            let top = pressed(app, Key::Home);
            let bottom = pressed(app, Key::End);
            let quiet = AppView { status_message: None, ..app };
            &&& down == (AppView { diff_scroll: down.diff_scroll, ..quiet })
            &&& up == (AppView { diff_scroll: up.diff_scroll, ..quiet })
            &&& page_down == (AppView { diff_scroll: page_down.diff_scroll, ..quiet })
            &&& page_up == (AppView { diff_scroll: page_up.diff_scroll, ..quiet })
            &&& top == (AppView { diff_scroll: 0, ..quiet })
            &&& bottom == (AppView { diff_scroll: bottom.diff_scroll, ..quiet })
            &&& down.diff_scroll == (if at + 1 <= limit {
                at + 1
            } else {
                limit
            })
            &&& page_down.diff_scroll == (if at + 20 <= limit {
                at + 20
            } else {
                limit
            })
            &&& up.diff_scroll == (if at >= 1 {
                at - 1
            } else {
                0
            })
            &&& page_up.diff_scroll == (if at >= 20 {
                at - 20
            } else {
                0
            })
            &&& bottom.diff_scroll == limit
        }),
{
}

/// In the diff, `q` stops the viewer, Escape returns to the list and to the top of the diff, and
/// `w` toggles the wrapping of lines. None of them changes anything else.
pub proof fn law_diff_plain_keys(app: AppView)
    requires
        app.screen == Screen::DiffView,
    ensures
        pressed(app, Key::Char('q')) == (AppView { running: false, status_message: None, ..app }),
        pressed(app, Key::Esc) == (AppView {
            screen: Screen::FileList,
            diff_scroll: 0,
            status_message: None,
            ..app
        }),
        pressed(app, Key::Char('w')) == (AppView {
            wrap: !app.wrap,
            status_message: None,
            ..app
        }),
{
}

/// In the diff, `e` starts editing the open file, `c` starts copying its path, and `r` starts a
/// reload of it and its place.
pub proof fn law_diff_work_keys(app: AppView)
    requires
        app.screen == Screen::DiffView,
    ensures
        ({
            let quiet = AppView { status_message: None, ..app };
            &&& app.selected_file matches Some(path) ==> {
                &&& pressed(app, Key::Char('e')) == (AppView {
                    pending: PendingView::Edit,
                    ..quiet
                })
                &&& pressed(app, Key::Char('c')) == (AppView {
                    pending: PendingView::Copy(CopyJobView::Find { text: path, turn: 0 }),
                    ..quiet
                })
            }
            &&& app.selected_file is None ==> pressed(app, Key::Char('e')) == quiet && pressed(
                app,
                Key::Char('c'),
            ) == quiet
            &&& pressed(app, Key::Char('r')) == (AppView {
                pending: PendingView::List(
                    ReloadView { path: app.selected_file, scroll: app.diff_scroll },
                ),
                ..quiet
            })
        }),
{
}

/// In the diff, `n` and `N` highlight the next or previous entry and start loading the diff of its
/// file, in place of the one on the screen. Where there is no such entry, the list comes back as it
/// was.
pub proof fn law_adjacent_file_keys(app: AppView, i: int)
    requires
        app.screen == Screen::DiffView,
        app.filtered_indices.len() <= usize::MAX,
        0 <= i < app.filtered_indices.len(),
        app.list_state.selected == Some(i as usize),
    ensures
        ({
            let n = app.filtered_indices.len() as int;
            let quiet = AppView { status_message: None, ..app };
            let next = pressed(app, Key::Char('n'));
            let previous = pressed(app, Key::Char('N'));
            let below = AppView { list_state: highlighting(app.list_state, i + 1), ..quiet };
            let above = AppView { list_state: highlighting(app.list_state, i - 1), ..quiet };
            &&& i + 1 == n ==> next == (AppView { screen: Screen::FileList, ..quiet })
            &&& i == 0 ==> previous == (AppView { screen: Screen::FileList, ..quiet })
            &&& i + 1 < n ==> next == (match file_of_entry(app, i + 1) {
                Some(file) => AppView {
                    selected_file: Some(file.path),
                    pending: PendingView::Width(AfterLoad::Stay),
                    ..below
                },
                None => below,
            })
            &&& i > 0 ==> previous == (match file_of_entry(app, i - 1) {
                Some(file) => AppView {
                    selected_file: Some(file.path),
                    pending: PendingView::Width(AfterLoad::Stay),
                    ..above
                },
                None => above,
            })
        }),
{
}

/// In the diff, with no entry highlighted, `n` and `N` go to the first entry, or back to the list
/// if there is none.
pub proof fn law_adjacent_file_keys_without_highlight(app: AppView)
    requires
        app.screen == Screen::DiffView,
        app.list_state.selected is None,
    ensures
        ({
            let quiet = AppView { status_message: None, ..app };
            let first = AppView { list_state: highlighting(app.list_state, 0), ..quiet };
            let next = pressed(app, Key::Char('n'));
            &&& pressed(app, Key::Char('N')) == next
            &&& app.filtered_indices.len() == 0 ==> next == (AppView {
                screen: Screen::FileList,
                ..quiet
            })
            &&& app.filtered_indices.len() > 0 ==> next == (match file_of_entry(app, 0) {
                Some(file) => AppView {
                    selected_file: Some(file.path),
                    pending: PendingView::Width(AfterLoad::Stay),
                    ..first
                },
                None => first,
            })
        }),
{
}

/// In the diff, any other key does nothing.
pub proof fn law_other_diff_keys(app: AppView, c: char)
    requires
        app.screen == Screen::DiffView,
    ensures
        ({
            let quiet = AppView { status_message: None, ..app };
            &&& pressed(app, Key::Enter) == quiet
            &&& pressed(app, Key::Backspace) == quiet
            &&& pressed(app, Key::Other) == quiet
            &&& c != 'q' && c != 'h' && c != 'j' && c != 'k' && c != 'd' && c != 'u' && c != 'g'
                && c != 'G' && c != 'e' && c != 'r' && c != 'c' && c != 'w' && c != 'n' && c
                != 'N' ==> pressed(app, Key::Char(c)) == quiet
        }),
{
}

} // verus!
