use jjview::app::machine::editor_arguments;
use jjview::app::model::{AfterLoad, Event, Key, ListState, Pending};
use jjview::app::screens::{Area, Tint};
use jjview::app::{App, Screen};
use jjview::config::{Config, DiffConfig, EditorConfig};
use jjview::effect::{Action, Reply};
use jjview::git::repository::RepositoryError;
use jjview::git::FileStatus;

/// A scripted world.
struct World {
    summary: Option<&'static str>,
    columns: Option<u16>,
    diff: String,
    raw: &'static str,
    clipboard: Option<&'static str>,
    log: Vec<String>,
}

impl World {
    fn new(summary: &'static str) -> World {
        World {
            summary: Some(summary),
            columns: Some(100),
            diff: String::new(),
            raw: "",
            clipboard: None,
            log: Vec::new(),
        }
    }

    fn answer(&mut self, action: Action) -> Reply {
        match action {
            Action::Wait => panic!("nothing to answer"),
            Action::Filter { paths, query } => {
                self.log.push(format!("filter {}", query));
                let hits = (0..paths.len()).filter(|i| paths[*i].contains(&query));
                Reply::Filtered(hits.collect())
            }
            Action::Width => Reply::Width(self.columns),
            Action::Find { program } => {
                let known = program == "delta" || Some(program.as_str()) == self.clipboard;
                Reply::Found(known)
            }
            Action::Capture { program, args } => {
                self.log.push(format!("{} {}", program, args.join(" ")));
                if args.last().map(|a| a.as_str()) == Some("--summary") {
                    Reply::Output(self.summary.map(|s| s.as_bytes().to_vec()))
                } else {
                    Reply::Output(Some(self.raw.as_bytes().to_vec()))
                }
            }
            Action::Pipe { program, args, .. } => {
                self.log.push(format!("{} {}", program, args.join(" ")));
                Reply::Output(Some(self.diff.clone().into_bytes()))
            }
            Action::Feed { program, text, .. } => {
                self.log.push(format!("{} < {}", program, text));
                Reply::Fed(true)
            }
            Action::Edit { program, args } => {
                self.log.push(format!("{} {}", program, args.join(" ")));
                Reply::Edited
            }
        }
    }
}

fn config() -> Config {
    Config {
        diff: DiffConfig { tool: "auto".to_string(), args: Vec::new() },
        editor: EditorConfig { command: "hx".to_string(), args: vec!["-v".to_string()] },
    }
}

fn start(world: &World) -> App {
    let selection = vec!["-r".to_string(), "@".to_string()];
    let summary = world.summary.map(|s| s.as_bytes().to_vec());
    match App::new(selection, config(), Some(true), summary) {
        Ok(app) => app,
        Err(e) => panic!("{:?}", e),
    }
}

fn settle(app: &mut App, world: &mut World) {
    loop {
        let action = app.action();
        if matches!(action, Action::Wait) {
            break;
        }
        let reply = world.answer(action);
        assert!(app.try_resume(reply));
    }
    assert!(matches!(app.pending, Pending::Idle));
}

fn press(app: &mut App, world: &mut World, key: Key) {
    let event = Event::Key { key, press: true };
    assert!(!app.scroll_would_overflow(event));
    app.handle_event(event);
    settle(app, world);
}

fn type_keys(app: &mut App, world: &mut World, keys: &str) {
    for c in keys.chars() {
        press(app, world, Key::Char(c));
    }
}

const RULE: &str = "\u{2500}\u{2500}\u{2500}\u{2500}\u{2500}\u{2500}\u{2500}\u{2500}\u{2500}\u{2500}\n";

fn diff_of(lines: usize) -> String {
    let mut diff = format!("head\n{}", RULE);
    for i in 2..lines {
        diff.push_str(&format!("line {}\n", i));
    }
    diff
}

const RAW: &str = "@@ -1,3 +5,4 @@\n ctx\n+new\n";

#[test]
fn starts_on_the_first_file() {
    let app = start(&World::new("M b\nA a\n"));
    assert!(app.running);
    assert_eq!(app.screen, Screen::FileList);
    assert_eq!(app.file_paths, vec!["a", "b"]);
    assert_eq!(app.filtered_indices, vec![0, 1]);
    assert_eq!(app.list_state.selected, Some(0));
    assert!(app.wrap && !app.search_mode && !app.needs_redraw);
    let app = start(&World::new(""));
    assert_eq!(app.list_state.selected, None);
}

#[test]
fn refuses_to_start_without_a_repository() {
    let new = |root, summary: Option<&[u8]>| {
        App::new(Vec::new(), config(), root, summary.map(|s| s.to_vec())).err()
    };
    assert_eq!(new(None, None), Some(RepositoryError::JjNotRun));
    assert_eq!(new(Some(false), Some(b"M a\n")), Some(RepositoryError::NotARepository));
    assert_eq!(new(Some(true), None), Some(RepositoryError::SummaryNotRun));
    assert_eq!(new(Some(true), Some(b"M \xff\n")), Some(RepositoryError::SummaryNotUtf8));
    assert_eq!(new(Some(true), Some(b"")), None);
}

#[test]
fn highlight_moves_within_the_list() {
    let mut world = World::new("M a\nM b\nM c\n");
    let mut app = start(&world);
    type_keys(&mut app, &mut world, "k");
    assert_eq!(app.list_state.selected, Some(0));
    type_keys(&mut app, &mut world, "jn");
    press(&mut app, &mut world, Key::Down);
    assert_eq!(app.list_state.selected, Some(2));
    type_keys(&mut app, &mut world, "kN");
    assert_eq!(app.list_state.selected, Some(0));
    type_keys(&mut app, &mut world, "jk");
    assert_eq!(app.list_state.selected, Some(0));
}

#[test]
fn opening_loads_the_diff_at_its_top() {
    let mut world = World::new("M a\nM b\n");
    world.diff = diff_of(5);
    world.raw = RAW;
    let mut app = start(&world);
    type_keys(&mut app, &mut world, "jl");
    assert_eq!(app.screen, Screen::DiffView);
    assert_eq!(app.selected_file, Some("b".to_string()));
    assert_eq!(app.diff_lines.len(), 5);
    assert_eq!(app.diff_scroll, 0);
    assert_eq!(app.diff_content, diff_of(5).into_bytes());
    assert_eq!(app.hunk_markers, vec![(0, 6)]);
    assert_eq!(
        world.log,
        vec![
            "jj diff -r @ --git -- \"b\"",
            "delta --width 98",
            "jj diff -r @ --git -- \"b\"",
        ]
    );
}

#[test]
fn width_without_a_terminal_is_eighty() {
    let mut world = World::new("M a\n");
    world.columns = None;
    world.raw = RAW;
    let mut app = start(&world);
    press(&mut app, &mut world, Key::Enter);
    assert!(world.log.contains(&"delta --width 80".to_string()));
    world.columns = Some(1);
    type_keys(&mut app, &mut world, "r");
    assert!(world.log.contains(&"delta --width 0".to_string()));
}

#[test]
fn scrolling_stays_within_the_diff() {
    let mut world = World::new("M a\n");
    world.diff = diff_of(50);
    world.raw = RAW;
    let mut app = start(&world);
    type_keys(&mut app, &mut world, "lj");
    assert_eq!(app.diff_scroll, 1);
    type_keys(&mut app, &mut world, "d");
    assert_eq!(app.diff_scroll, 21);
    type_keys(&mut app, &mut world, "uk");
    assert_eq!(app.diff_scroll, 0);
    press(&mut app, &mut world, Key::End);
    assert_eq!(app.diff_scroll, 49);
    press(&mut app, &mut world, Key::PageDown);
    assert_eq!(app.diff_scroll, 49);
    press(&mut app, &mut world, Key::PageUp);
    assert_eq!(app.diff_scroll, 29);
    press(&mut app, &mut world, Key::Home);
    assert_eq!(app.diff_scroll, 0);
    type_keys(&mut app, &mut world, "Gjh");
    assert_eq!((app.screen, app.diff_scroll), (Screen::FileList, 0));
}

#[test]
fn scroll_beyond_sixteen_bits_is_noticed() {
    let mut world = World::new("M a\n");
    world.diff = "\n".repeat(65536);
    world.raw = RAW;
    let mut app = start(&world);
    type_keys(&mut app, &mut world, "lG");
    assert_eq!(app.diff_scroll, 65535);
    let down = Event::Key { key: Key::Char('j'), press: true };
    assert!(app.scroll_would_overflow(down));
    assert!(!app.scroll_would_overflow(Event::Key { key: Key::Char('j'), press: false }));
    assert!(!app.scroll_would_overflow(Event::Key { key: Key::Char('k'), press: true }));
    for _ in 0..19 {
        type_keys(&mut app, &mut world, "k");
    }
    assert!(!app.scroll_would_overflow(down));
    assert!(app.scroll_would_overflow(Event::Key { key: Key::PageDown, press: true }));
}

#[test]
fn long_diffs_scroll_down_to_the_greatest_position() {
    let mut world = World::new("M a\n");
    world.diff = "\n".repeat(65538);
    world.raw = RAW;
    let mut app = start(&world);
    type_keys(&mut app, &mut world, "lG");
    assert_eq!(app.diff_lines.len(), 65538);
    assert_eq!(app.diff_scroll, 65535);
    type_keys(&mut app, &mut world, "kr");
    assert_eq!(app.diff_scroll, 65534);
    assert_eq!(app.screen, Screen::DiffView);

    world.diff = "\n".repeat(65537);
    let mut app = start(&world);
    type_keys(&mut app, &mut world, "lj");
    assert_eq!(app.diff_scroll, 1);
    type_keys(&mut app, &mut world, "ddddd");
    assert_eq!(app.diff_scroll, 101);
    type_keys(&mut app, &mut world, "kj");
    assert_eq!(app.diff_scroll, 101);
    type_keys(&mut app, &mut world, "r");
    assert_eq!(app.diff_scroll, 101);
}

#[test]
fn keys_may_be_handed_to_a_screen_directly() {
    let mut world = World::new("M a\nM b\n");
    world.diff = diff_of(9);
    world.raw = RAW;
    let mut app = start(&world);
    app.handle_file_list_keys(Key::Char('j'));
    assert_eq!(app.list_state.selected, Some(1));
    app.handle_file_list_keys(Key::Char('/'));
    app.handle_file_list_keys(Key::Char('q'));
    assert_eq!((app.search_query.as_str(), app.running), ("q", true));
    settle(&mut app, &mut world);
    press(&mut app, &mut world, Key::Esc);
    type_keys(&mut app, &mut world, "lj");
    app.handle_diff_view_keys(Key::Char('w'));
    assert_eq!((app.wrap, app.diff_scroll, app.screen), (false, 1, Screen::DiffView));
    app.handle_diff_view_keys(Key::Char('w'));
    assert_eq!((app.wrap, app.diff_scroll, app.screen), (true, 1, Screen::DiffView));
}

#[test]
fn adjacent_files_take_each_others_place() {
    let mut world = World::new("M a\nM b\n");
    world.diff = diff_of(5);
    world.raw = RAW;
    let mut app = start(&world);
    type_keys(&mut app, &mut world, "ljn");
    assert_eq!(app.screen, Screen::DiffView);
    assert_eq!(app.selected_file, Some("b".to_string()));
    assert_eq!(app.diff_scroll, 0);
    type_keys(&mut app, &mut world, "N");
    assert_eq!(app.selected_file, Some("a".to_string()));
    // At the first file, the list comes back with it highlighted.
    world.log.clear();
    type_keys(&mut app, &mut world, "N");
    assert_eq!(app.screen, Screen::FileList);
    assert_eq!(app.list_state.selected, Some(0));
    assert!(world.log.is_empty());
    type_keys(&mut app, &mut world, "jln");
    assert_eq!((app.screen, app.list_state.selected), (Screen::FileList, Some(1)));
}

#[test]
fn search_narrows_the_list() {
    let mut world = World::new("M abc\nM b\nM c\n");
    let mut app = start(&world);
    type_keys(&mut app, &mut world, "j/b");
    assert!(app.search_mode);
    assert_eq!(app.search_query, "b");
    assert_eq!(app.filtered_indices, vec![0, 1]);
    assert_eq!(app.list_state.selected, Some(0));
    press(&mut app, &mut world, Key::Down);
    assert_eq!(app.list_state.selected, Some(1));
    type_keys(&mut app, &mut world, "q");
    assert!(app.running);
    assert_eq!((app.filtered_indices.len(), app.list_state.selected), (0, None));
    // Nothing to open: Enter only closes the box.
    press(&mut app, &mut world, Key::Enter);
    assert!(!app.search_mode);
    assert_eq!(app.screen, Screen::FileList);
    type_keys(&mut app, &mut world, "/");
    press(&mut app, &mut world, Key::Backspace);
    assert_eq!(app.search_query, "b");
    press(&mut app, &mut world, Key::Esc);
    assert_eq!((app.search_query.as_str(), app.search_mode), ("", false));
    assert_eq!(app.filtered_indices, vec![0, 1, 2]);
    type_keys(&mut app, &mut world, "/");
    press(&mut app, &mut world, Key::Backspace);
    assert_eq!(app.search_query, "");
    type_keys(&mut app, &mut world, "bc");
    press(&mut app, &mut world, Key::Enter);
    assert_eq!(app.selected_file, Some("abc".to_string()));
    assert_eq!(app.screen, Screen::DiffView);
}

#[test]
fn reload_keeps_file_and_place() {
    let mut world = World::new("M b\nM c\n");
    world.diff = diff_of(30);
    world.raw = RAW;
    let mut app = start(&world);
    type_keys(&mut app, &mut world, "jldj");
    world.summary = Some("M a\nM b\nM c\n");
    type_keys(&mut app, &mut world, "r");
    assert_eq!(app.screen, Screen::DiffView);
    assert_eq!(app.list_state.selected, Some(2));
    assert_eq!(app.selected_file, Some("c".to_string()));
    assert_eq!(app.diff_scroll, 21);
    assert_eq!(app.diff_content, diff_of(30).into_bytes());
    assert!(app.needs_redraw);
    // A shorter diff moves the view up to its last line.
    world.diff = diff_of(10);
    type_keys(&mut app, &mut world, "r");
    assert_eq!(app.diff_scroll, 9);
    // A file that is gone closes its diff.
    world.summary = Some("M a\n");
    type_keys(&mut app, &mut world, "r");
    assert_eq!((app.screen, app.diff_scroll), (Screen::FileList, 0));
    assert_eq!(app.list_state.selected, Some(0));
}

#[test]
fn reload_that_fails_keeps_the_files() {
    let mut world = World::new("M a\nM b\n");
    let mut app = start(&world);
    type_keys(&mut app, &mut world, "j");
    world.summary = None;
    type_keys(&mut app, &mut world, "r");
    assert_eq!(app.file_paths, vec!["a", "b"]);
    assert_eq!(app.list_state.selected, Some(1));
    assert!(app.needs_redraw);
    assert_eq!(world.log, vec!["jj diff -r @ --summary"]);
}

#[test]
fn reload_loads_the_highlighted_file_when_the_search_hides_the_open_one() {
    let mut world = World::new("M a\nM b\n");
    world.raw = RAW;
    world.diff = diff_of(9);
    let mut app = start(&world);
    press(&mut app, &mut world, Key::Char('l'));
    assert_eq!(app.selected_file, Some("a".to_string()));
    app.search_query = "b".to_string();
    press(&mut app, &mut world, Key::Char('r'));
    assert_eq!(app.filtered_indices, vec![1]);
    assert_eq!(app.selected_file, Some("b".to_string()));
    assert_eq!(app.screen, Screen::DiffView);
}

#[test]
fn editor_opens_at_the_hunk_in_view() {
    let mut world = World::new("M a\n");
    world.diff = diff_of(30);
    world.raw = RAW;
    let mut app = start(&world);
    assert_eq!(app.current_hunk_line(), None);
    type_keys(&mut app, &mut world, "le");
    assert!(world.log.contains(&"hx -v +6 a".to_string()));
    // The list and the diff are read again afterwards.
    assert_eq!(
        world.log.iter().filter(|l| l.as_str() == "jj diff -r @ --summary").count(),
        1
    );
    assert_eq!(app.screen, Screen::DiffView);
    world.log.clear();
    type_keys(&mut app, &mut world, "he");
    assert_eq!(world.log[0], "hx -v a");
}

#[test]
fn editor_needs_a_file() {
    let mut world = World::new("");
    let mut app = start(&world);
    type_keys(&mut app, &mut world, "elc");
    assert!(world.log.is_empty());
    assert_eq!(app.screen, Screen::FileList);
    let args = editor_arguments(&Vec::new(), Some(4294967295), &"f".to_string());
    assert_eq!(args, vec!["+4294967295", "f"]);
}

#[test]
fn copying_is_reported_until_the_next_key() {
    let mut world = World::new("M a\nM b\n");
    world.clipboard = Some("xsel");
    let mut app = start(&world);
    type_keys(&mut app, &mut world, "jc");
    assert_eq!(world.log, vec!["xsel < b"]);
    assert_eq!(app.status_message, Some("Copied: b".to_string()));
    app.handle_event(Event::Other);
    app.handle_event(Event::Key { key: Key::Char('k'), press: false });
    assert_eq!(app.status_message, Some("Copied: b".to_string()));
    assert_eq!(app.list_state.selected, Some(1));
    press(&mut app, &mut world, Key::Other);
    assert_eq!(app.status_message, None);
    world.clipboard = None;
    type_keys(&mut app, &mut world, "lc");
    assert_eq!(
        app.status_message,
        Some("Copy failed: no wl-copy/xclip/xsel found".to_string())
    );
}

#[test]
fn toggles_and_quits() {
    let mut world = World::new("M a\n");
    let mut app = start(&world);
    type_keys(&mut app, &mut world, "lw");
    assert!(!app.wrap);
    type_keys(&mut app, &mut world, "w");
    assert!(app.wrap);
    assert_eq!(app.begin_frame(), Some(false));
    type_keys(&mut app, &mut world, "r");
    assert_eq!(app.begin_frame(), Some(true));
    assert_eq!(app.begin_frame(), Some(false));
    type_keys(&mut app, &mut world, "q");
    assert_eq!(app.begin_frame(), None);
}

#[test]
fn overflowing_line_numbers_change_nothing() {
    let mut world = World::new("M a\n");
    world.raw = "@@ -1 +4294967295 @@\n ctx\n";
    world.diff = diff_of(3);
    let mut app = start(&world);
    app.handle_event(Event::Key { key: Key::Enter, press: true });
    while !matches!(app.pending, Pending::Starts(_, _)) {
        let reply = world.answer(app.action());
        assert!(app.try_resume(reply));
    }
    let reply = world.answer(app.action());
    assert!(!app.try_resume(reply));
    assert!(matches!(app.pending, Pending::Starts(_, _)));
    assert_eq!(app.screen, Screen::FileList);
    app.resume(Reply::Output(None));
    assert_eq!(app.screen, Screen::DiffView);
    assert!(app.hunk_markers.is_empty());
}

#[test]
fn shown_diff_replaces_the_one_before() {
    let mut app = start(&World::new("M a\n"));
    let lines = jjview::render::plain_text_lines("one\ntwo\n");
    app.show_diff(AfterLoad::Stay, b"xy".to_vec(), lines, &vec![3]);
    assert_eq!((app.diff_content.len(), app.diff_lines.len()), (2, 2));
    assert_eq!(app.screen, Screen::FileList);
    assert!(app.hunk_markers.is_empty());
}

#[test]
fn list_screen_shows_the_files() {
    let mut world = World::new("M m\nA a\nD d\nR x => r\n");
    let mut app = start(&world);
    let screen = app.draw_file_list();
    assert_eq!(screen.title, " Changed Files (4/4) ");
    assert_eq!(screen.search, None);
    let rows: Vec<(&str, Tint, &str)> = screen
        .rows
        .iter()
        .map(|r| (r.mark.as_str(), r.tint, r.path.as_str()))
        .collect();
    assert_eq!(
        rows,
        vec![
            ("A ", Tint::Green, "a"),
            ("D ", Tint::Red, "d"),
            ("M ", Tint::Yellow, "m"),
            ("R ", Tint::Cyan, "r"),
        ]
    );
    assert_eq!(
        (screen.help.as_str(), screen.help_tint),
        (
            " j/k: move | l/Enter: view diff | e: edit | c: copy path | /: search | r: reload | q: quit",
            Tint::DarkGray
        )
    );
    type_keys(&mut app, &mut world, "/m");
    let screen = app.draw_file_list();
    assert_eq!(screen.title, " Changed Files (1/4) ");
    assert_eq!(screen.search, Some("m".to_string()));
    assert_eq!(screen.help, " Type to search | Enter: select | Esc: cancel ");
    // An index without a file has no row.
    app.filtered_indices = vec![3, 9, 0];
    assert_eq!(app.draw_file_list().rows.len(), 2);
    app.status_message = Some("hello".to_string());
    let screen = app.draw_file_list();
    assert_eq!((screen.help.as_str(), screen.help_tint), ("hello", Tint::Green));
}

#[test]
fn statuses_have_their_marks() {
    assert_eq!(FileStatus::Untracked.mark(), ('?', Tint::Gray));
    assert_eq!(FileStatus::Modified.mark(), ('M', Tint::Yellow));
}

#[test]
fn diff_screen_shows_the_lines_in_view() {
    let mut world = World::new("M a\n");
    let mut app = start(&world);
    let screen = app.draw_diff_view(10);
    assert_eq!(screen.title, " Diff ");
    assert_eq!((screen.first_line, screen.end_line), (0, 0));
    assert_eq!(
        screen.help,
        " j/k: scroll | n/N: next/prev file | e: edit | c: copy path | w: wrap (on) | r: reload | h/Esc: back | q: quit | Line 0/0 "
    );
    world.diff = diff_of(30);
    world.raw = RAW;
    type_keys(&mut app, &mut world, "ldw");
    let screen = app.draw_diff_view(10);
    assert_eq!(screen.title, " a ");
    assert_eq!((screen.first_line, screen.end_line), (20, 28));
    assert_eq!(
        screen.help,
        " j/k: scroll | n/N: next/prev file | e: edit | c: copy path | w: wrap (off) | r: reload | h/Esc: back | q: quit | Line 21/30 "
    );
    assert!(!screen.wrap);
    let screen = app.draw_diff_view(1);
    assert_eq!((screen.first_line, screen.end_line), (20, 20));
    let screen = app.draw_diff_view(100);
    assert_eq!((screen.first_line, screen.end_line), (20, 30));
}

#[test]
fn cursor_stands_behind_the_query() {
    let mut app = start(&World::new("M a\n"));
    let area = Area { x: 4, y: 7, width: 20, height: 3 };
    assert_eq!(app.search_cursor(area), Some((5, 8)));
    app.search_query = "aé".to_string();
    assert_eq!(app.search_cursor(area), Some((8, 8)));
    app.search_query = "x".repeat(65531);
    assert_eq!(app.search_cursor(area), None);
    app.search_query = "x".repeat(65536);
    assert_eq!(app.search_cursor(area), Some((5, 8)));
    let low = Area { y: 65535, ..area };
    assert_eq!(app.search_cursor(low), None);
}

#[test]
fn drawing_may_move_the_list() {
    let mut app = start(&World::new("M a\nM b\nM c\n"));
    app.set_list_state(ListState { offset: 1, selected: Some(2) });
    assert_eq!((app.list_state.offset, app.list_state.selected()), (1, Some(2)));
    app.show_filtered(Vec::new());
    assert_eq!((app.list_state.offset, app.list_state.selected()), (0, None));
}
