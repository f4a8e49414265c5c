use jjview::app::screens::{layout_diff, layout_list, Area};
use jjview::render::{
    hunk_line_at, is_rule_row, is_whitespace, lines_or_plain, mark_hunks, plain_text_lines,
    render_lines, DiffLine, DiffSpan,
};
use ratatui::style::{Color, Style};

fn text_of(line: &DiffLine) -> String {
    line.spans.iter().map(|s| s.content.as_str()).collect()
}

fn line(parts: &[&str]) -> DiffLine {
    DiffLine {
        spans: parts
            .iter()
            .map(|p| DiffSpan { content: p.to_string(), style: None })
            .collect(),
    }
}

#[test]
fn escape_sequences_become_styles() {
    let lines = render_lines(&b"plain\n\x1b[31mred\x1b[0m tail\n".to_vec());
    let texts: Vec<String> = lines.iter().map(text_of).collect();
    assert_eq!(texts, vec!["plain", "red tail"]);
    assert_eq!(lines[1].spans[0].content, "red");
    assert_eq!(lines[1].spans[0].style, Some(Style::new().fg(Color::Red)));
    assert_eq!(lines[1].spans[1].content, " tail");
}

#[test]
fn unreadable_escapes_leave_plain_text() {
    let lines = lines_or_plain(None, &b"one\r\n\ntw\xffo".to_vec());
    let texts: Vec<String> = lines.iter().map(text_of).collect();
    assert_eq!(texts, vec!["one", "", "tw\u{fffd}o"]);
    assert!(lines.iter().all(|l| l.spans.iter().all(|s| s.style.is_none())));
    assert!(lines[1].spans.is_empty());
    let kept = lines_or_plain(Some(vec![line(&["x"])]), &Vec::new());
    assert_eq!(kept.len(), 1);
    assert!(plain_text_lines("").is_empty());
}

#[test]
fn white_space_is_that_of_unicode() {
    for n in 0..=0x10ffffu32 {
        if let Some(c) = char::from_u32(n) {
            assert_eq!(is_whitespace(c), c.is_whitespace(), "{:x}", n);
        }
    }
}

#[test]
fn rules_are_ten_strokes_and_white_space() {
    let rule = "\u{2500}";
    assert!(is_rule_row(&line(&[&rule.repeat(10)])));
    assert!(is_rule_row(&line(&[" ", &rule.repeat(4), "\t", &rule.repeat(6), "\u{a0}"])));
    assert!(!is_rule_row(&line(&[&rule.repeat(9)])));
    assert!(!is_rule_row(&line(&[&rule.repeat(20), "x"])));
    assert!(!is_rule_row(&line(&["\u{2502}", &rule.repeat(20)])));
    assert!(!is_rule_row(&line(&[])));
}

#[test]
fn hunks_are_marked_above_their_rules() {
    let rule = "\u{2500}".repeat(12);
    let lines = vec![
        line(&[&rule]),
        line(&[&rule]),
        line(&["text"]),
        line(&["head"]),
        line(&[&rule]),
        line(&["more"]),
    ];
    assert_eq!(mark_hunks(&lines, &vec![7, 8, 9, 10]), vec![(0, 7), (0, 8), (3, 9)]);
    assert_eq!(mark_hunks(&lines, &vec![7]), vec![(0, 7)]);
    assert_eq!(mark_hunks(&lines, &Vec::new()), Vec::new());
    assert_eq!(mark_hunks(&Vec::new(), &vec![7]), Vec::new());
}

#[test]
fn line_is_that_of_the_hunk_in_view() {
    let marks = vec![(2, 10), (5, 20), (9, 30)];
    let at = |row| hunk_line_at(&marks, row);
    assert_eq!(at(0), Some(10));
    assert_eq!(at(2), Some(10));
    assert_eq!(at(4), Some(10));
    assert_eq!(at(5), Some(20));
    assert_eq!(at(8), Some(20));
    assert_eq!(at(100), Some(30));
    assert_eq!(hunk_line_at(&Vec::new(), 3), None);
}

#[test]
fn screen_is_divided_from_the_top() {
    let area = Area { x: 2, y: 2, width: 10, height: 12 };
    let layout = layout_list(area, false);
    assert_eq!(layout.search, None);
    assert_eq!(layout.list, Area { x: 2, y: 2, width: 10, height: 11 });
    assert_eq!(layout.help, Area { x: 2, y: 13, width: 10, height: 1 });
    let layout = layout_list(area, true);
    assert_eq!(layout.search, Some(Area { x: 2, y: 2, width: 10, height: 3 }));
    assert_eq!(layout.list, Area { x: 2, y: 5, width: 10, height: 8 });
    assert_eq!(layout.help, Area { x: 2, y: 13, width: 10, height: 1 });
    let layout = layout_diff(area);
    assert_eq!(layout.diff, Area { x: 2, y: 2, width: 10, height: 11 });
    assert_eq!(layout.help, Area { x: 2, y: 13, width: 10, height: 1 });
}

#[test]
fn help_is_the_last_line() {
    for height in (0..=65535u16).step_by(23).chain(0..=40) {
        for y in [0, 1, 65535 - height] {
            let y = y.min(65535 - height);
            let area = Area { x: 3, y, width: 7, height };
            let help_height = if height >= 2 { 1 } else { 0 };
            let rest = height - help_height;
            let main = Area { x: 3, y, width: 7, height: rest };
            let help = Area { x: 3, y: y + rest, width: 7, height: help_height };
            let layout = layout_diff(area);
            assert_eq!((layout.diff, layout.help), (main, help), "{:?}", area);
            let layout = layout_list(area, false);
            assert_eq!((layout.list, layout.help), (main, help), "{:?}", area);
        }
    }
}

#[test]
fn search_box_is_on_top() {
    for height in (5..=65535u16).step_by(37).chain(5..=40) {
        let y = 65535 - height;
        let area = Area { x: 0, y, width: 80, height };
        let layout = layout_list(area, true);
        assert_eq!(layout.search, Some(Area { height: 3, ..area }));
        assert_eq!(layout.list, Area { y: y + 3, height: height - 4, ..area });
        assert_eq!(layout.help, Area { y: y + (height - 1), height: 1, ..area });
    }
    for height in 0..5u16 {
        for y in [0, 9, 60000] {
            let area = Area { x: 0, y, width: 80, height };
            let layout = layout_list(area, true);
            let search = layout.search.unwrap();
            assert_eq!(layout.list.height, height.min(1));
            assert!(search.height <= 3 && layout.help.height <= 1);
            assert_eq!((search.x, search.width, search.y), (0, 80, y));
            assert_eq!(layout.list.y, y + search.height);
            assert_eq!(layout.help.y, layout.list.y + layout.list.height);
            assert_eq!(layout.help.y + layout.help.height, y + height);
        }
    }
}

#[test]
fn areas_end_at_the_last_line() {
    let area = Area { x: 0, y: 65530, width: 80, height: 100 };
    let layout = layout_diff(area);
    assert_eq!(layout.diff, Area { height: 4, ..area });
    assert_eq!(layout.help, Area { y: 65534, height: 1, ..area });
    let layout = layout_list(area, true);
    assert_eq!(layout.search, Some(Area { height: 3, ..area }));
    assert_eq!(layout.list, Area { y: 65533, height: 1, ..area });
    assert_eq!(layout.help, Area { y: 65534, height: 1, ..area });
    let area = Area { y: 65535, ..area };
    let layout = layout_diff(area);
    assert_eq!((layout.diff.height, layout.help.height), (0, 0));
}
