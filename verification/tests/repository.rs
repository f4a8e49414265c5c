use jjview::cli::Cli;
use jjview::git::repository::{parse_summary_line, RepositoryError};
use jjview::git::{FileStatus, Repository};
use jjview::number::decimal_text;
use jjview::text::{chars_of, comes_before, same_text, split_lines};

fn parsed(line: &str) -> Option<(String, FileStatus)> {
    parse_summary_line(line).map(|f| (f.path, f.status))
}

fn entry(path: &str, status: FileStatus) -> Option<(String, FileStatus)> {
    Some((path.to_string(), status))
}

#[test]
fn markers_are_read() {
    assert_eq!(parsed("M path/to/file"), entry("path/to/file", FileStatus::Modified));
    assert_eq!(parsed("C copy"), entry("copy", FileStatus::Modified));
    assert_eq!(parsed("A new"), entry("new", FileStatus::Added));
    assert_eq!(parsed("D old name"), entry("old name", FileStatus::Deleted));
    assert_eq!(parsed("R old => new"), entry("new", FileStatus::Renamed));
}

#[test]
fn renames_report_what_follows_the_last_arrow() {
    assert_eq!(parsed("R a => b => c"), entry("c", FileStatus::Renamed));
    assert_eq!(parsed("R a => => c"), entry("c", FileStatus::Renamed));
    assert_eq!(parsed("R a =>b"), entry("a =>b", FileStatus::Renamed));
    assert_eq!(parsed("R a => "), None);
}

#[test]
fn other_lines_are_passed_over() {
    assert_eq!(parsed(""), None);
    assert_eq!(parsed("M"), None);
    assert_eq!(parsed("M "), None);
    assert_eq!(parsed("X path"), None);
    assert_eq!(parsed("MM path"), None);
    assert_eq!(parsed(" M path"), None);
}

fn repository() -> Repository {
    let selection = vec!["--from".to_string(), "x".to_string()];
    match Repository::open(selection, Some(true)) {
        Ok(repository) => repository,
        Err(e) => panic!("{:?}", e),
    }
}

fn listed(summary: &str) -> Vec<(String, FileStatus)> {
    match repository().get_changed_files(Some(summary.as_bytes().to_vec())) {
        Ok(files) => files.into_iter().map(|f| (f.path, f.status)).collect(),
        Err(e) => panic!("{:?}", e),
    }
}

#[test]
fn files_are_listed_by_path() {
    let files = listed("M b\r\nA a/z\nnoise\nD a\nR q => Z\nA ä\nM b\n");
    let paths: Vec<&str> = files.iter().map(|f| f.0.as_str()).collect();
    assert_eq!(paths, vec!["Z", "a", "a/z", "b", "b", "ä"]);
    let mut sorted = files.clone();
    sorted.sort_by(|a, b| a.0.cmp(&b.0));
    assert_eq!(files, sorted);
}

#[test]
fn files_with_one_path_keep_their_order() {
    assert_eq!(
        listed("D x\nA a\nA x\nM x\n"),
        vec![
            ("a".to_string(), FileStatus::Added),
            ("x".to_string(), FileStatus::Deleted),
            ("x".to_string(), FileStatus::Added),
            ("x".to_string(), FileStatus::Modified),
        ]
    );
}

#[test]
fn listing_errors() {
    let result = repository().get_changed_files(None);
    assert!(matches!(result, Err(RepositoryError::SummaryNotRun)));
    let result = repository().get_changed_files(Some(vec![b'M', b' ', 0xff, b'\n']));
    assert!(matches!(result, Err(RepositoryError::SummaryNotUtf8)));
    assert_eq!(
        RepositoryError::SummaryNotUtf8.message(),
        "jj diff --summary returned invalid UTF-8"
    );
    assert_eq!(
        RepositoryError::SummaryNotRun.message(),
        "Failed to run jj diff --summary"
    );
}

#[test]
fn opening_errors() {
    let result = Repository::open(Vec::new(), None);
    assert!(matches!(result, Err(RepositoryError::JjNotRun)));
    let result = Repository::open(Vec::new(), Some(false));
    assert!(matches!(result, Err(RepositoryError::NotARepository)));
    assert_eq!(
        RepositoryError::JjNotRun.message(),
        "Failed to run jj. Is jj installed and on PATH?"
    );
    assert_eq!(
        RepositoryError::NotARepository.message(),
        "Not a jj repository. Please run this command inside a jj repository."
    );
}

#[test]
fn summary_is_taken_of_the_selection() {
    assert_eq!(
        repository().summary_command(),
        vec!["diff", "--from", "x", "--summary"]
    );
}

fn no_options() -> Cli {
    Cli {
        revisions: None,
        from: None,
        to: None,
        ignore_all_space: false,
        ignore_space_change: false,
        context: None,
    }
}

#[test]
fn no_options_select_the_working_copy() {
    assert_eq!(no_options().selection(), Vec::<String>::new());
}

#[test]
fn options_are_passed_on_in_order() {
    let cli = Cli {
        revisions: Some("@".to_string()),
        from: Some("a".to_string()),
        to: Some("b".to_string()),
        ignore_all_space: true,
        ignore_space_change: true,
        context: Some(10),
    };
    assert_eq!(
        cli.selection(),
        vec![
            "-r",
            "@",
            "--from",
            "a",
            "--to",
            "b",
            "--ignore-all-space",
            "--ignore-space-change",
            "--context",
            "10"
        ]
    );
    let cli = Cli { context: Some(0), ..no_options() };
    assert_eq!(cli.selection(), vec!["--context", "0"]);
}

#[test]
fn numbers_are_written_in_decimal() {
    for n in [0usize, 7, 9, 10, 19, 100, 65535, 4294967296, usize::MAX] {
        assert_eq!(decimal_text(n), n.to_string());
    }
}

#[test]
fn lines_are_split_as_by_the_standard_library() {
    for text in [
        "", "a", "\n", "a\n", "a\nb", "a\r\nb\r\n", "a\r", "a\r\r\n\rb\n\n", "\r\n", "x\n\ny", "\r",
    ] {
        let expected: Vec<Vec<char>> = text.lines().map(|l| l.chars().collect()).collect();
        assert_eq!(split_lines(text), expected, "{:?}", text);
    }
}

#[test]
fn texts_are_ordered_as_by_the_standard_library() {
    let texts = ["", "a", "b", "ab", "aa", "Z", "é", "\u{ffff}", "\u{10000}", "a/b", "a b"];
    for a in texts {
        for b in texts {
            assert_eq!(comes_before(a, b), a < b, "{:?} {:?}", a, b);
            assert_eq!(same_text(a, b), a == b, "{:?} {:?}", a, b);
        }
    }
    assert_eq!(chars_of("aé"), vec!['a', 'é']);
}
