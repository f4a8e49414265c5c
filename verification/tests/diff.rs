use jjview::clipboard::{copy_to_clipboard, CopyJob};
use jjview::config::DiffConfig;
use jjview::effect::{Action, Reply};
use jjview::git::diff::{fileset_literal, DiffJob};
use jjview::git::hunks::{checked_first_change_lines, first_change_lines};
use jjview::git::{get_diff, hunk_first_change_lines};

#[test]
fn fileset_literal_quotes_dollar_paths() {
    // `$` is a fileset metacharacter; quoting makes it literal.
    assert_eq!(
        fileset_literal("web/routes/$id/index.tsx"),
        "\"web/routes/$id/index.tsx\""
    );
}

#[test]
fn fileset_literal_escapes_backslash_and_quote() {
    // Escape for the string literal itself so exotic names still round-trip.
    assert_eq!(fileset_literal(r#"a\b"c"#), r#""a\\b\"c""#);
}

#[test]
fn skips_leading_context_to_first_addition() {
    // Header says new start is line 10, but the change is 3 context lines in.
    let diff = "\
@@ -10,6 +10,7 @@ fn foo() {
 ctx a
 ctx b
 ctx c
+added line
 ctx d
";
    assert_eq!(first_change_lines(diff), vec![13]);
}

#[test]
fn leading_context_then_deletion() {
    // Two context lines, then a deletion: jumps to the new-file line now at
    // that position (12 = 10 + 2 context lines).
    let diff = "\
@@ -10,4 +10,3 @@
 ctx a
 ctx b
-removed line
 ctx c
";
    assert_eq!(first_change_lines(diff), vec![12]);
}

#[test]
fn change_on_first_line_has_no_context() {
    let diff = "\
@@ -1,3 +1,4 @@
+brand new first line
 ctx a
 ctx b
";
    assert_eq!(first_change_lines(diff), vec![1]);
}

#[test]
fn one_entry_per_hunk_in_order() {
    let diff = "\
@@ -10,5 +10,6 @@
 ctx a
 ctx b
+add in hunk one
 ctx c
@@ -40,4 +41,5 @@
 ctx d
+add in hunk two
 ctx e
";
    assert_eq!(first_change_lines(diff), vec![12, 42]);
}

#[test]
fn ignores_no_newline_marker() {
    let diff = "\
@@ -1,2 +1,2 @@
 ctx a
-old last
\\ No newline at end of file
+new last
\\ No newline at end of file
";
    // First change is the deletion at new-file line 2 (after one context line).
    assert_eq!(first_change_lines(diff), vec![2]);
}

#[test]
fn empty_input_yields_no_hunks() {
    assert_eq!(first_change_lines(""), Vec::<u32>::new());
}

#[test]
fn quoting_separates_paths_that_differ_in_escapes() {
    assert_ne!(fileset_literal(r#"a\"b"#), fileset_literal(r#"a"b"#));
    assert_eq!(fileset_literal(""), "\"\"");
    assert_eq!(fileset_literal("ä b*[]"), "\"ä b*[]\"");
}

#[test]
fn text_without_headers_yields_nothing() {
    let diff = "diff --git a/x b/x\n--- a/x\n+++ b/x\n+added\n";
    assert_eq!(first_change_lines(diff), Vec::<u32>::new());
}

#[test]
fn unreadable_header_leaves_the_hunk_open() {
    // No number after `+`, and one beyond 32 bits.
    let diff = "@@ -1 +5 @@\n ctx\n@@ -1 @@\n@@ -1 +x @@\n@@ -1 +4294967296 @@\n ctx\n+new\n";
    assert_eq!(first_change_lines(diff), vec![7]);
}

#[test]
fn header_number_may_be_long_but_small() {
    assert_eq!(
        first_change_lines("@@ -1 +000000000000000000012,3 @@\n+x\n"),
        vec![12]
    );
    assert_eq!(first_change_lines("@@ -1 +4294967295 @@\n-x\n"), vec![4294967295]);
}

#[test]
fn hunk_without_change_is_left_out() {
    let diff = "@@ -1 +1 @@\n ctx\n@@ -9 +9 @@\r\n ctx\r\n-gone\r\n";
    assert_eq!(first_change_lines(diff), vec![10]);
}

#[test]
fn line_numbers_beyond_32_bits_are_noticed() {
    let diff = "@@ -1 +4294967295 @@\n ctx\n+x\n";
    assert_eq!(checked_first_change_lines(diff), None);
    let diff = "@@ -1 +4294967294 @@\n ctx\n+x\n";
    assert_eq!(checked_first_change_lines(diff), Some(vec![4294967295]));
    // Even where no change follows the context.
    assert_eq!(
        checked_first_change_lines("@@ -1 +4294967295 @@\n ctx\n"),
        None
    );
}

#[test]
fn captured_bytes_are_decoded() {
    assert_eq!(hunk_first_change_lines(&None), Vec::<u32>::new());
    let raw = b"@@ -1,2 +3,4 @@\n \xff\xfe\n+x\n".to_vec();
    assert_eq!(hunk_first_change_lines(&Some(raw)), vec![4]);
}

fn config(tool: &str, args: &[&str]) -> DiffConfig {
    DiffConfig {
        tool: tool.to_string(),
        args: args.iter().map(|s| s.to_string()).collect(),
    }
}

fn selection() -> Vec<String> {
    vec!["-r".to_string(), "@-".to_string()]
}

fn capture_args(action: Action) -> Vec<String> {
    match action {
        Action::Capture { program, args } => {
            assert_eq!(program, "jj");
            args
        }
        _ => panic!("expected a capture"),
    }
}

#[test]
fn auto_pipes_through_delta() {
    let job = get_diff("a b", 78, &config("auto", &["ignored"]), &selection());
    match job.action() {
        Action::Find { program } => assert_eq!(program, "delta"),
        _ => panic!("expected a lookup"),
    }
    let job = job.advance(Reply::Found(true));
    assert_eq!(
        capture_args(job.action()),
        vec!["diff", "-r", "@-", "--git", "--", "\"a b\""]
    );
    let job = job.advance(Reply::Output(Some(b"raw".to_vec())));
    match job.action() {
        Action::Pipe { program, args, input } => {
            assert_eq!(program, "delta");
            assert_eq!(args, vec!["--width", "78"]);
            assert_eq!(input, b"raw".to_vec());
        }
        _ => panic!("expected a pipe"),
    }
    match job.advance(Reply::Output(Some(b"pretty".to_vec()))) {
        DiffJob::Done(diff) => assert_eq!(diff, b"pretty".to_vec()),
        _ => panic!("expected the diff"),
    }
}

#[test]
fn missing_tool_falls_back_to_colored_diff() {
    let job = get_diff("f", 80, &config("auto", &[]), &selection());
    let job = job.advance(Reply::Found(false));
    assert_eq!(
        capture_args(job.action()),
        vec!["--color=always", "diff", "-r", "@-", "--git", "--", "\"f\""]
    );
    match job.advance(Reply::Output(None)) {
        DiffJob::Done(diff) => assert_eq!(diff, b"Failed to get diff".to_vec()),
        _ => panic!("expected the diff"),
    }
}

#[test]
fn empty_or_missing_input_and_failing_tool_fall_back() {
    for raw in [None, Some(Vec::new())] {
        let job = get_diff("f", 80, &config("bat", &["-p"]), &selection());
        let job = job.advance(Reply::Found(true)).advance(Reply::Output(raw));
        assert!(matches!(job, DiffJob::Color(_)));
    }
    let job = get_diff("f", 80, &config("bat", &["-p"]), &selection());
    let job = job
        .advance(Reply::Found(true))
        .advance(Reply::Output(Some(b"x".to_vec())));
    match job.action() {
        Action::Pipe { program, args, .. } => {
            assert_eq!(program, "bat");
            assert_eq!(args, vec!["-p"]);
        }
        _ => panic!("expected a pipe"),
    }
    let job = job.advance(Reply::Output(None));
    match job.advance(Reply::Output(Some(b"colored".to_vec()))) {
        DiffJob::Done(diff) => assert_eq!(diff, b"colored".to_vec()),
        _ => panic!("expected the diff"),
    }
}

#[test]
fn configured_delta_gets_one_width() {
    let job = get_diff(
        "f",
        65535,
        &config("delta", &["--width", "100", "--dark"]),
        &Vec::new(),
    );
    let job = job
        .advance(Reply::Found(true))
        .advance(Reply::Output(Some(b"x".to_vec())));
    match job.action() {
        Action::Pipe { args, .. } => {
            assert_eq!(args, vec!["--width", "65535", "100", "--dark"]);
        }
        _ => panic!("expected a pipe"),
    }
}

#[test]
fn jj_and_git_render_themselves() {
    for tool in ["jj", "git"] {
        let job = get_diff("f", 80, &config(tool, &[]), &Vec::new());
        assert_eq!(
            capture_args(job.action()),
            vec!["--color=always", "diff", "--git", "--", "\"f\""]
        );
        match job.advance(Reply::Output(Some(Vec::new()))) {
            DiffJob::Done(diff) => assert!(diff.is_empty()),
            _ => panic!("expected the diff"),
        }
    }
}

fn copy_run(found: [bool; 3], fed: [bool; 3]) -> (bool, Vec<String>) {
    let programs = ["wl-copy", "xclip", "xsel"];
    let turn = |program: &str| programs.iter().position(|p| *p == program).unwrap();
    let mut job = copy_to_clipboard("some/path");
    let mut asked = Vec::new();
    loop {
        let reply = match job.action() {
            Action::Find { program } => Reply::Found(found[turn(&program)]),
            Action::Feed { program, args, text } => {
                assert_eq!(text, "some/path");
                asked.push(format!("{} {}", program, args.join(" ")));
                Reply::Fed(fed[turn(&program)])
            }
            _ => break,
        };
        job = job.advance(reply);
    }
    match job {
        CopyJob::Done { copied, text } => {
            assert_eq!(text, "some/path");
            (copied, asked)
        }
        _ => panic!("expected an end"),
    }
}

#[test]
fn first_program_that_works_copies() {
    let t = true;
    let f = false;
    assert_eq!(copy_run([t, t, t], [t, t, t]), (t, vec!["wl-copy ".to_string()]));
    assert_eq!(
        copy_run([f, t, t], [t, f, t]),
        (
            t,
            vec![
                "xclip -selection clipboard".to_string(),
                "xsel --clipboard --input".to_string()
            ]
        )
    );
    assert_eq!(copy_run([f, f, f], [t, t, t]), (f, Vec::new()));
    assert_eq!(copy_run([t, t, t], [f, f, f]).0, f);
}

#[test]
fn a_diff_may_be_read_in_parts() {
    let earlier = "diff --git a/x b/x\r\n@@ -1,3 +5,4 @@\n ctx\r\n+new\n-gone\n";
    let later = "@@ -20 +31 @@\n ctx\n ctx\n-old\n@@ -9 +9 @@\n+last";
    assert_eq!(first_change_lines(earlier), vec![6]);
    assert_eq!(first_change_lines(later), vec![33, 9]);
    assert_eq!(first_change_lines(&format!("{}{}", earlier, later)), vec![6, 33, 9]);
}
