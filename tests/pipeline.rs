use difftastic::hunks::Hunk;
use difftastic::pipeline::{
    after_syntax_diff, bytes_equal, diff_file_content, finish_diff, guess_inputs,
    strip_trailing_newline, DiffOptions, FileArgument, Pending, ProbableFileKind, Step,
    SyntaxOutcome,
};
use difftastic::positions::{MatchKind, MatchedPos, SingleLineSpan};
use difftastic::summary::{DiffResult, FileContent};
use difftastic::{exit_code, EXIT_FOUND_CHANGES, EXIT_SUCCESS};

fn text(s: &str) -> ProbableFileKind {
    ProbableFileKind::Text(s.to_string())
}

fn span(line: u32, start_col: u32, end_col: u32) -> SingleLineSpan {
    SingleLineSpan { line, start_col, end_col }
}

fn novel(line: u32, start_col: u32, end_col: u32) -> MatchedPos {
    MatchedPos { kind: MatchKind::Novel, pos: span(line, start_col, end_col) }
}

fn unchanged(line: u32, start_col: u32, end_col: u32) -> MatchedPos {
    MatchedPos {
        kind: MatchKind::Unchanged { opposite: span(line, start_col, end_col) },
        pos: span(line, start_col, end_col),
    }
}

fn done(step: Step) -> DiffResult {
    match step {
        Step::Done(r) => r,
        other => panic!("expected a finished diff, got {:?}", other),
    }
}

fn line_diff(step: Step) -> Pending {
    match step {
        Step::LineDiff(p) => p,
        other => panic!("expected a line diff, got {:?}", other),
    }
}

fn syntax_diff(step: Step) -> Pending {
    match step {
        Step::SyntaxDiff(p) => p,
        other => panic!("expected a syntax diff, got {:?}", other),
    }
}

#[test]
fn test_diff_identical_content() {
    let s = "foo";
    let res = done(diff_file_content(
        "foo.el",
        "foo.el",
        s.as_bytes(),
        s.as_bytes(),
        text(s),
        text(s),
        None,
        &DiffOptions::default(),
    ));

    assert_eq!(res.lhs_positions, vec![]);
    assert_eq!(res.rhs_positions, vec![]);
}

#[test]
fn identical_files_report_no_change() {
    let res = done(diff_file_content(
        "foo.el",
        "foo.el",
        b"foo",
        b"foo",
        text("foo"),
        text("foo"),
        Some("Emacs Lisp".to_string()),
        &DiffOptions::default(),
    ));
    assert!(res.lhs_positions.is_empty());
    assert!(res.rhs_positions.is_empty());
    assert!(res.lhs_hunks.is_empty() && res.rhs_hunks.is_empty());
    assert!(!res.has_syntactic_changes);
    assert!(!res.has_byte_changes);
    assert!(!res.has_reportable_change());
    assert_eq!(res.display_language, Some("Emacs Lisp".to_string()));
    assert_eq!(res.lhs_src, FileContent::Text(String::new()));
    assert_eq!(exit_code(true, res.has_reportable_change()), EXIT_SUCCESS);
}

#[test]
fn identical_with_trailing_newline_and_comment() {
    let s = "x = 1 # note\n\n";
    let res = done(diff_file_content(
        "a.py",
        "a.py",
        s.as_bytes(),
        s.as_bytes(),
        text(s),
        text(s),
        Some("Python".to_string()),
        &DiffOptions::default(),
    ));
    assert!(!res.has_syntactic_changes);
    assert!(res.lhs_hunks.is_empty() && res.rhs_hunks.is_empty());
}

#[test]
fn binary_sides_compare_bytes() {
    let res = done(diff_file_content(
        "a.bin",
        "b.bin",
        &[0, 1, 2],
        &[0, 1, 3],
        ProbableFileKind::Binary,
        text("x"),
        None,
        &DiffOptions::default(),
    ));
    assert_eq!(res.lhs_src, FileContent::Binary);
    assert_eq!(res.rhs_src, FileContent::Binary);
    assert!(res.has_byte_changes);
    assert!(!res.has_syntactic_changes);
    assert!(res.has_reportable_change());
    assert_eq!(res.lhs_display_path, "a.bin");
    assert_eq!(res.rhs_display_path, "b.bin");

    let same = done(diff_file_content(
        "a.bin",
        "a.bin",
        &[7, 7],
        &[7, 7],
        ProbableFileKind::Binary,
        ProbableFileKind::Binary,
        None,
        &DiffOptions::default(),
    ));
    assert!(!same.has_byte_changes);
    assert!(!same.has_reportable_change());
}

#[test]
fn byte_limit_falls_back_to_lines() {
    let options = DiffOptions { byte_limit: 4, ..DiffOptions::default() };
    let pending = line_diff(diff_file_content(
        "a.rs",
        "a.rs",
        b"fn a() {}\n",
        b"fn b() {}\n",
        text("fn a() {}\n"),
        text("fn b() {}\n"),
        Some("Rust".to_string()),
        &options,
    ));
    assert_eq!(pending.display_language, Some("Text (exceeded DFT_BYTE_LIMIT)".to_string()));
    assert_eq!(pending.language_used, None);
    assert_eq!(pending.lhs_src, "fn a() {}");
    assert_eq!(pending.rhs_src, "fn b() {}");

    let res = finish_diff(pending, vec![novel(0, 0, 9)], vec![novel(0, 0, 9)], 3);
    assert_eq!(res.display_language, Some("Text (exceeded DFT_BYTE_LIMIT)".to_string()));
    assert_eq!(res.lhs_positions, vec![novel(0, 0, 9)]);
    assert_eq!(res.lhs_hunks, vec![Hunk { first_line: 0, last_line: 0 }]);
    assert_eq!(res.rhs_hunks, vec![Hunk { first_line: 0, last_line: 0 }]);
    assert!(res.has_syntactic_changes);
    assert!(res.has_byte_changes);
}

#[test]
fn graph_limit_falls_back_to_lines() {
    let pending = syntax_diff(diff_file_content(
        "a.js",
        "a.js",
        b"[[[1]]]",
        b"[[[2]]]",
        text("[[[1]]]"),
        text("[[[2]]]"),
        Some("JavaScript".to_string()),
        &DiffOptions { graph_limit: 1, ..DiffOptions::default() },
    ));
    assert_eq!(pending.display_language, Some("JavaScript".to_string()));
    let pending = line_diff(after_syntax_diff(pending, SyntaxOutcome::ExceededGraphLimit, 3));
    assert_eq!(pending.display_language, Some("Text (exceeded DFT_GRAPH_LIMIT)".to_string()));
    assert_eq!(pending.language_used, None);
    let res = finish_diff(pending, vec![novel(0, 0, 7)], vec![novel(0, 0, 7)], 3);
    assert_eq!(res.display_language, Some("Text (exceeded DFT_GRAPH_LIMIT)".to_string()));
    assert!(res.has_reportable_change());
    assert_eq!(exit_code(true, res.has_reportable_change()), EXIT_FOUND_CHANGES);
    assert_eq!(exit_code(false, res.has_reportable_change()), EXIT_SUCCESS);
}

#[test]
fn fallback_is_deterministic() {
    let run = || {
        let pending = syntax_diff(diff_file_content(
            "a.c",
            "a.c",
            b"a\nb\n",
            b"a\nc\n",
            text("a\nb\n"),
            text("a\nc\n"),
            Some("C".to_string()),
            &DiffOptions::default(),
        ));
        let pending = line_diff(after_syntax_diff(pending, SyntaxOutcome::ExceededGraphLimit, 3));
        finish_diff(pending, vec![unchanged(0, 0, 1), novel(1, 0, 1)], vec![unchanged(0, 0, 1), novel(1, 0, 1)], 3)
    };
    assert_eq!(run().lhs_hunks, run().lhs_hunks);
    assert_eq!(run().rhs_hunks, run().rhs_hunks);
    assert_eq!(run().lhs_hunks, vec![Hunk { first_line: 1, last_line: 1 }]);
}

#[test]
fn assignment_change_gives_one_hunk() {
    let pending = syntax_diff(diff_file_content(
        "a.py",
        "a.py",
        b"x = 1\n",
        b"x = 2\n",
        text("x = 1\n"),
        text("x = 2\n"),
        Some("Python".to_string()),
        &DiffOptions::default(),
    ));
    assert_eq!(pending.lhs_src, "x = 1");
    let lhs = vec![unchanged(0, 0, 1), unchanged(0, 2, 3), novel(0, 4, 5)];
    let rhs = vec![unchanged(0, 0, 1), unchanged(0, 2, 3), novel(0, 4, 5)];
    let res = done(after_syntax_diff(
        pending,
        SyntaxOutcome::Diffed { lhs_positions: lhs, rhs_positions: rhs },
        3,
    ));
    assert_eq!(res.lhs_hunks, vec![Hunk { first_line: 0, last_line: 0 }]);
    assert_eq!(res.rhs_hunks, vec![Hunk { first_line: 0, last_line: 0 }]);
    assert_eq!(res.display_language, Some("Python".to_string()));
    assert_eq!(res.language_used, Some("Python".to_string()));
    assert!(res.has_syntactic_changes);
}

#[test]
fn unchanged_positions_give_no_hunk() {
    let pending = syntax_diff(diff_file_content(
        "a.py",
        "a.py",
        b"x  = 1",
        b"x = 1",
        text("x  = 1"),
        text("x = 1"),
        Some("Python".to_string()),
        &DiffOptions::default(),
    ));
    let res = done(after_syntax_diff(
        pending,
        SyntaxOutcome::Diffed {
            lhs_positions: vec![unchanged(0, 0, 1), unchanged(0, 3, 4)],
            rhs_positions: vec![unchanged(0, 0, 1), unchanged(0, 2, 3)],
        },
        3,
    ));
    assert!(res.lhs_hunks.is_empty() && res.rhs_hunks.is_empty());
    assert!(!res.has_syntactic_changes);
    assert!(res.has_byte_changes);
    assert!(!res.has_reportable_change());
}

#[test]
fn check_only_reports_tree_equality() {
    let make = || {
        syntax_diff(diff_file_content(
            "a.rs",
            "a.rs",
            b"a",
            b"b",
            text("a"),
            text("b"),
            Some("Rust".to_string()),
            &DiffOptions { check_only: true, ..DiffOptions::default() },
        ))
    };
    let changed = done(after_syntax_diff(make(), SyntaxOutcome::Checked { trees_equal: false }, 3));
    assert!(changed.has_syntactic_changes);
    assert!(changed.lhs_hunks.is_empty() && changed.rhs_hunks.is_empty());
    assert!(changed.lhs_positions.is_empty());
    let same = done(after_syntax_diff(make(), SyntaxOutcome::Checked { trees_equal: true }, 3));
    assert!(!same.has_syntactic_changes);
    assert!(same.has_byte_changes);
}

#[test]
fn no_language_uses_lines_without_label() {
    let pending = line_diff(diff_file_content(
        "a.txt",
        "b.txt",
        b"a",
        b"b",
        text("a"),
        text("b"),
        None,
        &DiffOptions::default(),
    ));
    assert_eq!(pending.display_language, None);
    assert_eq!(pending.lhs_display_path, "a.txt");
    assert_eq!(pending.rhs_display_path, "b.txt");
}

#[test]
fn strips_one_trailing_newline() {
    assert_eq!(strip_trailing_newline("a\n".to_string()), "a");
    assert_eq!(strip_trailing_newline("a\n\n".to_string()), "a\n");
    assert_eq!(strip_trailing_newline("a".to_string()), "a");
    assert_eq!(strip_trailing_newline(String::new()), "");
    assert_eq!(strip_trailing_newline("é\n".to_string()), "é");
}

#[test]
fn compares_bytes() {
    assert!(bytes_equal(b"abc", b"abc"));
    assert!(!bytes_equal(b"abc", b"abd"));
    assert!(!bytes_equal(b"ab", b"abc"));
    assert!(bytes_equal(b"", b""));
}

#[test]
fn guesses_from_the_right_side() {
    let named = guess_inputs(&FileArgument::NamedPath("x.rs".to_string()));
    assert!(!named.src_from_lhs && !named.path_from_lhs);
    let stdin = guess_inputs(&FileArgument::Stdin);
    assert!(!stdin.src_from_lhs && stdin.path_from_lhs);
    let null = guess_inputs(&FileArgument::DevNull);
    assert!(null.src_from_lhs && null.path_from_lhs);
}

#[test]
fn default_options() {
    let o = DiffOptions::default();
    assert_eq!(o.graph_limit, 3_000_000);
    assert_eq!(o.byte_limit, 1_000_000);
    assert!(!o.check_only);
    assert!(!o.ignore_comments);
}
