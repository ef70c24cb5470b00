use difftastic::hunks::{hunks_from_positions, opposite_lines, Hunk, OppositeLines};
use difftastic::lines::{find_line, invert_matching, line_diff, match_lines};
use difftastic::pipeline::{
    after_syntax_diff, diff_file_content, finish_diff, DiffOptions, ProbableFileKind, Step,
    SyntaxOutcome,
};
use difftastic::positions::{MatchKind, MatchedPos, SingleLineSpan};
use difftastic::{exit_code, EXIT_FOUND_CHANGES};

fn lines(s: &[&str]) -> Vec<String> {
    s.iter().map(|l| l.to_string()).collect()
}

fn novel_lines(ps: &[MatchedPos]) -> Vec<u32> {
    ps.iter().filter(|p| matches!(p.kind, MatchKind::Novel)).map(|p| p.pos.line).collect()
}

#[test]
fn matches_in_order_and_one_to_one() {
    let lhs = lines(&["a", "bb", "c"]);
    let rhs = lines(&["a", "x", "c", "c"]);
    assert_eq!(match_lines(&lhs, &rhs), vec![Some(0), None, Some(2)]);
    let d = line_diff(&lhs, &rhs);
    assert_eq!(d.rhs_partners, vec![Some(0), None, Some(2), None]);
    assert_eq!(
        d.lhs_positions[0],
        MatchedPos {
            kind: MatchKind::Unchanged { opposite: SingleLineSpan { line: 0, start_col: 0, end_col: 1 } },
            pos: SingleLineSpan { line: 0, start_col: 0, end_col: 1 },
        }
    );
    assert_eq!(d.lhs_positions[1], MatchedPos { kind: MatchKind::Novel, pos: SingleLineSpan { line: 1, start_col: 0, end_col: 2 } });
    assert_eq!(novel_lines(&d.lhs_positions), vec![1]);
    assert_eq!(novel_lines(&d.rhs_positions), vec![1, 3]);
    assert_eq!(hunks_from_positions(&d.lhs_positions, 0), vec![Hunk { first_line: 1, last_line: 1 }]);
    assert_eq!(
        hunks_from_positions(&d.rhs_positions, 0),
        vec![Hunk { first_line: 1, last_line: 1 }, Hunk { first_line: 3, last_line: 3 }]
    );
}

#[test]
fn swapped_lines_are_a_change() {
    let d = line_diff(&lines(&["a", "b"]), &lines(&["b", "a"]));
    assert_eq!(d.lhs_partners, vec![Some(1), None]);
    assert_eq!(novel_lines(&d.lhs_positions), vec![1]);
    assert_eq!(novel_lines(&d.rhs_positions), vec![0]);
}

#[test]
fn repeated_line_is_paired_once() {
    let d = line_diff(&lines(&["a", "a"]), &lines(&["a"]));
    assert_eq!(d.lhs_partners, vec![Some(0), None]);
    assert_eq!(novel_lines(&d.lhs_positions), vec![1]);
    assert!(novel_lines(&d.rhs_positions).is_empty());
}

#[test]
fn inserted_top_line_keeps_the_rest_unchanged() {
    let d = line_diff(&lines(&["x", "y"]), &lines(&["new", "x", "y"]));
    assert!(novel_lines(&d.lhs_positions).is_empty());
    assert_eq!(novel_lines(&d.rhs_positions), vec![0]);
    assert!(hunks_from_positions(&d.lhs_positions, 3).is_empty());
    assert_eq!(hunks_from_positions(&d.rhs_positions, 3), vec![Hunk { first_line: 0, last_line: 0 }]);
}

#[test]
fn graph_limit_fallback_on_swapped_lines_reports_change() {
    let step = diff_file_content(
        "a.txt",
        "a.txt",
        b"a\nb",
        b"b\na",
        ProbableFileKind::Text("a\nb".to_string()),
        ProbableFileKind::Text("b\na".to_string()),
        Some("Rust".to_string()),
        &DiffOptions::default(),
    );
    let pending = match step {
        Step::SyntaxDiff(p) => p,
        other => panic!("expected a syntax diff, got {:?}", other),
    };
    let pending = match after_syntax_diff(pending, SyntaxOutcome::ExceededGraphLimit, 3) {
        Step::LineDiff(p) => p,
        other => panic!("expected a line diff, got {:?}", other),
    };
    let lhs = lines(&pending.lhs_src.split('\n').collect::<Vec<_>>());
    let rhs = lines(&pending.rhs_src.split('\n').collect::<Vec<_>>());
    let d = line_diff(&lhs, &rhs);
    let res = finish_diff(pending, d.lhs_positions, d.rhs_positions, 3);
    assert!(res.has_syntactic_changes);
    assert!(res.has_reportable_change());
    assert_eq!(exit_code(true, res.has_reportable_change()), EXIT_FOUND_CHANGES);
}

#[test]
fn line_self_diff_has_no_novel_line() {
    let t = lines(&["fn main() {", "}", "}", ""]);
    let d = line_diff(&t, &t);
    assert_eq!(d.lhs_partners, vec![Some(0), Some(1), Some(2), Some(3)]);
    assert!(novel_lines(&d.lhs_positions).is_empty());
    assert!(novel_lines(&d.rhs_positions).is_empty());
}

#[test]
fn line_peers_are_mutual() {
    let lhs = lines(&["x", "y", "x", "z"]);
    let rhs = lines(&["y", "x", "z", "x"]);
    let d = line_diff(&lhs, &rhs);
    for (i, p) in d.lhs_partners.iter().enumerate() {
        if let Some(j) = *p {
            assert_eq!(rhs[j], lhs[i]);
            assert_eq!(d.rhs_partners[j], Some(i));
        }
    }
    assert_eq!(invert_matching(&d.lhs_partners, rhs.len()), d.rhs_partners);
}

#[test]
fn finds_first_equal_line_from() {
    let t = lines(&["a", "b", "b"]);
    assert_eq!(find_line(&t, "b", 0), Some(1));
    assert_eq!(find_line(&t, "b", 2), Some(2));
    assert_eq!(find_line(&t, "a", 1), None);
    assert_eq!(find_line(&t, "z", 0), None);
}

#[test]
fn hunk_pairs_with_lines_between_peers() {
    let lhs = lines(&["a", "b", "c", "d"]);
    let rhs = lines(&["new", "a", "B", "c", "d"]);
    let d = line_diff(&lhs, &rhs);
    let lhs_hunks = hunks_from_positions(&d.lhs_positions, 0);
    assert_eq!(lhs_hunks, vec![Hunk { first_line: 1, last_line: 1 }]);
    assert_eq!(opposite_lines(&d.lhs_positions, lhs_hunks[0]), OppositeLines { start: 2, end: Some(3) });
    let rhs_hunks = hunks_from_positions(&d.rhs_positions, 0);
    assert_eq!(rhs_hunks, vec![Hunk { first_line: 0, last_line: 0 }, Hunk { first_line: 2, last_line: 2 }]);
    assert_eq!(opposite_lines(&d.rhs_positions, rhs_hunks[0]), OppositeLines { start: 0, end: Some(0) });
    assert_eq!(opposite_lines(&d.rhs_positions, rhs_hunks[1]), OppositeLines { start: 1, end: Some(2) });
}

#[test]
fn hunk_at_end_pairs_to_the_end() {
    let d = line_diff(&lines(&["a", "b"]), &lines(&["a", "c", "e"]));
    let rhs_hunks = hunks_from_positions(&d.rhs_positions, 0);
    assert_eq!(rhs_hunks, vec![Hunk { first_line: 1, last_line: 2 }]);
    assert_eq!(opposite_lines(&d.rhs_positions, rhs_hunks[0]), OppositeLines { start: 1, end: None });
}
