//! The decisions taken while diffing one pair of files.
//!
//! Diffing a file pair alternates between decisions and work done by
//! collaborators (a parser with a tree differ, a line differ). The decisions
//! live here as steps: each step either finishes with a `DiffResult` or says
//! which collaborator runs next and carries what it needs.

use vstd::prelude::*;
use vstd::string::*;

use crate::hunks::{hunks_from_positions, hunks_of, Hunk};
use crate::positions::{has_novel, MatchedPos};
use crate::summary::{opt_view, DiffResult, FileContent};

verus! {

/// The default number of vertices the tree differ may expand.
pub const DEFAULT_GRAPH_LIMIT: usize = 3000000;

/// The default size in bytes above which a side is diffed by lines.
pub const DEFAULT_BYTE_LIMIT: usize = 1000000;

/// How one side's bytes were classified before diffing.
#[derive(Debug, PartialEq, Eq)]
pub enum ProbableFileKind {
    Text(String),
    Binary,
}

/// Where one side of a diff comes from.
#[derive(Debug, PartialEq, Eq)]
pub enum FileArgument {
    NamedPath(String),
    Stdin,
    DevNull,
}

/// Options that steer the diff of one pair of files.
#[derive(Debug, Clone, Copy, PartialEq, Eq)]
pub struct DiffOptions {
    pub graph_limit: usize,
    pub byte_limit: usize,
    pub check_only: bool,
    pub ignore_comments: bool,
}

impl Default for DiffOptions {
    fn default() -> (r: DiffOptions)
        ensures
            r.graph_limit == DEFAULT_GRAPH_LIMIT,
            r.byte_limit == DEFAULT_BYTE_LIMIT,
            !r.check_only,
            !r.ignore_comments,
    {
        DiffOptions {
            graph_limit: DEFAULT_GRAPH_LIMIT,
            byte_limit: DEFAULT_BYTE_LIMIT,
            check_only: false,
            ignore_comments: false,
        }
    }
}

/// A diff that waits for a collaborator: the display paths, the text of each
/// side with its trailing newline removed, the language labels that the
/// finished result will carry, and whether only the question of change is
/// asked of the tree differ.
#[derive(Debug)]
pub struct Pending {
    pub lhs_display_path: String,
    pub rhs_display_path: String,
    pub lhs_src: String,
    pub rhs_src: String,
    pub display_language: Option<String>,
    pub language_used: Option<String>,
    pub check_only: bool,
}

/// What happens next in the diff of one pair of files.
#[derive(Debug)]
pub enum Step {
    /// The diff is finished.
    Done(DiffResult),
    /// The line differ runs on both sides; `finish_diff` takes its
    /// positions.
    LineDiff(Pending),
    /// Both sides are parsed and the tree differ runs; `after_syntax_diff`
    /// takes its outcome.
    SyntaxDiff(Pending),
}

/// What the parser and tree differ reported.
#[derive(Debug)]
pub enum SyntaxOutcome {
    /// Only the question of change was asked: whether the two trees are equal.
    Checked { trees_equal: bool },
    /// The tree differ finished, with the positions of each side.
    Diffed { lhs_positions: Vec<MatchedPos>, rhs_positions: Vec<MatchedPos> },
    /// The tree differ gave up on reaching the graph limit.
    ExceededGraphLimit,
}

/// Which inputs a language is guessed from: the source of one side, and the
/// display path of one side.
#[derive(Debug, Clone, Copy, PartialEq, Eq, Structural)]
pub struct GuessInputs {
    pub src_from_lhs: bool,
    pub path_from_lhs: bool,
}

/// The path through the pipeline that a pair of inputs takes.
pub enum Route {
    Binary,
    Identical,
    ByteLimit,
    Syntax,
    PlainText,
}

/// The label of a diff that fell back to lines because a side was too large.
pub open spec fn byte_limit_label() -> Seq<char> {
    "Text (exceeded DFT_BYTE_LIMIT)"@
}

/// The label of a diff that fell back to lines because the tree differ gave up.
pub open spec fn graph_limit_label() -> Seq<char> {
    "Text (exceeded DFT_GRAPH_LIMIT)"@
}

/// A text without its one trailing newline, if it has one.
pub open spec fn without_trailing_newline(s: Seq<char>) -> Seq<char> {
    if s.len() > 0 && s.last() == '\n' {
        s.drop_last()
    } else {
        s
    }
}

/// The text of a classified side; binary content has none.
pub open spec fn kind_text(k: ProbableFileKind) -> Seq<char> {
    match k {
        ProbableFileKind::Text(s) => s@,
        ProbableFileKind::Binary => Seq::empty(),
    }
}

/// The route that a pair of inputs takes: binary content is compared by
/// bytes, equal bytes finish at once, a side over the byte limit is diffed by
/// lines, a known language is diffed by syntax, and anything else by lines.
pub open spec fn route(
    lhs_bytes: Seq<u8>,
    rhs_bytes: Seq<u8>,
    lhs_binary: bool,
    rhs_binary: bool,
    has_language: bool,
    byte_limit: nat,
) -> Route {
    if lhs_binary || rhs_binary {
        Route::Binary
    } else if lhs_bytes == rhs_bytes {
        Route::Identical
    } else if lhs_bytes.len() > byte_limit || rhs_bytes.len() > byte_limit {
        Route::ByteLimit
    } else if has_language {
        Route::Syntax
    } else {
        Route::PlainText
    }
}

/// `p` carries the given paths, texts and labels.
pub open spec fn pending_holds(
    p: Pending,
    lhs_display_path: Seq<char>,
    rhs_display_path: Seq<char>,
    lhs_src: Seq<char>,
    rhs_src: Seq<char>,
    display_language: Option<Seq<char>>,
    language_used: Option<Seq<char>>,
) -> bool {
    &&& p.lhs_display_path@ == lhs_display_path
    &&& p.rhs_display_path@ == rhs_display_path
    &&& p.lhs_src@ == lhs_src
    &&& p.rhs_src@ == rhs_src
    &&& opt_view(p.display_language) == display_language
    &&& opt_view(p.language_used) == language_used
}

/// `r` carries the display paths, texts and labels of `p`.
pub open spec fn result_from_pending(r: DiffResult, p: Pending) -> bool {
    &&& r.lhs_display_path@ == p.lhs_display_path@
    &&& r.rhs_display_path@ == p.rhs_display_path@
    &&& r.lhs_src matches FileContent::Text(s) && s@ == p.lhs_src@
    &&& r.rhs_src matches FileContent::Text(s) && s@ == p.rhs_src@
    &&& opt_view(r.display_language) == opt_view(p.display_language)
    &&& opt_view(r.language_used) == opt_view(p.language_used)
}

/// `r` is the result of a diff whose positions are `lhs` and `rhs`: it holds
/// them and the hunks of each side, and reports a syntactic change exactly
/// when a position is novel.
pub open spec fn finished_with(
    r: DiffResult,
    lhs: Seq<MatchedPos>,
    rhs: Seq<MatchedPos>,
    num_context_lines: nat,
) -> bool {
    &&& r.lhs_positions@ == lhs
    &&& r.rhs_positions@ == rhs
    &&& hunks_of(lhs, num_context_lines, r.lhs_hunks@)
    &&& hunks_of(rhs, num_context_lines, r.rhs_hunks@)
    &&& r.has_syntactic_changes == (has_novel(lhs) || has_novel(rhs))
    &&& r.has_syntactic_changes == (r.lhs_hunks@.len() > 0 || r.rhs_hunks@.len() > 0)
    &&& r.has_byte_changes
}

/// Which inputs the language is guessed from, given where the right-hand
/// side comes from: a named file is guessed by its own path and text, input
/// from stdin by the left-hand path, and an empty right-hand side by the
/// left-hand side alone.
pub fn guess_inputs(rhs_path: &FileArgument) -> (r: GuessInputs)
    ensures
        r.src_from_lhs == (rhs_path is DevNull),
        r.path_from_lhs == !(rhs_path is NamedPath),
{
    match rhs_path {
        FileArgument::NamedPath(_) => GuessInputs { src_from_lhs: false, path_from_lhs: false },
        FileArgument::Stdin => GuessInputs { src_from_lhs: false, path_from_lhs: true },
        FileArgument::DevNull => GuessInputs { src_from_lhs: true, path_from_lhs: true },
    }
}

/// Removes one trailing newline from `s`, if there is one.
pub fn strip_trailing_newline(s: String) -> (r: String)
    ensures
        r@ == without_trailing_newline(s@),
{
    let n = s.as_str().unicode_len();
    if n > 0 && s.as_str().get_char(n - 1) == '\n' {
        let head = s.as_str().substring_char(0, n - 1);
        proof {
            assert(s@.subrange(0, n - 1) =~= s@.drop_last());
        }
        String::from_str(head)
    } else {
        s
    }
}

/// Whether two byte strings are equal.
pub fn bytes_equal(a: &[u8], b: &[u8]) -> (r: bool)
    ensures
        r == (a@ == b@),
{
    if a.len() != b.len() {
        return false;
    }
    let mut i: usize = 0;
    while i < a.len()
        invariant
            a@.len() == b@.len(),
            i <= a.len(),
            forall|j: int| 0 <= j < i ==> a@[j] == b@[j],
        decreases a.len() - i,
    {
        if a[i] != b[i] {
            return false;
        }
        i += 1;
    }
    proof {
        assert(a@ =~= b@);
    }
    true
}

fn copy_label(o: &Option<String>) -> (r: Option<String>)
    ensures
        opt_view(r) == opt_view(*o),
{
    match o {
        Some(s) => Some(s.clone()),
        None => None,
    }
}

fn empty_text() -> (r: FileContent)
    ensures
        r matches FileContent::Text(t) && t@.len() == 0,
{
    FileContent::Text(String::new())
}

/// The first step of diffing one pair of files, from their raw bytes, how
/// each side was classified, and the language chosen for them (if any).
///
/// Binary content finishes at once, changed exactly when the bytes differ.
/// Equal bytes finish at once with no change. A side over the byte limit
/// goes to the line differ under the byte-limit label. With a language the
/// tree differ runs next; without one the line differ, under no label.
/// Diffing content against itself thus never reports a change.
pub fn diff_file_content(
    lhs_display_path: &str,
    rhs_display_path: &str,
    lhs_bytes: &[u8],
    rhs_bytes: &[u8],
    lhs_kind: ProbableFileKind,
    rhs_kind: ProbableFileKind,
    language: Option<String>,
    diff_options: &DiffOptions,
) -> (r: Step)
    ensures
        lhs_bytes@ == rhs_bytes@ ==> (r matches Step::Done(d) && d.is_clean() && !d.reportable()),
        ({
            let lhs_src = without_trailing_newline(kind_text(lhs_kind));
            let rhs_src = without_trailing_newline(kind_text(rhs_kind));
            match route(
                lhs_bytes@,
                rhs_bytes@,
                lhs_kind is Binary,
                rhs_kind is Binary,
                language is Some,
                diff_options.byte_limit as nat,
            ) {
                Route::Binary => r matches Step::Done(d) && {
                    &&& d.lhs_display_path@ == lhs_display_path@
                    &&& d.rhs_display_path@ == rhs_display_path@
                    &&& d.lhs_src is Binary
                    &&& d.rhs_src is Binary
                    &&& d.display_language is None
                    &&& d.language_used is None
                    &&& d.is_clean()
                    &&& d.has_byte_changes == (lhs_bytes@ != rhs_bytes@)
                },
                Route::Identical => r matches Step::Done(d) && {
                    &&& d.lhs_display_path@ == lhs_display_path@
                    &&& d.rhs_display_path@ == rhs_display_path@
                    &&& d.lhs_src matches FileContent::Text(t) && t@.len() == 0
                    &&& d.rhs_src matches FileContent::Text(t) && t@.len() == 0
                    &&& opt_view(d.display_language) == opt_view(language)
                    &&& opt_view(d.language_used) == opt_view(language)
                    &&& d.is_clean()
                    &&& !d.has_byte_changes
                },
                Route::ByteLimit => r matches Step::LineDiff(p) && pending_holds(
                    p,
                    lhs_display_path@,
                    rhs_display_path@,
                    lhs_src,
                    rhs_src,
                    Some(byte_limit_label()),
                    None,
                ),
                Route::Syntax => r matches Step::SyntaxDiff(p) && p.check_only == diff_options.check_only
                    && pending_holds(
                    p,
                    lhs_display_path@,
                    rhs_display_path@,
                    lhs_src,
                    rhs_src,
                    opt_view(language),
                    opt_view(language),
                ),
                Route::PlainText => r matches Step::LineDiff(p) && pending_holds(
                    p,
                    lhs_display_path@,
                    rhs_display_path@,
                    lhs_src,
                    rhs_src,
                    None,
                    None,
                ),
            }
        }),
{
    let lhs_path = String::from_str(lhs_display_path);
    let rhs_path = String::from_str(rhs_display_path);
    let (lhs_text, rhs_text) = match (lhs_kind, rhs_kind) {
        (ProbableFileKind::Text(l), ProbableFileKind::Text(r)) => (l, r),
        _ => {
            return Step::Done(
                DiffResult {
                    lhs_display_path: lhs_path,
                    rhs_display_path: rhs_path,
                    display_language: None,
                    language_used: None,
                    lhs_src: FileContent::Binary,
                    rhs_src: FileContent::Binary,
                    lhs_hunks: Vec::new(),
                rhs_hunks: Vec::new(),
                    lhs_positions: Vec::new(),
                    rhs_positions: Vec::new(),
                    has_byte_changes: !bytes_equal(lhs_bytes, rhs_bytes),
                    has_syntactic_changes: false,
                },
            );
        },
    };
    let lhs_src = strip_trailing_newline(lhs_text);
    let rhs_src = strip_trailing_newline(rhs_text);

    if bytes_equal(lhs_bytes, rhs_bytes) {
        let display_language = copy_label(&language);
        return Step::Done(
            DiffResult {
                lhs_display_path: lhs_path,
                rhs_display_path: rhs_path,
                display_language,
                language_used: language,
                lhs_src: empty_text(),
                rhs_src: empty_text(),
                lhs_hunks: Vec::new(),
                rhs_hunks: Vec::new(),
                lhs_positions: Vec::new(),
                rhs_positions: Vec::new(),
                has_byte_changes: false,
                has_syntactic_changes: false,
            },
        );
    }

    if lhs_bytes.len() > diff_options.byte_limit || rhs_bytes.len() > diff_options.byte_limit {
        return Step::LineDiff(
            Pending {
                lhs_display_path: lhs_path,
                rhs_display_path: rhs_path,
                lhs_src,
                rhs_src,
                display_language: Some(String::from_str("Text (exceeded DFT_BYTE_LIMIT)")),
                language_used: None,
                check_only: false,
            },
        );
    }

    match language {
        Some(name) => {
            let display_language = Some(name.clone());
            Step::SyntaxDiff(
                Pending {
                    lhs_display_path: lhs_path,
                    rhs_display_path: rhs_path,
                    lhs_src,
                    rhs_src,
                    display_language,
                    language_used: Some(name),
                    check_only: diff_options.check_only,
                },
            )
        },
        None => Step::LineDiff(
            Pending {
                lhs_display_path: lhs_path,
                rhs_display_path: rhs_path,
                lhs_src,
                rhs_src,
                display_language: None,
                language_used: None,
                check_only: false,
            },
        ),
    }
}

/// Finishes a diff from the positions of each side: the hunks group the
/// lines that hold a novel position, with `num_context_lines` lines of
/// context, and there is a syntactic change exactly when there is a hunk.
pub fn finish_diff(
    pending: Pending,
    lhs_positions: Vec<MatchedPos>,
    rhs_positions: Vec<MatchedPos>,
    num_context_lines: u32,
) -> (r: DiffResult)
    ensures
        result_from_pending(r, pending),
        finished_with(r, lhs_positions@, rhs_positions@, num_context_lines as nat),
{
    let lhs_hunks = hunks_from_positions(&lhs_positions, num_context_lines);
    let rhs_hunks = hunks_from_positions(&rhs_positions, num_context_lines);
    let has_syntactic_changes = lhs_hunks.len() > 0 || rhs_hunks.len() > 0;
    DiffResult {
        lhs_display_path: pending.lhs_display_path,
        rhs_display_path: pending.rhs_display_path,
        display_language: pending.display_language,
        language_used: pending.language_used,
        lhs_src: FileContent::Text(pending.lhs_src),
        rhs_src: FileContent::Text(pending.rhs_src),
        lhs_hunks,
        rhs_hunks,
        lhs_positions,
        rhs_positions,
        has_byte_changes: true,
        has_syntactic_changes,
    }
}

/// The step after the tree differ reported `outcome`. A check for change
/// is the outcome exactly when only that question was asked.
///
/// A check for change finishes with no positions, changed exactly when the
/// trees differ. Positions from the tree differ finish the diff as
/// `finish_diff` does. When the differ gave up, the line differ runs
/// next, under the graph-limit label and with no language used.
pub fn after_syntax_diff(pending: Pending, outcome: SyntaxOutcome, num_context_lines: u32) -> (r: Step)
    requires
        pending.check_only == (outcome is Checked),
    ensures
        match outcome {
            SyntaxOutcome::Checked { trees_equal } => r matches Step::Done(d) && {
                &&& result_from_pending(d, pending)
                &&& d.lhs_hunks@.len() == 0
                &&& d.rhs_hunks@.len() == 0
                &&& d.lhs_positions@.len() == 0
                &&& d.rhs_positions@.len() == 0
                &&& d.has_byte_changes
                &&& d.has_syntactic_changes == !trees_equal
            },
            SyntaxOutcome::Diffed { lhs_positions, rhs_positions } => r matches Step::Done(d)
                && result_from_pending(d, pending) && finished_with(
                d,
                lhs_positions@,
                rhs_positions@,
                num_context_lines as nat,
            ),
            SyntaxOutcome::ExceededGraphLimit => r matches Step::LineDiff(p) && pending_holds(
                p,
                pending.lhs_display_path@,
                pending.rhs_display_path@,
                pending.lhs_src@,
                pending.rhs_src@,
                Some(graph_limit_label()),
                None,
            ),
        },
{
    match outcome {
        SyntaxOutcome::Checked { trees_equal } => Step::Done(
            DiffResult {
                lhs_display_path: pending.lhs_display_path,
                rhs_display_path: pending.rhs_display_path,
                display_language: pending.display_language,
                language_used: pending.language_used,
                lhs_src: FileContent::Text(pending.lhs_src),
                rhs_src: FileContent::Text(pending.rhs_src),
                lhs_hunks: Vec::new(),
                rhs_hunks: Vec::new(),
                lhs_positions: Vec::new(),
                rhs_positions: Vec::new(),
                has_byte_changes: true,
                has_syntactic_changes: !trees_equal,
            },
        ),
        SyntaxOutcome::Diffed { lhs_positions, rhs_positions } => Step::Done(
            finish_diff(pending, lhs_positions, rhs_positions, num_context_lines),
        ),
        SyntaxOutcome::ExceededGraphLimit => Step::LineDiff(
            Pending {
                lhs_display_path: pending.lhs_display_path,
                rhs_display_path: pending.rhs_display_path,
                lhs_src: pending.lhs_src,
                rhs_src: pending.rhs_src,
                display_language: Some(String::from_str("Text (exceeded DFT_GRAPH_LIMIT)")),
                language_used: None,
                check_only: false,
            },
        ),
    }
}

} // verus!
