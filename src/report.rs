//! What to show for the result of diffing one pair of files.

use vstd::prelude::*;
use vstd::string::*;

use crate::pipeline::{byte_limit_label, graph_limit_label};
use crate::summary::{opt_view, DiffResult, FileContent};

verus! {

/// A one-line message shown under a file header.
#[derive(Debug, Clone, Copy, PartialEq, Eq, Structural)]
pub enum Message {
    NoChanges,
    NoSyntacticChanges,
    HasChanges,
    HasSyntacticChanges,
    BinaryContentsChanged,
}

/// What to show for one diff result.
#[derive(Debug)]
pub enum Report {
    /// Nothing at all.
    Silent,
    /// A header naming `language`, followed by `message`.
    Summary { language: String, message: Message },
    /// A header naming `language`, followed by the hunks of the diff.
    Hunks { language: String },
}

/// The language shown for a text diff: its display language, or plain text.
pub open spec fn shown_language(r: DiffResult) -> Seq<char> {
    match opt_view(r.display_language) {
        Some(s) => s,
        None => "Text"@,
    }
}

/// A label of a diff made by lines: plain text, or one of the two fallbacks.
pub open spec fn is_text_label(s: Seq<char>) -> bool {
    s == "Text"@ || s == byte_limit_label() || s == graph_limit_label()
}

/// The text of a side; binary content has none.
pub open spec fn content_text(c: FileContent) -> Seq<char> {
    match c {
        FileContent::Text(s) => s@,
        FileContent::Binary => Seq::empty(),
    }
}

/// `r` is a summary under `language` with `message`.
pub open spec fn is_summary(r: Report, language: Seq<char>, message: Message) -> bool {
    r matches Report::Summary { language: l, message: m } && l@ == language && m == message
}

/// What to show for `summary`.
///
/// Text without syntactic change is shown only when unchanged files are
/// printed: as no change when it was diffed by lines or both texts are equal,
/// else as no syntactic change. A change without hunks is summarised in one
/// line; otherwise the hunks are shown. Binary content on both sides is shown
/// when it changed or unchanged files are printed; binary against text always
/// counts as changed.
pub fn report(summary: &DiffResult, print_unchanged: bool) -> (r: Report)
    ensures
        match (summary.lhs_src, summary.rhs_src) {
            (FileContent::Text(_), FileContent::Text(_)) => {
                let lang = shown_language(*summary);
                if !summary.has_syntactic_changes {
                    if !print_unchanged {
                        r is Silent
                    } else if is_text_label(lang) || content_text(summary.lhs_src) == content_text(
                        summary.rhs_src,
                    ) {
                        is_summary(r, lang, Message::NoChanges)
                    } else {
                        is_summary(r, lang, Message::NoSyntacticChanges)
                    }
                } else if summary.lhs_hunks@.len() == 0 && summary.rhs_hunks@.len() == 0 {
                    if is_text_label(lang) {
                        is_summary(r, lang, Message::HasChanges)
                    } else {
                        is_summary(r, lang, Message::HasSyntacticChanges)
                    }
                } else {
                    r matches Report::Hunks { language } && language@ == lang
                }
            },
            (FileContent::Binary, FileContent::Binary) => if print_unchanged
                || summary.has_byte_changes {
                is_summary(
                    r,
                    "binary"@,
                    if summary.has_byte_changes {
                        Message::BinaryContentsChanged
                    } else {
                        Message::NoChanges
                    },
                )
            } else {
                r is Silent
            },
            _ => is_summary(r, "binary"@, Message::BinaryContentsChanged),
        },
{
    match (&summary.lhs_src, &summary.rhs_src) {
        (FileContent::Text(lhs_src), FileContent::Text(rhs_src)) => {
            let language = match &summary.display_language {
                Some(s) => s.clone(),
                None => String::from_str("Text"),
            };
            let text_label = is_text_label_str(language.as_str());
            if !summary.has_syntactic_changes {
                if !print_unchanged {
                    return Report::Silent;
                }
                let message = if text_label || str_equal(lhs_src.as_str(), rhs_src.as_str()) {
                    Message::NoChanges
                } else {
                    Message::NoSyntacticChanges
                };
                return Report::Summary { language, message };
            }
            if summary.lhs_hunks.len() == 0 && summary.rhs_hunks.len() == 0 {
                let message = if text_label {
                    Message::HasChanges
                } else {
                    Message::HasSyntacticChanges
                };
                return Report::Summary { language, message };
            }
            Report::Hunks { language }
        },
        (FileContent::Binary, FileContent::Binary) => {
            if print_unchanged || summary.has_byte_changes {
                let message = if summary.has_byte_changes {
                    Message::BinaryContentsChanged
                } else {
                    Message::NoChanges
                };
                Report::Summary { language: String::from_str("binary"), message }
            } else {
                Report::Silent
            }
        },
        _ => Report::Summary {
            language: String::from_str("binary"),
            message: Message::BinaryContentsChanged,
        },
    }
}

/// Whether two strings hold the same characters.
pub fn str_equal(a: &str, b: &str) -> (r: bool)
    ensures
        r == (a@ == b@),
{
    let n = a.unicode_len();
    if n != b.unicode_len() {
        return false;
    }
    let mut i: usize = 0;
    while i < n
        invariant
            n == a@.len(),
            a@.len() == b@.len(),
            i <= n,
            forall|j: int| 0 <= j < i ==> a@[j] == b@[j],
        decreases n - i,
    {
        if a.get_char(i) != b.get_char(i) {
            return false;
        }
        i += 1;
    }
    proof {
        assert(a@ =~= b@);
    }
    true
}

/// Whether `s` is the label of a diff made by lines.
pub fn is_text_label_str(s: &str) -> (r: bool)
    ensures
        r == is_text_label(s@),
{
    str_equal(s, "Text") || str_equal(s, "Text (exceeded DFT_BYTE_LIMIT)") || str_equal(
        s,
        "Text (exceeded DFT_GRAPH_LIMIT)",
    )
}

} // verus!
