//! Tagged byte ranges that a differ emits for each side of a diff.

use vstd::prelude::*;

verus! {

/// A span of columns on a single line of a source file.
#[derive(Clone, Copy, Debug, PartialEq, Eq, Structural)]
pub struct SingleLineSpan {
    pub line: u32,
    pub start_col: u32,
    pub end_col: u32,
}

/// How a span relates to the other side of the diff.
#[derive(Clone, Copy, Debug, PartialEq, Eq, Structural)]
pub enum MatchKind {
    /// The span has a peer at `opposite` on the other side.
    Unchanged { opposite: SingleLineSpan },
    /// The span has no counterpart on the other side.
    Novel,
    /// The span is a delimiter that is shown with structural styling.
    StyledDelimiter,
    /// The span was left out of the diff, such as an ignored comment.
    Ignored,
}

/// A span of one side together with its change status.
#[derive(Clone, Copy, Debug, PartialEq, Eq, Structural)]
pub struct MatchedPos {
    pub kind: MatchKind,
    pub pos: SingleLineSpan,
}

/// Whether some position of `positions` is novel and lies on `line`.
pub open spec fn novel_on_line(positions: Seq<MatchedPos>, line: int) -> bool {
    exists|i: int|
        0 <= i < positions.len() && (#[trigger] positions[i]).kind is Novel
            && positions[i].pos.line == line
}

/// Whether some position of `positions` is novel.
pub open spec fn has_novel(positions: Seq<MatchedPos>) -> bool {
    exists|i: int| 0 <= i < positions.len() && (#[trigger] positions[i]).kind is Novel
}

/// Returns true when some position of `positions` is novel and lies on `line`.
pub fn novel_on(positions: &Vec<MatchedPos>, line: u32) -> (r: bool)
    ensures
        r == novel_on_line(positions@, line as int),
{
    let mut i: usize = 0;
    while i < positions.len()
        invariant
            i <= positions.len(),
            forall|j: int|
                0 <= j < i ==> !((#[trigger] positions@[j]).kind is Novel && positions@[j].pos.line
                    == line),
        decreases positions.len() - i,
    {
        let p = positions[i];
        if matches!(p.kind, MatchKind::Novel) && p.pos.line == line {
            return true;
        }
        i += 1;
    }
    false
}

/// The largest line number among `positions`, or zero when there are none.
pub fn max_line(positions: &Vec<MatchedPos>) -> (r: u32)
    ensures
        forall|i: int| 0 <= i < positions.len() ==> (#[trigger] positions@[i]).pos.line <= r,
        positions.len() == 0 ==> r == 0,
        positions.len() > 0 ==> exists|i: int|
            0 <= i < positions.len() && (#[trigger] positions@[i]).pos.line == r,
{
    let mut best: u32 = 0;
    let mut i: usize = 0;
    while i < positions.len()
        invariant
            i <= positions.len(),
            forall|j: int| 0 <= j < i ==> (#[trigger] positions@[j]).pos.line <= best,
            i == 0 ==> best == 0,
            i > 0 ==> exists|j: int| 0 <= j < i && (#[trigger] positions@[j]).pos.line == best,
        decreases positions.len() - i,
    {
        if i == 0 || positions[i].pos.line > best {
            best = positions[i].pos.line;
        }
        i += 1;
    }
    best
}

} // verus!
