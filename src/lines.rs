//! A diff made line by line: an ordered one-to-one matching of equal lines.

use vstd::prelude::*;
use vstd::string::*;

use crate::positions::{has_novel, MatchKind, MatchedPos, SingleLineSpan};
use crate::report::str_equal;

verus! {

/// A matching of the lines of `lhs` with lines of `rhs`: `m[i]` is the
/// partner of line `i`, if any. Partners have the same text, and the pairs
/// keep the order of both sides, so no line is paired twice.
pub open spec fn is_line_matching(lhs: Seq<String>, rhs: Seq<String>, m: Seq<Option<usize>>) -> bool {
    &&& m.len() == lhs.len()
    &&& forall|i: int|
        0 <= i < m.len() && (#[trigger] m[i]) is Some ==> m[i]->0 < rhs.len() && rhs[m[i]->0 as int]@
            == lhs[i]@
    &&& forall|i: int, k: int|
        0 <= i < k < m.len() && (#[trigger] m[i]) is Some && (#[trigger] m[k]) is Some ==> m[i]->0
            < m[k]->0
}

/// No unpaired line of `lhs` could be paired with an equal line of `rhs`
/// without breaking the order: every equal line of `rhs` lies at or before
/// the partner of an earlier line.
pub open spec fn is_maximal(lhs: Seq<String>, rhs: Seq<String>, m: Seq<Option<usize>>) -> bool {
    forall|i: int, j: int|
        0 <= i < m.len() && (#[trigger] m[i]) is None && 0 <= j < rhs.len() && #[trigger] rhs[j]@
            == lhs[i]@ ==> exists|k: int| 0 <= k < i && m[k] is Some && j <= m[k]->0
}

/// The position of line `i` of a side whose partner on the other side is
/// `partner`: unchanged against the whole partner line, or novel when there
/// is none. A position spans the whole line.
pub open spec fn line_position_ok(
    lines: Seq<String>,
    other: Seq<String>,
    i: int,
    partner: Option<usize>,
    p: MatchedPos,
) -> bool {
    &&& p.pos.line == i
    &&& p.pos.start_col == 0
    &&& p.pos.end_col == lines[i]@.len()
    &&& match partner {
        Some(j) => p.kind == MatchKind::Unchanged {
            opposite: SingleLineSpan { line: j as u32, start_col: 0, end_col: other[j as int]@.len() as u32 },
        },
        None => p.kind is Novel,
    }
}

/// The index of the first line of `lines` at or after `from` whose text is
/// `s`, if any.
pub fn find_line(lines: &Vec<String>, s: &str, from: usize) -> (r: Option<usize>)
    ensures
        match r {
            Some(j) => from <= j < lines.len() && lines@[j as int]@ == s@ && forall|k: int|
                from <= k < j ==> lines@[k]@ != s@,
            None => forall|k: int| from <= k < lines.len() ==> lines@[k]@ != s@,
        },
{
    let mut j: usize = from;
    while j < lines.len()
        invariant
            from <= j,
            forall|k: int| from <= k < j ==> lines@[k]@ != s@,
        decreases lines.len() - j,
    {
        if str_equal(lines[j].as_str(), s) {
            return Some(j);
        }
        j += 1;
    }
    None
}

/// Matches the lines of `lhs` with equal lines of `rhs`, in order and one to
/// one: each line takes the first equal line after the last partner so far.
pub fn match_lines(lhs: &Vec<String>, rhs: &Vec<String>) -> (m: Vec<Option<usize>>)
    ensures
        is_line_matching(lhs@, rhs@, m@),
        is_maximal(lhs@, rhs@, m@),
        lhs@ == rhs@ ==> forall|i: int| 0 <= i < m.len() ==> #[trigger] m@[i] == Some(i as usize),
{
    let mut m: Vec<Option<usize>> = Vec::new();
    let mut next: usize = 0;
    let mut i: usize = 0;
    while i < lhs.len()
        invariant
            i <= lhs.len(),
            m.len() == i,
            next <= rhs.len(),
            is_line_matching(lhs@.subrange(0, i as int), rhs@, m@),
            forall|k: int| 0 <= k < i && (#[trigger] m@[k]) is Some ==> m@[k]->0 < next,
            next > 0 ==> exists|k: int| 0 <= k < i && m@[k] == Some((next - 1) as usize),
            forall|a: int, j: int|
                0 <= a < i && (#[trigger] m@[a]) is None && 0 <= j < rhs.len() && #[trigger] rhs@[j]@
                    == lhs@[a]@ ==> exists|k: int| 0 <= k < a && m@[k] is Some && j <= m@[k]->0,
            lhs@ == rhs@ ==> next == i,
            lhs@ == rhs@ ==> forall|k: int| 0 <= k < i ==> #[trigger] m@[k] == Some(k as usize),
        decreases lhs.len() - i,
    {
        let ghost old_m = m@;
        let found = find_line(rhs, lhs[i].as_str(), next);
        proof {
            if lhs@ == rhs@ {
                assert(rhs@[i as int]@ == lhs@[i as int]@);
            }
        }
        match found {
            Some(j) => {
                m.push(Some(j));
                next = j + 1;
                proof {
                    assert(m@[i as int] == Some(j));
                }
            },
            None => {
                m.push(None);
                proof {
                    assert forall|j: int| 0 <= j < rhs.len() && #[trigger] rhs@[j]@ == lhs@[i as int]@
                        implies exists|k: int| 0 <= k < i && m@[k] is Some && j <= m@[k]->0 by {
                        assert(j < next);
                        let k = choose|k: int| 0 <= k < i && old_m[k] == Some((next - 1) as usize);
                        assert(m@[k] == old_m[k]);
                    }
                }
            },
        }
        proof {
            assert forall|k: int| 0 <= k < i implies m@[k] == old_m[k] by {}
            assert(lhs@.subrange(0, i + 1).subrange(0, i as int) =~= lhs@.subrange(0, i as int));
            assert forall|k: int| 0 <= k < i + 1 implies lhs@.subrange(0, i + 1)[k] == lhs@[k] by {}
            assert forall|k: int| 0 <= k < i implies lhs@.subrange(0, i as int)[k] == lhs@[k] by {}
        }
        i += 1;
    }
    proof {
        assert(lhs@.subrange(0, lhs.len() as int) =~= lhs@);
    }
    m
}

/// The inverse of a matching: `r[j]` is the line of `lhs` paired with
/// line `j` of `rhs`, if any.
pub open spec fn is_inverse(m: Seq<Option<usize>>, r: Seq<Option<usize>>, rhs_len: nat) -> bool {
    &&& r.len() == rhs_len
    &&& forall|i: int| 0 <= i < m.len() && (#[trigger] m[i]) is Some ==> r[m[i]->0 as int] == Some(i as usize)
    &&& forall|j: int| 0 <= j < r.len() && (#[trigger] r[j]) is Some ==> r[j]->0 < m.len() && m[r[j]->0 as int] == Some(j as usize)
}

/// The partners of the lines of `rhs` under a matching `m` of `lhs` lines.
pub fn invert_matching(m: &Vec<Option<usize>>, rhs_len: usize) -> (r: Vec<Option<usize>>)
    requires
        forall|i: int| 0 <= i < m.len() && (#[trigger] m@[i]) is Some ==> m@[i]->0 < rhs_len,
        forall|i: int, k: int|
            0 <= i < k < m.len() && (#[trigger] m@[i]) is Some && (#[trigger] m@[k]) is Some ==> m@[i]->0 < m@[k]->0,
    ensures
        is_inverse(m@, r@, rhs_len as nat),
{
    let mut r: Vec<Option<usize>> = Vec::new();
    let mut j: usize = 0;
    while j < rhs_len
        invariant
            j <= rhs_len,
            r.len() == j,
            forall|k: int| 0 <= k < j ==> r@[k] is None,
        decreases rhs_len - j,
    {
        r.push(None);
        j += 1;
    }
    let mut i: usize = 0;
    while i < m.len()
        invariant
            i <= m.len(),
            r.len() == rhs_len,
            forall|i: int| 0 <= i < m.len() && (#[trigger] m@[i]) is Some ==> m@[i]->0 < rhs_len,
            forall|a: int, k: int|
                0 <= a < k < m.len() && (#[trigger] m@[a]) is Some && (#[trigger] m@[k]) is Some ==> m@[a]->0 < m@[k]->0,
            forall|a: int| 0 <= a < i && (#[trigger] m@[a]) is Some ==> r@[m@[a]->0 as int] == Some(a as usize),
            forall|j: int| 0 <= j < r.len() && (#[trigger] r@[j]) is Some ==> r@[j]->0 < i && m@[r@[j]->0 as int] == Some(j as usize),
        decreases m.len() - i,
    {
        if let Some(j) = m[i] {
            let ghost old_r = r@;
            r.set(j, Some(i));
            proof {
                assert forall|a: int| 0 <= a < i + 1 && (#[trigger] m@[a]) is Some implies r@[m@[a]->0 as int] == Some(a as usize) by {
                    if a < i {
                        assert(m@[a]->0 < m@[i as int]->0);
                    }
                }
            }
        }
        i += 1;
    }
    r
}

/// The positions of one side of a line diff, from the partner of each line.
pub fn side_positions(lines: &Vec<String>, other: &Vec<String>, partners: &Vec<Option<usize>>) -> (r: Vec<MatchedPos>)
    requires
        partners.len() == lines.len(),
        lines.len() <= u32::MAX,
        other.len() <= u32::MAX,
        forall|i: int| 0 <= i < partners.len() && (#[trigger] partners@[i]) is Some ==> partners@[i]->0 < other.len(),
        forall|i: int| 0 <= i < lines.len() ==> (#[trigger] lines@[i])@.len() <= u32::MAX,
        forall|i: int| 0 <= i < other.len() ==> (#[trigger] other@[i])@.len() <= u32::MAX,
    ensures
        r.len() == lines.len(),
        forall|i: int| 0 <= i < lines.len() ==> line_position_ok(lines@, other@, i, partners@[i], #[trigger] r@[i]),
{
    let mut r: Vec<MatchedPos> = Vec::new();
    let mut i: usize = 0;
    while i < lines.len()
        invariant
            i <= lines.len(),
            r.len() == i,
            partners.len() == lines.len(),
            lines.len() <= u32::MAX,
            forall|k: int| 0 <= k < partners.len() && (#[trigger] partners@[k]) is Some ==> partners@[k]->0 < other.len(),
            forall|k: int| 0 <= k < lines.len() ==> (#[trigger] lines@[k])@.len() <= u32::MAX,
            forall|k: int| 0 <= k < other.len() ==> (#[trigger] other@[k])@.len() <= u32::MAX,
            forall|k: int| 0 <= k < i ==> line_position_ok(lines@, other@, k, partners@[k], #[trigger] r@[k]),
        decreases lines.len() - i,
    {
        let len = lines[i].as_str().unicode_len() as u32;
        let pos = SingleLineSpan { line: i as u32, start_col: 0, end_col: len };
        let kind = match partners[i] {
            Some(j) => {
                let other_len = other[j].as_str().unicode_len();
                assert(other@[j as int]@.len() <= u32::MAX);
                MatchKind::Unchanged {
                    opposite: SingleLineSpan { line: j as u32, start_col: 0, end_col: other_len as u32 },
                }
            },
            None => MatchKind::Novel,
        };
        r.push(MatchedPos { kind, pos });
        i += 1;
    }
    r
}

/// The result of diffing two texts line by line.
#[derive(Debug)]
pub struct LineDiff {
    /// The partner on the right of each left-hand line, if any.
    pub lhs_partners: Vec<Option<usize>>,
    /// The partner on the left of each right-hand line, if any.
    pub rhs_partners: Vec<Option<usize>>,
    pub lhs_positions: Vec<MatchedPos>,
    pub rhs_positions: Vec<MatchedPos>,
}

/// Diffs two texts given as lines: equal lines are paired in order and one
/// to one, paired lines are unchanged against each other, and every other
/// line is novel. Peers are mutual and have the same text, and a text
/// diffed against itself has no novel line.
pub fn line_diff(lhs: &Vec<String>, rhs: &Vec<String>) -> (r: LineDiff)
    requires
        lhs.len() <= u32::MAX,
        rhs.len() <= u32::MAX,
        forall|i: int| 0 <= i < lhs.len() ==> (#[trigger] lhs@[i])@.len() <= u32::MAX,
        forall|i: int| 0 <= i < rhs.len() ==> (#[trigger] rhs@[i])@.len() <= u32::MAX,
    ensures
        is_line_matching(lhs@, rhs@, r.lhs_partners@),
        is_maximal(lhs@, rhs@, r.lhs_partners@),
        is_inverse(r.lhs_partners@, r.rhs_partners@, rhs.len() as nat),
        r.lhs_positions.len() == lhs.len(),
        r.rhs_positions.len() == rhs.len(),
        forall|i: int| 0 <= i < lhs.len() ==> line_position_ok(lhs@, rhs@, i, r.lhs_partners@[i], #[trigger] r.lhs_positions@[i]),
        forall|j: int| 0 <= j < rhs.len() ==> line_position_ok(rhs@, lhs@, j, r.rhs_partners@[j], #[trigger] r.rhs_positions@[j]),
        lhs@ == rhs@ ==> !has_novel(r.lhs_positions@) && !has_novel(r.rhs_positions@),
{
    let lhs_partners = match_lines(lhs, rhs);
    let rhs_partners = invert_matching(&lhs_partners, rhs.len());
    let lhs_positions = side_positions(lhs, rhs, &lhs_partners);
    let rhs_positions = side_positions(rhs, lhs, &rhs_partners);
    proof {
        if lhs@ == rhs@ {
            assert forall|i: int| 0 <= i < lhs_positions.len() implies !((#[trigger] lhs_positions@[i]).kind is Novel) by {
                assert(lhs_partners@[i] == Some(i as usize));
            }
            assert forall|j: int| 0 <= j < rhs_positions.len() implies !((#[trigger] rhs_positions@[j]).kind is Novel) by {
                assert(lhs_partners@[j] == Some(j as usize));
                assert(rhs_partners@[j] == Some(j as usize));
            }
        }
    }
    LineDiff { lhs_partners, rhs_partners, lhs_positions, rhs_positions }
}

} // verus!
