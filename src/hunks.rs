//! Grouping changed lines into display hunks.

use vstd::prelude::*;

use crate::positions::{has_novel, max_line, novel_on, novel_on_line, MatchKind, MatchedPos};

verus! {

/// A contiguous block of lines of one side, from `first_line` to
/// `last_line`, that is shown as one unit of a diff.
#[derive(Clone, Copy, Debug, PartialEq, Eq, Structural)]
pub struct Hunk {
    pub first_line: u32,
    pub last_line: u32,
}

/// Every element of `s` is smaller than every later one.
pub open spec fn strictly_increasing(s: Seq<u32>) -> bool {
    forall|i: int, j: int| 0 <= i < j < s.len() ==> s[i] < s[j]
}

/// The largest distance between two changed lines that still share a hunk:
/// they are merged when fewer than `2 * context + 1` unchanged lines lie
/// between them.
pub open spec fn merge_distance(num_context_lines: nat) -> int {
    (2 * num_context_lines + 1) as int
}

/// Groups sorted changed lines into hunks, left to right: a line joins the
/// last hunk when it lies within `gap` lines of that hunk's end.
pub open spec fn group(s: Seq<u32>, gap: int) -> Seq<Hunk>
    decreases s.len(),
{
    if s.len() == 0 {
        seq![]
    } else {
        let g = group(s.drop_last(), gap);
        let x = s.last();
        if g.len() > 0 && x - g.last().last_line <= gap {
            g.update(g.len() - 1, Hunk { first_line: g.last().first_line, last_line: x })
        } else {
            g.push(Hunk { first_line: x, last_line: x })
        }
    }
}

/// The hunks are ordered, and between two of them lie more than `gap` lines.
pub open spec fn hunks_separated(g: Seq<Hunk>, gap: int) -> bool {
    &&& forall|k: int| 0 <= k < g.len() ==> (#[trigger] g[k]).first_line <= g[k].last_line
    &&& forall|k: int|
        0 <= k < g.len() - 1 ==> (#[trigger] g[k]).last_line + gap < g[k + 1].first_line
}

/// Some hunk of `g` holds `line`.
pub open spec fn covered(g: Seq<Hunk>, line: int) -> bool {
    exists|k: int| 0 <= k < g.len() && (#[trigger] g[k]).first_line <= line <= g[k].last_line
}

/// Each hunk starts and ends on an element of `s`.
pub open spec fn endpoints_in(g: Seq<Hunk>, s: Seq<u32>) -> bool {
    forall|k: int|
        0 <= k < g.len() ==> s.contains((#[trigger] g[k]).first_line) && s.contains(
            g[k].last_line,
        )
}

/// Inside a hunk, every element of `s` but the hunk's last is followed by
/// the next element within `gap` lines.
pub open spec fn hunks_tight(g: Seq<Hunk>, s: Seq<u32>, gap: int) -> bool {
    forall|k: int, j: int|
        0 <= k < g.len() && 0 <= j < s.len() - 1 && (#[trigger] g[k]).first_line <= #[trigger] s[j]
            < g[k].last_line ==> s[j + 1] - s[j] <= gap
}

/// The shape of what `group` yields for sorted lines: one hunk or more
/// exactly when there are lines, the last hunk ends on the last line, the
/// hunks are ordered and separated, and each starts and ends on a line.
pub proof fn lemma_group_shape(s: Seq<u32>, gap: int)
    requires
        strictly_increasing(s),
        gap >= 0,
    ensures
        group(s, gap).len() == 0 <==> s.len() == 0,
        s.len() > 0 ==> group(s, gap).last().last_line == s.last(),
        hunks_separated(group(s, gap), gap),
        endpoints_in(group(s, gap), s),
    decreases s.len(),
{
    if s.len() > 0 {
        let t = s.drop_last();
        lemma_group_shape(t, gap);
        let g = group(t, gap);
        let n = s.len() - 1;
        assert forall|q: u32| t.contains(q) implies s.contains(q) by {
            let j = choose|j: int| 0 <= j < t.len() && t[j] == q;
            assert(s[j] == q);
        }
        assert(s.contains(s.last())) by {
            assert(s[n] == s.last());
        }
        if g.len() > 0 {
            assert(g.last().last_line == s[n - 1]);
        }
    }
}

/// Every line lies in some hunk that `group` yields.
pub proof fn lemma_group_covers(s: Seq<u32>, gap: int)
    requires
        strictly_increasing(s),
        gap >= 0,
    ensures
        forall|j: int| 0 <= j < s.len() ==> covered(group(s, gap), #[trigger] s[j] as int),
    decreases s.len(),
{
    if s.len() > 0 {
        let t = s.drop_last();
        lemma_group_covers(t, gap);
        lemma_group_shape(t, gap);
        assert forall|j: int| 0 <= j < s.len() implies covered(group(s, gap), #[trigger] s[j] as int) by {
            lemma_group_covers_step(s, gap, j);
        }
    }
}

proof fn lemma_group_covers_step(s: Seq<u32>, gap: int, j: int)
    requires
        s.len() > 0,
        0 <= j < s.len(),
        s.len() > 1 ==> s[s.len() - 2] < s.last(),
        forall|i: int|
            0 <= i < s.len() - 1 ==> covered(group(s.drop_last(), gap), #[trigger] s.drop_last()[i] as int),
        s.len() > 1 ==> group(s.drop_last(), gap).len() > 0 && group(s.drop_last(), gap).last().last_line == s[s.len() - 2],
        s.len() == 1 ==> group(s.drop_last(), gap).len() == 0,
        hunks_separated(group(s.drop_last(), gap), gap),
    ensures
        covered(group(s, gap), s[j] as int),
{
    let t = s.drop_last();
    let g = group(t, gap);
    let r = group(s, gap);
    let n = s.len() - 1;
    if j < n {
        assert(t[j] == s[j]);
        assert(covered(g, t[j] as int));
        let k = choose|k: int|
            0 <= k < g.len() && (#[trigger] g[k]).first_line <= t[j] <= g[k].last_line;
        let x = s.last();
        if x - g.last().last_line <= gap {
            assert(r == g.update(g.len() - 1, Hunk { first_line: g.last().first_line, last_line: x }));
            if k == g.len() - 1 {
                assert(r[k].first_line <= s[j] <= r[k].last_line);
            } else {
                assert(r[k] == g[k]);
            }
        } else {
            assert(r == g.push(Hunk { first_line: x, last_line: x }));
            assert(r[k] == g[k]);
        }
        assert(r[k].first_line <= s[j] <= r[k].last_line);
    } else {
        let x = s.last();
        if g.len() > 0 && x - g.last().last_line <= gap {
            let k = g.len() - 1;
            assert(g[k].first_line <= g[k].last_line);
            assert(r[k].first_line <= s[j] <= r[k].last_line);
        } else {
            let k = g.len() as int;
            assert(r[k].first_line <= s[j] <= r[k].last_line);
        }
    }
}

/// `group` splits sorted lines only where two neighbours lie more than
/// `gap` lines apart.
pub proof fn lemma_group_tight(s: Seq<u32>, gap: int)
    requires
        strictly_increasing(s),
        gap >= 0,
    ensures
        hunks_tight(group(s, gap), s, gap),
    decreases s.len(),
{
    if s.len() > 0 {
        let t = s.drop_last();
        lemma_group_tight(t, gap);
        lemma_group_shape(t, gap);
        let g = group(t, gap);
        let r = group(s, gap);
        let x = s.last();
        let n = s.len() - 1;
        if g.len() > 0 {
            assert(g.last().last_line == s[n - 1]);
        }
        assert forall|k: int, j: int|
            0 <= k < r.len() && 0 <= j < s.len() - 1 && (#[trigger] r[k]).first_line
                <= #[trigger] s[j] < r[k].last_line implies s[j + 1] - s[j] <= gap by {
            if k < g.len() && j < n - 1 {
                assert(t[j] == s[j] && t[j + 1] == s[j + 1]);
                if r[k] == g[k] {
                    assert(g[k].first_line <= t[j] < g[k].last_line);
                } else {
                    assert(k == g.len() - 1);
                    if s[j] < g[k].last_line {
                        assert(g[k].first_line <= t[j] < g[k].last_line);
                    } else {
                        assert(s[j] >= s[n - 1]);
                    }
                }
            } else if k < g.len() {
                assert(j == n - 1);
                if r[k] == g[k] {
                    assert(g[k].last_line <= s[n - 1]) by {
                        if k < g.len() - 1 {
                            assert(g[k].last_line < g[k + 1].first_line);
                        }
                    }
                }
            }
        }
    }
}

/// The changed lines of one side, in ascending order: the lines that hold
/// a novel position.
pub fn changed_lines(positions: &Vec<MatchedPos>) -> (r: Vec<u32>)
    ensures
        strictly_increasing(r@),
        forall|k: int| 0 <= k < r.len() ==> novel_on_line(positions@, #[trigger] r@[k] as int),
        forall|line: u32| novel_on_line(positions@, line as int) ==> #[trigger] r@.contains(line),
{
    let top = max_line(positions);
    let mut r: Vec<u32> = Vec::new();
    let mut line: u64 = 0;
    while line <= top as u64
        invariant
            line <= top as u64 + 1,
            strictly_increasing(r@),
            forall|k: int| 0 <= k < r.len() ==> (#[trigger] r@[k] as u64) < line,
            forall|k: int| 0 <= k < r.len() ==> novel_on_line(positions@, #[trigger] r@[k] as int),
            forall|l: u32|
                (l as u64) < line && novel_on_line(positions@, l as int) ==> #[trigger] r@.contains(l),
            forall|i: int| 0 <= i < positions.len() ==> (#[trigger] positions@[i]).pos.line <= top,
        decreases top as u64 + 1 - line,
    {
        let l = line as u32;
        let ghost old_r = r@;
        if novel_on(positions, l) {
            r.push(l);
            proof {
                assert forall|q: u32| old_r.contains(q) implies r@.contains(q) by {
                    let k = choose|k: int| 0 <= k < old_r.len() && old_r[k] == q;
                    assert(r@[k] == q);
                }
                assert(r@[r.len() - 1] == l);
                assert(r@.contains(l));
            }
        }
        proof {
            assert forall|q: u32|
                (q as u64) < line + 1 && novel_on_line(positions@, q as int) implies #[trigger] r@.contains(q) by {
                if q != l {
                    assert(old_r.contains(q));
                    let k = choose|k: int| 0 <= k < old_r.len() && old_r[k] == q;
                    assert(r@[k] == q);
                }
            }
        }
        line += 1;
    }
    proof {
        assert forall|l: u32| novel_on_line(positions@, l as int) implies #[trigger] r@.contains(l) by {
            let i = choose|i: int|
                0 <= i < positions@.len() && (#[trigger] positions@[i]).kind is Novel && positions@[i].pos.line == l;
            assert(positions@[i].pos.line <= top);
        }
    }
    r
}

/// Groups ascending changed lines into hunks, merging two neighbours when
/// fewer than `2 * num_context_lines + 1` unchanged lines lie between them.
pub(crate) fn group_lines(lines: &Vec<u32>, num_context_lines: u32) -> (r: Vec<Hunk>)
    requires
        strictly_increasing(lines@),
    ensures
        r@ == group(lines@, merge_distance(num_context_lines as nat)),
{
    let gap: u64 = 2 * (num_context_lines as u64) + 1;
    let mut r: Vec<Hunk> = Vec::new();
    let mut i: usize = 0;
    while i < lines.len()
        invariant
            i <= lines.len(),
            strictly_increasing(lines@),
            gap as int == merge_distance(num_context_lines as nat),
            r@ == group(lines@.subrange(0, i as int), gap as int),
        decreases lines.len() - i,
    {
        let x = lines[i];
        proof {
            let t = lines@.subrange(0, i as int);
            let s = lines@.subrange(0, i + 1);
            assert(s.drop_last() =~= t);
            assert(strictly_increasing(t));
            lemma_group_shape(t, gap as int);
            if i > 0 {
                assert(t.last() == lines@[i - 1]);
            }
        }
        if r.len() > 0 && ((x - r[r.len() - 1].last_line) as u64) <= gap {
            let k = r.len() - 1;
            let h = r[k];
            r.set(k, Hunk { first_line: h.first_line, last_line: x });
        } else {
            r.push(Hunk { first_line: x, last_line: x });
        }
        i += 1;
    }
    proof {
        assert(lines@.subrange(0, lines.len() as int) =~= lines@);
    }
    r
}

/// What the hunks of a diff are: ordered and separated by more than the
/// merge distance, covering every changed line, starting and ending on a
/// changed line, and holding no run of unchanged lines as long as the merge
/// distance.
pub open spec fn hunks_of(
    positions: Seq<MatchedPos>,
    num_context_lines: nat,
    g: Seq<Hunk>,
) -> bool {
    let gap = merge_distance(num_context_lines);
    &&& hunks_separated(g, gap)
    &&& forall|line: u32| novel_on_line(positions, line as int) ==> #[trigger] covered(g, line as int)
    &&& forall|k: int|
        0 <= k < g.len() ==> novel_on_line(positions, (#[trigger] g[k]).first_line as int)
            && novel_on_line(positions, g[k].last_line as int)
    &&& forall|k: int, y: u32|
        0 <= k < g.len() && (#[trigger] g[k]).first_line <= y < g[k].last_line && #[trigger] novel_on_line(positions, y as int)
            ==> exists|z: u32| y < z <= y + gap && novel_on_line(positions, z as int)
}

/// The changed lines of a diff, exactly and in ascending order.
pub open spec fn lists_changed_lines(positions: Seq<MatchedPos>, s: Seq<u32>) -> bool {
    &&& strictly_increasing(s)
    &&& forall|k: int| 0 <= k < s.len() ==> novel_on_line(positions, #[trigger] s[k] as int)
    &&& forall|line: u32| novel_on_line(positions, line as int) ==> #[trigger] s.contains(line)
}

proof fn lemma_group_covers_changed(positions: Seq<MatchedPos>, s: Seq<u32>, gap: int)
    requires
        lists_changed_lines(positions, s),
        gap >= 0,
    ensures
        forall|line: u32| novel_on_line(positions, line as int) ==> #[trigger] covered(group(s, gap), line as int),
{
    lemma_group_covers(s, gap);
    assert forall|line: u32| novel_on_line(positions, line as int) implies #[trigger] covered(group(s, gap), line as int) by {
        assert(s.contains(line));
        let j = choose|j: int| 0 <= j < s.len() && s[j] == line;
        assert(covered(group(s, gap), s[j] as int));
    }
}

proof fn lemma_group_ends_changed(positions: Seq<MatchedPos>, s: Seq<u32>, gap: int)
    requires
        lists_changed_lines(positions, s),
        gap >= 0,
    ensures
        forall|k: int|
            0 <= k < group(s, gap).len() ==> novel_on_line(positions, (#[trigger] group(s, gap)[k]).first_line as int)
                && novel_on_line(positions, group(s, gap)[k].last_line as int),
{
    lemma_group_shape(s, gap);
    let r = group(s, gap);
    assert forall|k: int| 0 <= k < r.len() implies novel_on_line(positions, (#[trigger] r[k]).first_line as int)
        && novel_on_line(positions, r[k].last_line as int) by {
        assert(s.contains(r[k].first_line));
        assert(s.contains(r[k].last_line));
        let a = choose|j: int| 0 <= j < s.len() && s[j] == r[k].first_line;
        let b = choose|j: int| 0 <= j < s.len() && s[j] == r[k].last_line;
        assert(novel_on_line(positions, s[a] as int));
        assert(novel_on_line(positions, s[b] as int));
    }
}

proof fn lemma_group_tight_changed(positions: Seq<MatchedPos>, s: Seq<u32>, gap: int)
    requires
        lists_changed_lines(positions, s),
        gap >= 0,
    ensures
        forall|k: int, y: u32|
            0 <= k < group(s, gap).len() && (#[trigger] group(s, gap)[k]).first_line <= y < group(s, gap)[k].last_line
                && #[trigger] novel_on_line(positions, y as int)
                ==> exists|z: u32| y < z <= y + gap && novel_on_line(positions, z as int),
{
    lemma_group_shape(s, gap);
    lemma_group_tight(s, gap);
    let r = group(s, gap);
    assert forall|k: int, y: u32|
        0 <= k < r.len() && (#[trigger] r[k]).first_line <= y < r[k].last_line && #[trigger] novel_on_line(positions, y as int)
        implies exists|z: u32| y < z <= y + gap && novel_on_line(positions, z as int) by {
        assert(s.contains(y));
        let j = choose|j: int| 0 <= j < s.len() && s[j] == y;
        assert(s.contains(r[k].last_line));
        let b = choose|i: int| 0 <= i < s.len() && s[i] == r[k].last_line;
        assert(j < b) by {
            if j > b {
                assert(s[b] < s[j]);
            }
        }
        assert(s[j + 1] - s[j] <= gap);
        assert(novel_on_line(positions, s[j + 1] as int));
    }
}

proof fn lemma_group_empty_changed(positions: Seq<MatchedPos>, s: Seq<u32>, gap: int)
    requires
        lists_changed_lines(positions, s),
        gap >= 0,
    ensures
        group(s, gap).len() == 0 <==> !has_novel(positions),
{
    lemma_group_shape(s, gap);
    if has_novel(positions) {
        let i = choose|i: int| 0 <= i < positions.len() && (#[trigger] positions[i]).kind is Novel;
        assert(novel_on_line(positions, positions[i].pos.line as int));
        assert(s.contains(positions[i].pos.line));
    }
    if s.len() > 0 {
        assert(novel_on_line(positions, s[0] as int));
        let i = choose|i: int| 0 <= i < positions.len() && (#[trigger] positions[i]).kind is Novel && positions[i].pos.line == s[0];
        assert(has_novel(positions));
    }
}

/// The hunks of one side of a diff whose positions on that side are
/// `positions`, with `num_context_lines` lines of context around each change.
pub fn hunks_from_positions(positions: &Vec<MatchedPos>, num_context_lines: u32) -> (r: Vec<Hunk>)
    ensures
        hunks_of(positions@, num_context_lines as nat, r@),
        r.len() == 0 <==> !has_novel(positions@),
{
    let lines = changed_lines(positions);
    let r = group_lines(&lines, num_context_lines);
    proof {
        let gap = merge_distance(num_context_lines as nat);
        lemma_group_shape(lines@, gap);
        lemma_group_covers_changed(positions@, lines@, gap);
        lemma_group_ends_changed(positions@, lines@, gap);
        lemma_group_tight_changed(positions@, lines@, gap);
        lemma_group_empty_changed(positions@, lines@, gap);
    }
    r
}

/// Hunks are strictly increasing in line number and never overlap: every
/// hunk ends before any later one starts.
pub proof fn lemma_hunks_ordered(
    positions: Seq<MatchedPos>,
    num_context_lines: nat,
    g: Seq<Hunk>,
)
    requires
        hunks_of(positions, num_context_lines, g),
    ensures
        forall|k: int, l: int| 0 <= k < l < g.len() ==> #[trigger] g[k].last_line < #[trigger] g[l].first_line,
{
    assert forall|k: int, l: int| 0 <= k < l < g.len() implies #[trigger] g[k].last_line < #[trigger] g[l].first_line by {
        lemma_separated_apart(g, merge_distance(num_context_lines), k, l);
    }
}

proof fn lemma_separated_apart(g: Seq<Hunk>, gap: int, k: int, l: int)
    requires
        hunks_separated(g, gap),
        gap >= 0,
        0 <= k < l < g.len(),
    ensures
        g[k].last_line < g[l].first_line,
    decreases l - k,
{
    assert(g[l - 1].last_line + gap < g[l].first_line);
    if k < l - 1 {
        lemma_separated_apart(g, gap, k, l - 1);
        assert(g[l - 1].first_line <= g[l - 1].last_line);
    }
}

/// No hunk of one valid grouping ends strictly inside a hunk of another
/// valid grouping of the same diff.
proof fn lemma_no_end_inside(
    positions: Seq<MatchedPos>,
    c: nat,
    g1: Seq<Hunk>,
    g2: Seq<Hunk>,
    p: int,
    m: int,
)
    requires
        hunks_of(positions, c, g1),
        hunks_of(positions, c, g2),
        0 <= p < g1.len(),
        0 <= m < g2.len(),
    ensures
        !(g2[m].first_line <= g1[p].last_line < g2[m].last_line),
{
    let gap = merge_distance(c);
    let y = g1[p].last_line;
    if g2[m].first_line <= y < g2[m].last_line {
        assert(novel_on_line(positions, g1[p].last_line as int));
        let z = choose|z: u32| y < z <= y + gap && novel_on_line(positions, z as int);
        lemma_next_change_beyond(positions, c, g1, p, z);
    }
}

/// A changed line within the merge distance after the end of a hunk would
/// have to lie in that hunk.
proof fn lemma_next_change_beyond(
    positions: Seq<MatchedPos>,
    c: nat,
    g1: Seq<Hunk>,
    p: int,
    z: u32,
)
    requires
        hunks_separated(g1, merge_distance(c)),
        forall|line: u32| novel_on_line(positions, line as int) ==> #[trigger] covered(g1, line as int),
        0 <= p < g1.len(),
        g1[p].last_line < z <= g1[p].last_line + merge_distance(c),
    ensures
        !novel_on_line(positions, z as int),
{
    let gap = merge_distance(c);
    if novel_on_line(positions, z as int) {
        assert(covered(g1, z as int));
        let q = choose|q: int| 0 <= q < g1.len() && (#[trigger] g1[q]).first_line <= z <= g1[q].last_line;
        if q < p {
            lemma_separated_apart(g1, gap, q, p);
            assert(g1[p].first_line <= g1[p].last_line);
        } else if q > p {
            assert(g1[p].last_line + gap < g1[p + 1].first_line);
            if q > p + 1 {
                lemma_separated_apart(g1, gap, p + 1, q);
                assert(g1[p + 1].first_line <= g1[p + 1].last_line);
            }
        }
    }
}

/// Two valid groupings of one diff agree on their `k`-th hunk when they
/// agree on every earlier one.
proof fn lemma_unique_step(
    positions: Seq<MatchedPos>,
    c: nat,
    g1: Seq<Hunk>,
    g2: Seq<Hunk>,
    k: int,
)
    requires
        hunks_of(positions, c, g1),
        hunks_of(positions, c, g2),
        0 <= k < g1.len(),
        0 <= k < g2.len(),
        forall|i: int| 0 <= i < k ==> g1[i] == g2[i],
    ensures
        g1[k] == g2[k],
{
    let gap = merge_distance(c);
    let a = g1[k].first_line;
    let b = g2[k].first_line;
    assert(novel_on_line(positions, g1[k].first_line as int));
    assert(novel_on_line(positions, g2[k].first_line as int));
    assert(covered(g2, a as int));
    assert(covered(g1, b as int));
    let m = choose|m: int| 0 <= m < g2.len() && (#[trigger] g2[m]).first_line <= a <= g2[m].last_line;
    let p = choose|p: int| 0 <= p < g1.len() && (#[trigger] g1[p]).first_line <= b <= g1[p].last_line;
    if m < k {
        assert(g1[m] == g2[m]);
        lemma_separated_apart(g1, gap, m, k);
    }
    if p < k {
        assert(g1[p] == g2[p]);
        lemma_separated_apart(g2, gap, p, k);
    }
    if m > k {
        lemma_separated_apart(g2, gap, k, m);
        assert(g2[k].first_line <= g2[k].last_line);
        if p > k {
            lemma_separated_apart(g1, gap, k, p);
            assert(g1[k].first_line <= g1[k].last_line);
        }
    }
    if p > k {
        lemma_separated_apart(g1, gap, k, p);
        assert(g1[k].first_line <= g1[k].last_line);
        if m > k {
            lemma_separated_apart(g2, gap, k, m);
        }
    }
    assert(m == k && p == k);
    assert(a == b);
    lemma_no_end_inside(positions, c, g1, g2, k, k);
    lemma_no_end_inside(positions, c, g2, g1, k, k);
}

/// The hunks of a diff are determined by its positions and context: two
/// lists of hunks that both describe the same positions are equal, so the
/// same input always yields the same hunk list.
pub proof fn lemma_hunks_unique(
    positions: Seq<MatchedPos>,
    num_context_lines: nat,
    g1: Seq<Hunk>,
    g2: Seq<Hunk>,
)
    requires
        hunks_of(positions, num_context_lines, g1),
        hunks_of(positions, num_context_lines, g2),
    ensures
        g1 == g2,
{
    lemma_unique_prefix(positions, num_context_lines, g1, g2, 0);
}

proof fn lemma_unique_prefix(
    positions: Seq<MatchedPos>,
    c: nat,
    g1: Seq<Hunk>,
    g2: Seq<Hunk>,
    k: int,
)
    requires
        hunks_of(positions, c, g1),
        hunks_of(positions, c, g2),
        0 <= k <= g1.len(),
        0 <= k <= g2.len(),
        forall|i: int| 0 <= i < k ==> g1[i] == g2[i],
    ensures
        g1 == g2,
    decreases g1.len() - k,
{
    if k < g1.len() && k < g2.len() {
        lemma_unique_step(positions, c, g1, g2, k);
        lemma_unique_prefix(positions, c, g1, g2, k + 1);
    } else if k < g2.len() {
        lemma_no_extra_hunk(positions, c, g1, g2, k);
    } else if k < g1.len() {
        lemma_no_extra_hunk(positions, c, g2, g1, k);
    } else {
        assert(g1 =~= g2);
    }
}

proof fn lemma_no_extra_hunk(
    positions: Seq<MatchedPos>,
    c: nat,
    g1: Seq<Hunk>,
    g2: Seq<Hunk>,
    k: int,
)
    requires
        hunks_of(positions, c, g1),
        hunks_of(positions, c, g2),
        k == g1.len(),
        k <= g2.len(),
        forall|i: int| 0 <= i < k ==> g1[i] == g2[i],
    ensures
        g2.len() == k,
{
    if k < g2.len() {
        let b = g2[k].first_line;
        assert(novel_on_line(positions, g2[k].first_line as int));
        assert(covered(g1, b as int));
        let p = choose|p: int| 0 <= p < g1.len() && (#[trigger] g1[p]).first_line <= b <= g1[p].last_line;
        assert(g1[p] == g2[p]);
        lemma_separated_apart(g2, merge_distance(c), p, k);
    }
}

/// The lines of the other side that pair with a hunk: from just after the
/// peer of the hunk's last unchanged position before it, up to (not
/// including) the peer of its first unchanged position after it, or to the
/// end of the other side when there is none.
#[derive(Clone, Copy, Debug, PartialEq, Eq, Structural)]
pub struct OppositeLines {
    pub start: u64,
    pub end: Option<u32>,
}

/// Position `p` is unchanged, and its peer lies on line `line`.
pub open spec fn peer_line_is(p: MatchedPos, line: int) -> bool {
    p.kind matches MatchKind::Unchanged { opposite } && opposite.line == line
}

/// The lines of the other side that pair with `hunk`, found through the
/// peers of the unchanged positions of this side around it.
pub fn opposite_lines(positions: &Vec<MatchedPos>, hunk: Hunk) -> (r: OppositeLines)
    ensures
        forall|i: int, l: int|
            0 <= i < positions.len() && positions@[i].pos.line < hunk.first_line
                && #[trigger] peer_line_is(positions@[i], l) ==> l + 1 <= r.start,
        r.start == 0 || exists|i: int|
            0 <= i < positions.len() && (#[trigger] positions@[i]).pos.line < hunk.first_line
                && peer_line_is(positions@[i], r.start - 1),
        forall|i: int, l: int|
            0 <= i < positions.len() && positions@[i].pos.line > hunk.last_line
                && #[trigger] peer_line_is(positions@[i], l) ==> r.end is Some && r.end->0 <= l,
        r.end is Some ==> exists|i: int|
            0 <= i < positions.len() && (#[trigger] positions@[i]).pos.line > hunk.last_line
                && peer_line_is(positions@[i], r.end->0 as int),
{
    let mut start: u64 = 0;
    let mut end: Option<u32> = None;
    let mut i: usize = 0;
    while i < positions.len()
        invariant
            i <= positions.len(),
            forall|k: int, l: int|
                0 <= k < i && positions@[k].pos.line < hunk.first_line
                    && #[trigger] peer_line_is(positions@[k], l) ==> l + 1 <= start,
            start == 0 || exists|k: int|
                0 <= k < i && (#[trigger] positions@[k]).pos.line < hunk.first_line
                    && peer_line_is(positions@[k], start - 1),
            forall|k: int, l: int|
                0 <= k < i && positions@[k].pos.line > hunk.last_line
                    && #[trigger] peer_line_is(positions@[k], l) ==> end is Some && end->0 <= l,
            end is Some ==> exists|k: int|
                0 <= k < i && (#[trigger] positions@[k]).pos.line > hunk.last_line
                    && peer_line_is(positions@[k], end->0 as int),
        decreases positions.len() - i,
    {
        let p = positions[i];
        if let MatchKind::Unchanged { opposite } = p.kind {
            if p.pos.line < hunk.first_line && opposite.line as u64 + 1 > start {
                start = opposite.line as u64 + 1;
            }
            if p.pos.line > hunk.last_line {
                match end {
                    Some(e) => {
                        if opposite.line < e {
                            end = Some(opposite.line);
                        }
                    },
                    None => {
                        end = Some(opposite.line);
                    },
                }
            }
        }
        proof {
            assert(positions@[i as int] == p);
        }
        i += 1;
    }
    OppositeLines { start, end }
}

} // verus!
