//! Peeling the unchanged nodes off the front and back of two sibling lists.

use vstd::prelude::*;

verus! {

/// How many sibling nodes match at the front and at the back of two lists,
/// compared by content key. The nodes between them form the divergent
/// section that the tree differ must work on.
#[derive(Debug, Clone, Copy, PartialEq, Eq, Structural)]
pub struct Peeled {
    pub prefix: usize,
    pub suffix: usize,
}

/// The longest run of equal keys at the front of `lhs` and `rhs` has
/// length `n`.
pub open spec fn is_common_prefix(lhs: Seq<u64>, rhs: Seq<u64>, n: int) -> bool {
    &&& 0 <= n <= lhs.len()
    &&& n <= rhs.len()
    &&& forall|i: int| 0 <= i < n ==> lhs[i] == rhs[i]
    &&& (n == lhs.len() || n == rhs.len() || lhs[n] != rhs[n])
}

/// The `i`-th key of `s` counted from the back.
pub open spec fn from_back(s: Seq<u64>, i: int) -> u64 {
    s[s.len() - 1 - i]
}

/// After a common prefix of length `prefix`, the longest run of equal keys
/// at the back of `lhs` and `rhs` that leaves the prefix alone has length
/// `n`.
pub open spec fn is_common_suffix(lhs: Seq<u64>, rhs: Seq<u64>, prefix: int, n: int) -> bool {
    &&& 0 <= n
    &&& prefix + n <= lhs.len()
    &&& prefix + n <= rhs.len()
    &&& forall|i: int| 0 <= i < n ==> #[trigger] from_back(lhs, i) == from_back(rhs, i)
    &&& (prefix + n == lhs.len() || prefix + n == rhs.len() || from_back(lhs, n) != from_back(rhs, n))
}

/// Peels the nodes with equal content keys off the front of two sibling
/// lists, then off the back of what remains.
pub fn peel_unchanged(lhs: &Vec<u64>, rhs: &Vec<u64>) -> (r: Peeled)
    ensures
        is_common_prefix(lhs@, rhs@, r.prefix as int),
        is_common_suffix(lhs@, rhs@, r.prefix as int, r.suffix as int),
{
    let mut prefix: usize = 0;
    while prefix < lhs.len() && prefix < rhs.len() && lhs[prefix] == rhs[prefix]
        invariant
            prefix <= lhs.len(),
            prefix <= rhs.len(),
            forall|i: int| 0 <= i < prefix ==> lhs@[i] == rhs@[i],
        decreases lhs.len() - prefix,
    {
        prefix += 1;
    }
    let mut suffix: usize = 0;
    while prefix + suffix < lhs.len() && prefix + suffix < rhs.len() && lhs[lhs.len() - 1 - suffix]
        == rhs[rhs.len() - 1 - suffix]
        invariant
            prefix + suffix <= lhs.len(),
            prefix + suffix <= rhs.len(),
            forall|i: int| 0 <= i < suffix ==> #[trigger] from_back(lhs@, i) == from_back(rhs@, i),
        decreases lhs.len() - suffix,
    {
        suffix += 1;
    }
    Peeled { prefix, suffix }
}

/// Peeling a list against itself leaves no divergent section: every node
/// is in the common prefix.
pub proof fn lemma_peel_self(t: Seq<u64>, prefix: int, suffix: int)
    requires
        is_common_prefix(t, t, prefix),
        is_common_suffix(t, t, prefix, suffix),
    ensures
        prefix == t.len(),
        suffix == 0,
{
}

} // verus!
