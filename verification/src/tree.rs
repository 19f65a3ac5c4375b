//! Shape of a flattened, pre-ordered tree: which rows are last children,
//! where the guide lines run, and which rows a collapsed branch hides.
//!
//! A tree is given by the depths of its rows in pre-order: the first row is
//! a root and each row is at most one level deeper than the row above.
use vstd::prelude::*;

verus! {

/// Depths of a pre-ordered tree.
pub open spec fn preorder(d: Seq<u32>) -> bool {
    &&& d.len() > 0 ==> d[0] == 0
    &&& forall|k: int| 0 < k < d.len() ==> #[trigger] d[k] <= d[k - 1] + 1
}

/// Row `k` has a later sibling: a row at its own depth comes before any
/// shallower row.
pub open spec fn has_next_sibling(d: Seq<u32>, k: int) -> bool {
    exists|j: int|
        k < j < d.len() && d[j] == d[k] && forall|i: int| k < i < j ==> #[trigger] d[i] > d[k]
}

/// Row `k` is the last child of its parent (or the last root).
pub open spec fn is_last(d: Seq<u32>, k: int) -> bool {
    !has_next_sibling(d, k)
}

/// The row at depth `lvl` on the path from the root to row `k`: the nearest
/// row at or above `k` with that depth.
pub open spec fn anc(d: Seq<u32>, k: int, lvl: int) -> int
    decreases k,
{
    if k <= 0 || d[k] == lvl {
        k
    } else {
        anc(d, k - 1, lvl)
    }
}

/// The guide-line flags of row `k`: column `i` (for each `i < depth`) shows a
/// full-height line when the ancestor at depth `i + 1` still has a sibling
/// below.
pub open spec fn branch_more_spec(d: Seq<u32>, k: int) -> Seq<bool> {
    Seq::new(d[k] as nat, |i: int| !is_last(d, anc(d, k, i + 1)))
}

/// Whether `d` is a pre-ordered tree's depths.
pub fn is_preorder(d: &Vec<u32>) -> (b: bool)
    ensures
        b == preorder(d@),
{
    if d.len() == 0 {
        return true;
    }
    if d[0] != 0 {
        return false;
    }
    let mut k: usize = 1;
    while k < d.len()
        invariant
            1 <= k <= d.len(),
            forall|m: int| 0 < m < k ==> #[trigger] d@[m] <= d@[m - 1] + 1,
        decreases d.len() - k,
    {
        if d[k] as u64 > d[k - 1] as u64 + 1 {
            return false;
        }
        k += 1;
    }
    true
}

/// Whether each row is a last child: a row is one when the next row past
/// its whole subtree is shallower, or there is none.
pub fn last_flags(d: &Vec<u32>) -> (last: Vec<bool>)
    ensures
        last.len() == d.len(),
        forall|k: int| 0 <= k < d.len() ==> #[trigger] last@[k] == is_last(d@, k),
{
    let n = d.len();
    let mut last: Vec<bool> = Vec::new();
    let mut k: usize = 0;
    while k < n
        invariant
            n == d.len(),
            k <= n,
            last.len() == k,
            forall|m: int| 0 <= m < k ==> #[trigger] last@[m] == is_last(d@, m),
        decreases n - k,
    {
        let dk = d[k];
        let mut j = k + 1;
        while j < n && d[j] > dk
            invariant
                n == d.len(),
                k < j <= n,
                dk == d@[k as int],
                forall|i: int| k < i < j ==> #[trigger] d@[i] > dk,
            decreases n - j,
        {
            j += 1;
        }
        let is_l = j == n || d[j] < dk;
        proof {
            if is_l {
                assert forall|jj: int|
                    !(k < jj < d.len() && d@[jj] == d@[k as int] && forall|i: int|
                        k < i < jj ==> #[trigger] d@[i] > d@[k as int]) by {
                    if k < jj < d.len() && d@[jj] == d@[k as int] {
                        if jj < j {
                        } else if jj > j {
                            assert(!(d@[j as int] > d@[k as int]));
                        }
                    }
                }
            } else {
                assert(k < j < d.len() && d@[j as int] == d@[k as int]);
            }
        }
        last.push(is_l);
        k += 1;
    }
    last
}

proof fn lemma_anc_step(d: Seq<u32>, k: int, lvl: int)
    requires
        0 < k < d.len(),
        d[k] != lvl,
    ensures
        anc(d, k, lvl) == anc(d, k - 1, lvl),
{
}

/// For a pre-ordered tree: whether each row is a last child, and each row's
/// guide-line flags.
pub fn annotate(d: &Vec<u32>) -> (r: (Vec<bool>, Vec<Vec<bool>>))
    requires
        preorder(d@),
    ensures
        r.0.len() == d.len(),
        r.1.len() == d.len(),
        forall|k: int| 0 <= k < d.len() ==> #[trigger] r.0@[k] == is_last(d@, k),
        forall|k: int| 0 <= k < d.len() ==> #[trigger] r.1@[k]@ == branch_more_spec(d@, k),
{
    let n = d.len();
    let last = last_flags(d);
    let mut branches: Vec<Vec<bool>> = Vec::new();
    // `stack[i]` is whether the row at depth `i` on the current path is a
    // last child.
    let mut stack: Vec<bool> = Vec::new();
    let mut k: usize = 0;
    while k < n
        invariant
            n == d.len(),
            last.len() == n,
            preorder(d@),
            forall|m: int| 0 <= m < n ==> #[trigger] last@[m] == is_last(d@, m),
            k <= n,
            branches.len() == k,
            forall|m: int| 0 <= m < k ==> #[trigger] branches@[m]@ == branch_more_spec(d@, m),
            k > 0 ==> stack.len() == d@[k - 1] + 1,
            k == 0 ==> stack.len() == 0,
            k > 0 ==> forall|i: int| 0 <= i < stack.len() ==> #[trigger] stack@[i] == is_last(
                d@,
                anc(d@, k - 1, i),
            ),
        decreases n - k,
    {
        let dk = d[k] as usize;
        proof {
            if k > 0 {
                assert(d@[k as int] <= d@[k - 1] + 1);
            } else {
                assert(d@[0] == 0);
            }
        }
        let ghost old_stack = stack@;
        stack.truncate(dk);
        stack.push(last[k]);
        proof {
            assert forall|i: int| 0 <= i < stack.len() implies #[trigger] stack@[i] == is_last(
                d@,
                anc(d@, k as int, i),
            ) by {
                if i < dk {
                    assert(stack@[i] == old_stack[i]);
                    lemma_anc_step(d@, k as int, i);
                } else {
                    assert(anc(d@, k as int, i) == k);
                }
            }
        }
        let mut row: Vec<bool> = Vec::new();
        let mut i: usize = 0;
        while i < dk
            invariant
                dk == d@[k as int],
                stack.len() == dk + 1,
                k < n == d.len(),
                i <= dk,
                forall|c: int| 0 <= c < stack.len() ==> #[trigger] stack@[c] == is_last(
                    d@,
                    anc(d@, k as int, c),
                ),
                row@ == branch_more_spec(d@, k as int).take(i as int),
            decreases dk - i,
        {
            row.push(!stack[i + 1]);
            i += 1;
            proof {
                assert(row@ =~= branch_more_spec(d@, k as int).take(i as int));
            }
        }
        proof {
            assert(row@ =~= branch_more_spec(d@, k as int));
        }
        branches.push(row);
        k += 1;
    }
    (last, branches)
}

/// Law: in any pre-ordered tree, the last row is always a last child, and
/// the first row's guide flags are empty (it is a root).
pub proof fn lemma_last_row_is_last(d: Seq<u32>)
    requires
        preorder(d),
        d.len() > 0,
    ensures
        is_last(d, d.len() - 1),
        branch_more_spec(d, 0).len() == 0,
{
}

/// Law: a row's first child repeats the row's own guide columns, and in its
/// last column shows whether the child itself has a sibling below.
pub proof fn lemma_guides_follow_ancestors(d: Seq<u32>, k: int, c: int)
    requires
        preorder(d),
        0 < k < d.len(),
        d[k] == d[k - 1] + 1,
        0 <= c < d[k - 1],
    ensures
        branch_more_spec(d, k)[c] == branch_more_spec(d, k - 1)[c],
        branch_more_spec(d, k)[d[k - 1] as int] == !is_last(d, k),
{
    assert(anc(d, k, c + 1) == anc(d, k - 1, c + 1));
    assert(anc(d, k, d[k - 1] + 1) == k);
}

} // verus!
