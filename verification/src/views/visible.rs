//! Which rows of a pre-ordered, depth-annotated tree are shown when some
//! nodes are collapsed: a collapsed node stays visible, everything below it
//! does not.
use vstd::prelude::*;

verus! {

/// Every row after `j` up to and including `i` is deeper than `j`: row `i`
/// lies inside `j`'s subtree.
pub open spec fn covers(d: Seq<u32>, j: int, i: int) -> bool {
    forall|m: int| j < m <= i ==> d[j] < #[trigger] d[m]
}

/// Row `i` lies inside the subtree of some earlier folded row.
pub open spec fn hidden(d: Seq<u32>, f: Seq<bool>, i: int) -> bool {
    exists|j: int| 0 <= j < i && #[trigger] f[j] && covers(d, j, i)
}

/// The rows among the first `n` that are shown, in order.
pub open spec fn visible_upto(d: Seq<u32>, f: Seq<bool>, n: nat) -> Seq<nat>
    decreases n,
{
    if n == 0 {
        seq![]
    } else {
        visible_upto(d, f, (n - 1) as nat) + (if hidden(d, f, n - 1) {
            seq![]
        } else {
            seq![(n - 1) as nat]
        })
    }
}

/// The indices as mathematical naturals.
pub open spec fn nats(v: Seq<usize>) -> Seq<nat> {
    v.map_values(|x: usize| x as nat)
}

/// [`visible_upto`] over the whole tree: depths `d`, and `f[i]` when row
/// `i` is folded (it has children and is collapsed).
pub fn visible_rows(d: &Vec<u32>, f: &Vec<bool>) -> (r: Vec<usize>)
    requires
        d.len() == f.len(),
    ensures
        nats(r@) == visible_upto(d@, f@, d.len() as nat),
{
    let n = d.len();
    let mut out: Vec<usize> = Vec::new();
    let mut below: Option<u32> = None;
    let ghost mut t: int = 0;
    let mut i: usize = 0;
    while i < n
        invariant
            i <= n == d.len() == f.len(),
            nats(out@) == visible_upto(d@, f@, i as nat),
            below matches Some(dep) ==> {
                &&& 0 <= t < i
                &&& f@[t]
                &&& d@[t] == dep
                &&& covers(d@, t, i - 1)
                &&& !hidden(d@, f@, t)
            },
            below is None ==> forall|j: int| 0 <= j < i && #[trigger] f@[j] ==> !covers(d@, j, i - 1),
        decreases n - i,
    {
        let di = d[i];
        let mut skip = false;
        match below {
            Some(dep) => {
                if di > dep {
                    skip = true;
                    proof {
                        assert(covers(d@, t, i as int));
                        assert(hidden(d@, f@, i as int));
                    }
                } else {
                    proof {
                        assert forall|j: int| 0 <= j < i && #[trigger] f@[j] implies !covers(d@, j, i as int) by {
                            if j == t {
                            } else if j < t {
                                if covers(d@, j, i as int) {
                                    assert(covers(d@, j, t));
                                    assert(hidden(d@, f@, t));
                                }
                            } else {
                                assert(d@[j] > d@[t]);
                            }
                        }
                    }
                    below = None;
                }
            },
            None => {
                proof {
                    assert forall|j: int| 0 <= j < i && #[trigger] f@[j] implies !covers(d@, j, i as int) by {
                        assert(!covers(d@, j, i - 1));
                        let m = choose|m: int| j < m <= i - 1 && !(d@[j] < d@[m]);
                        assert(j < m <= i && !(d@[j] < d@[m]));
                    }
                }
            },
        }
        let ghost prev = out@;
        if !skip {
            proof {
                assert(!hidden(d@, f@, i as int));
            }
            out.push(i);
            if f[i] {
                below = Some(di);
                proof {
                    t = i as int;
                }
            }
        }
        proof {
            assert(visible_upto(d@, f@, (i + 1) as nat) == visible_upto(d@, f@, i as nat) + (if hidden(
                d@,
                f@,
                i as int,
            ) {
                seq![]
            } else {
                seq![i as nat]
            }));
            assert(nats(out@) =~= visible_upto(d@, f@, (i + 1) as nat));
            if below is None {
                assert forall|j: int| 0 <= j < i + 1 && #[trigger] f@[j] implies !covers(d@, j, i as int) by {
                    if j == i {
                        assert(skip || !f@[j]);
                    }
                }
            }
        }
        i += 1;
    }
    out
}

/// The shown rows are exactly the rows not inside a folded row's subtree,
/// in increasing order.
pub proof fn lemma_visible_rows_exact(d: Seq<u32>, f: Seq<bool>, n: nat)
    ensures
        forall|k: int| 0 <= k < visible_upto(d, f, n).len() ==> #[trigger] visible_upto(d, f, n)[k] < n,
        forall|k: int, l: int|
            0 <= k < l < visible_upto(d, f, n).len() ==> visible_upto(d, f, n)[k] < visible_upto(d, f, n)[l],
        forall|i: int|
            0 <= i < n ==> (visible_upto(d, f, n).contains(i as nat) <==> !#[trigger] hidden(d, f, i)),
    decreases n,
{
    if n > 0 {
        let m = (n - 1) as nat;
        lemma_visible_rows_exact(d, f, m);
        let v = visible_upto(d, f, m);
        let w = visible_upto(d, f, n);
        assert forall|i: int| 0 <= i < n implies (w.contains(i as nat) <==> !#[trigger] hidden(d, f, i)) by {
            if i < m {
                if w.contains(i as nat) {
                    let k = choose|k: int| 0 <= k < w.len() && w[k] == i as nat;
                    if k < v.len() {
                        assert(v[k] == w[k]);
                    }
                }
                if v.contains(i as nat) {
                    let k = choose|k: int| 0 <= k < v.len() && v[k] == i as nat;
                    assert(w[k] == v[k]);
                }
            } else {
                if !hidden(d, f, i) {
                    assert(w[w.len() - 1] == i as nat);
                } else {
                    assert(w == v);
                }
            }
        }
    }
}

/// With nothing collapsed every row is shown.
pub proof fn lemma_nothing_folded_shows_all(d: Seq<u32>, f: Seq<bool>, n: nat)
    requires
        forall|i: int| 0 <= i < n ==> !#[trigger] f[i],
    ensures
        visible_upto(d, f, n) == Seq::new(n, |i: int| i as nat),
    decreases n,
{
    if n > 0 {
        lemma_nothing_folded_shows_all(d, f, (n - 1) as nat);
        assert(!hidden(d, f, n - 1));
        assert(visible_upto(d, f, n) =~= Seq::new(n, |i: int| i as nat));
    }
}

/// A collapsed row that is itself shown stays shown, and no row of its
/// subtree is shown.
pub proof fn lemma_collapsed_hides_subtree(d: Seq<u32>, f: Seq<bool>, n: nat, j: int, i: int)
    requires
        0 <= j < i < n,
        f[j],
        covers(d, j, i),
    ensures
        !visible_upto(d, f, n).contains(i as nat),
        !hidden(d, f, j) ==> visible_upto(d, f, n).contains(j as nat),
{
    lemma_visible_rows_exact(d, f, n);
    assert(hidden(d, f, i));
}

} // verus!
