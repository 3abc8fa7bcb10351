//! The order in which projects are shown: by their ids, with the id 0, under which the
//! totals of all projects stand, after every other.

use vstd::prelude::*;

verus! {

/// Whether the project `a` is shown before the project `b`.
pub open spec fn shown_before(a: i32, b: i32) -> bool {
    a != 0 && (b == 0 || a < b)
}

/// Whether `ids` are in the order in which projects are shown, each id once.
pub open spec fn in_display_order(ids: Seq<i32>) -> bool {
    forall|i: int, j: int| 0 <= i < j < ids.len() ==> shown_before(ids[i], ids[j])
}

/// The ids of `set` in the order in which projects are shown.
pub open spec fn display_order(set: Set<i32>) -> Seq<i32> {
    choose|ids: Seq<i32>| in_display_order(ids) && forall|p: i32| ids.contains(p) <==> set.contains(p)
}

/// There is one way only to put given ids in the order in which projects are shown.
pub proof fn lemma_display_order_unique(a: Seq<i32>, b: Seq<i32>)
    requires
        in_display_order(a),
        in_display_order(b),
        forall|p: i32| a.contains(p) <==> b.contains(p),
    ensures
        a == b,
    decreases a.len(),
{
    if a.len() == 0 {
        if b.len() > 0 {
            assert(b.contains(b[0]));
            assert(a.contains(b[0]));
        }
        assert(a =~= b);
    } else {
        let top = a.last();
        assert(a.contains(a[a.len() - 1]));
        assert(b.contains(top));
        let j = choose|j: int| 0 <= j < b.len() && b[j] == top;
        assert(b.contains(b[b.len() - 1]));
        assert(a.contains(b.last()));
        let i = choose|i: int| 0 <= i < a.len() && a[i] == b.last();
        assert(top == b.last()) by {
            if i < a.len() - 1 {
                assert(shown_before(a[i], a[a.len() - 1]));
            }
            if j < b.len() - 1 {
                assert(shown_before(b[j], b[b.len() - 1]));
            }
        }
        let a0 = a.drop_last();
        let b0 = b.drop_last();
        assert forall|p: i32| a0.contains(p) <==> b0.contains(p) by {
            if a0.contains(p) {
                let k = choose|k: int| 0 <= k < a0.len() && a0[k] == p;
                assert(a[k] == p);
                assert(shown_before(a[k], a[a.len() - 1]));
                assert(a.contains(p));
                let m = choose|m: int| 0 <= m < b.len() && b[m] == p;
                assert(m < b.len() - 1);
                assert(b0[m] == p);
            }
            if b0.contains(p) {
                let k = choose|k: int| 0 <= k < b0.len() && b0[k] == p;
                assert(b[k] == p);
                assert(shown_before(b[k], b[b.len() - 1]));
                assert(b.contains(p));
                let m = choose|m: int| 0 <= m < a.len() && a[m] == p;
                assert(m < a.len() - 1);
                assert(a0[m] == p);
            }
        }
        assert(in_display_order(a0)) by {
            assert forall|i: int, j: int| 0 <= i < j < a0.len() implies shown_before(
                a0[i],
                a0[j],
            ) by {
                assert(shown_before(a[i], a[j]));
            }
        }
        assert(in_display_order(b0)) by {
            assert forall|i: int, j: int| 0 <= i < j < b0.len() implies shown_before(
                b0[i],
                b0[j],
            ) by {
                assert(shown_before(b[i], b[j]));
            }
        }
        lemma_display_order_unique(a0, b0);
        assert(a =~= a0.push(top));
        assert(b =~= b0.push(top));
    }
}

/// Ids in the order in which projects are shown are the `display_order` of their set.
pub proof fn lemma_is_display_order(ids: Seq<i32>, set: Set<i32>)
    requires
        in_display_order(ids),
        forall|p: i32| ids.contains(p) <==> set.contains(p),
    ensures
        ids == display_order(set),
{
    let chosen = display_order(set);
    assert(in_display_order(chosen) && forall|p: i32| chosen.contains(p) <==> set.contains(p));
    lemma_display_order_unique(ids, chosen);
}

/// Whether the project `a` is shown before the project `b`.
pub fn comes_before(a: i32, b: i32) -> (before: bool)
    ensures
        before == shown_before(a, b),
{
    a != 0 && (b == 0 || a < b)
}

/// Puts `p` among `ids` where the order has it, unless it is there already.
pub fn insert_in_order(ids: &mut Vec<i32>, p: i32)
    requires
        in_display_order(old(ids)@),
    ensures
        in_display_order(final(ids)@),
        forall|q: i32| final(ids)@.contains(q) <==> old(ids)@.contains(q) || q == p,
{
    let mut at: usize = 0;
    while at < ids.len() && comes_before(ids[at], p)
        invariant
            at <= ids.len(),
            ids@ == old(ids)@,
            forall|i: int| 0 <= i < at ==> shown_before(#[trigger] ids@[i], p),
        decreases ids.len() - at,
    {
        at = at + 1;
    }
    let ghost before = ids@;
    if at < ids.len() && ids[at] == p {
        assert(before.contains(before[at as int]));
        return ;
    }
    ids.insert(at, p);
    proof {
        let after = ids@;
        assert(after =~= before.insert(at as int, p));
        assert forall|i: int, j: int| 0 <= i < j < after.len() implies shown_before(
            after[i],
            after[j],
        ) by {
            if j < at {
                assert(shown_before(before[i], before[j]));
            } else if j == at {
                assert(shown_before(before[i], p));
            } else if i < at {
                assert(shown_before(before[i], before[j - 1]));
            } else if i == at {
                if at < j - 1 {
                    assert(shown_before(before[at as int], before[j - 1]));
                }
            } else {
                assert(shown_before(before[i - 1], before[j - 1]));
            }
        }
        assert forall|q: i32| after.contains(q) <==> before.contains(q) || q == p by {
            if before.contains(q) {
                let k = choose|k: int| 0 <= k < before.len() && before[k] == q;
                if k < at {
                    assert(after[k] == q);
                } else {
                    assert(after[k + 1] == q);
                }
            }
            if q == p {
                assert(after[at as int] == p);
            }
            if after.contains(q) && q != p {
                let k = choose|k: int| 0 <= k < after.len() && after[k] == q;
                if k < at {
                    assert(before[k] == q);
                } else {
                    assert(before[k - 1] == q);
                }
            }
        }
    }
}

} // verus!
