//! The order in which the messages of a conversation are read.
//!
//! Every message file is known by its index and by its position in the
//! listing it came from. Messages are read by ascending index; two files that
//! carry the same index are read in the order of the listing.

use vstd::prelude::*;

verus! {

/// Whether one message comes before another: by index first, by position in
/// the listing second.
pub open spec fn before(a: (u16, usize), b: (u16, usize)) -> bool {
    a.0 < b.0 || (a.0 == b.0 && a.1 < b.1)
}

/// Whether each message of a sequence comes before all that follow it.
pub open spec fn ascending(s: Seq<(u16, usize)>) -> bool {
    forall|i: int, j: int| 0 <= i < j < s.len() ==> before(#[trigger] s[i], #[trigger] s[j])
}

/// Whether one message comes before another.
pub fn comes_before(a: (u16, usize), b: (u16, usize)) -> (r: bool)
    ensures
        r == before(a, b),
{
    a.0 < b.0 || (a.0 == b.0 && a.1 < b.1)
}

/// Puts a message into an ascending sequence at its place.
pub fn insert(order: &mut Vec<(u16, usize)>, x: (u16, usize))
    requires
        ascending(old(order)@),
        !old(order)@.contains(x),
    ensures
        ascending(final(order)@),
        final(order)@.len() == old(order)@.len() + 1,
        forall|y: (u16, usize)|
            final(order)@.contains(y) <==> (old(order)@.contains(y) || y == x),
{
    let ghost start = order@;
    let mut k: usize = 0;
    while k < order.len() && !comes_before(x, order[k])
        invariant
            order@ == start,
            !start.contains(x),
            k <= order.len(),
            forall|j: int| 0 <= j < k ==> before(#[trigger] start[j], x),
        decreases order.len() - k,
    {
        proof {
            let e = start[k as int];
            assert(start.contains(e));
            assert(e != x);
            assert(e == (e.0, e.1) && x == (x.0, x.1));
        }
        k = k + 1;
    }
    order.insert(k, x);
    proof {
        let end = order@;
        assert(end == start.insert(k as int, x));
        assert forall|i: int, j: int| 0 <= i < j < end.len() implies before(
            #[trigger] end[i],
            #[trigger] end[j],
        ) by {
            if j < k {
                assert(end[i] == start[i] && end[j] == start[j]);
            } else if j == k {
                assert(end[i] == start[i]);
            } else if i < k {
                assert(end[i] == start[i] && end[j] == start[j - 1]);
            } else if i == k {
                assert(end[j] == start[j - 1]);
                assert(before(x, start[k as int]));
            } else {
                assert(end[i] == start[i - 1] && end[j] == start[j - 1]);
            }
        }
        assert forall|y: (u16, usize)| end.contains(y) <==> (start.contains(y) || y == x) by {
            if end.contains(y) {
                let i = choose|i: int| 0 <= i < end.len() && end[i] == y;
                if i < k {
                    assert(start[i] == y);
                } else if i > k {
                    assert(start[i - 1] == y);
                }
            }
            if start.contains(y) {
                let i = choose|i: int| 0 <= i < start.len() && start[i] == y;
                if i < k {
                    assert(end[i] == y);
                } else {
                    assert(end[i + 1] == y);
                }
            }
            if y == x {
                assert(end[k as int] == y);
            }
        }
    }
}

/// An ascending sequence is known by its members: two such sequences with the
/// same members are the same sequence.
pub proof fn lemma_ascending_unique(a: Seq<(u16, usize)>, b: Seq<(u16, usize)>)
    requires
        ascending(a),
        ascending(b),
        forall|y: (u16, usize)| a.contains(y) <==> b.contains(y),
    ensures
        a == b,
    decreases a.len(),
{
    if a.len() == 0 {
        if b.len() > 0 {
            assert(b.contains(b[0]));
        }
        assert(a =~= b);
    } else if b.len() == 0 {
        assert(a.contains(a[0]));
    } else {
        // The first of each is the least member, so they are the same.
        assert(a.contains(a[0]));
        assert(b.contains(b[0]));
        let i = choose|i: int| 0 <= i < b.len() && b[i] == a[0];
        let j = choose|j: int| 0 <= j < a.len() && a[j] == b[0];
        assert(a[0] == b[0]) by {
            if i > 0 && j > 0 {
                assert(before(b[0], b[i]));
                assert(before(a[0], a[j]));
            } else if i > 0 {
                assert(before(b[0], b[i]));
            } else if j > 0 {
                assert(before(a[0], a[j]));
            }
        }
        let a1 = a.subrange(1, a.len() as int);
        let b1 = b.subrange(1, b.len() as int);
        assert(ascending(a1)) by {
            assert forall|p: int, q: int| 0 <= p < q < a1.len() implies before(
                #[trigger] a1[p],
                #[trigger] a1[q],
            ) by {
                assert(a1[p] == a[p + 1] && a1[q] == a[q + 1]);
            }
        }
        assert(ascending(b1)) by {
            assert forall|p: int, q: int| 0 <= p < q < b1.len() implies before(
                #[trigger] b1[p],
                #[trigger] b1[q],
            ) by {
                assert(b1[p] == b[p + 1] && b1[q] == b[q + 1]);
            }
        }
        assert forall|y: (u16, usize)| a1.contains(y) <==> b1.contains(y) by {
            if a1.contains(y) {
                let p = choose|p: int| 0 <= p < a1.len() && a1[p] == y;
                assert(a[p + 1] == y);
                assert(before(a[0], a[p + 1]));
                assert(a.contains(y));
                let q = choose|q: int| 0 <= q < b.len() && b[q] == y;
                assert(q != 0);
                assert(b1[q - 1] == y);
            }
            if b1.contains(y) {
                let p = choose|p: int| 0 <= p < b1.len() && b1[p] == y;
                assert(b[p + 1] == y);
                assert(before(b[0], b[p + 1]));
                assert(b.contains(y));
                let q = choose|q: int| 0 <= q < a.len() && a[q] == y;
                assert(q != 0);
                assert(a1[q - 1] == y);
            }
        }
        lemma_ascending_unique(a1, b1);
        assert(a =~= seq![a[0]] + a1);
        assert(b =~= seq![b[0]] + b1);
    }
}

} // verus!
