//! The order in which the unseen messages of a mailbox are processed: by identifier, lowest
//! first, so that a backlog drains in the order in which it arrived.

use vstd::prelude::*;

verus! {

/// Each element of `s` is less than every element after it.
pub open spec fn strictly_ascending(s: Seq<u32>) -> bool {
    forall|i: int, j: int| 0 <= i < j < s.len() ==> s[i] < s[j]
}

/// `s` with `x` put in its place, where `s` is ascending; unchanged where `x` is in it.
pub open spec fn with_id(s: Seq<u32>, x: u32) -> Seq<u32>
    decreases s.len(),
{
    if s.len() == 0 {
        seq![x]
    } else if s.last() < x {
        s.push(x)
    } else if s.last() == x {
        s
    } else {
        with_id(s.drop_last(), x).push(s.last())
    }
}

/// The identifiers of `ids` in the order of processing: each once, lowest first.
pub open spec fn ascending(ids: Seq<u32>) -> Seq<u32>
    decreases ids.len(),
{
    if ids.len() == 0 {
        Seq::empty()
    } else {
        with_id(ascending(ids.drop_last()), ids.last())
    }
}

/// Putting `x` in its place keeps the order strict and adds `x` to the members, nothing
/// else.
pub proof fn lemma_with_id(s: Seq<u32>, x: u32)
    requires
        strictly_ascending(s),
    ensures
        strictly_ascending(with_id(s, x)),
        forall|y: u32|
            #![trigger with_id(s, x).contains(y)]
            #![trigger s.contains(y)]
            with_id(s, x).contains(y) <==> (s.contains(y) || y == x),
        s.len() <= with_id(s, x).len() <= s.len() + 1,
    decreases s.len(),
{
    let r = with_id(s, x);
    if s.len() == 0 {
        assert(r[0] == x);
        assert forall|y: u32| r.contains(y) <==> (s.contains(y) || y == x) by {}
    } else if s.last() < x {
        assert forall|y: u32| r.contains(y) <==> (s.contains(y) || y == x) by {
            if s.contains(y) {
                let k = choose|k: int| 0 <= k < s.len() && s[k] == y;
                assert(r[k] == y);
            }
            if y == x {
                assert(r[s.len() as int] == x);
            }
        }
    } else if s.last() == x {
        assert(s[s.len() - 1] == x);
    } else {
        let head = s.drop_last();
        assert forall|i: int, j: int| 0 <= i < j < head.len() implies head[i] < head[j] by {
            assert(head[i] == s[i] && head[j] == s[j]);
        }
        lemma_with_id(head, x);
        let inner = with_id(head, x);
        assert forall|i: int, j: int| 0 <= i < j < r.len() implies r[i] < r[j] by {
            if j == inner.len() {
                assert(inner.contains(inner[i]));
                if inner[i] != x {
                    assert(head.contains(inner[i]));
                    let k = choose|k: int| 0 <= k < head.len() && head[k] == inner[i];
                    assert(s[k] < s[s.len() - 1]);
                }
            } else {
                assert(r[i] == inner[i] && r[j] == inner[j]);
            }
        }
        assert forall|y: u32| r.contains(y) <==> (s.contains(y) || y == x) by {
            if r.contains(y) {
                let k = choose|k: int| 0 <= k < r.len() && r[k] == y;
                if k < inner.len() {
                    assert(inner[k] == y);
                    assert(inner.contains(y));
                    if y != x {
                        assert(head.contains(y));
                        let m = choose|m: int| 0 <= m < head.len() && head[m] == y;
                        assert(s[m] == y);
                    }
                } else {
                    assert(s[s.len() - 1] == y);
                }
            }
            if s.contains(y) {
                let k = choose|k: int| 0 <= k < s.len() && s[k] == y;
                if k < head.len() {
                    assert(head[k] == y);
                    assert(head.contains(y));
                    let m = choose|m: int| 0 <= m < inner.len() && inner[m] == y;
                    assert(r[m] == y);
                } else {
                    assert(r[inner.len() as int] == y);
                }
            }
            if y == x {
                assert(inner.contains(x));
                let m = choose|m: int| 0 <= m < inner.len() && inner[m] == x;
                assert(r[m] == x);
            }
        }
    }
}

/// The order of processing is strictly ascending and holds exactly the identifiers given.
pub proof fn lemma_ascending(ids: Seq<u32>)
    ensures
        strictly_ascending(ascending(ids)),
        forall|y: u32|
            #![trigger ascending(ids).contains(y)]
            #![trigger ids.contains(y)]
            ascending(ids).contains(y) <==> ids.contains(y),
        ascending(ids).len() <= ids.len(),
    decreases ids.len(),
{
    if ids.len() > 0 {
        let head = ids.drop_last();
        lemma_ascending(head);
        lemma_with_id(ascending(head), ids.last());
        assert forall|y: u32| ascending(ids).contains(y) <==> ids.contains(y) by {
            if ids.contains(y) {
                let k = choose|k: int| 0 <= k < ids.len() && ids[k] == y;
                if k < head.len() {
                    assert(head[k] == y);
                    assert(head.contains(y));
                }
            }
            if head.contains(y) {
                let k = choose|k: int| 0 <= k < head.len() && head[k] == y;
                assert(ids[k] == y);
            }
            assert(ids[ids.len() - 1] == ids.last());
        }
    }
}

/// Two strictly ascending sequences with the same members are the same sequence: the order
/// of processing is the only one there is.
pub proof fn lemma_ascending_unique(a: Seq<u32>, b: Seq<u32>)
    requires
        strictly_ascending(a),
        strictly_ascending(b),
        forall|y: u32| a.contains(y) <==> b.contains(y),
    ensures
        a == b,
    decreases a.len(),
{
    if a.len() == 0 {
        if b.len() > 0 {
            assert(b.contains(b[0]));
        }
        assert(a =~= b);
    } else {
        assert(a.contains(a.last()));
        if b.len() == 0 {
            assert(!b.contains(a.last()));
        }
        // The greatest member closes both sequences.
        assert(b.contains(a.last()));
        assert(a.contains(b.last())) by {
            assert(b.contains(b.last()));
        }
        assert(a.last() == b.last());
        let a0 = a.drop_last();
        let b0 = b.drop_last();
        assert forall|y: u32| a0.contains(y) <==> b0.contains(y) by {
            if a0.contains(y) {
                let k = choose|k: int| 0 <= k < a0.len() && a0[k] == y;
                assert(a[k] == y);
                assert(a.contains(y));
                let m = choose|m: int| 0 <= m < b.len() && b[m] == y;
                assert(m < b.len() - 1);
                assert(b0[m] == y);
            }
            if b0.contains(y) {
                let k = choose|k: int| 0 <= k < b0.len() && b0[k] == y;
                assert(b[k] == y);
                assert(b.contains(y));
                let m = choose|m: int| 0 <= m < a.len() && a[m] == y;
                assert(m < a.len() - 1);
                assert(a0[m] == y);
            }
        }
        lemma_ascending_unique(a0, b0);
        assert(a =~= a0.push(a.last()));
        assert(b =~= b0.push(b.last()));
    }
}

/// Where everything in `s` from index `at` on is greater than `x`, and what stands before
/// `at` is not, `x` belongs at `at`, unless it stands just before already.
proof fn lemma_with_id_at(s: Seq<u32>, x: u32, at: int)
    requires
        0 <= at <= s.len(),
        forall|k: int| at <= k < s.len() ==> s[k] > x,
        at > 0 ==> s[at - 1] <= x,
    ensures
        with_id(s, x) == if at > 0 && s[at - 1] == x {
            s
        } else {
            s.insert(at, x)
        },
    decreases s.len() - at,
{
    if at == s.len() {
        if s.len() > 0 && s.last() < x {
            assert(s.push(x) =~= s.insert(at, x));
        } else if s.len() == 0 {
            assert(seq![x] =~= s.insert(at, x));
        }
    } else {
        let head = s.drop_last();
        lemma_with_id_at(head, x, at);
        if at > 0 && s[at - 1] == x {
            assert(head.push(s.last()) =~= s);
        } else {
            assert(head.insert(at, x).push(s.last()) =~= s.insert(at, x));
        }
    }
}

/// The order in which the messages with the identifiers `ids` are processed: each
/// identifier once, lowest first.
pub fn processing_order(ids: &Vec<u32>) -> (order: Vec<u32>)
    ensures
        order@ == ascending(ids@),
        strictly_ascending(order@),
        forall|y: u32| order@.contains(y) <==> ids@.contains(y),
{
    let mut order: Vec<u32> = Vec::new();
    let mut i: usize = 0;
    assert(ids@.take(0) =~= Seq::<u32>::empty());
    while i < ids.len()
        invariant
            i <= ids.len(),
            order@ == ascending(ids@.take(i as int)),
            order@.len() <= i,
        decreases ids.len() - i,
    {
        let x: u32 = ids[i];
        let mut at: usize = order.len();
        while at > 0 && order[at - 1] > x
            invariant
                at <= order.len(),
                forall|k: int| at <= k < order.len() ==> order@[k] > x,
            decreases at,
        {
            at -= 1;
        }
        proof {
            lemma_with_id_at(order@, x, at as int);
            lemma_ascending(ids@.take(i as int));
            lemma_with_id(order@, x);
            assert(ids@.take(i + 1).drop_last() =~= ids@.take(i as int));
            assert(ids@.take(i + 1).last() == x);
        }
        if !(at > 0 && order[at - 1] == x) {
            order.insert(at, x);
        }
        i += 1;
    }
    proof {
        assert(ids@.take(ids.len() as int) =~= ids@);
        lemma_ascending(ids@);
    }
    order
}

} // verus!
