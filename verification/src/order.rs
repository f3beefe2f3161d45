//! Names in order.

use vstd::prelude::*;

use crate::text;
use crate::text::chars_of;

verus! {

/// Whether a text stands before another in the order by characters, or is the
/// same.
pub open spec fn not_after(a: Seq<char>, b: Seq<char>) -> bool
    decreases a.len(),
{
    a.len() == 0 || (b.len() > 0 && (a[0] < b[0] || (a[0] == b[0] && not_after(
        a.skip(1),
        b.skip(1),
    ))))
}

/// Whether each name stands before those that follow it, or is the same.
pub open spec fn in_order(names: Seq<Seq<char>>) -> bool {
    forall|i: int, j: int|
        0 <= i < j < names.len() ==> not_after(#[trigger] names[i], #[trigger] names[j])
}

proof fn lemma_total(a: Seq<char>, b: Seq<char>)
    ensures
        not_after(a, b) || not_after(b, a),
    decreases a.len(),
{
    if a.len() > 0 && b.len() > 0 && a[0] == b[0] {
        lemma_total(a.skip(1), b.skip(1));
    }
}

proof fn lemma_transitive(a: Seq<char>, b: Seq<char>, c: Seq<char>)
    requires
        not_after(a, b),
        not_after(b, c),
    ensures
        not_after(a, c),
    decreases a.len(),
{
    if a.len() > 0 && b[0] == c[0] && a[0] == b[0] {
        lemma_transitive(a.skip(1), b.skip(1), c.skip(1));
    }
}

fn stands_before(a: &str, b: &str) -> (r: bool)
    ensures
        r == not_after(a@, b@),
{
    let x = chars_of(a);
    let y = chars_of(b);
    let mut i: usize = 0;
    proof {
        assert(x@.skip(0) =~= x@);
        assert(y@.skip(0) =~= y@);
    }
    while i < x.len() && i < y.len() && x[i] == y[i]
        invariant
            i <= x@.len(),
            i <= y@.len(),
            x@ == a@,
            y@ == b@,
            not_after(a@, b@) == not_after(x@.skip(i as int), y@.skip(i as int)),
        decreases x@.len() - i,
    {
        proof {
            assert(x@.skip(i as int).skip(1) =~= x@.skip(i + 1));
            assert(y@.skip(i as int).skip(1) =~= y@.skip(i + 1));
        }
        i = i + 1;
    }
    if i == x.len() {
        true
    } else if i == y.len() {
        false
    } else {
        x[i] < y[i]
    }
}

/// Puts names in order, each as often as it stands in the list.
pub fn sorted_names(list: &Vec<String>) -> (r: Vec<String>)
    ensures
        in_order(text::texts(r@)),
        text::texts(r@).to_multiset() == text::texts(list@).to_multiset(),
{
    let mut out: Vec<String> = Vec::new();
    let mut i: usize = 0;
    let ghost all = text::texts(list@);
    assert(text::texts(out@) =~= all.take(0));
    while i < list.len()
        invariant
            i <= list@.len(),
            all == text::texts(list@),
            out@.len() == i,
            in_order(text::texts(out@)),
            text::texts(out@).to_multiset() == all.take(i as int).to_multiset(),
        decreases list@.len() - i,
    {
        let name = list[i].clone();
        let ghost before = text::texts(out@);
        let mut at: usize = 0;
        while at < out.len() && stands_before(out[at].as_str(), name.as_str())
            invariant
                at <= out@.len(),
                before == text::texts(out@),
                forall|k: int| 0 <= k < at ==> not_after(#[trigger] before[k], name@),
            decreases out@.len() - at,
        {
            assert(before[at as int] == out@[at as int]@);
            at = at + 1;
        }
        proof {
            if at < out@.len() {
                assert(before[at as int] == out@[at as int]@);
                lemma_total(before[at as int], name@);
                assert forall|k: int| at <= k < before.len() implies not_after(
                    name@,
                    #[trigger] before[k],
                ) by {
                    if k > at {
                        lemma_transitive(name@, before[at as int], before[k]);
                    }
                }
            }
        }
        out.insert(at, name);
        proof {
            let after = text::texts(out@);
            assert(after =~= before.insert(at as int, name@));
            vstd::seq_lib::to_multiset_insert(before, at as int, name@);
            assert(all.take(i + 1) =~= all.take(i as int).push(name@));
            vstd::seq_lib::to_multiset_build(all.take(i as int), name@);
            assert forall|p: int, q: int| 0 <= p < q < after.len() implies not_after(
                #[trigger] after[p],
                #[trigger] after[q],
            ) by {
                if q < at {
                    assert(after[p] == before[p] && after[q] == before[q]);
                } else if q == at {
                    assert(after[p] == before[p]);
                } else if p < at {
                    assert(after[p] == before[p] && after[q] == before[q - 1]);
                } else if p == at {
                    assert(after[q] == before[q - 1]);
                } else {
                    assert(after[p] == before[p - 1] && after[q] == before[q - 1]);
                }
            }
        }
        i = i + 1;
    }
    assert(all.take(i as int) =~= all);
    out
}

/// There is only one way to put names in order.
pub proof fn law_order_is_unique(a: Seq<Seq<char>>, b: Seq<Seq<char>>)
    requires
        in_order(a),
        in_order(b),
        a.to_multiset() == b.to_multiset(),
    ensures
        a == b,
    decreases a.len(),
{
    broadcast use vstd::seq_lib::group_to_multiset_ensures;

    assert(a.len() == a.to_multiset().len() && b.len() == b.to_multiset().len());
    if a.len() > 0 {
        assert(a.to_multiset().count(a[0]) > 0 && b.to_multiset().count(b[0]) > 0);
        assert(b.contains(a[0]) && a.contains(b[0]));
        let j = choose|j: int| 0 <= j < b.len() && b[j] == a[0];
        let k = choose|k: int| 0 <= k < a.len() && a[k] == b[0];
        lemma_reflexive(a[0]);
        assert(not_after(b[0], a[0]));
        assert(not_after(a[0], b[0]));
        lemma_antisymmetric(a[0], b[0]);
        assert(a.remove(0) =~= a.skip(1));
        assert(b.remove(0) =~= b.skip(1));
        assert forall|p: int, q: int| 0 <= p < q < a.len() - 1 implies not_after(
            #[trigger] a.skip(1)[p],
            #[trigger] a.skip(1)[q],
        ) by {
            assert(not_after(a[p + 1], a[q + 1]));
        }
        assert forall|p: int, q: int| 0 <= p < q < b.len() - 1 implies not_after(
            #[trigger] b.skip(1)[p],
            #[trigger] b.skip(1)[q],
        ) by {
            assert(not_after(b[p + 1], b[q + 1]));
        }
        law_order_is_unique(a.skip(1), b.skip(1));
        assert(a =~= seq![a[0]] + a.skip(1));
        assert(b =~= seq![b[0]] + b.skip(1));
    } else {
        assert(a =~= b);
    }
}

proof fn lemma_reflexive(a: Seq<char>)
    ensures
        not_after(a, a),
    decreases a.len(),
{
    if a.len() > 0 {
        lemma_reflexive(a.skip(1));
    }
}

proof fn lemma_antisymmetric(a: Seq<char>, b: Seq<char>)
    requires
        not_after(a, b),
        not_after(b, a),
    ensures
        a == b,
    decreases a.len(),
{
    if a.len() > 0 && b.len() > 0 {
        lemma_antisymmetric(a.skip(1), b.skip(1));
        assert(a =~= seq![a[0]] + a.skip(1));
        assert(b =~= seq![b[0]] + b.skip(1));
    } else {
        assert(a =~= b);
    }
}

} // verus!
