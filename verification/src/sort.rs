//! Sorting by a total order.
use vstd::prelude::*;

verus! {

/// Values with a total order on their models.
pub trait Sortable: Sized {
    /// What a value stands for.
    type Model;

    spec fn model(&self) -> Self::Model;

    /// Whether `a` comes before `b` or is equal to it.
    spec fn leq(a: Self::Model, b: Self::Model) -> bool;

    proof fn leq_total(a: Self::Model, b: Self::Model)
        ensures
            Self::leq(a, b) || Self::leq(b, a),
    ;

    proof fn leq_transitive(a: Self::Model, b: Self::Model, c: Self::Model)
        requires
            Self::leq(a, b),
            Self::leq(b, c),
        ensures
            Self::leq(a, c),
    ;

    fn at_most(&self, other: &Self) -> (r: bool)
        ensures
            r == Self::leq(self.model(), other.model()),
    ;
}

/// What the values of a list stand for.
pub open spec fn models<T: Sortable>(v: Seq<T>) -> Seq<T::Model> {
    v.map_values(|x: T| x.model())
}

/// Whether no value comes before an earlier one.
pub open spec fn is_sorted<T: Sortable>(v: Seq<T>) -> bool {
    forall|i: int, j: int|
        0 <= i <= j < v.len() ==> T::leq((#[trigger] v[i]).model(), (#[trigger] v[j]).model())
}

/// Puts the values of a list in order.
pub fn sort<T: Sortable>(v: Vec<T>) -> (r: Vec<T>)
    ensures
        is_sorted(r@),
        r@.to_multiset() == v@.to_multiset(),
        r@.len() == v@.len(),
{
    let mut r: Vec<T> = Vec::new();
    let ghost all = v@;
    let ghost mut n: int = 0;
    proof {
        all.to_multiset_ensures();
        assert(all.take(0) =~= seq![]);
        assert(r@ =~= all.take(0));
    }
    for x in it: v
        invariant
            it.seq() == all,
            n == it.index(),
            is_sorted(r@),
            r@.len() == n,
            r@.to_multiset() == all.take(n).to_multiset(),
    {
        let ghost before = r@;
        let ghost item = x;
        let mut k: usize = 0;
        while k < r.len() && r[k].at_most(&x)
            invariant
                k <= r.len(),
                r@ == before,
                x == item,
                forall|i: int| 0 <= i < k ==> T::leq((#[trigger] before[i]).model(), item.model()),
            decreases r.len() - k,
        {
            k = k + 1;
        }
        r.insert(k, x);
        proof {
            assert(r@ == before.insert(k as int, item));
            before.to_multiset_ensures();
            vstd::seq_lib::to_multiset_insert(before, k as int, item);
            assert(all.take(n + 1) =~= all.take(n).push(all[n]));
            all.take(n).to_multiset_ensures();
            assert(all[n] == item);
            assert forall|i: int, j: int| 0 <= i <= j < r@.len() implies T::leq(
                (#[trigger] r@[i]).model(),
                (#[trigger] r@[j]).model(),
            ) by {
                let a = if i < k { i } else { i - 1 };
                let b = if j < k { j } else { j - 1 };
                if i != k && j != k {
                    assert(r@[i] == before[a] && r@[j] == before[b]);
                } else if i == k && j == k {
                    T::leq_total(item.model(), item.model());
                } else if j == k {
                    assert(r@[i] == before[i]);
                } else {
                    // The item comes before the one that stopped the search, and so before all
                    // that follow it.
                    T::leq_total(item.model(), before[k as int].model());
                    assert(r@[j] == before[j - 1]);
                    T::leq_transitive(
                        item.model(),
                        before[k as int].model(),
                        before[j - 1].model(),
                    );
                }
            }
            n = n + 1;
        }
    }
    proof {
        assert(all.take(n) =~= all);
    }
    r
}

} // verus!
