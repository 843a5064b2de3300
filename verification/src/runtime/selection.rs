//! Which components take part in a pipeline, and in which order.
use vstd::prelude::*;

verus! {

use super::pipeline::{effective_capacity, selected, sum};

/// Whether `places` are the places of the components that a list names, from first to last.
pub open spec fn are_places_of<T>(
    places: Seq<int>,
    ids: Seq<Seq<char>>,
    components: Seq<(String, T)>,
) -> bool {
    &&& forall|j: int| 0 <= j < places.len() ==> 0 <= #[trigger] places[j] < components.len()
    &&& forall|j: int, k: int|
        0 <= j < k < places.len() ==> #[trigger] places[j] < #[trigger] places[k]
    &&& forall|i: int|
        0 <= i < components.len() ==> (ids.contains((#[trigger] components[i]).0@)
            <==> places.contains(i))
}

/// A selection keeps the order in which the components were given: there are places, from first to
/// last those of exactly the named components, and the selection holds what stands there. Where
/// every component is named, it holds them all as they were given.
pub proof fn a_selection_keeps_the_order<T>(ids: Seq<Seq<char>>, components: Seq<(String, T)>)
    requires
        ids.len() > 0,
    ensures
        exists|places: Seq<int>|
            #[trigger] are_places_of(places, ids, components) && places.len() == selected(
                ids,
                components,
            ).len() && forall|j: int|
                0 <= j < places.len() ==> #[trigger] selected(ids, components)[j]
                    == components[places[j]].1,
        (forall|i: int| 0 <= i < components.len() ==> ids.contains((#[trigger] components[i]).0@))
            ==> selected(ids, components) == components.map_values(|c: (String, T)| c.1),
    decreases components.len(),
{
    let s = selected(ids, components);
    if components.len() == 0 {
        let none = Seq::<int>::empty();
        assert(are_places_of(none, ids, components));
        assert(s =~= components.map_values(|c: (String, T)| c.1));
    } else {
        let init = components.drop_last();
        let n = components.len() - 1;
        let before = selected(ids, init);
        a_selection_keeps_the_order(ids, init);
        let places = choose|places: Seq<int>|
            #[trigger] are_places_of(places, ids, init) && places.len() == before.len()
                && forall|j: int|
                0 <= j < places.len() ==> #[trigger] before[j] == init[places[j]].1;
        assert(components[n] == components.last());
        assert forall|i: int| 0 <= i < n implies init[i] == #[trigger] components[i] by {}
        if ids.contains(components.last().0@) {
            let more = places.push(n);
            assert forall|i: int| 0 <= i < components.len() implies (ids.contains(
                (#[trigger] components[i]).0@,
            ) <==> more.contains(i)) by {
                if i < n {
                    assert(init[i] == components[i]);
                    if places.contains(i) {
                        let k = choose|k: int| 0 <= k < places.len() && places[k] == i;
                        assert(more[k] == i);
                    }
                    if more.contains(i) {
                        let k = choose|k: int| 0 <= k < more.len() && more[k] == i;
                        assert(places[k] == i);
                    }
                } else {
                    assert(more[more.len() - 1] == n);
                }
            }
            assert(are_places_of(more, ids, components));
            assert forall|j: int| 0 <= j < more.len() implies #[trigger] s[j]
                == components[more[j]].1 by {
                if j < places.len() {
                    assert(before[j] == init[places[j]].1);
                }
            }
        } else {
            assert forall|i: int| 0 <= i < components.len() implies (ids.contains(
                (#[trigger] components[i]).0@,
            ) <==> places.contains(i)) by {
                if i < n {
                    assert(init[i] == components[i]);
                } else if places.contains(i) {
                    let k = choose|k: int| 0 <= k < places.len() && places[k] == i;
                    assert(places[k] < n);
                }
            }
            assert(are_places_of(places, ids, components));
            assert forall|j: int| 0 <= j < places.len() implies #[trigger] s[j]
                == components[places[j]].1 by {
                assert(before[j] == init[places[j]].1);
            }
        }
        if forall|i: int| 0 <= i < components.len() ==> ids.contains(
            (#[trigger] components[i]).0@,
        ) {
            assert forall|i: int| 0 <= i < init.len() implies ids.contains(
                (#[trigger] init[i]).0@,
            ) by {
                assert(init[i] == components[i]);
            }
            assert(s =~= components.map_values(|c: (String, T)| c.1));
        }
    }
}

/// Components are selected on their own, whatever stands before and behind them: of two lists the
/// selection of the first comes first. An empty list of names selects everything.
pub proof fn a_selection_is_made_one_by_one<T>(
    ids: Seq<Seq<char>>,
    a: Seq<(String, T)>,
    b: Seq<(String, T)>,
    c: (String, T),
)
    ensures
        selected(ids, a + b) == selected(ids, a) + selected(ids, b),
        selected(ids, seq![c]) == (if ids.len() == 0 || ids.contains(c.0@) {
            seq![c.1]
        } else {
            seq![]
        }),
    decreases b.len(),
{
    reveal_with_fuel(selected, 2);
    assert(seq![c].drop_last() =~= seq![]);
    assert(selected(ids, seq![c]) =~= (if ids.len() == 0 || ids.contains(c.0@) {
        seq![c.1]
    } else {
        seq![]
    }));
    if b.len() > 0 {
        a_selection_is_made_one_by_one(ids, a, b.drop_last(), c);
        assert((a + b).drop_last() =~= a + b.drop_last());
        assert((a + b).last() == b.last());
        assert(selected(ids, a + b) =~= selected(ids, a) + selected(ids, b));
    } else {
        assert(a + b =~= a);
        assert(selected(ids, a + b) =~= selected(ids, a) + selected(ids, b));
    }
}

/// A channel has the capacity that was asked for, and never less than 16.
pub proof fn a_channel_is_never_too_small(requested: usize)
    ensures
        effective_capacity(requested) >= 16,
        effective_capacity(requested) >= requested,
        effective_capacity(requested) == requested || effective_capacity(requested) == 16,
{
}

/// All items are counted, each once.
pub proof fn every_item_is_counted(a: Seq<usize>, b: Seq<usize>, n: usize)
    ensures
        sum(a + b) == sum(a) + sum(b),
        sum(seq![n]) == n,
        sum(Seq::<usize>::empty()) == 0,
    decreases b.len(),
{
    reveal_with_fuel(sum, 2);
    assert(seq![n].drop_last() =~= seq![]);
    if b.len() > 0 {
        every_item_is_counted(a, b.drop_last(), n);
        assert((a + b).drop_last() =~= a + b.drop_last());
    } else {
        assert(a + b =~= a);
    }
}

} // verus!
