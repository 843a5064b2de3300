//! Components registered by name, in the order of their registration.
use crate::text::same;
use vstd::prelude::*;

verus! {

/// The position of the first entry named `id`, or the number of entries.
pub open spec fn position<T>(e: Seq<(Seq<char>, T)>, id: Seq<char>) -> int
    decreases e.len(),
{
    if e.len() == 0 {
        0
    } else if e[0].0 == id {
        0
    } else {
        1 + position(e.drop_first(), id)
    }
}

/// Whether there is an entry named `id`.
pub open spec fn registered<T>(e: Seq<(Seq<char>, T)>, id: Seq<char>) -> bool {
    exists|i: int| 0 <= i < e.len() && (#[trigger] e[i]).0 == id
}

/// Whether no name occurs twice.
pub open spec fn distinct_names<T>(e: Seq<(Seq<char>, T)>) -> bool {
    forall|i: int, j: int| 0 <= i < j < e.len() ==> (#[trigger] e[i]).0 != (#[trigger] e[j]).0
}

/// The entries with `value` under the name `id`, in place of what stood there.
pub open spec fn with_entry<T>(e: Seq<(Seq<char>, T)>, id: Seq<char>, value: T) -> Seq<
    (Seq<char>, T),
> {
    if registered(e, id) {
        e.update(position(e, id), (id, value))
    } else {
        e.push((id, value))
    }
}

/// The entries without the one named `id`.
pub open spec fn without<T>(e: Seq<(Seq<char>, T)>, id: Seq<char>) -> Seq<(Seq<char>, T)> {
    if registered(e, id) {
        e.remove(position(e, id))
    } else {
        e
    }
}

/// The names in order.
pub open spec fn names<T>(e: Seq<(Seq<char>, T)>) -> Seq<Seq<char>> {
    e.map_values(|x: (Seq<char>, T)| x.0)
}

pub proof fn lemma_position<T>(e: Seq<(Seq<char>, T)>, id: Seq<char>)
    ensures
        0 <= position(e, id) <= e.len(),
        registered(e, id) <==> position(e, id) < e.len(),
        position(e, id) < e.len() ==> e[position(e, id)].0 == id,
        forall|i: int| 0 <= i < position(e, id) ==> (#[trigger] e[i]).0 != id,
    decreases e.len(),
{
    if e.len() > 0 && e[0].0 != id {
        let rest = e.drop_first();
        lemma_position(rest, id);
        assert forall|i: int| 0 <= i < position(e, id) implies (#[trigger] e[i]).0 != id by {
            if i > 0 {
                assert(rest[i - 1] == e[i]);
            }
        }
        if registered(e, id) {
            let i = choose|i: int| 0 <= i < e.len() && (#[trigger] e[i]).0 == id;
            assert(rest[i - 1] == e[i]);
        }
    }
}

/// Registering keeps names distinct, makes the name available, and changes no other.
pub proof fn lemma_with_entry<T>(e: Seq<(Seq<char>, T)>, id: Seq<char>, value: T)
    requires
        distinct_names(e),
    ensures
        distinct_names(with_entry(e, id, value)),
        registered(with_entry(e, id, value), id),
        with_entry(e, id, value)[position(e, id)] == (id, value),
        forall|other: Seq<char>|
            other != id ==> #[trigger] registered(with_entry(e, id, value), other) == registered(
                e,
                other,
            ),
{
    lemma_position(e, id);
    let after = with_entry(e, id, value);
    assert(after[position(e, id)].0 == id);
    assert forall|other: Seq<char>| other != id implies #[trigger] registered(after, other)
        == registered(e, other) by {
        if registered(e, other) {
            let i = choose|i: int| 0 <= i < e.len() && (#[trigger] e[i]).0 == other;
            assert(after[i] == e[i]);
        }
        if registered(after, other) {
            let i = choose|i: int| 0 <= i < after.len() && (#[trigger] after[i]).0 == other;
            assert(i < e.len() && e[i] == after[i]);
        }
    }
}

/// Removing keeps names distinct, makes the name unavailable, and changes no other.
pub proof fn lemma_without<T>(e: Seq<(Seq<char>, T)>, id: Seq<char>)
    requires
        distinct_names(e),
    ensures
        distinct_names(without(e, id)),
        !registered(without(e, id), id),
        forall|other: Seq<char>|
            other != id ==> #[trigger] registered(without(e, id), other) == registered(e, other),
{
    lemma_position(e, id);
    let after = without(e, id);
    let p = position(e, id);
    if registered(e, id) {
        assert forall|i: int, j: int| 0 <= i < j < after.len() implies (#[trigger] after[i]).0 != (
        #[trigger] after[j]).0 by {
            let a = if i < p { i } else { i + 1 };
            let b = if j < p { j } else { j + 1 };
            assert(after[i] == e[a] && after[j] == e[b]);
        }
        assert forall|i: int| 0 <= i < after.len() implies (#[trigger] after[i]).0 != id by {
            let a = if i < p { i } else { i + 1 };
            assert(after[i] == e[a]);
            assert(e[p].0 == id);
        }
        assert forall|other: Seq<char>| other != id implies #[trigger] registered(after, other)
            == registered(e, other) by {
            if registered(e, other) {
                let i = choose|i: int| 0 <= i < e.len() && (#[trigger] e[i]).0 == other;
                let b = if i < p { i } else { i - 1 };
                assert(after[b] == e[i]);
            }
            if registered(after, other) {
                let i = choose|i: int| 0 <= i < after.len() && (#[trigger] after[i]).0 == other;
                let a = if i < p { i } else { i + 1 };
                assert(after[i] == e[a]);
            }
        }
    }
}

/// A list of components with distinct names.
pub struct Registry<T> {
    entries: Vec<(String, T)>,
}

impl<T> View for Registry<T> {
    type V = Seq<(Seq<char>, T)>;

    closed spec fn view(&self) -> Seq<(Seq<char>, T)> {
        self.entries@.map_values(|e: (String, T)| (e.0@, e.1))
    }
}

impl<T> Registry<T> {
    pub fn new() -> (r: Self)
        ensures
            r@ == Seq::<(Seq<char>, T)>::empty(),
    {
        let r = Registry { entries: Vec::new() };
        assert(r@ =~= Seq::empty());
        r
    }

    pub fn len(&self) -> (r: usize)
        ensures
            r == self@.len(),
    {
        self.entries.len()
    }

    fn find(&self, id: &str) -> (r: usize)
        ensures
            r == position(self@, id@),
            r <= self@.len(),
            r < self@.len() <==> registered(self@, id@),
            self.entries@.len() == self@.len(),
    {
        proof {
            lemma_position(self@, id@);
        }
        let mut i: usize = 0;
        assert(self@.skip(0) =~= self@);
        while i < self.entries.len()
            invariant
                i <= self.entries.len(),
                self.entries@.len() == self@.len(),
                position(self@, id@) == i + position(self@.skip(i as int), id@),
                position(self@, id@) <= self@.len(),
                position(self@, id@) < self@.len() <==> registered(self@, id@),
            decreases self.entries.len() - i,
        {
            assert(self@.skip(i as int).drop_first() =~= self@.skip(i + 1));
            assert(self@.skip(i as int)[0] == self@[i as int]);
            if same(self.entries[i].0.as_str(), id) {
                return i;
            }
            i = i + 1;
        }
        i
    }

    /// Whether a component is registered under a name.
    pub fn contains(&self, id: &str) -> (r: bool)
        ensures
            r == registered(self@, id@),
    {
        self.find(id) < self.entries.len()
    }

    /// Registers a component; one that stood under the name is replaced.
    pub fn insert(&mut self, id: String, value: T)
        ensures
            final(self)@ == with_entry(old(self)@, id@, value),
    {
        let ghost before = self@;
        let i = self.find(id.as_str());
        let ghost name = id@;
        if i < self.entries.len() {
            self.entries.set(i, (id, value));
        } else {
            self.entries.push((id, value));
        }
        assert(self@ =~= with_entry(before, name, value));
    }

    /// Takes the component with a name out of the list.
    pub fn remove(&mut self, id: &str) -> (r: Option<T>)
        ensures
            final(self)@ == without(old(self)@, id@),
            r == (if registered(old(self)@, id@) {
                Some(old(self)@[position(old(self)@, id@)].1)
            } else {
                None
            }),
    {
        let ghost before = self@;
        let i = self.find(id);
        if i < self.entries.len() {
            let (_, value) = self.entries.remove(i);
            assert(self@ =~= without(before, id@));
            Some(value)
        } else {
            None
        }
    }

    /// The component with a name.
    pub fn get(&self, id: &str) -> (r: Option<&T>)
        ensures
            r == (if registered(self@, id@) {
                Some(&self@[position(self@, id@)].1)
            } else {
                None
            }),
    {
        let i = self.find(id);
        if i < self.entries.len() {
            Some(&self.entries[i].1)
        } else {
            None
        }
    }

    /// The names in the order of registration.
    pub fn ids(&self) -> (r: Vec<String>)
        ensures
            crate::text::texts(r@) == names(self@),
    {
        let mut r: Vec<String> = Vec::new();
        let mut i: usize = 0;
        while i < self.entries.len()
            invariant
                i <= self.entries.len(),
                self.entries@.len() == self@.len(),
                r@.len() == i,
                forall|j: int| 0 <= j < i ==> (#[trigger] r@[j])@ == self@[j].0,
            decreases self.entries.len() - i,
        {
            r.push(self.entries[i].0.clone());
            i = i + 1;
        }
        assert(crate::text::texts(r@) =~= names(self@));
        r
    }
}

} // verus!
