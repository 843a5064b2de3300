//! Composes sources, processors and reporters by name.
//!
//! A component is registered either to be consumed by the first pipeline that names it, or as
//! a shared template of which every pipeline gets a clone of its own.
use super::pipeline::{PipelineExecutor, PipelinePlan, PipelineSpec};
use crate::error::Error;
use crate::registry::Registry;
use crate::text::decimal;
use vstd::prelude::*;

verus! {

use super::pipeline::{effective_capacity, empty_selection_takes_all};
use crate::registry::{
    distinct_names,
    lemma_position,
    lemma_with_entry,
    lemma_without,
    names,
    position,
    registered,
    with_entry,
    without,
};
use crate::text::{decimal_of, is_digit, lemma_decimal_digits, texts};

/// Where a pipeline gets a component from.
pub enum Slot<T> {
    /// The component itself.
    Owned(T),
    /// A fresh clone of the shared template with this name.
    CloneOf(String),
}

/// The name under which the `n`-th clone is registered until a pipeline takes it.
pub open spec fn clone_name(base: Seq<char>, n: nat) -> Seq<char> {
    base + "__shared_"@ + decimal_of(n)
}

/// Whether the name at a place in a list stands for a clone: it is not to be had otherwise, and
/// there is a template.
pub open spec fn is_cloned<T>(
    e: Seq<(Seq<char>, Slot<T>)>,
    shared: Seq<(Seq<char>, T)>,
    id: Seq<char>,
) -> bool {
    !registered(e, id) && registered(shared, id)
}

/// How many of the names stand for clones.
pub open spec fn clones_in<T>(
    e: Seq<(Seq<char>, Slot<T>)>,
    shared: Seq<(Seq<char>, T)>,
    ids: Seq<String>,
) -> nat
    decreases ids.len(),
{
    if ids.len() == 0 {
        0
    } else {
        clones_in(e, shared, ids.drop_last()) + (if is_cloned(e, shared, ids.last()@) {
            1nat
        } else {
            0nat
        })
    }
}

/// The names with each that stands for a clone replaced by that of its own clone, where
/// `counter` clones were made before.
pub open spec fn rewritten<T>(
    e: Seq<(Seq<char>, Slot<T>)>,
    shared: Seq<(Seq<char>, T)>,
    ids: Seq<String>,
    counter: nat,
) -> Seq<Seq<char>>
    decreases ids.len(),
{
    if ids.len() == 0 {
        seq![]
    } else {
        rewritten(e, shared, ids.drop_last(), counter).push(
            if is_cloned(e, shared, ids.last()@) {
                clone_name(
                    ids.last()@,
                    counter + clones_in(e, shared, ids.drop_last()) + 1,
                )
            } else {
                ids.last()@
            },
        )
    }
}

/// The registered components and the clones that a list of names asks for.
pub open spec fn materialized<T>(
    e: Seq<(Seq<char>, Slot<T>)>,
    shared: Seq<(Seq<char>, T)>,
    ids: Seq<String>,
    counter: nat,
) -> Seq<(Seq<char>, Slot<T>)>
    decreases ids.len(),
{
    if ids.len() == 0 {
        e
    } else {
        let before = materialized(e, shared, ids.drop_last(), counter);
        if is_cloned(e, shared, ids.last()@) {
            with_entry(
                before,
                clone_name(
                    ids.last()@,
                    counter + clones_in(e, shared, ids.drop_last()) + 1,
                ),
                Slot::CloneOf(ids.last()),
            )
        } else {
            before
        }
    }
}

/// What is left after components were taken out by name, one after the other.
pub open spec fn after_taking<T>(e: Seq<(Seq<char>, T)>, ids: Seq<Seq<char>>) -> Seq<
    (Seq<char>, T),
>
    decreases ids.len(),
{
    if ids.len() == 0 {
        e
    } else {
        without(after_taking(e, ids.drop_last()), ids.last())
    }
}

/// The components that are taken out by name, one after the other.
pub open spec fn taken<T>(e: Seq<(Seq<char>, T)>, ids: Seq<Seq<char>>) -> Seq<T>
    decreases ids.len(),
{
    if ids.len() == 0 {
        seq![]
    } else {
        let left = after_taking(e, ids.drop_last());
        taken(e, ids.drop_last()).push(left[position(left, ids.last())].1)
    }
}

/// The place of the first name that is not there when its turn comes, or the number of names.
pub open spec fn first_missing<T>(e: Seq<(Seq<char>, T)>, ids: Seq<Seq<char>>) -> int
    decreases ids.len(),
{
    if ids.len() == 0 {
        0
    } else {
        let k = first_missing(e, ids.drop_last());
        if k < ids.len() - 1 {
            k
        } else if registered(after_taking(e, ids.drop_last()), ids.last()) {
            ids.len() as int
        } else {
            ids.len() - 1
        }
    }
}

proof fn lemma_first_missing<T>(e: Seq<(Seq<char>, T)>, ids: Seq<Seq<char>>)
    ensures
        0 <= first_missing(e, ids) <= ids.len(),
    decreases ids.len(),
{
    if ids.len() > 0 {
        lemma_first_missing(e, ids.drop_last());
    }
}

/// A name that is missing stays the first one whatever follows it.
proof fn lemma_missing_prefix<T>(e: Seq<(Seq<char>, T)>, ids: Seq<Seq<char>>, k: int)
    requires
        0 <= k < ids.len(),
        first_missing(e, ids.take(k + 1)) == k,
    ensures
        first_missing(e, ids) == k,
    decreases ids.len(),
{
    if k == ids.len() - 1 {
        assert(ids.take(k + 1) =~= ids);
    } else {
        assert(ids.drop_last().take(k + 1) =~= ids.take(k + 1));
        lemma_missing_prefix(e, ids.drop_last(), k);
    }
}

/// The names that a kind of component is resolved by: those of the list, or all that are
/// registered where it names none.
pub open spec fn wanted<T>(e: Seq<(Seq<char>, T)>, ids: Seq<Seq<char>>) -> Seq<Seq<char>> {
    if ids.len() == 0 {
        names(e)
    } else {
        ids
    }
}

fn materialize<T>(
    entries: &mut Registry<Slot<T>>,
    shared: &Registry<T>,
    ids: &Vec<String>,
    counter: &mut u64,
) -> (r: Vec<String>)
    requires
        *old(counter) + ids.len() <= u64::MAX,
    ensures
        texts(r@) == rewritten(old(entries)@, shared@, ids@, *old(counter) as nat),
        final(entries)@ == materialized(old(entries)@, shared@, ids@, *old(counter) as nat),
        *final(counter) == *old(counter) + clones_in(old(entries)@, shared@, ids@),
        *final(counter) <= *old(counter) + ids.len(),
{
    let ghost e = entries@;
    let ghost c0 = *counter as nat;
    // Which names stand for clones is settled before any clone is registered.
    let mut cloned: Vec<bool> = Vec::new();
    let mut i: usize = 0;
    while i < ids.len()
        invariant
            i <= ids.len(),
            cloned@.len() == i,
            e == entries@,
            forall|j: int|
                0 <= j < i ==> #[trigger] cloned@[j] == is_cloned(e, shared@, ids@[j]@),
        decreases ids.len() - i,
    {
        let id = ids[i].as_str();
        cloned.push(!entries.contains(id) && shared.contains(id));
        i = i + 1;
    }
    let mut r: Vec<String> = Vec::new();
    i = 0;
    assert(ids@.take(0) =~= seq![]);
    while i < ids.len()
        invariant
            i <= ids.len(),
            cloned@.len() == ids@.len(),
            forall|j: int|
                0 <= j < ids@.len() ==> #[trigger] cloned@[j] == is_cloned(e, shared@, ids@[j]@),
            c0 + ids.len() <= u64::MAX,
            texts(r@) == rewritten(e, shared@, ids@.take(i as int), c0),
            entries@ == materialized(e, shared@, ids@.take(i as int), c0),
            *counter == c0 + clones_in(e, shared@, ids@.take(i as int)),
            *counter <= c0 + i,
        decreases ids.len() - i,
    {
        proof {
            assert(ids@.take(i + 1).drop_last() =~= ids@.take(i as int));
            assert(ids@.take(i + 1).last() == ids@[i as int]);
            assert(cloned@[i as int] == is_cloned(e, shared@, ids@[i as int]@));
        }
        let ghost done = r@;
        let name = if cloned[i] {
            let unique = next_unique(counter, ids[i].as_str());
            entries.insert(unique.clone(), Slot::CloneOf(ids[i].clone()));
            unique
        } else {
            ids[i].clone()
        };
        r.push(name);
        assert(texts(r@) =~= texts(done).push(name@));
        i = i + 1;
    }
    assert(ids@.take(i as int) =~= ids@);
    r
}

/// Counts a clone and names it.
fn next_unique(counter: &mut u64, base: &str) -> (r: String)
    requires
        *old(counter) < u64::MAX,
    ensures
        *final(counter) == *old(counter) + 1,
        r@ == clone_name(base@, (*old(counter) + 1) as nat),
{
    *counter = *counter + 1;
    let mut r = base.to_owned();
    r.append("__shared_");
    r.append(decimal(*counter).as_str());
    r
}

/// The message for a component that is not to be had.
pub open spec fn missing_text(kind: Seq<char>, id: Seq<char>) -> Seq<char> {
    kind + " ["@ + id + "] not registered in blueprint (already consumed or missing)"@
}

fn missing(kind: &str, id: &str) -> (r: Error)
    ensures
        r.is_fatal(),
        r.text() == missing_text(kind@, id@),
{
    let mut message = kind.to_owned();
    message.append(" [");
    message.append(id);
    message.append("] not registered in blueprint (already consumed or missing)");
    Error::Pipeline { message, fatal: true }
}

fn take<T>(entries: &mut Registry<Slot<T>>, ids: &Vec<String>, kind: &str) -> (r: Result<
    Vec<(String, Slot<T>)>,
    Error,
>)
    ensures
        ({
            let all = texts(ids@);
            let k = first_missing(old(entries)@, all);
            &&& final(entries)@ == after_taking(old(entries)@, all.take(k))
            &&& match r {
                Ok(v) => {
                    &&& k == all.len()
                    &&& v@.map_values(|c: (String, Slot<T>)| c.1) == taken(old(entries)@, all)
                },
                Err(error) => {
                    &&& k < all.len()
                    &&& error.is_fatal()
                    &&& error.text() == missing_text(kind@, all[k])
                },
            }
        }),
{
    let ghost e = entries@;
    let ghost all = texts(ids@);
    let mut r: Vec<(String, Slot<T>)> = Vec::new();
    let mut i: usize = 0;
    assert(all.take(0) =~= seq![]);
    assert(r@.map_values(|c: (String, Slot<T>)| c.1) =~= seq![]);
    while i < ids.len()
        invariant
            i <= ids.len(),
            all == texts(ids@),
            e == old(entries)@,
            entries@ == after_taking(e, all.take(i as int)),
            first_missing(e, all.take(i as int)) == i,
            r@.map_values(|c: (String, Slot<T>)| c.1) == taken(e, all.take(i as int)),
        decreases ids.len() - i,
    {
        proof {
            assert(all.take(i + 1).drop_last() =~= all.take(i as int));
            assert(all.take(i + 1).last() == ids@[i as int]@);
        }
        match entries.remove(ids[i].as_str()) {
            Some(value) => {
                let ghost done = r@;
                r.push((ids[i].clone(), value));
                assert(r@.map_values(|c: (String, Slot<T>)| c.1) =~= done.map_values(
                    |c: (String, Slot<T>)| c.1,
                ).push(value));
            },
            None => {
                proof {
                    lemma_missing_prefix(e, all, i as int);
                    assert(all[i as int] == ids@[i as int]@);
                    assert(all.len() == ids@.len());
                }
                return Err(missing(kind, ids[i].as_str()));
            },
        }
        i = i + 1;
    }
    assert(all.take(i as int) =~= all);
    Ok(r)
}

/// What is registered for one kind of component.
pub struct Stage<T> {
    entries: Registry<Slot<T>>,
    shared: Registry<T>,
}

impl<T> Stage<T> {
    /// The components that the next pipeline to name them consumes.
    pub closed spec fn entries(&self) -> Seq<(Seq<char>, Slot<T>)> {
        self.entries@
    }

    /// The shared templates.
    pub closed spec fn shared(&self) -> Seq<(Seq<char>, T)> {
        self.shared@
    }

    /// No name is registered twice.
    pub open spec fn wf(&self) -> bool {
        distinct_names(self.entries()) && distinct_names(self.shared())
    }

    fn new() -> (r: Self)
        ensures
            r.entries() == Seq::<(Seq<char>, Slot<T>)>::empty(),
            r.shared() == Seq::<(Seq<char>, T)>::empty(),
            r.wf(),
    {
        Stage { entries: Registry::new(), shared: Registry::new() }
    }

    fn add(&mut self, id: String, value: T)
        requires
            old(self).wf(),
        ensures
            final(self).wf(),
            final(self).entries() == with_entry(old(self).entries(), id@, Slot::Owned(value)),
            final(self).shared() == old(self).shared(),
    {
        proof {
            lemma_with_entry(self.entries@, id@, Slot::Owned(value));
        }
        self.entries.insert(id, Slot::Owned(value));
    }

    fn add_shared(&mut self, id: String, template: T)
        requires
            old(self).wf(),
        ensures
            final(self).wf(),
            final(self).shared() == with_entry(old(self).shared(), id@, template),
            final(self).entries() == old(self).entries(),
    {
        proof {
            lemma_with_entry(self.shared@, id@, template);
        }
        self.shared.insert(id, template);
    }

    fn has(&self, id: &str) -> (r: bool)
        ensures
            r == (registered(self.entries(), id@) || registered(self.shared(), id@)),
    {
        self.entries.contains(id) || self.shared.contains(id)
    }
}

proof fn lemma_materialized_distinct<T>(
    e: Seq<(Seq<char>, Slot<T>)>,
    shared: Seq<(Seq<char>, T)>,
    ids: Seq<String>,
    counter: nat,
)
    requires
        distinct_names(e),
    ensures
        distinct_names(materialized(e, shared, ids, counter)),
    decreases ids.len(),
{
    if ids.len() > 0 {
        lemma_materialized_distinct(e, shared, ids.drop_last(), counter);
        if is_cloned(e, shared, ids.last()@) {
            lemma_with_entry(
                materialized(e, shared, ids.drop_last(), counter),
                clone_name(ids.last()@, counter + clones_in(e, shared, ids.drop_last()) + 1),
                Slot::CloneOf(ids.last()),
            );
        }
    }
}

proof fn lemma_after_taking_distinct<T>(e: Seq<(Seq<char>, T)>, ids: Seq<Seq<char>>)
    requires
        distinct_names(e),
    ensures
        distinct_names(after_taking(e, ids)),
    decreases ids.len(),
{
    if ids.len() > 0 {
        lemma_after_taking_distinct(e, ids.drop_last());
        lemma_without(after_taking(e, ids.drop_last()), ids.last());
    }
}

/// How one kind of component is resolved.
#[verifier::ext_equal]
pub struct Resolution<T> {
    /// What is registered once the clones are made.
    pub ready: Seq<(Seq<char>, Slot<T>)>,
    /// The names that are looked up.
    pub wanted: Seq<Seq<char>>,
    /// The number of clones made so far.
    pub counter: nat,
}

/// How the names `ids` are resolved in a stage, where `counter` clones were made before.
pub open spec fn resolution<T>(stage: Stage<T>, ids: Seq<String>, counter: nat) -> Resolution<T> {
    let ready = materialized(stage.entries(), stage.shared(), ids, counter);
    Resolution {
        ready,
        wanted: wanted(ready, rewritten(stage.entries(), stage.shared(), ids, counter)),
        counter: counter + clones_in(stage.entries(), stage.shared(), ids),
    }
}

impl<T> Resolution<T> {
    /// Whether every name is found.
    pub open spec fn complete(self) -> bool {
        first_missing(self.ready, self.wanted) == self.wanted.len()
    }

    /// What is registered afterwards: what came before the first missing name is gone.
    pub open spec fn left(self) -> Seq<(Seq<char>, Slot<T>)> {
        after_taking(self.ready, self.wanted.take(first_missing(self.ready, self.wanted)))
    }

    /// The first name that is not found.
    pub open spec fn missing(self) -> Seq<char> {
        self.wanted[first_missing(self.ready, self.wanted)]
    }
}

/// Collects named sources, processors and reporters, and resolves a [`PipelineSpec`] into a
/// pipeline.
pub struct PipelineBlueprint<S, P, R> {
    sources: Stage<S>,
    processors: Stage<P>,
    reporters: Stage<R>,
    /// The number of clones named so far.
    clone_counter: u64,
}

impl<S, P, R> PipelineBlueprint<S, P, R> {
    pub closed spec fn sources(&self) -> Stage<S> {
        self.sources
    }

    pub closed spec fn processors(&self) -> Stage<P> {
        self.processors
    }

    pub closed spec fn reporters(&self) -> Stage<R> {
        self.reporters
    }

    /// The number of clones named so far.
    pub closed spec fn clones(&self) -> nat {
        self.clone_counter as nat
    }

    pub open spec fn wf(&self) -> bool {
        self.sources().wf() && self.processors().wf() && self.reporters().wf()
    }

    pub fn new() -> (r: Self)
        ensures
            r.wf(),
            r.clones() == 0,
            r.sources().entries().len() == 0 && r.sources().shared().len() == 0,
            r.processors().entries().len() == 0 && r.processors().shared().len() == 0,
            r.reporters().entries().len() == 0 && r.reporters().shared().len() == 0,
    {
        PipelineBlueprint {
            sources: Stage::new(),
            processors: Stage::new(),
            reporters: Stage::new(),
            clone_counter: 0,
        }
    }

    /// Registers a source for the next pipeline that names it, in place of one registered before.
    pub fn add_source(&mut self, id: String, source: S)
        requires
            old(self).wf(),
        ensures
            final(self).wf(),
            final(self).sources().entries() == with_entry(
                old(self).sources().entries(),
                id@,
                Slot::Owned(source),
            ),
            final(self).sources().shared() == old(self).sources().shared(),
            final(self).processors() == old(self).processors(),
            final(self).reporters() == old(self).reporters(),
            final(self).clones() == old(self).clones(),
    {
        self.sources.add(id, source);
    }

    /// Registers a source template: each pipeline that names it gets a clone, and the template
    /// stays.
    pub fn add_source_shared(&mut self, id: String, template: S)
        requires
            old(self).wf(),
        ensures
            final(self).wf(),
            final(self).sources().shared() == with_entry(old(self).sources().shared(), id@, template),
            final(self).sources().entries() == old(self).sources().entries(),
            final(self).processors() == old(self).processors(),
            final(self).reporters() == old(self).reporters(),
            final(self).clones() == old(self).clones(),
    {
        self.sources.add_shared(id, template);
    }

    /// The number of sources to be consumed.
    pub fn source_count(&self) -> (r: usize)
        ensures
            r == self.sources().entries().len(),
    {
        self.sources.entries.len()
    }

    /// Whether a source can be had under a name, consumed or cloned.
    pub fn has_source(&self, id: &str) -> (r: bool)
        ensures
            r == (registered(self.sources().entries(), id@) || registered(
                self.sources().shared(),
                id@,
            )),
    {
        self.sources.has(id)
    }

    /// The source template with a name.
    pub fn source_template(&self, id: &str) -> (r: Option<&S>)
        ensures
            r == (if registered(self.sources().shared(), id@) {
                Some(&self.sources().shared()[position(self.sources().shared(), id@)].1)
            } else {
                None
            }),
    {
        self.sources.shared.get(id)
    }

    /// Registers a processor for the next pipeline that names it, in place of one registered before.
    pub fn add_processor(&mut self, id: String, processor: P)
        requires
            old(self).wf(),
        ensures
            final(self).wf(),
            final(self).processors().entries() == with_entry(
                old(self).processors().entries(),
                id@,
                Slot::Owned(processor),
            ),
            final(self).processors().shared() == old(self).processors().shared(),
            final(self).sources() == old(self).sources(),
            final(self).reporters() == old(self).reporters(),
            final(self).clones() == old(self).clones(),
    {
        self.processors.add(id, processor);
    }

    /// Registers a processor template: each pipeline that names it gets a clone, and the template
    /// stays.
    pub fn add_processor_shared(&mut self, id: String, template: P)
        requires
            old(self).wf(),
        ensures
            final(self).wf(),
            final(self).processors().shared() == with_entry(old(self).processors().shared(), id@, template),
            final(self).processors().entries() == old(self).processors().entries(),
            final(self).sources() == old(self).sources(),
            final(self).reporters() == old(self).reporters(),
            final(self).clones() == old(self).clones(),
    {
        self.processors.add_shared(id, template);
    }

    /// The number of processors to be consumed.
    pub fn processor_count(&self) -> (r: usize)
        ensures
            r == self.processors().entries().len(),
    {
        self.processors.entries.len()
    }

    /// Whether a processor can be had under a name, consumed or cloned.
    pub fn has_processor(&self, id: &str) -> (r: bool)
        ensures
            r == (registered(self.processors().entries(), id@) || registered(
                self.processors().shared(),
                id@,
            )),
    {
        self.processors.has(id)
    }

    /// The processor template with a name.
    pub fn processor_template(&self, id: &str) -> (r: Option<&P>)
        ensures
            r == (if registered(self.processors().shared(), id@) {
                Some(&self.processors().shared()[position(self.processors().shared(), id@)].1)
            } else {
                None
            }),
    {
        self.processors.shared.get(id)
    }

    /// Registers a reporter for the next pipeline that names it, in place of one registered before.
    pub fn add_reporter(&mut self, id: String, reporter: R)
        requires
            old(self).wf(),
        ensures
            final(self).wf(),
            final(self).reporters().entries() == with_entry(
                old(self).reporters().entries(),
                id@,
                Slot::Owned(reporter),
            ),
            final(self).reporters().shared() == old(self).reporters().shared(),
            final(self).sources() == old(self).sources(),
            final(self).processors() == old(self).processors(),
            final(self).clones() == old(self).clones(),
    {
        self.reporters.add(id, reporter);
    }

    /// Registers a reporter template: each pipeline that names it gets a clone, and the template
    /// stays.
    pub fn add_reporter_shared(&mut self, id: String, template: R)
        requires
            old(self).wf(),
        ensures
            final(self).wf(),
            final(self).reporters().shared() == with_entry(old(self).reporters().shared(), id@, template),
            final(self).reporters().entries() == old(self).reporters().entries(),
            final(self).sources() == old(self).sources(),
            final(self).processors() == old(self).processors(),
            final(self).clones() == old(self).clones(),
    {
        self.reporters.add_shared(id, template);
    }

    /// The number of reporters to be consumed.
    pub fn reporter_count(&self) -> (r: usize)
        ensures
            r == self.reporters().entries().len(),
    {
        self.reporters.entries.len()
    }

    /// Whether a reporter can be had under a name, consumed or cloned.
    pub fn has_reporter(&self, id: &str) -> (r: bool)
        ensures
            r == (registered(self.reporters().entries(), id@) || registered(
                self.reporters().shared(),
                id@,
            )),
    {
        self.reporters.has(id)
    }

    /// The reporter template with a name.
    pub fn reporter_template(&self, id: &str) -> (r: Option<&R>)
        ensures
            r == (if registered(self.reporters().shared(), id@) {
                Some(&self.reporters().shared()[position(self.reporters().shared(), id@)].1)
            } else {
                None
            }),
    {
        self.reporters.shared.get(id)
    }

    /// The number of shared reporter templates.
    pub fn shared_reporter_count(&self) -> (r: usize)
        ensures
            r == self.reporters().shared().len(),
    {
        self.reporters.shared.len()
    }

    /// The number of clones named so far.
    pub fn clone_count(&self) -> (r: u64)
        ensures
            r == self.clones(),
    {
        self.clone_counter
    }

    /// How the sources of a pipeline are resolved.
    pub open spec fn source_resolution(&self, spec: PipelineSpec) -> Resolution<S> {
        resolution(self.sources(), spec.source_ids@, self.clones())
    }

    /// How the processors of a pipeline are resolved.
    pub open spec fn processor_resolution(&self, spec: PipelineSpec) -> Resolution<P> {
        resolution(
            self.processors(),
            spec.processor_ids@,
            self.source_resolution(spec).counter,
        )
    }

    /// How the reporters of a pipeline are resolved.
    pub open spec fn reporter_resolution(&self, spec: PipelineSpec) -> Resolution<R> {
        resolution(
            self.reporters(),
            spec.reporter_ids@,
            self.processor_resolution(spec).counter,
        )
    }

    /// Resolves the names in a description and wires up the pipeline.
    ///
    /// Consumed components leave the blueprint. A name that only a template has gets a clone,
    /// one for each time it is named. Where a name is not to be had the result is an error;
    /// what was taken before it is gone, and clones made for names after it stay registered.
    pub fn spawn(&mut self, spec: &PipelineSpec) -> (r: Result<
        PipelinePlan<Slot<S>, Slot<P>, Slot<R>>,
        Error,
    >)
        requires
            old(self).wf(),
            old(self).clones() + spec.source_ids.len() + spec.processor_ids.len()
                + spec.reporter_ids.len() <= u64::MAX,
        ensures
            final(self).wf(),
            final(self).sources().shared() == old(self).sources().shared(),
            final(self).processors().shared() == old(self).processors().shared(),
            final(self).reporters().shared() == old(self).reporters().shared(),
            final(self).clones() == old(self).reporter_resolution(*spec).counter,
            ({
                let s = old(self).source_resolution(*spec);
                let p = old(self).processor_resolution(*spec);
                let q = old(self).reporter_resolution(*spec);
                &&& final(self).sources().entries() == s.left()
                &&& final(self).processors().entries() == (if s.complete() {
                    p.left()
                } else {
                    p.ready
                })
                &&& final(self).reporters().entries() == (if s.complete() && p.complete() {
                    q.left()
                } else {
                    q.ready
                })
                &&& match r {
                    Ok(plan) => {
                        &&& s.complete() && p.complete() && q.complete()
                        &&& plan.capacity == effective_capacity(spec.channel_capacity)
                        &&& plan.backpressure == spec.backpressure
                        &&& plan.sources@ == taken(s.ready, s.wanted)
                        &&& plan.processors@ == taken(p.ready, p.wanted)
                        &&& plan.reporters@ == taken(q.ready, q.wanted)
                    },
                    Err(error) => {
                        &&& error.is_fatal()
                        &&& !(s.complete() && p.complete() && q.complete())
                        &&& error.text() == (if !s.complete() {
                            missing_text("source"@, s.missing())
                        } else if !p.complete() {
                            missing_text("processor"@, p.missing())
                        } else {
                            missing_text("reporter"@, q.missing())
                        })
                    },
                }
            }),
    {
        let ghost s = self.source_resolution(*spec);
        let ghost p = self.processor_resolution(*spec);
        let ghost q = self.reporter_resolution(*spec);
        proof {
            lemma_materialized_distinct(
                self.sources.entries@,
                self.sources.shared@,
                spec.source_ids@,
                self.clones(),
            );
            lemma_materialized_distinct(
                self.processors.entries@,
                self.processors.shared@,
                spec.processor_ids@,
                s.counter,
            );
            lemma_materialized_distinct(
                self.reporters.entries@,
                self.reporters.shared@,
                spec.reporter_ids@,
                p.counter,
            );
            lemma_first_missing(s.ready, s.wanted);
            lemma_first_missing(p.ready, p.wanted);
            lemma_first_missing(q.ready, q.wanted);
            lemma_after_taking_distinct(
                s.ready,
                s.wanted.take(first_missing(s.ready, s.wanted)),
            );
            lemma_after_taking_distinct(
                p.ready,
                p.wanted.take(first_missing(p.ready, p.wanted)),
            );
            lemma_after_taking_distinct(
                q.ready,
                q.wanted.take(first_missing(q.ready, q.wanted)),
            );
        }
        let mut counter: u64 = self.clone_counter;
        let mut source_ids = materialize(
            &mut self.sources.entries,
            &self.sources.shared,
            &spec.source_ids,
            &mut counter,
        );
        let mut processor_ids = materialize(
            &mut self.processors.entries,
            &self.processors.shared,
            &spec.processor_ids,
            &mut counter,
        );
        let mut reporter_ids = materialize(
            &mut self.reporters.entries,
            &self.reporters.shared,
            &spec.reporter_ids,
            &mut counter,
        );
        self.clone_counter = counter;
        assert(texts(source_ids@).len() == source_ids@.len());
        assert(texts(processor_ids@).len() == processor_ids@.len());
        assert(texts(reporter_ids@).len() == reporter_ids@.len());
        if source_ids.len() == 0 {
            source_ids = self.sources.entries.ids();
        }
        let sources = match take(&mut self.sources.entries, &source_ids, "source") {
            Ok(v) => v,
            Err(e) => return Err(e),
        };
        if processor_ids.len() == 0 {
            processor_ids = self.processors.entries.ids();
        }
        let processors = match take(&mut self.processors.entries, &processor_ids, "processor") {
            Ok(v) => v,
            Err(e) => return Err(e),
        };
        if reporter_ids.len() == 0 {
            reporter_ids = self.reporters.entries.ids();
        }
        let reporters = match take(&mut self.reporters.entries, &reporter_ids, "reporter") {
            Ok(v) => v,
            Err(e) => return Err(e),
        };
        proof {
            empty_selection_takes_all(sources@);
            empty_selection_takes_all(processors@);
            empty_selection_takes_all(reporters@);
        }
        let all = PipelineSpec {
            name: spec.name.clone(),
            source_ids: Vec::new(),
            processor_ids: Vec::new(),
            reporter_ids: Vec::new(),
            channel_capacity: spec.channel_capacity,
            enabled: spec.enabled,
            backpressure: spec.backpressure,
        };
        assert(texts(all.source_ids@) =~= seq![]);
        Ok(PipelineExecutor::spawn(&all, sources, processors, reporters))
    }
}

impl<S, P, R> Default for PipelineBlueprint<S, P, R> {
    fn default() -> (r: Self)
        ensures
            r.wf(),
            r.clones() == 0,
            r.sources().entries().len() == 0 && r.sources().shared().len() == 0,
            r.processors().entries().len() == 0 && r.processors().shared().len() == 0,
            r.reporters().entries().len() == 0 && r.reporters().shared().len() == 0,
    {
        Self::new()
    }
}

/// Two names of clones are the same only if they bear the same number.
pub proof fn clone_names_differ(a: Seq<char>, m: nat, b: Seq<char>, n: nat)
    ensures
        clone_name(a, m) == clone_name(b, n) ==> m == n,
{
    reveal_strlit("__shared_");
    lemma_decimal_digits(m);
    lemma_decimal_digits(n);
    let x = decimal_of(m);
    let y = decimal_of(n);
    let s = clone_name(a, m);
    let t = clone_name(b, n);
    if s == t {
        // The character before the digits is no digit.
        let i = s.len() - x.len() - 1;
        let j = t.len() - y.len() - 1;
        assert(s[i] == '_');
        assert(t[j] == '_');
        if x.len() < y.len() {
            assert(s[i] == y[i - j - 1]);
            assert(is_digit(y[i - j - 1]));
        }
        if y.len() < x.len() {
            assert(t[j] == x[j - i - 1]);
            assert(is_digit(x[j - i - 1]));
        }
        assert(x.len() == y.len());
        assert forall|k: int| 0 <= k < x.len() implies x[k] == y[k] by {
            assert(s[i + 1 + k] == x[k]);
            assert(t[j + 1 + k] == y[k]);
        }
        assert(x =~= y);
    }
}

/// Whether no component is registered under a name that one of the next `len` clones may get.
pub open spec fn clear_of_clones<T>(e: Seq<(Seq<char>, T)>, counter: nat, len: nat) -> bool {
    forall|base: Seq<char>, n: nat|
        counter < n <= counter + len ==> !registered(e, #[trigger] clone_name(base, n))
}

/// Whether `name` is the name of no clone at all.
pub open spec fn is_no_clone_name(name: Seq<char>) -> bool {
    forall|base: Seq<char>, n: nat| name != #[trigger] clone_name(base, n)
}

proof fn lemma_rewritten<T>(
    e: Seq<(Seq<char>, Slot<T>)>,
    shared: Seq<(Seq<char>, T)>,
    ids: Seq<String>,
    counter: nat,
)
    ensures
        rewritten(e, shared, ids, counter).len() == ids.len(),
        clones_in(e, shared, ids) <= ids.len(),
        forall|i: int|
            0 <= i < ids.len() ==> #[trigger] rewritten(e, shared, ids, counter)[i] == (
            if is_cloned(e, shared, ids[i]@) {
                clone_name(ids[i]@, counter + clones_in(e, shared, ids.take(i)) + 1)
            } else {
                ids[i]@
            }),
    decreases ids.len(),
{
    if ids.len() > 0 {
        let init = ids.drop_last();
        lemma_rewritten(e, shared, init, counter);
        let w = rewritten(e, shared, ids, counter);
        assert forall|i: int| 0 <= i < ids.len() implies #[trigger] w[i] == (if is_cloned(
            e,
            shared,
            ids[i]@,
        ) {
            clone_name(ids[i]@, counter + clones_in(e, shared, ids.take(i)) + 1)
        } else {
            ids[i]@
        }) by {
            if i < init.len() {
                assert(w[i] == rewritten(e, shared, init, counter)[i]);
                assert(init.take(i) =~= ids.take(i));
            } else {
                assert(ids.take(i) =~= init);
            }
        }
    }
}

/// The number of clones grows along a list.
proof fn lemma_clones_grow<T>(
    e: Seq<(Seq<char>, Slot<T>)>,
    shared: Seq<(Seq<char>, T)>,
    ids: Seq<String>,
    i: int,
    j: int,
)
    requires
        0 <= i <= j <= ids.len(),
    ensures
        clones_in(e, shared, ids.take(i)) <= clones_in(e, shared, ids.take(j)),
        i < j && is_cloned(e, shared, ids[i]@) ==> clones_in(e, shared, ids.take(i)) < clones_in(
            e,
            shared,
            ids.take(j),
        ),
    decreases j - i,
{
    if i < j {
        lemma_clones_grow(e, shared, ids, i, j - 1);
        assert(ids.take(j).drop_last() =~= ids.take(j - 1));
        assert(ids.take(j).last() == ids[j - 1]);
    }
}

proof fn lemma_materialized<T>(
    e: Seq<(Seq<char>, Slot<T>)>,
    shared: Seq<(Seq<char>, T)>,
    ids: Seq<String>,
    counter: nat,
)
    requires
        distinct_names(e),
    ensures
        distinct_names(materialized(e, shared, ids, counter)),
        forall|name: Seq<char>|
            registered(e, name) ==> #[trigger] registered(
                materialized(e, shared, ids, counter),
                name,
            ),
        forall|i: int|
            #![trigger rewritten(e, shared, ids, counter)[i]]
            0 <= i < ids.len() && (registered(e, ids[i]@) || registered(shared, ids[i]@))
                ==> registered(
                materialized(e, shared, ids, counter),
                rewritten(e, shared, ids, counter)[i],
            ),
        forall|name: Seq<char>|
            !registered(e, name) && #[trigger] registered(
                materialized(e, shared, ids, counter),
                name,
            ) ==> !is_no_clone_name(name),
    decreases ids.len(),
{
    if ids.len() > 0 {
        let init = ids.drop_last();
        lemma_materialized(e, shared, init, counter);
        lemma_rewritten(e, shared, ids, counter);
        lemma_rewritten(e, shared, init, counter);
        let before = materialized(e, shared, init, counter);
        let after = materialized(e, shared, ids, counter);
        let n = counter + clones_in(e, shared, init) + 1;
        if is_cloned(e, shared, ids.last()@) {
            lemma_with_entry(before, clone_name(ids.last()@, n), Slot::CloneOf(ids.last()));
        }
        let w = rewritten(e, shared, ids, counter);
        assert forall|i: int|
            #![trigger w[i]]
            0 <= i < ids.len() && (registered(e, ids[i]@) || registered(shared, ids[i]@)) implies registered(
            after, w[i]) by {
            if i < init.len() {
                assert(init[i] == ids[i]);
                assert(w[i] == rewritten(e, shared, init, counter)[i]);
            } else {
                assert(ids.take(i) =~= init);
            }
        }
    }
}

proof fn lemma_after_taking<T>(e: Seq<(Seq<char>, T)>, ids: Seq<Seq<char>>)
    requires
        distinct_names(e),
    ensures
        distinct_names(after_taking(e, ids)),
        forall|name: Seq<char>|
            #[trigger] registered(after_taking(e, ids), name) <==> registered(e, name)
                && !ids.contains(name),
    decreases ids.len(),
{
    if ids.len() > 0 {
        let init = ids.drop_last();
        lemma_after_taking(e, init);
        lemma_without(after_taking(e, init), ids.last());
        assert forall|name: Seq<char>| #[trigger]
            registered(after_taking(e, ids), name) <==> registered(e, name) && !ids.contains(
                name,
            ) by {
            assert(registered(after_taking(e, init), name) <==> registered(e, name)
                && !init.contains(name));
            if ids.contains(name) && name != ids.last() {
                let i = choose|i: int| 0 <= i < ids.len() && ids[i] == name;
                assert(init[i] == name);
            }
            if init.contains(name) {
                let i = choose|i: int| 0 <= i < init.len() && init[i] == name;
                assert(ids[i] == name);
            }
            assert(ids[ids.len() - 1] == ids.last());
        }
    } else {
        assert forall|name: Seq<char>| #[trigger]
            registered(after_taking(e, ids), name) <==> registered(e, name) && !ids.contains(
                name,
            ) by {}
    }
}

/// Distinct names that are all registered are all found.
proof fn lemma_all_found<T>(e: Seq<(Seq<char>, T)>, ids: Seq<Seq<char>>)
    requires
        distinct_names(e),
        ids.no_duplicates(),
        forall|i: int| 0 <= i < ids.len() ==> registered(e, #[trigger] ids[i]),
    ensures
        first_missing(e, ids) == ids.len(),
    decreases ids.len(),
{
    if ids.len() > 0 {
        let init = ids.drop_last();
        assert forall|i: int| 0 <= i < init.len() implies registered(e, #[trigger] init[i]) by {
            assert(init[i] == ids[i]);
        }
        lemma_all_found(e, init);
        lemma_after_taking(e, init);
        assert(registered(e, ids[ids.len() - 1]));
        if init.contains(ids.last()) {
            let i = choose|i: int| 0 <= i < init.len() && init[i] == ids.last();
            assert(ids[i] == ids[ids.len() - 1]);
        }
    }
}

/// A pipeline is resolved if every name it lists is registered or has a template, and none that
/// is to be consumed is listed twice.
pub proof fn listed_components_are_found<T>(stage: Stage<T>, ids: Seq<String>, counter: nat)
    requires
        stage.wf(),
        ids.len() > 0,
        clear_of_clones(stage.entries(), counter, ids.len()),
        forall|i: int|
            0 <= i < ids.len() ==> registered(stage.entries(), (#[trigger] ids[i])@) || registered(
                stage.shared(),
                ids[i]@,
            ),
        forall|i: int, j: int|
            0 <= i < j < ids.len() && registered(stage.entries(), (#[trigger] ids[i])@)
                ==> ids[i]@ != (#[trigger] ids[j])@,
    ensures
        resolution(stage, ids, counter).complete(),
{
    let e = stage.entries();
    let shared = stage.shared();
    let w = rewritten(e, shared, ids, counter);
    let ready = materialized(e, shared, ids, counter);
    lemma_rewritten(e, shared, ids, counter);
    lemma_materialized(e, shared, ids, counter);
    assert forall|i: int, j: int| 0 <= i < w.len() && 0 <= j < w.len() && i != j implies w[i]
        != w[j] by {
        let a = if i < j { i } else { j };
        let b = if i < j { j } else { i };
        lemma_clones_grow(e, shared, ids, a, b);
        lemma_clones_grow(e, shared, ids, b, ids.len() as int);
        assert(ids.take(ids.len() as int) =~= ids);
        let m = counter + clones_in(e, shared, ids.take(a)) + 1;
        let n = counter + clones_in(e, shared, ids.take(b)) + 1;
        assert(ids.take(a + 1).drop_last() =~= ids.take(a));
        assert(ids.take(b + 1).drop_last() =~= ids.take(b));
        lemma_clones_grow(e, shared, ids, a + 1, ids.len() as int);
        lemma_clones_grow(e, shared, ids, b + 1, ids.len() as int);
        assert(registered(e, ids[a]@) || registered(shared, ids[a]@));
        assert(registered(e, ids[b]@) || registered(shared, ids[b]@));
        if is_cloned(e, shared, ids[a]@) && is_cloned(e, shared, ids[b]@) {
            clone_names_differ(ids[a]@, m, ids[b]@, n);
        } else if is_cloned(e, shared, ids[a]@) {
            assert(!registered(e, clone_name(ids[a]@, m)));
        } else if is_cloned(e, shared, ids[b]@) {
            assert(!registered(e, clone_name(ids[b]@, n)));
        }
    }
    assert forall|i: int| 0 <= i < w.len() implies registered(ready, #[trigger] w[i]) by {
        assert(registered(e, ids[i]@) || registered(shared, ids[i]@));
    }
    lemma_all_found(ready, w);
}

proof fn lemma_missing_somewhere<T>(e: Seq<(Seq<char>, T)>, ids: Seq<Seq<char>>, i: int)
    requires
        distinct_names(e),
        0 <= i < ids.len(),
        !registered(e, ids[i]),
    ensures
        first_missing(e, ids) <= i,
    decreases ids.len(),
{
    lemma_first_missing(e, ids.drop_last());
    if i < ids.len() - 1 {
        assert(ids.drop_last()[i] == ids[i]);
        lemma_missing_somewhere(e, ids.drop_last(), i);
    } else {
        lemma_after_taking(e, ids.drop_last());
    }
}

/// A pipeline that lists a name which is neither registered nor has a template is refused.
pub proof fn unknown_components_are_refused<T>(
    stage: Stage<T>,
    ids: Seq<String>,
    counter: nat,
    i: int,
)
    requires
        stage.wf(),
        0 <= i < ids.len(),
        !registered(stage.entries(), ids[i]@),
        !registered(stage.shared(), ids[i]@),
        is_no_clone_name(ids[i]@),
    ensures
        !resolution(stage, ids, counter).complete(),
{
    let e = stage.entries();
    let shared = stage.shared();
    lemma_rewritten(e, shared, ids, counter);
    lemma_materialized(e, shared, ids, counter);
    let w = rewritten(e, shared, ids, counter);
    assert(w[i] == ids[i]@);
    lemma_missing_somewhere(materialized(e, shared, ids, counter), w, i);
}

/// What one pipeline has consumed, the next one that lists it does not get: where a list starts
/// with a component that has no template, using the list a second time is refused, and the
/// component is the one that is named as missing.
pub proof fn consumed_components_are_gone<T>(
    before: Stage<T>,
    after: Stage<T>,
    ids: Seq<String>,
    counter: nat,
    later: nat,
)
    requires
        before.wf(),
        after.wf(),
        ids.len() > 0,
        !registered(before.shared(), ids[0]@),
        is_no_clone_name(ids[0]@),
        after.shared() == before.shared(),
        after.entries() == resolution(before, ids, counter).left(),
    ensures
        !registered(after.entries(), ids[0]@),
        !resolution(after, ids, later).complete(),
        resolution(after, ids, later).missing() == ids[0]@,
{
    let e = before.entries();
    let shared = before.shared();
    lemma_rewritten(e, shared, ids, counter);
    lemma_materialized(e, shared, ids, counter);
    let w = rewritten(e, shared, ids, counter);
    let ready = materialized(e, shared, ids, counter);
    assert(w[0] == ids[0]@);
    let k = first_missing(ready, w);
    lemma_first_missing(ready, w);
    lemma_after_taking(ready, w.take(k));
    if k > 0 {
        assert(w.take(k)[0] == ids[0]@);
    } else {
        lemma_first_is_missing(ready, w);
    }
    assert(!registered(after.entries(), ids[0]@));
    lemma_rewritten(after.entries(), shared, ids, later);
    lemma_materialized(after.entries(), shared, ids, later);
    let w2 = rewritten(after.entries(), shared, ids, later);
    assert(w2[0] == ids[0]@);
    let ready2 = materialized(after.entries(), shared, ids, later);
    lemma_first_missing(ready2, w2);
    lemma_missing_somewhere(ready2, w2, 0);
}

proof fn lemma_first_is_missing<T>(e: Seq<(Seq<char>, T)>, ids: Seq<Seq<char>>)
    requires
        ids.len() > 0,
        first_missing(e, ids) == 0,
    ensures
        !registered(e, ids[0]),
    decreases ids.len(),
{
    let init = ids.drop_last();
    if init.len() > 0 {
        lemma_first_missing(e, init);
        lemma_first_is_missing(e, init);
        assert(init[0] == ids[0]);
    } else {
        assert(init =~= seq![]);
    }
}

proof fn lemma_take_tail<T>(a: Seq<(Seq<char>, T)>, c: Seq<(Seq<char>, T)>, k: int)
    requires
        distinct_names(a + c),
        0 <= k <= c.len(),
    ensures
        after_taking(a + c, names(c).take(k)) == a + c.skip(k),
        first_missing(a + c, names(c).take(k)) == k,
        taken(a + c, names(c).take(k)) == c.take(k).map_values(|x: (Seq<char>, T)| x.1),
    decreases k,
{
    let ids = names(c).take(k);
    if k == 0 {
        assert(ids =~= seq![]);
        assert(c.skip(0) =~= c);
        assert(c.take(0).map_values(|x: (Seq<char>, T)| x.1) =~= seq![]);
    } else {
        lemma_take_tail(a, c, k - 1);
        assert(ids.drop_last() =~= names(c).take(k - 1));
        assert(ids.last() == c[k - 1].0);
        let left = a + c.skip(k - 1);
        let p = position(left, ids.last());
        lemma_position(left, ids.last());
        assert(left[a.len() as int] == c[k - 1]);
        assert(registered(left, ids.last()));
        assert(p == a.len()) by {
            assert(p <= a.len());
            if p < a.len() {
                assert((a + c)[p] == left[p]);
                assert((a + c)[a.len() + k - 1] == c[k - 1]);
            }
        }
        assert(left.remove(p) =~= a + c.skip(k));
        assert(c.take(k).map_values(|x: (Seq<char>, T)| x.1) =~= c.take(k - 1).map_values(
            |x: (Seq<char>, T)| x.1,
        ).push(c[k - 1].1));
    }
}

/// A pipeline that lists no name of a kind takes every registered component of that kind, and
/// leaves none.
pub proof fn an_empty_list_takes_all<T>(stage: Stage<T>, counter: nat)
    requires
        stage.wf(),
    ensures
        resolution(stage, seq![], counter).complete(),
        resolution(stage, seq![], counter).left() == Seq::<(Seq<char>, Slot<T>)>::empty(),
        taken(stage.entries(), resolution(stage, seq![], counter).wanted)
            == stage.entries().map_values(|x: (Seq<char>, Slot<T>)| x.1),
{
    let e = stage.entries();
    let none = Seq::<(Seq<char>, Slot<T>)>::empty();
    assert(none + e =~= e);
    lemma_take_tail(none, e, e.len() as int);
    assert(names(e).take(e.len() as int) =~= names(e));
    assert(none + e.skip(e.len() as int) =~= none);
    assert(e.take(e.len() as int) =~= e);
}

/// The clones that a list of templates asks for, under their names.
pub open spec fn clones_of<T>(ids: Seq<String>, counter: nat) -> Seq<(Seq<char>, Slot<T>)> {
    Seq::new(
        ids.len(),
        |i: int| (clone_name(ids[i]@, (counter + i + 1) as nat), Slot::CloneOf(ids[i])),
    )
}

proof fn lemma_all_clones<T>(
    e: Seq<(Seq<char>, Slot<T>)>,
    shared: Seq<(Seq<char>, T)>,
    ids: Seq<String>,
    counter: nat,
)
    requires
        distinct_names(e),
        clear_of_clones(e, counter, ids.len()),
        forall|i: int| 0 <= i < ids.len() ==> is_cloned(e, shared, (#[trigger] ids[i])@),
    ensures
        clones_in(e, shared, ids) == ids.len(),
        rewritten(e, shared, ids, counter) == names(clones_of::<T>(ids, counter)),
        materialized(e, shared, ids, counter) == e + clones_of::<T>(ids, counter),
        distinct_names(e + clones_of::<T>(ids, counter)),
    decreases ids.len(),
{
    let c = clones_of::<T>(ids, counter);
    if ids.len() == 0 {
        assert(names(c) =~= seq![]);
        assert(e + c =~= e);
    } else {
        let init = ids.drop_last();
        let d = clones_of::<T>(init, counter);
        assert forall|i: int| 0 <= i < init.len() implies is_cloned(
            e,
            shared,
            (#[trigger] init[i])@,
        ) by {
            assert(init[i] == ids[i]);
        }
        assert(clear_of_clones(e, counter, init.len()));
        lemma_all_clones(e, shared, init, counter);
        assert(is_cloned(e, shared, ids[ids.len() - 1]@));
        let n = (counter + ids.len()) as nat;
        let name = clone_name(ids.last()@, n);
        assert(!registered(e, name));
        assert forall|i: int| 0 <= i < (e + d).len() implies (#[trigger] (e + d)[i]).0 != name by {
            if i >= e.len() {
                clone_names_differ(
                    init[i - e.len()]@,
                    (counter + (i - e.len()) + 1) as nat,
                    ids.last()@,
                    n,
                );
            }
        }
        lemma_with_entry(e + d, name, Slot::CloneOf(ids.last()));
        assert(d.push((name, Slot::CloneOf(ids.last()))) =~= c);
        assert((e + d).push((name, Slot::CloneOf(ids.last()))) =~= e + c);
        assert(names(d).push(name) =~= names(c));
    }
}

/// Shared templates can be named by any number of pipelines: a list of templates is always
/// resolved, to one clone for each time a template is listed, and what is registered stays as
/// it was.
pub proof fn shared_templates_serve_every_pipeline<T>(
    stage: Stage<T>,
    ids: Seq<String>,
    counter: nat,
)
    requires
        stage.wf(),
        ids.len() > 0,
        clear_of_clones(stage.entries(), counter, ids.len()),
        forall|i: int|
            0 <= i < ids.len() ==> is_cloned(
                stage.entries(),
                stage.shared(),
                (#[trigger] ids[i])@,
            ),
    ensures
        ({
            let r = resolution(stage, ids, counter);
            &&& r.complete()
            &&& r.left() == stage.entries()
            &&& r.counter == counter + ids.len()
            &&& taken(r.ready, r.wanted) == ids.map_values(|id: String| Slot::<T>::CloneOf(id))
        }),
{
    let e = stage.entries();
    let c = clones_of::<T>(ids, counter);
    lemma_all_clones(e, stage.shared(), ids, counter);
    lemma_take_tail(e, c, c.len() as int);
    let r = resolution(stage, ids, counter);
    assert(names(c).take(c.len() as int) =~= names(c));
    assert(c.take(c.len() as int) =~= c);
    assert(e + c.skip(c.len() as int) =~= e);
    assert(c.map_values(|x: (Seq<char>, Slot<T>)| x.1) =~= ids.map_values(
        |id: String| Slot::<T>::CloneOf(id),
    ));
    assert(r.wanted =~= names(c));
}

/// Whether something is registered under a name.
pub open spec fn is_under<T>(e: Seq<(Seq<char>, T)>, name: Seq<char>, value: T) -> bool {
    exists|i: int| 0 <= i < e.len() && #[trigger] e[i] == (name, value)
}

/// Whether a list of names has a name.
pub open spec fn lists(ids: Seq<String>, name: Seq<char>) -> bool {
    exists|i: int| 0 <= i < ids.len() && (#[trigger] ids[i])@ == name
}

proof fn lemma_under_with<T>(e: Seq<(Seq<char>, T)>, id: Seq<char>, value: T, n: Seq<char>, v: T)
    requires
        distinct_names(e),
    ensures
        is_under(with_entry(e, id, value), n, v) <==> (if n == id {
            v == value
        } else {
            is_under(e, n, v)
        }),
{
    let after = with_entry(e, id, value);
    let p = position(e, id);
    lemma_position(e, id);
    lemma_with_entry(e, id, value);
    assert(after[p] == (id, value));
    if is_under(after, n, v) {
        let i = choose|i: int| 0 <= i < after.len() && #[trigger] after[i] == (n, v);
        if n == id {
            if i < p {
                assert(after[i].0 != after[p].0);
            } else if p < i {
                assert(after[p].0 != after[i].0);
            }
        } else {
            assert(i != p);
            assert(e[i] == (n, v));
        }
    }
    if n != id && is_under(e, n, v) {
        let i = choose|i: int| 0 <= i < e.len() && #[trigger] e[i] == (n, v);
        assert(after[i] == (n, v));
    }
}

proof fn lemma_under_without<T>(e: Seq<(Seq<char>, T)>, id: Seq<char>, n: Seq<char>, v: T)
    requires
        distinct_names(e),
    ensures
        is_under(without(e, id), n, v) <==> n != id && is_under(e, n, v),
{
    let after = without(e, id);
    let p = position(e, id);
    lemma_position(e, id);
    lemma_without(e, id);
    if is_under(after, n, v) {
        let i = choose|i: int| 0 <= i < after.len() && #[trigger] after[i] == (n, v);
        assert(registered(after, n));
        let k = if !registered(e, id) || i < p {
            i
        } else {
            i + 1
        };
        assert(e[k] == (n, v));
    }
    if n != id && is_under(e, n, v) {
        let i = choose|i: int| 0 <= i < e.len() && #[trigger] e[i] == (n, v);
        let k = if !registered(e, id) || i < p {
            i
        } else {
            i - 1
        };
        if registered(e, id) {
            assert(e[p].0 == id);
        }
        assert(after[k] == (n, v));
    }
}

proof fn lemma_under_after_taking<T>(
    e: Seq<(Seq<char>, T)>,
    ids: Seq<Seq<char>>,
    n: Seq<char>,
    v: T,
)
    requires
        distinct_names(e),
    ensures
        is_under(after_taking(e, ids), n, v) <==> is_under(e, n, v) && !ids.contains(n),
    decreases ids.len(),
{
    if ids.len() > 0 {
        let init = ids.drop_last();
        lemma_under_after_taking(e, init, n, v);
        lemma_after_taking_distinct(e, init);
        lemma_under_without(after_taking(e, init), ids.last(), n, v);
        assert(ids[ids.len() - 1] == ids.last());
        if init.contains(n) {
            let i = choose|i: int| 0 <= i < init.len() && init[i] == n;
            assert(ids[i] == n);
        }
        if ids.contains(n) && n != ids.last() {
            let i = choose|i: int| 0 <= i < ids.len() && ids[i] == n;
            assert(init[i] == n);
        }
    }
}

proof fn lemma_under_taken<T>(e: Seq<(Seq<char>, T)>, ids: Seq<Seq<char>>)
    requires
        distinct_names(e),
        ids.no_duplicates(),
        forall|i: int| 0 <= i < ids.len() ==> registered(e, #[trigger] ids[i]),
    ensures
        taken(e, ids).len() == ids.len(),
        forall|i: int| 0 <= i < ids.len() ==> is_under(e, ids[i], #[trigger] taken(e, ids)[i]),
    decreases ids.len(),
{
    if ids.len() > 0 {
        let init = ids.drop_last();
        assert forall|i: int| 0 <= i < init.len() implies registered(e, #[trigger] init[i]) by {
            assert(init[i] == ids[i]);
        }
        lemma_under_taken(e, init);
        let left = after_taking(e, init);
        let id = ids.last();
        lemma_after_taking(e, init);
        assert(registered(e, ids[ids.len() - 1]));
        if init.contains(id) {
            let i = choose|i: int| 0 <= i < init.len() && init[i] == id;
            assert(ids[i] == ids[ids.len() - 1]);
        }
        assert(registered(left, id));
        lemma_position(left, id);
        let at = position(left, id);
        let v = left[at].1;
        assert(left[at] == (id, v));
        assert(is_under(left, id, v));
        lemma_under_after_taking(e, init, id, v);
        assert forall|i: int| 0 <= i < ids.len() implies is_under(
            e,
            ids[i],
            #[trigger] taken(e, ids)[i],
        ) by {
            if i < init.len() {
                assert(init[i] == ids[i]);
                assert(taken(e, ids)[i] == taken(e, init)[i]);
            }
        }
    }
}

proof fn lemma_under_materialized<T>(
    e: Seq<(Seq<char>, Slot<T>)>,
    shared: Seq<(Seq<char>, T)>,
    ids: Seq<String>,
    counter: nat,
)
    requires
        distinct_names(e),
        clear_of_clones(e, counter, ids.len()),
    ensures
        forall|n: Seq<char>, v: Slot<T>|
            registered(e, n) ==> (#[trigger] is_under(
                materialized(e, shared, ids, counter),
                n,
                v,
            ) <==> is_under(e, n, v)),
        forall|i: int|
            #![trigger rewritten(e, shared, ids, counter)[i]]
            0 <= i < ids.len() && is_cloned(e, shared, ids[i]@) ==> is_under(
                materialized(e, shared, ids, counter),
                rewritten(e, shared, ids, counter)[i],
                Slot::CloneOf(ids[i]),
            ),
        forall|n: Seq<char>|
            #[trigger] registered(materialized(e, shared, ids, counter), n) ==> registered(e, n)
                || rewritten(e, shared, ids, counter).contains(n),
    decreases ids.len(),
{
    if ids.len() > 0 {
        let init = ids.drop_last();
        assert(clear_of_clones(e, counter, init.len()));
        lemma_under_materialized(e, shared, init, counter);
        lemma_materialized_distinct(e, shared, init, counter);
        lemma_rewritten(e, shared, init, counter);
        lemma_rewritten(e, shared, ids, counter);
        let before = materialized(e, shared, init, counter);
        let after = materialized(e, shared, ids, counter);
        let w = rewritten(e, shared, ids, counter);
        let w0 = rewritten(e, shared, init, counter);
        let n0 = counter + clones_in(e, shared, init) + 1;
        let name = clone_name(ids.last()@, n0);
        let cloned = is_cloned(e, shared, ids.last()@);
        if cloned {
            assert(!registered(e, name));
            lemma_with_entry(before, name, Slot::CloneOf(ids.last()));
        }
        assert forall|n: Seq<char>, v: Slot<T>| registered(e, n) implies (#[trigger] is_under(
            after,
            n,
            v,
        ) <==> is_under(e, n, v)) by {
            if cloned {
                lemma_under_with(before, name, Slot::CloneOf(ids.last()), n, v);
            }
            assert(is_under(before, n, v) <==> is_under(e, n, v));
        }
        assert forall|i: int|
            #![trigger w[i]]
            0 <= i < ids.len() && is_cloned(e, shared, ids[i]@) implies is_under(
            after,
            w[i],
            Slot::CloneOf(ids[i]),
        ) by {
            if i < init.len() {
                assert(init[i] == ids[i]);
                assert(w0[i] == w[i]);
                assert(is_under(before, w0[i], Slot::CloneOf(init[i])));
                if cloned {
                    lemma_under_with(
                        before,
                        name,
                        Slot::CloneOf(ids.last()),
                        w[i],
                        Slot::CloneOf(ids[i]),
                    );
                    assert(init.take(init.len() as int) =~= init);
                    lemma_clones_grow(e, shared, init, i, init.len() as int);
                    clone_names_differ(
                        ids[i]@,
                        counter + clones_in(e, shared, init.take(i)) + 1,
                        ids.last()@,
                        n0,
                    );
                }
            } else {
                assert(ids.take(i) =~= init);
                lemma_under_with(
                    before,
                    name,
                    Slot::CloneOf(ids.last()),
                    name,
                    Slot::CloneOf(ids.last()),
                );
            }
        }
        assert forall|n: Seq<char>| #[trigger] registered(after, n) implies registered(e, n)
            || w.contains(n) by {
            if cloned && n == name {
                assert(w[ids.len() - 1] == name);
            } else {
                assert(registered(before, n));
                if w0.contains(n) {
                    let i = choose|i: int| 0 <= i < w0.len() && w0[i] == n;
                    assert(w[i] == n);
                }
            }
        }
    }
}

/// A list of names is resolved name by name and in the order of the list: a name that is
/// registered gives the component registered under it, any other one a clone of its own template.
/// What the list does not name stays registered as it was, and nothing else does.
pub proof fn listed_components_are_handed_out_in_order<T>(
    stage: Stage<T>,
    ids: Seq<String>,
    counter: nat,
    i: int,
    name: Seq<char>,
    value: Slot<T>,
)
    requires
        stage.wf(),
        clear_of_clones(stage.entries(), counter, ids.len()),
        forall|k: int|
            0 <= k < ids.len() ==> registered(stage.entries(), (#[trigger] ids[k])@) || registered(
                stage.shared(),
                ids[k]@,
            ),
        forall|j: int, k: int|
            0 <= j < k < ids.len() && registered(stage.entries(), (#[trigger] ids[j])@)
                ==> ids[j]@ != (#[trigger] ids[k])@,
        0 <= i < ids.len(),
    ensures
        ({
            let r = resolution(stage, ids, counter);
            let got = taken(r.ready, r.wanted);
            &&& got.len() == ids.len()
            &&& registered(stage.entries(), ids[i]@) ==> is_under(
                stage.entries(),
                ids[i]@,
                got[i],
            )
            &&& !registered(stage.entries(), ids[i]@) ==> got[i] == Slot::<T>::CloneOf(ids[i])
            &&& is_under(r.left(), name, value) <==> is_under(stage.entries(), name, value)
                && !lists(ids, name)
        }),
{
    let e = stage.entries();
    let shared = stage.shared();
    let w = rewritten(e, shared, ids, counter);
    let ready = materialized(e, shared, ids, counter);
    let r = resolution(stage, ids, counter);
    lemma_rewritten(e, shared, ids, counter);
    lemma_materialized(e, shared, ids, counter);
    lemma_under_materialized(e, shared, ids, counter);
    assert forall|a: int, b: int| 0 <= a < w.len() && 0 <= b < w.len() && a != b implies w[a]
        != w[b] by {
        let j = if a < b { a } else { b };
        let k = if a < b { b } else { a };
        lemma_clones_grow(e, shared, ids, j, k);
        lemma_clones_grow(e, shared, ids, k, ids.len() as int);
        assert(ids.take(ids.len() as int) =~= ids);
        let m = counter + clones_in(e, shared, ids.take(j)) + 1;
        let n = counter + clones_in(e, shared, ids.take(k)) + 1;
        lemma_clones_grow(e, shared, ids, j + 1, ids.len() as int);
        lemma_clones_grow(e, shared, ids, k + 1, ids.len() as int);
        assert(ids.take(j + 1).drop_last() =~= ids.take(j));
        assert(ids.take(k + 1).drop_last() =~= ids.take(k));
        assert(registered(e, ids[j]@) || registered(shared, ids[j]@));
        assert(registered(e, ids[k]@) || registered(shared, ids[k]@));
        if is_cloned(e, shared, ids[j]@) && is_cloned(e, shared, ids[k]@) {
            clone_names_differ(ids[j]@, m, ids[k]@, n);
        } else if is_cloned(e, shared, ids[j]@) {
            assert(!registered(e, clone_name(ids[j]@, m)));
        } else if is_cloned(e, shared, ids[k]@) {
            assert(!registered(e, clone_name(ids[k]@, n)));
        }
    }
    assert forall|k: int| 0 <= k < w.len() implies registered(ready, #[trigger] w[k]) by {
        assert(registered(e, ids[k]@) || registered(shared, ids[k]@));
    }
    lemma_all_found(ready, w);
    lemma_under_taken(ready, w);
    let got = taken(ready, w);
    assert(r.wanted == w);
    assert(is_under(ready, w[i], got[i]));
    assert(registered(e, ids[i]@) || registered(shared, ids[i]@));
    if !registered(e, ids[i]@) {
        assert(is_under(ready, w[i], Slot::CloneOf(ids[i])));
        lemma_one_under_a_name(ready, w[i], got[i], Slot::CloneOf(ids[i]));
    }
    assert(w.take(w.len() as int) =~= w);
    lemma_under_after_taking(ready, w, name, value);
    if lists(ids, name) {
        let k = choose|k: int| 0 <= k < ids.len() && (#[trigger] ids[k])@ == name;
        if registered(e, name) {
            assert(w[k] == name);
        } else if is_under(e, name, value) {
            let q = choose|q: int| 0 <= q < e.len() && #[trigger] e[q] == (name, value);
            assert(e[q].0 == name);
        }
        if is_under(r.left(), name, value) {
            assert(registered(ready, name)) by {
                let q = choose|q: int| 0 <= q < ready.len() && #[trigger] ready[q] == (name, value);
                assert(ready[q].0 == name);
            }
        }
    } else {
        if is_under(e, name, value) {
            let q = choose|q: int| 0 <= q < e.len() && #[trigger] e[q] == (name, value);
            assert(e[q].0 == name);
            assert(registered(e, name));
            if w.contains(name) {
                let k = choose|k: int| 0 <= k < w.len() && w[k] == name;
                if is_cloned(e, shared, ids[k]@) {
                    let n = counter + clones_in(e, shared, ids.take(k)) + 1;
                    lemma_clones_grow(e, shared, ids, k, ids.len() as int);
                    assert(ids.take(ids.len() as int) =~= ids);
                    assert(!registered(e, clone_name(ids[k]@, n)));
                } else {
                    assert(ids[k]@ == name);
                }
            }
        }
        if is_under(r.left(), name, value) {
            assert(registered(ready, name)) by {
                let q = choose|q: int| 0 <= q < ready.len() && #[trigger] ready[q] == (name, value);
                assert(ready[q].0 == name);
            }
        }
    }
}

proof fn lemma_one_under_a_name<T>(e: Seq<(Seq<char>, T)>, name: Seq<char>, a: T, b: T)
    requires
        distinct_names(e),
        is_under(e, name, a),
        is_under(e, name, b),
    ensures
        a == b,
{
    let i = choose|i: int| 0 <= i < e.len() && #[trigger] e[i] == (name, a);
    let j = choose|j: int| 0 <= j < e.len() && #[trigger] e[j] == (name, b);
    if i < j {
        assert(e[i].0 != e[j].0);
    } else if j < i {
        assert(e[j].0 != e[i].0);
    }
}

/// A component registered under a name is found under it, in place of what was there before, and
/// every other one stays where it was; what was new comes last.
pub proof fn registering_changes_one_name<T>(
    e: Seq<(Seq<char>, T)>,
    id: Seq<char>,
    value: T,
    i: int,
)
    requires
        distinct_names(e),
    ensures
        is_under(with_entry(e, id, value), id, value),
        with_entry(e, id, value).len() == e.len() + (if registered(e, id) {
            0int
        } else {
            1
        }),
        0 <= i < e.len() ==> with_entry(e, id, value)[i].0 == e[i].0,
        0 <= i < e.len() && e[i].0 != id ==> with_entry(e, id, value)[i] == e[i],
        !registered(e, id) ==> with_entry(e, id, value).last() == (id, value),
{
    lemma_position(e, id);
    lemma_under_with(e, id, value, id, value);
}

/// Each name that stands for a clone counts one, and no other does.
pub proof fn each_clone_is_counted<T>(
    e: Seq<(Seq<char>, Slot<T>)>,
    shared: Seq<(Seq<char>, T)>,
    a: Seq<String>,
    b: Seq<String>,
    id: String,
)
    ensures
        clones_in(e, shared, a + b) == clones_in(e, shared, a) + clones_in(e, shared, b),
        clones_in(e, shared, seq![id]) == (if !registered(e, id@) && registered(shared, id@) {
            1nat
        } else {
            0nat
        }),
    decreases b.len(),
{
    reveal_with_fuel(clones_in, 2);
    assert(seq![id].drop_last() =~= seq![]);
    if b.len() > 0 {
        each_clone_is_counted(e, shared, a, b.drop_last(), id);
        assert((a + b).drop_last() =~= a + b.drop_last());
        assert((a + b).last() == b.last());
    } else {
        assert(a + b =~= a);
    }
}

} // verus!
