//! Following the addresses behind the controllers' names.
use crate::text::holds;
use vstd::prelude::*;

verus! {

use crate::text::texts;

/// How often the names are resolved, in seconds.
pub const INTERVAL: u64 = 5;

/// The controllers' names and the addresses they had when last looked at.
pub struct DomainNameListener {
    pub domain_names: Vec<String>,
    pub ips: Vec<String>,
    pub started: bool,
    pub stopped: bool,
}

/// The address of a name after a look at it: the same where it is still one of those that the
/// name resolves to, else the first of them. A name that does not resolve keeps its address.
pub open spec fn address_after(ip: Seq<char>, resolved: Option<Seq<Seq<char>>>) -> Seq<char> {
    match resolved {
        Some(addresses) => if addresses.contains(ip) {
            ip
        } else {
            addresses[0]
        },
        None => ip,
    }
}

/// What a list of lookups resolved to.
pub open spec fn answers(resolved: Seq<Option<Vec<String>>>) -> Seq<Option<Seq<Seq<char>>>> {
    resolved.map_values(
        |r: Option<Vec<String>>|
            match r {
                Some(v) => Some(texts(v@)),
                None => None,
            },
    )
}

/// Whether a name no longer resolves to its address.
pub open spec fn has_moved(ip: Seq<char>, resolved: Option<Seq<Seq<char>>>) -> bool {
    resolved matches Some(addresses) && !addresses.contains(ip)
}

/// Whether any name has a new address.
pub open spec fn any_moved(ips: Seq<Seq<char>>, resolved: Seq<Option<Seq<Seq<char>>>>) -> bool {
    exists|i: int| 0 <= i < resolved.len() && has_moved(ips[i], #[trigger] resolved[i])
}

impl DomainNameListener {
    pub fn new(domain_names: Vec<String>, ips: Vec<String>) -> (r: Self)
        ensures
            r.domain_names == domain_names,
            r.ips == ips,
            !r.started,
            !r.stopped,
    {
        DomainNameListener { domain_names, ips, started: false, stopped: false }
    }

    /// Whether a thread is to be started: there is none yet, and there are names to follow.
    pub fn start(&mut self) -> (spawn: bool)
        ensures
            spawn == (!old(self).started && old(self).domain_names@.len() > 0),
            final(self).started == (old(self).started || spawn),
            final(self).stopped == (old(self).started && old(self).stopped),
            final(self).domain_names == old(self).domain_names,
            final(self).ips == old(self).ips,
    {
        if self.started {
            return false;
        }
        self.stopped = false;
        if self.domain_names.len() == 0 {
            return false;
        }
        self.started = true;
        true
    }

    /// Whether a thread is to be joined.
    pub fn stop(&mut self) -> (join: bool)
        ensures
            join == old(self).started,
            !final(self).started,
            final(self).stopped == (old(self).stopped || old(self).started),
            final(self).domain_names == old(self).domain_names,
            final(self).ips == old(self).ips,
    {
        if !self.started {
            return false;
        }
        self.stopped = true;
        self.started = false;
        true
    }

    /// Whether the thread goes on. The order to stop is used up by the question.
    pub fn goes_on(&mut self) -> (r: bool)
        ensures
            r == !old(self).stopped,
            !final(self).stopped,
            final(self).started == old(self).started,
            final(self).domain_names == old(self).domain_names,
            final(self).ips == old(self).ips,
    {
        let r = !self.stopped;
        self.stopped = false;
        r
    }

    /// Takes up what the names resolve to, in their order. The session is reset when any name has
    /// a new address: then the result is true.
    pub fn resolve(&mut self, resolved: &Vec<Option<Vec<String>>>) -> (reset: bool)
        requires
            resolved@.len() == old(self).domain_names@.len(),
            resolved@.len() <= old(self).ips@.len(),
            forall|i: int|
                0 <= i < resolved@.len() ==> (#[trigger] resolved@[i] matches Some(v)
                    ==> v@.len() > 0),
        ensures
            reset == any_moved(texts(old(self).ips@), answers(resolved@)),
            final(self).ips@.len() == old(self).ips@.len(),
            forall|i: int|
                0 <= i < old(self).ips@.len() ==> (#[trigger] final(self).ips@[i])@ == (if i
                    < resolved@.len() {
                    address_after(old(self).ips@[i]@, answers(resolved@)[i])
                } else {
                    old(self).ips@[i]@
                }),
            final(self).domain_names == old(self).domain_names,
            final(self).started == old(self).started,
            final(self).stopped == old(self).stopped,
    {
        let ghost ips = self.ips@;
        let ghost all = answers(resolved@);
        let mut changed = false;
        let mut i: usize = 0;
        while i < resolved.len()
            invariant
                i <= resolved.len(),
                all == answers(resolved@),
                resolved@.len() <= ips.len(),
                self.ips@.len() == ips.len(),
                self.domain_names == old(self).domain_names,
                self.started == old(self).started,
                self.stopped == old(self).stopped,
                changed == any_moved(texts(ips), all.take(i as int)),
                forall|j: int|
                    0 <= j < resolved@.len() ==> (#[trigger] resolved@[j] matches Some(v)
                        ==> v@.len() > 0),
                forall|j: int|
                    0 <= j < i ==> (#[trigger] self.ips@[j])@ == address_after(ips[j]@, all[j]),
                forall|j: int| i <= j < ips.len() ==> #[trigger] self.ips@[j] == ips[j],
            decreases resolved.len() - i,
        {
            proof {
                lemma_any_moved(texts(ips), all.take(i as int), all[i as int]);
                assert(all.take(i as int).push(all[i as int]) =~= all.take(i + 1));
                assert(texts(ips)[i as int] == ips[i as int]@);
            }
            if let Some(addresses) = &resolved[i] {
                if !holds(addresses, self.ips[i].as_str()) {
                    let first = addresses[0].clone();
                    assert(texts(addresses@)[0] == first@);
                    self.ips.set(i, first);
                    changed = true;
                }
            }
            i = i + 1;
        }
        assert(all.take(i as int) =~= all);
        changed
    }
}

proof fn lemma_any_moved(
    ips: Seq<Seq<char>>,
    resolved: Seq<Option<Seq<Seq<char>>>>,
    next: Option<Seq<Seq<char>>>,
)
    ensures
        any_moved(ips, resolved.push(next)) == (any_moved(ips, resolved) || has_moved(
            ips[resolved.len() as int],
            next,
        )),
{
    let all = resolved.push(next);
    if any_moved(ips, resolved) {
        let i = choose|i: int| 0 <= i < resolved.len() && has_moved(ips[i], #[trigger] resolved[i]);
        assert(has_moved(ips[i], all[i]));
    }
    if has_moved(ips[resolved.len() as int], next) {
        assert(has_moved(ips[resolved.len() as int], all[resolved.len() as int]));
    }
    if any_moved(ips, all) {
        let i = choose|i: int| 0 <= i < all.len() && has_moved(ips[i], #[trigger] all[i]);
        if i < resolved.len() {
            assert(has_moved(ips[i], resolved[i]));
        }
    }
}

/// A look that finds every address still in use changes nothing, and resets nothing.
pub proof fn addresses_in_use_are_kept(
    ips: Seq<Seq<char>>,
    resolved: Seq<Option<Seq<Seq<char>>>>,
)
    requires
        resolved.len() <= ips.len(),
        forall|i: int|
            0 <= i < resolved.len() ==> (#[trigger] resolved[i] matches Some(a) ==> a.contains(
                ips[i],
            )),
    ensures
        !any_moved(ips, resolved),
        forall|i: int|
            0 <= i < resolved.len() ==> address_after(ips[i], #[trigger] resolved[i]) == ips[i],
{
}

/// A change of any one name is acted on: the session is reset exactly when an address changes,
/// whichever name it belongs to.
pub proof fn any_new_address_resets(ips: Seq<Seq<char>>, resolved: Seq<Option<Seq<Seq<char>>>>)
    requires
        resolved.len() <= ips.len(),
        forall|i: int|
            0 <= i < resolved.len() ==> (#[trigger] resolved[i] matches Some(a) ==> a.len() > 0),
    ensures
        any_moved(ips, resolved) <==> exists|i: int|
            0 <= i < resolved.len() && address_after(ips[i], #[trigger] resolved[i]) != ips[i],
{
    assert forall|i: int| 0 <= i < resolved.len() implies has_moved(ips[i], #[trigger] resolved[i])
        == (address_after(ips[i], resolved[i]) != ips[i]) by {
        if let Some(a) = resolved[i] {
            assert(a[0] == a[0]);
            assert(a.contains(a[0]));
        }
    }
}

} // verus!
