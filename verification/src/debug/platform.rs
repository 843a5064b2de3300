//! What can be asked about Kubernetes resources and interfaces.
use crate::agent::link::text_at_most;
use crate::bytes::copy_bytes;
use crate::registry::Registry;
use crate::sort::{sort, Sortable};
use vstd::prelude::*;

verus! {

use crate::agent::link::{lemma_text_total, lemma_text_transitive, text_leq};
use crate::registry::{position, registered};
use crate::sort::is_sorted;

/// Messages about the platform.
#[derive(PartialEq, Eq, Debug)]
pub enum PlatformMessage {
    /// The version of the API server.
    Version(Option<String>),
    /// A compressed entry of a watched resource; in a request, the resource's name.
    Watcher(Vec<u8>),
    /// The interface index of each container's hardware address.
    MacMappings(Option<Vec<(u32, String)>>),
    /// Nothing follows.
    Fin,
    /// The resource is not known.
    NotFound,
}

impl Sortable for (u32, String) {
    type Model = (u32, Seq<char>);

    open spec fn model(&self) -> (u32, Seq<char>) {
        (self.0, self.1@)
    }

    open spec fn leq(a: (u32, Seq<char>), b: (u32, Seq<char>)) -> bool {
        if a.0 != b.0 {
            a.0 < b.0
        } else {
            text_leq(a.1, b.1)
        }
    }

    proof fn leq_total(a: (u32, Seq<char>), b: (u32, Seq<char>)) {
        lemma_text_total(a.1, b.1);
    }

    proof fn leq_transitive(a: (u32, Seq<char>), b: (u32, Seq<char>), c: (u32, Seq<char>)) {
        if a.0 == b.0 && b.0 == c.0 {
            lemma_text_transitive(a.1, b.1, c.1);
        }
    }

    fn at_most(&self, other: &(u32, String)) -> (r: bool) {
        if self.0 != other.0 {
            self.0 < other.0
        } else {
            text_at_most(self.1.as_str(), other.1.as_str())
        }
    }
}

/// Answers questions about the platform from what is known of it.
pub struct PlatformDebugger {
    server_version: Option<String>,
    watched: Registry<Vec<Vec<u8>>>,
    interfaces: Vec<(u32, String)>,
}

/// Whether `messages` are the entries `entries`, followed by the end.
pub open spec fn are_entries(messages: Seq<PlatformMessage>, entries: Seq<Vec<u8>>) -> bool {
    &&& messages.len() == entries.len() + 1
    &&& forall|i: int|
        0 <= i < entries.len() ==> (#[trigger] messages[i] matches PlatformMessage::Watcher(bytes)
            && bytes@ == entries[i]@)
    &&& messages.last() is Fin
}

/// Whether messages are interfaces and their hardware addresses, sorted, and the end.
pub open spec fn are_mappings(messages: Seq<PlatformMessage>, mappings: Seq<(u32, String)>) -> bool {
    &&& messages.len() == 2
    &&& messages[0] matches PlatformMessage::MacMappings(Some(m)) && is_sorted(m@)
        && m@.to_multiset() == mappings.to_multiset()
    &&& messages[1] is Fin
}

impl PlatformDebugger {
    /// The version of the API server, if it is known.
    pub closed spec fn version(&self) -> Option<String> {
        self.server_version
    }

    /// The entries of the watched resources, by name.
    pub closed spec fn resources(&self) -> Seq<(Seq<char>, Vec<Vec<u8>>)> {
        self.watched@
    }

    /// The interfaces and their hardware addresses.
    pub closed spec fn mappings(&self) -> Seq<(u32, String)> {
        self.interfaces@
    }

    pub fn new(
        server_version: Option<String>,
        watched: Registry<Vec<Vec<u8>>>,
        interfaces: Vec<(u32, String)>,
    ) -> (r: Self)
        ensures
            r.version() == server_version,
            r.resources() == watched@,
            r.mappings() == interfaces@,
    {
        PlatformDebugger { server_version, watched, interfaces }
    }

    /// The entries of a watched resource, one message each since together they may be too long
    /// for one, and the end; or that there is no such resource.
    pub fn watcher(&self, resource: &str) -> (r: Vec<PlatformMessage>)
        ensures
            if registered(self.resources(), resource@) {
                are_entries(
                    r@,
                    self.resources()[position(self.resources(), resource@)].1@,
                )
            } else {
                r@.len() == 1 && r@[0] is NotFound
            },
    {
        let mut r: Vec<PlatformMessage> = Vec::new();
        match self.watched.get(resource) {
            Some(entries) => {
                let mut i: usize = 0;
                while i < entries.len()
                    invariant
                        i <= entries.len(),
                        r@.len() == i,
                        forall|j: int|
                            0 <= j < i ==> (#[trigger] r@[j] matches PlatformMessage::Watcher(bytes)
                                && bytes@ == entries@[j]@),
                    decreases entries.len() - i,
                {
                    r.push(PlatformMessage::Watcher(copy_bytes(entries[i].as_slice())));
                    i = i + 1;
                }
                r.push(PlatformMessage::Fin);
            },
            None => {
                r.push(PlatformMessage::NotFound);
            },
        }
        r
    }

    /// The version of the API server, and the end.
    pub fn api_version(&self) -> (r: Vec<PlatformMessage>)
        ensures
            r@ == seq![PlatformMessage::Version(self.version()), PlatformMessage::Fin],
    {
        let version = match &self.server_version {
            Some(v) => Some(v.clone()),
            None => None,
        };
        let mut r: Vec<PlatformMessage> = Vec::new();
        r.push(PlatformMessage::Version(version));
        r.push(PlatformMessage::Fin);
        r
    }

    /// The interfaces and their hardware addresses, sorted, and the end.
    pub fn mac_mapping(&self) -> (r: Vec<PlatformMessage>)
        ensures
            are_mappings(r@, self.mappings()),
    {
        let mut copy: Vec<(u32, String)> = Vec::new();
        let mut i: usize = 0;
        while i < self.interfaces.len()
            invariant
                i <= self.interfaces.len(),
                copy@ == self.interfaces@.take(i as int),
            decreases self.interfaces.len() - i,
        {
            copy.push((self.interfaces[i].0, self.interfaces[i].1.clone()));
            i = i + 1;
            assert(copy@ =~= self.interfaces@.take(i as int));
        }
        assert(self.interfaces@.take(i as int) =~= self.interfaces@);
        let mut r: Vec<PlatformMessage> = Vec::new();
        r.push(PlatformMessage::MacMappings(Some(sort(copy))));
        r.push(PlatformMessage::Fin);
        r
    }
}

} // verus!
