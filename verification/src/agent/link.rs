//! Network interfaces and the namespaces they are in.
use crate::sort::Sortable;
use crate::text::{chars_of, same};
use vstd::prelude::*;

verus! {

use crate::sort::is_sorted;

/// Whether one text comes before another, or is the same, in the order of their characters.
pub open spec fn text_leq(a: Seq<char>, b: Seq<char>) -> bool
    decreases a.len(),
{
    if a.len() == 0 {
        true
    } else if b.len() == 0 {
        false
    } else if a[0] != b[0] {
        a[0] < b[0]
    } else {
        text_leq(a.drop_first(), b.drop_first())
    }
}

pub proof fn lemma_text_total(a: Seq<char>, b: Seq<char>)
    ensures
        text_leq(a, b) || text_leq(b, a),
    decreases a.len(),
{
    if a.len() > 0 && b.len() > 0 && a[0] == b[0] {
        lemma_text_total(a.drop_first(), b.drop_first());
    }
}

pub proof fn lemma_text_transitive(a: Seq<char>, b: Seq<char>, c: Seq<char>)
    requires
        text_leq(a, b),
        text_leq(b, c),
    ensures
        text_leq(a, c),
    decreases a.len(),
{
    if a.len() > 0 && b.len() > 0 && c.len() > 0 && a[0] == b[0] && b[0] == c[0] {
        lemma_text_transitive(a.drop_first(), b.drop_first(), c.drop_first());
    }
}

proof fn lemma_text_antisymmetric(a: Seq<char>, b: Seq<char>)
    requires
        text_leq(a, b),
        text_leq(b, a),
    ensures
        a == b,
    decreases a.len(),
{
    if a.len() > 0 {
        lemma_text_antisymmetric(a.drop_first(), b.drop_first());
        assert(a =~= seq![a[0]] + a.drop_first());
        assert(b =~= seq![b[0]] + b.drop_first());
    } else {
        assert(a =~= b);
    }
}

/// Whether one text comes before another, or is the same.
pub fn text_at_most(a: &str, b: &str) -> (r: bool)
    ensures
        r == text_leq(a@, b@),
{
    let x = chars_of(a);
    let y = chars_of(b);
    let mut i: usize = 0;
    assert(a@.skip(0) =~= a@ && b@.skip(0) =~= b@);
    while i < x.len() && i < y.len()
        invariant
            i <= x.len(),
            i <= y.len(),
            x@ == a@,
            y@ == b@,
            text_leq(a@, b@) == text_leq(a@.skip(i as int), b@.skip(i as int)),
        decreases x.len() - i,
    {
        assert(a@.skip(i as int).drop_first() =~= a@.skip(i + 1));
        assert(b@.skip(i as int).drop_first() =~= b@.skip(i + 1));
        if x[i] != y[i] {
            return x[i] < y[i];
        }
        i = i + 1;
    }
    i == x.len()
}

/// A network interface.
#[derive(Debug, Clone, PartialEq, Eq)]
pub struct Link {
    pub if_index: u32,
    pub mac_addr: u64,
    pub name: String,
}

/// What a link is.
pub struct LinkView {
    pub if_index: u32,
    pub mac_addr: u64,
    pub name: Seq<char>,
}

impl View for Link {
    type V = LinkView;

    open spec fn view(&self) -> LinkView {
        LinkView { if_index: self.if_index, mac_addr: self.mac_addr, name: self.name@ }
    }
}

/// What the links of a list are.
pub open spec fn links_of(v: Seq<Link>) -> Seq<LinkView> {
    v.map_values(|l: Link| l@)
}

impl Link {
    /// Another link that is the same.
    pub fn copy(&self) -> (r: Link)
        ensures
            r@ == self@,
    {
        Link { if_index: self.if_index, mac_addr: self.mac_addr, name: self.name.clone() }
    }

    /// Whether two links are the same.
    pub fn is(&self, other: &Link) -> (r: bool)
        ensures
            r == (self@ == other@),
    {
        self.if_index == other.if_index && self.mac_addr == other.mac_addr && same(
            self.name.as_str(),
            other.name.as_str(),
        )
    }
}

impl Sortable for Link {
    type Model = LinkView;

    open spec fn model(&self) -> LinkView {
        self@
    }

    /// By index, then by hardware address, then by name.
    open spec fn leq(a: LinkView, b: LinkView) -> bool {
        if a.if_index != b.if_index {
            a.if_index < b.if_index
        } else if a.mac_addr != b.mac_addr {
            a.mac_addr < b.mac_addr
        } else {
            text_leq(a.name, b.name)
        }
    }

    proof fn leq_total(a: LinkView, b: LinkView) {
        lemma_text_total(a.name, b.name);
    }

    proof fn leq_transitive(a: LinkView, b: LinkView, c: LinkView) {
        if a.if_index == b.if_index && b.if_index == c.if_index && a.mac_addr == b.mac_addr
            && b.mac_addr == c.mac_addr {
            lemma_text_transitive(a.name, b.name, c.name);
        }
    }

    fn at_most(&self, other: &Link) -> (r: bool) {
        if self.if_index != other.if_index {
            self.if_index < other.if_index
        } else if self.mac_addr != other.mac_addr {
            self.mac_addr < other.mac_addr
        } else {
            text_at_most(self.name.as_str(), other.name.as_str())
        }
    }
}

/// There is one way to sort a list of links.
pub proof fn sorted_links_are_unique(a: Seq<Link>, b: Seq<Link>)
    requires
        is_sorted(a),
        is_sorted(b),
        links_of(a).to_multiset() == links_of(b).to_multiset(),
    ensures
        links_of(a) == links_of(b),
{
    let leq = |x: LinkView, y: LinkView| Link::leq(x, y);
    assert forall|x: LinkView| #[trigger] leq(x, x) by {
        Link::leq_total(x, x);
    }
    assert forall|x: LinkView, y: LinkView| #[trigger] leq(x, y) && #[trigger] leq(y, x) implies x
        == y by {
        lemma_text_antisymmetric(x.name, y.name);
    }
    assert forall|x: LinkView, y: LinkView, z: LinkView| #[trigger]
        leq(x, y) && #[trigger] leq(y, z) implies leq(x, z) by {
        Link::leq_transitive(x, y, z);
    }
    assert forall|x: LinkView, y: LinkView| #[trigger] leq(x, y) || #[trigger] leq(y, x) by {
        Link::leq_total(x, y);
    }
    assert forall|i: int, j: int| 0 <= i < j < links_of(a).len() implies #[trigger] leq(
        links_of(a)[i],
        links_of(a)[j],
    ) by {
        assert(Link::leq(a[i].model(), a[j].model()));
    }
    assert forall|i: int, j: int| 0 <= i < j < links_of(b).len() implies #[trigger] leq(
        links_of(b)[i],
        links_of(b)[j],
    ) by {
        assert(Link::leq(b[i].model(), b[j].model()));
    }
    vstd::seq_lib::lemma_sorted_unique(links_of(a), links_of(b), leq);
}

/// A copy of a list of links.
pub fn copy_links(v: &Vec<Link>) -> (r: Vec<Link>)
    ensures
        links_of(r@) == links_of(v@),
{
    let mut r: Vec<Link> = Vec::new();
    let mut i: usize = 0;
    while i < v.len()
        invariant
            i <= v.len(),
            r@.len() == i,
            forall|j: int| 0 <= j < i ==> (#[trigger] r@[j])@ == v@[j]@,
        decreases v.len() - i,
    {
        r.push(v[i].copy());
        i = i + 1;
    }
    assert(links_of(r@) =~= links_of(v@));
    r
}

/// Whether a list holds a link.
pub fn has_link(v: &Vec<Link>, link: &Link) -> (r: bool)
    ensures
        r == links_of(v@).contains(link@),
{
    let mut i: usize = 0;
    while i < v.len()
        invariant
            i <= v.len(),
            forall|j: int| 0 <= j < i ==> links_of(v@)[j] != link@,
        decreases v.len() - i,
    {
        if v[i].is(link) {
            assert(links_of(v@)[i as int] == link@);
            return true;
        }
        i = i + 1;
    }
    false
}

/// Whether two lists hold the same links in the same order.
pub fn same_links(a: &Vec<Link>, b: &Vec<Link>) -> (r: bool)
    ensures
        r == (links_of(a@) == links_of(b@)),
{
    if a.len() != b.len() {
        assert(links_of(a@).len() != links_of(b@).len());
        return false;
    }
    let mut i: usize = 0;
    while i < a.len()
        invariant
            i <= a.len(),
            a.len() == b.len(),
            forall|j: int| 0 <= j < i ==> (#[trigger] a@[j])@ == b@[j]@,
        decreases a.len() - i,
    {
        if !a[i].is(&b[i]) {
            assert(links_of(a@)[i as int] != links_of(b@)[i as int]);
            return false;
        }
        i = i + 1;
    }
    assert(links_of(a@) =~= links_of(b@));
    true
}

/// A network namespace.
#[derive(Debug, Clone, PartialEq, Eq)]
pub enum NsFile {
    /// That of the host.
    Root,
    /// One with a name.
    Named(String),
    /// That of a process.
    Proc(u64),
}

/// What a namespace is.
pub enum NsView {
    Root,
    Named(Seq<char>),
    Proc(u64),
}

impl View for NsFile {
    type V = NsView;

    open spec fn view(&self) -> NsView {
        match self {
            NsFile::Root => NsView::Root,
            NsFile::Named(name) => NsView::Named(name@),
            NsFile::Proc(pid) => NsView::Proc(*pid),
        }
    }
}

impl NsFile {
    /// Another one that is the same.
    pub fn copy(&self) -> (r: NsFile)
        ensures
            r@ == self@,
    {
        match self {
            NsFile::Root => NsFile::Root,
            NsFile::Named(name) => NsFile::Named(name.clone()),
            NsFile::Proc(pid) => NsFile::Proc(*pid),
        }
    }
}

impl Sortable for NsFile {
    type Model = NsView;

    open spec fn model(&self) -> NsView {
        self@
    }

    /// The host's comes first, then those with names, then those of processes.
    open spec fn leq(a: NsView, b: NsView) -> bool {
        match (a, b) {
            (NsView::Root, _) => true,
            (NsView::Named(_), NsView::Root) => false,
            (NsView::Named(x), NsView::Named(y)) => text_leq(x, y),
            (NsView::Named(_), NsView::Proc(_)) => true,
            (NsView::Proc(x), NsView::Proc(y)) => x <= y,
            (NsView::Proc(_), _) => false,
        }
    }

    proof fn leq_total(a: NsView, b: NsView) {
        if let (NsView::Named(x), NsView::Named(y)) = (a, b) {
            lemma_text_total(x, y);
        }
    }

    proof fn leq_transitive(a: NsView, b: NsView, c: NsView) {
        if let (NsView::Named(x), NsView::Named(y)) = (a, b) {
            if let NsView::Named(z) = c {
                lemma_text_transitive(x, y, z);
            }
        }
    }

    fn at_most(&self, other: &NsFile) -> (r: bool) {
        match (self, other) {
            (NsFile::Root, _) => true,
            (NsFile::Named(_), NsFile::Root) => false,
            (NsFile::Named(x), NsFile::Named(y)) => text_at_most(x.as_str(), y.as_str()),
            (NsFile::Named(_), NsFile::Proc(_)) => true,
            (NsFile::Proc(x), NsFile::Proc(y)) => *x <= *y,
            (NsFile::Proc(_), _) => false,
        }
    }
}

} // verus!
