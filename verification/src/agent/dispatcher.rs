//! Dispatchers: how one is set up, and which ones a new configuration adds and removes.
use super::components::DispatcherComponent;
use super::config::{DispatcherConfig, DpdkSource, ModuleConfig, PacketCaptureType};
use super::identity::VersionInfo;
use super::link::{copy_links, has_link, same_links, Link};
use super::state::RunningMode;
use crate::bytes::{copy_bytes, same_bytes};
use crate::sort::sort;
use vstd::prelude::*;

verus! {

use super::interfaces::lemma_same_models;
use super::link::{links_of, LinkView};
use crate::sort::is_sorted;

/// What handles a dispatcher's packets.
#[derive(Debug, Clone, Copy, PartialEq, Eq, Structural)]
pub enum PacketHandler {
    /// Packet capture.
    Pcap,
    /// The packet broker.
    Npb,
}

/// How a dispatcher is set up.
pub struct DispatcherPlan {
    pub id: usize,
    /// The interface that it stands for: its first one.
    pub src_link: Link,
    /// The interfaces that it opens.
    pub pcap_interfaces: Vec<Link>,
    /// Whether it waits for the controller's configuration before it starts.
    pub pause: bool,
    /// The interface that it names as its source.
    pub src_interface: String,
    /// Whether packets are assembled for capture files.
    pub pcap_assembler_enabled: bool,
    pub handlers: Vec<PacketHandler>,
    pub fanout_enabled: bool,
}

/// A link where there is none.
pub open spec fn no_link() -> LinkView {
    LinkView { if_index: 0, mac_addr: 0, name: seq![] }
}

/// The interface that a dispatcher on these interfaces stands for.
pub open spec fn source_of(links: Seq<LinkView>) -> LinkView {
    if links.len() > 0 {
        links[0]
    } else {
        no_link()
    }
}

/// Whether a plan is the one for the dispatcher with a number on some interfaces.
pub open spec fn sets_up(
    r: DispatcherPlan,
    id: usize,
    links: Seq<LinkView>,
    config: ModuleConfig,
    agent_mode: RunningMode,
    edition: Seq<char>,
    fanout_enabled: bool,
) -> bool {
    &&& r.id == id
    &&& r.src_link@ == source_of(links)
    &&& links_of(r.pcap_interfaces@) == (if config.dispatcher.capture_mode
        != PacketCaptureType::Local && config.user_config.dpdk_source != DpdkSource::Off {
        seq![]
    } else {
        links
    })
    &&& r.pause == (agent_mode == RunningMode::Managed)
    &&& r.src_interface@ == (if config.dispatcher.capture_mode != PacketCaptureType::Local
        && !fanout_enabled {
        r.src_link.name@
    } else {
        seq![]
    })
    &&& r.pcap_assembler_enabled == (edition != "zerotrace-agent-ce"@)
    &&& r.handlers@ == seq![PacketHandler::Pcap, PacketHandler::Npb]
    &&& r.fanout_enabled == fanout_enabled
}

/// Sets up the dispatcher with a number on some interfaces.
pub fn plan_dispatcher(
    id: usize,
    links: &Vec<Link>,
    config: &ModuleConfig,
    agent_mode: RunningMode,
    version: &VersionInfo,
    fanout_enabled: bool,
) -> (r: DispatcherPlan)
    ensures
        sets_up(r, id, links_of(links@), *config, agent_mode, version.name@, fanout_enabled),
{
    let off_host = config.dispatcher.capture_mode != PacketCaptureType::Local;
    let src_link = if links.len() > 0 {
        links[0].copy()
    } else {
        Link { if_index: 0, mac_addr: 0, name: String::new() }
    };
    assert(links_of(links@).len() == links@.len());
    let pcap_interfaces = if off_host && config.user_config.dpdk_source != DpdkSource::Off {
        Vec::new()
    } else {
        copy_links(links)
    };
    assert(links_of(seq![]) =~= seq![]);
    let src_interface = if off_host && !fanout_enabled {
        src_link.name.clone()
    } else {
        String::new()
    };
    let mut handlers: Vec<PacketHandler> = Vec::new();
    handlers.push(PacketHandler::Pcap);
    handlers.push(PacketHandler::Npb);
    assert(handlers@ =~= seq![PacketHandler::Pcap, PacketHandler::Npb]);
    assert(off_host && !fanout_enabled || src_interface@ =~= seq![]);
    DispatcherPlan {
        id,
        src_link,
        pcap_interfaces,
        pause: agent_mode == RunningMode::Managed,
        src_interface,
        pcap_assembler_enabled: !version.is_ce_version(),
        handlers,
        fanout_enabled,
    }
}

/// What a dispatcher is told about its surroundings.
pub struct Notice {
    /// The dispatcher's number.
    pub id: usize,
    /// The interfaces that it captures on.
    pub links: Vec<Link>,
    pub if_mac_source: u32,
    pub agent_type: u32,
    /// What it does not capture.
    pub blacklist: Vec<u64>,
    /// The hardware addresses of virtual machines, and those of their gateways.
    pub vm_mac_addrs: Vec<u64>,
    pub gateway_vmac_addrs: Vec<u64>,
}

impl Notice {
    /// Whether this is what the dispatcher with a number is told.
    pub open spec fn tells(
        &self,
        id: usize,
        links: Seq<LinkView>,
        config: DispatcherConfig,
        blacklist: Seq<u64>,
        vm_mac_addrs: Seq<u64>,
        gateway_vmac_addrs: Seq<u64>,
    ) -> bool {
        &&& self.id == id
        &&& links_of(self.links@) == links
        &&& self.if_mac_source == config.if_mac_source
        &&& self.agent_type == config.agent_type
        &&& self.blacklist@ == blacklist
        &&& self.vm_mac_addrs@ == vm_mac_addrs
        &&& self.gateway_vmac_addrs@ == gateway_vmac_addrs
    }
}

fn copy_numbers(v: &Vec<u64>) -> (r: Vec<u64>)
    ensures
        r@ == v@,
{
    let mut r: Vec<u64> = Vec::new();
    r.extend_from_slice(v.as_slice());
    assert(r@ =~= v@);
    r
}

/// What the dispatcher with a number is told.
pub fn tell(
    id: usize,
    links: &Vec<Link>,
    config: &DispatcherConfig,
    blacklist: &Vec<u64>,
    vm_mac_addrs: &Vec<u64>,
    gateway_vmac_addrs: &Vec<u64>,
) -> (r: Notice)
    ensures
        r.tells(
            id,
            links_of(links@),
            *config,
            blacklist@,
            vm_mac_addrs@,
            gateway_vmac_addrs@,
        ),
{
    Notice {
        id,
        links: copy_links(links),
        if_mac_source: config.if_mac_source,
        agent_type: config.agent_type,
        blacklist: copy_numbers(blacklist),
        vm_mac_addrs: copy_numbers(vm_mac_addrs),
        gateway_vmac_addrs: copy_numbers(gateway_vmac_addrs),
    }
}

/// What a new configuration does to the dispatchers of an agent that captures locally.
pub struct LocalChange {
    /// For each dispatcher whether it stays, with the interfaces found for it; else it is
    /// stopped.
    pub keep: Vec<bool>,
    /// The number of a dispatcher to build on the host's interfaces.
    pub build: Option<usize>,
    pub last_id: usize,
}

/// Whether no entry is true.
pub open spec fn none_kept(keep: Seq<bool>) -> bool {
    forall|i: int| 0 <= i < keep.len() ==> !#[trigger] keep[i]
}

impl LocalChange {
    /// Whether this is what follows: a dispatcher without interfaces is stopped, unless inner
    /// interfaces are captured; when none is left a new one is built, if it has something to
    /// capture. `found` holds, for each dispatcher, the interfaces in its namespace.
    pub open spec fn follows(
        &self,
        config: ModuleConfig,
        found: Seq<Vec<Link>>,
        root: Seq<Link>,
        last_id: usize,
    ) -> bool {
        &&& self.keep@.len() == found.len()
        &&& forall|i: int|
            0 <= i < found.len() ==> #[trigger] self.keep@[i] == (found[i]@.len() > 0
                || config.dispatcher.inner_interface_capture_enabled)
        &&& self.build == (if none_kept(self.keep@) && (root.len() > 0
            || config.dispatcher.inner_interface_capture_enabled) {
            Some((last_id + 1) as usize)
        } else {
            None
        })
        &&& self.last_id == (if self.build is Some {
            (last_id + 1) as usize
        } else {
            last_id
        })
    }
}

/// What a new configuration does to the dispatchers of an agent that captures locally.
pub fn change_local(
    config: &ModuleConfig,
    found: &Vec<Vec<Link>>,
    root: &Vec<Link>,
    last_id: usize,
) -> (r: LocalChange)
    requires
        last_id < usize::MAX,
    ensures
        r.follows(*config, found@, root@, last_id),
{
    let inner = config.dispatcher.inner_interface_capture_enabled;
    let mut keep: Vec<bool> = Vec::new();
    let mut any = false;
    let mut i: usize = 0;
    while i < found.len()
        invariant
            i <= found.len(),
            keep@.len() == i,
            any == !none_kept(keep@),
            inner == config.dispatcher.inner_interface_capture_enabled,
            forall|j: int|
                0 <= j < i ==> #[trigger] keep@[j] == (found@[j]@.len() > 0 || inner),
        decreases found.len() - i,
    {
        let stays = found[i].len() > 0 || inner;
        let ghost before = keep@;
        keep.push(stays);
        proof {
            if stays {
                assert(keep@[i as int]);
            } else if any {
                let j = choose|j: int| 0 <= j < before.len() && #[trigger] before[j];
                assert(keep@[j]);
            }
        }
        any = any || stays;
        i = i + 1;
    }
    if !any && (root.len() > 0 || inner) {
        LocalChange { keep, build: Some(last_id + 1), last_id: last_id + 1 }
    } else {
        LocalChange { keep, build: None, last_id }
    }
}

/// The links of one list that another does not hold, in order.
pub open spec fn missing_from(links: Seq<LinkView>, known: Seq<LinkView>) -> Seq<LinkView>
    decreases links.len(),
{
    if links.len() == 0 {
        seq![]
    } else if known.contains(links.last()) {
        missing_from(links.drop_last(), known)
    } else {
        missing_from(links.drop_last(), known).push(links.last())
    }
}

fn new_links(links: &Vec<Link>, known: &Vec<Link>) -> (r: Vec<Link>)
    ensures
        links_of(r@) == missing_from(links_of(links@), links_of(known@)),
        r@.len() <= links@.len(),
{
    let mut r: Vec<Link> = Vec::new();
    let ghost all = links_of(links@);
    let mut i: usize = 0;
    assert(all.take(0) =~= seq![]);
    assert(links_of(r@) =~= seq![]);
    while i < links.len()
        invariant
            i <= links.len(),
            all == links_of(links@),
            r@.len() <= i,
            links_of(r@) == missing_from(all.take(i as int), links_of(known@)),
        decreases links.len() - i,
    {
        proof {
            assert(all.take(i + 1).drop_last() =~= all.take(i as int));
            assert(all.take(i + 1).last() == links@[i as int]@);
        }
        if !has_link(known, &links[i]) {
            let ghost before = r@;
            let link = links[i].copy();
            r.push(link);
            assert(links_of(r@) =~= links_of(before).push(link@));
        }
        i = i + 1;
    }
    assert(all.take(i as int) =~= all);
    r
}

/// The interfaces that a list of dispatchers stands for.
pub open spec fn sources(dispatchers: Seq<DispatcherComponent>) -> Seq<LinkView> {
    dispatchers.map_values(|d: DispatcherComponent| d.src_link@)
}

/// How the dispatchers are brought in line with the interfaces.
pub struct Reconciliation {
    /// For each dispatcher whether it stays; else it is stopped.
    pub keep: Vec<bool>,
    /// The interfaces that get a dispatcher; their numbers follow the last one given.
    pub build: Vec<Link>,
    /// The number of queues that the policy module gets.
    pub queue_count: usize,
    pub last_id: usize,
    /// The interfaces from then on, sorted.
    pub tap_interfaces: Vec<Link>,
}

/// What a new configuration does to the dispatchers of an agent that analyses mirrored traffic.
pub struct MirrorChange {
    /// Whether the capture network types are taken over.
    pub parse_tap_types: bool,
    /// Nothing where the interfaces are the same as before, or are not the kernel's.
    pub reconciliation: Option<Reconciliation>,
}

/// Whether packets do not come from interfaces of the kernel.
pub open spec fn bypasses_kernel(config: ModuleConfig) -> bool {
    config.user_config.vhost_socket_path@.len() > 0 || config.dispatcher.dpdk_source
        != DpdkSource::Off
}

impl MirrorChange {
    /// Whether this is what follows: the dispatchers whose interface is gone are stopped, and one
    /// is built for each new interface.
    pub open spec fn follows(
        &self,
        config: ModuleConfig,
        dispatchers: Seq<DispatcherComponent>,
        current: Seq<LinkView>,
        tap_interfaces: Seq<LinkView>,
        last_id: usize,
    ) -> bool {
        &&& self.parse_tap_types == (config.dispatcher.capture_mode == PacketCaptureType::Analyzer)
        &&& match self.reconciliation {
            Some(c) => {
                let now = links_of(c.tap_interfaces@);
                &&& !bypasses_kernel(config)
                &&& is_sorted(c.tap_interfaces@)
                &&& now.to_multiset() == current.to_multiset()
                &&& now != tap_interfaces
                &&& c.keep@.len() == dispatchers.len()
                &&& forall|i: int|
                    0 <= i < dispatchers.len() ==> #[trigger] c.keep@[i] == now.contains(
                        dispatchers[i].src_link@,
                    )
                &&& links_of(c.build@) == missing_from(now, tap_interfaces)
                &&& c.queue_count == last_id + c.build@.len() + 1
                &&& c.last_id == last_id + c.build@.len()
            },
            None => bypasses_kernel(config) || exists|now: Seq<Link>|
                is_sorted(now) && #[trigger] links_of(now).to_multiset() == current.to_multiset()
                    && links_of(now) == tap_interfaces,
        }
    }
}

/// What a new configuration does to the dispatchers of an agent that analyses mirrored traffic.
pub fn change_mirror(
    config: &ModuleConfig,
    dispatchers: &Vec<DispatcherComponent>,
    current: &Vec<Link>,
    tap_interfaces: &Vec<Link>,
    last_id: usize,
) -> (r: MirrorChange)
    requires
        last_id + current.len() + 1 <= usize::MAX,
    ensures
        r.follows(
            *config,
            dispatchers@,
            links_of(current@),
            links_of(tap_interfaces@),
            last_id,
        ),
{
    let parse_tap_types = config.dispatcher.capture_mode == PacketCaptureType::Analyzer;
    if !config.user_config.vhost_socket_path.as_str().is_empty() || config.dispatcher.dpdk_source
        != DpdkSource::Off {
        return MirrorChange { parse_tap_types, reconciliation: None };
    }
    let unsorted = copy_links(current);
    let ghost before = unsorted@;
    let now = sort(unsorted);
    proof {
        lemma_same_models(before, now@);
        assert(links_of(before).len() == before.len());
        assert(links_of(current@).len() == current@.len());
    }
    if same_links(&now, tap_interfaces) {
        return MirrorChange { parse_tap_types, reconciliation: None };
    }
    let mut keep: Vec<bool> = Vec::new();
    let mut i: usize = 0;
    while i < dispatchers.len()
        invariant
            i <= dispatchers.len(),
            keep@.len() == i,
            forall|j: int|
                0 <= j < i ==> #[trigger] keep@[j] == links_of(now@).contains(
                    dispatchers@[j].src_link@,
                ),
        decreases dispatchers.len() - i,
    {
        keep.push(has_link(&now, &dispatchers[i].src_link));
        i = i + 1;
    }
    let build = new_links(&now, tap_interfaces);
    let last: usize = last_id + build.len();
    MirrorChange {
        parse_tap_types,
        reconciliation: Some(
            Reconciliation {
                keep,
                build,
                queue_count: last + 1,
                last_id: last,
                tap_interfaces: now,
            },
        ),
    }
}

proof fn lemma_missing_from(links: Seq<LinkView>, known: Seq<LinkView>, x: LinkView)
    ensures
        missing_from(links, known).contains(x) <==> links.contains(x) && !known.contains(x),
    decreases links.len(),
{
    if links.len() > 0 {
        let init = links.drop_last();
        lemma_missing_from(init, known, x);
        let m = missing_from(links, known);
        if links.contains(x) {
            let i = choose|i: int| 0 <= i < links.len() && links[i] == x;
            if i < init.len() {
                assert(init[i] == x);
            }
        }
        if init.contains(x) {
            let i = choose|i: int| 0 <= i < init.len() && init[i] == x;
            assert(links[i] == x);
        }
        assert(links[links.len() - 1] == links.last());
        if missing_from(init, known).contains(x) {
            let i = choose|i: int|
                0 <= i < missing_from(init, known).len() && missing_from(init, known)[i] == x;
            assert(m[i] == x);
        }
        if m.contains(x) {
            let i = choose|i: int| 0 <= i < m.len() && m[i] == x;
            if i < missing_from(init, known).len() {
                assert(missing_from(init, known)[i] == x);
            }
        }
        if x == links.last() && !known.contains(x) {
            assert(m[m.len() - 1] == x);
        }
    }
}

/// Whether a dispatcher that stays stands for a link.
pub open spec fn kept_source(
    dispatchers: Seq<DispatcherComponent>,
    keep: Seq<bool>,
    x: LinkView,
) -> bool {
    exists|i: int| 0 <= i < dispatchers.len() && #[trigger] keep[i] && dispatchers[i].src_link@ == x
}

/// Where every interface had a dispatcher before, every interface has one afterwards, and no
/// dispatcher stays without its interface.
pub proof fn reconciled_dispatchers_cover_the_interfaces(
    dispatchers: Seq<DispatcherComponent>,
    keep: Seq<bool>,
    tap: Seq<LinkView>,
    now: Seq<LinkView>,
    x: LinkView,
)
    requires
        keep.len() == dispatchers.len(),
        forall|i: int|
            0 <= i < dispatchers.len() ==> #[trigger] keep[i] == now.contains(
                dispatchers[i].src_link@,
            ),
        forall|y: LinkView| tap.contains(y) <==> #[trigger] sources(dispatchers).contains(y),
    ensures
        now.contains(x) <==> kept_source(dispatchers, keep, x) || missing_from(now, tap).contains(
            x,
        ),
{
    lemma_missing_from(now, tap, x);
    assert(tap.contains(x) <==> sources(dispatchers).contains(x));
    if now.contains(x) && tap.contains(x) {
        let i = choose|i: int|
            0 <= i < sources(dispatchers).len() && sources(dispatchers)[i] == x;
        assert(keep[i]);
        assert(dispatchers[i].src_link@ == x);
    }
}

/// The capture network types in use, after new ones were given. The result says whether they
/// changed.
pub fn parse_tap_type(current: &mut Vec<Vec<u8>>, tap_types: &Vec<Vec<u8>>) -> (updated: bool)
    ensures
        updated == !same_types(old(current)@, tap_types@),
        same_types(final(current)@, tap_types@),
        !updated ==> final(current)@ == old(current)@,
{
    let mut updated = current.len() != tap_types.len();
    let mut i: usize = 0;
    while !updated && i < tap_types.len()
        invariant
            i <= tap_types.len(),
            current@ == old(current)@,
            !updated ==> current.len() == tap_types.len(),
            !updated ==> forall|j: int| 0 <= j < i ==> (#[trigger] current@[j])@ == tap_types@[j]@,
            updated ==> !same_types(current@, tap_types@),
        decreases tap_types.len() - i + (if updated {
            0int
        } else {
            1int
        }),
    {
        if !same_bytes(&current[i], &tap_types[i]) {
            assert(current@[i as int]@ != tap_types@[i as int]@);
            updated = true;
        } else {
            i = i + 1;
        }
    }
    if updated {
        let mut copy: Vec<Vec<u8>> = Vec::new();
        let mut k: usize = 0;
        while k < tap_types.len()
            invariant
                k <= tap_types.len(),
                copy@.len() == k,
                forall|j: int| 0 <= j < k ==> (#[trigger] copy@[j])@ == tap_types@[j]@,
            decreases tap_types.len() - k,
        {
            copy.push(copy_bytes(tap_types[k].as_slice()));
            k = k + 1;
        }
        *current = copy;
    }
    updated
}

/// Whether two lists hold the same types in the same order.
pub open spec fn same_types(a: Seq<Vec<u8>>, b: Seq<Vec<u8>>) -> bool {
    a.len() == b.len() && forall|i: int| 0 <= i < a.len() ==> (#[trigger] a[i])@ == b[i]@
}

} // verus!
