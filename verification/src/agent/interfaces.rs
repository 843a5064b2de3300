//! Which interfaces the agent captures on, and how they are spread over dispatchers.
use super::config::{DispatcherConfig, DpdkSource, ModuleConfig, PacketCaptureType};
use super::link::{copy_links, Link, NsFile};
use crate::sort::sort;
use vstd::prelude::*;

verus! {

use super::link::{links_of, LinkView, NsView};
use crate::sort::is_sorted;

/// What `regex::Regex` says of a pattern and a text: whether the pattern matches somewhere in
/// the text, or nothing if it is no valid pattern.
pub uninterp spec fn regex_matches(pattern: Seq<char>, text: Seq<char>) -> Option<bool>;

/// Compiles a pattern with `regex::Regex::new` and asks `is_match` of a text: the answer is a
/// function of the two, and there is none for a pattern that does not compile.
#[verifier::external_body]
fn regex_is_match(pattern: &str, text: &str) -> (r: Option<bool>)
    ensures
        r == regex_matches(pattern@, text@),
{
    regex::Regex::new(pattern).ok().map(|re| re.is_match(text))
}

/// The items whose pattern matched, in order.
pub open spec fn kept<T>(items: Seq<T>, matched: Seq<Option<bool>>) -> Seq<T>
    decreases items.len(),
{
    if items.len() == 0 {
        seq![]
    } else if matched[items.len() - 1] == Some(true) {
        kept(items.drop_last(), matched).push(items.last())
    } else {
        kept(items.drop_last(), matched)
    }
}

/// What a pattern says of each link's name.
pub open spec fn link_matches(pattern: Seq<char>, links: Seq<LinkView>) -> Seq<Option<bool>> {
    links.map_values(|l: LinkView| regex_matches(pattern, l.name))
}

/// The links of which a pattern was found to match the name.
pub fn matching_links(links: &Vec<Link>, matched: &Vec<Option<bool>>) -> (r: Vec<Link>)
    requires
        matched.len() == links.len(),
    ensures
        links_of(r@) == kept(links_of(links@), matched@),
{
    let mut r: Vec<Link> = Vec::new();
    assert(links_of(r@) =~= seq![]);
    let ghost all = links_of(links@);
    let mut i: usize = 0;
    assert(all.take(0) =~= seq![]);
    while i < links.len()
        invariant
            i <= links.len(),
            matched.len() == links.len(),
            all == links_of(links@),
            links_of(r@) == kept(all.take(i as int), matched@),
        decreases links.len() - i,
    {
        proof {
            assert(all.take(i + 1).drop_last() =~= all.take(i as int));
            assert(all.take(i + 1).last() == links@[i as int]@);
        }
        if let Some(true) = matched[i] {
            let ghost before = r@;
            let link = links[i].copy();
            r.push(link);
            assert(links_of(r@) =~= links_of(before).push(link@));
        }
        i = i + 1;
    }
    assert(all.take(i as int) =~= all);
    r
}

/// The links that the configured pattern selects: none where it is empty or invalid.
pub fn get_listener_links(conf: &DispatcherConfig, links: &Vec<Link>) -> (r: Vec<Link>)
    ensures
        links_of(r@) == (if conf.tap_interface_regex@.len() == 0 {
            seq![]
        } else {
            kept(links_of(links@), link_matches(conf.tap_interface_regex@, links_of(links@)))
        }),
{
    if conf.tap_interface_regex.as_str().is_empty() {
        let r: Vec<Link> = Vec::new();
        assert(links_of(r@) =~= seq![]);
        return r;
    }
    let mut matched: Vec<Option<bool>> = Vec::new();
    let mut i: usize = 0;
    while i < links.len()
        invariant
            i <= links.len(),
            matched@.len() == i,
            forall|j: int|
                0 <= j < i ==> #[trigger] matched@[j] == regex_matches(
                    conf.tap_interface_regex@,
                    links@[j].name@,
                ),
        decreases links.len() - i,
    {
        matched.push(regex_is_match(conf.tap_interface_regex.as_str(), links[i].name.as_str()));
        i = i + 1;
    }
    assert(matched@ =~= link_matches(conf.tap_interface_regex@, links_of(links@)));
    matching_links(links, &matched)
}

/// What a pattern says of a namespace: it is asked only of those with a name.
pub open spec fn ns_matches(pattern: Seq<char>, ns: NsView) -> Option<bool> {
    match ns {
        NsView::Named(name) => regex_matches(pattern, name),
        _ => None,
    }
}

/// The namespaces that were found to match, sorted.
pub fn matching_namespaces(found: Vec<NsFile>, matched: &Vec<Option<bool>>) -> (r: Vec<NsFile>)
    requires
        matched.len() == found.len(),
    ensures
        is_sorted(r@),
        r@.to_multiset() == kept(found@, matched@).to_multiset(),
{
    let mut selected: Vec<NsFile> = Vec::new();
    let ghost all = found@;
    let mut n: usize = 0;
    assert(all.take(0) =~= seq![]);
    for ns in it: found
        invariant
            it.seq() == all,
            n == it.index(),
            matched.len() == all.len(),
            selected@ == kept(all.take(n as int), matched@),
    {
        proof {
            assert(all.take(n + 1).drop_last() =~= all.take(n as int));
            assert(all.take(n + 1).last() == ns);
        }
        if let Some(true) = matched[n] {
            selected.push(ns);
        }
        n = n + 1;
    }
    assert(all.take(n as int) =~= all);
    sort(selected)
}

/// The named namespaces among those found that the configured pattern selects, sorted. There are
/// none without a pattern, and none unless the agent captures locally. An invalid pattern has no
/// answer.
pub fn extra_namespaces(conf: &DispatcherConfig, found: Vec<NsFile>) -> (r: Option<Vec<NsFile>>)
    ensures
        if conf.extra_netns_regex@.len() == 0 || conf.capture_mode != PacketCaptureType::Local {
            r matches Some(v) && v@.len() == 0
        } else if regex_matches(conf.extra_netns_regex@, seq![]) is None {
            r is None
        } else {
            r matches Some(v) && is_sorted(v@) && v@.to_multiset() == kept(
                found@,
                found@.map_values(|ns: NsFile| ns_matches(conf.extra_netns_regex@, ns@)),
            ).to_multiset()
        },
{
    if conf.extra_netns_regex.as_str().is_empty() || conf.capture_mode
        != PacketCaptureType::Local {
        return Some(Vec::new());
    }
    proof {
        reveal_strlit("");
        assert(""@ =~= seq![]);
    }
    if regex_is_match(conf.extra_netns_regex.as_str(), "").is_none() {
        return None;
    }
    let mut matched: Vec<Option<bool>> = Vec::new();
    let mut i: usize = 0;
    while i < found.len()
        invariant
            i <= found.len(),
            matched@.len() == i,
            forall|j: int|
                0 <= j < i ==> #[trigger] matched@[j] == ns_matches(
                    conf.extra_netns_regex@,
                    found@[j]@,
                ),
        decreases found.len() - i,
    {
        matched.push(
            match &found[i] {
                NsFile::Named(name) => regex_is_match(
                    conf.extra_netns_regex.as_str(),
                    name.as_str(),
                ),
                _ => None,
            },
        );
        i = i + 1;
    }
    assert(matched@ =~= found@.map_values(
        |ns: NsFile| ns_matches(conf.extra_netns_regex@, ns@),
    ));
    Some(matching_namespaces(found, &matched))
}

/// The interfaces of one dispatcher, and their namespace.
pub struct DispatcherInput {
    pub links: Vec<Link>,
    pub netns: NsFile,
}

/// What a dispatcher captures on.
pub struct InputView {
    pub links: Seq<LinkView>,
    pub netns: NsView,
}

impl View for DispatcherInput {
    type V = InputView;

    open spec fn view(&self) -> InputView {
        InputView { links: links_of(self.links@), netns: self.netns@ }
    }
}

/// What the dispatchers of a list capture on.
pub open spec fn inputs_of(v: Seq<DispatcherInput>) -> Seq<InputView> {
    v.map_values(|i: DispatcherInput| i@)
}

/// `n` dispatchers on the same interfaces of the host.
pub open spec fn repeated(links: Seq<LinkView>, n: nat) -> Seq<InputView> {
    Seq::new(n, |i: int| InputView { links, netns: NsView::Root })
}

/// One dispatcher for each of the host's interfaces.
pub open spec fn one_each(links: Seq<LinkView>) -> Seq<InputView> {
    links.map_values(|l: LinkView| InputView { links: seq![l], netns: NsView::Root })
}

/// The dispatchers for other namespaces: those that have interfaces.
pub open spec fn populated(found: Seq<InputView>) -> Seq<InputView>
    decreases found.len(),
{
    if found.len() == 0 {
        seq![]
    } else if found.last().links.len() > 0 {
        populated(found.drop_last()).push(found.last())
    } else {
        populated(found.drop_last())
    }
}

/// How many dispatchers share the host's interfaces: a single one where other namespaces are
/// searched.
pub open spec fn configured_fanout(config: ModuleConfig) -> nat {
    if config.dispatcher.extra_netns_regex@.len() == 0 {
        config.user_config.packet_fanout_count as nat
    } else {
        1
    }
}

/// The dispatchers on interfaces of the kernel.
pub open spec fn kernel_inputs(
    config: ModuleConfig,
    found: Seq<InputView>,
    root: Seq<LinkView>,
) -> Seq<InputView> {
    let local = config.dispatcher.capture_mode == PacketCaptureType::Local;
    let extra = if local && config.dispatcher.extra_netns_regex@.len() > 0 {
        populated(found)
    } else {
        seq![]
    };
    let fanout = configured_fanout(config);
    if extra.len() > 0 {
        extra
    } else if root.len() == 0 && !config.dispatcher.inner_interface_capture_enabled {
        seq![]
    } else if fanout > 1 || local {
        repeated(root, fanout)
    } else {
        one_each(root)
    }
}

/// Whether packets come from a user space switch or a dump of it rather than from the kernel.
pub open spec fn is_single_special(config: ModuleConfig) -> bool {
    config.user_config.vhost_socket_path@.len() > 0 || config.dispatcher.dpdk_source
        == DpdkSource::PDump
}

/// All dispatchers.
pub open spec fn planned_inputs(
    config: ModuleConfig,
    found: Seq<InputView>,
    root: Seq<LinkView>,
) -> Seq<InputView> {
    if config.dispatcher.capture_mode == PacketCaptureType::Local {
        kernel_inputs(config, found, root)
    } else if is_single_special(config) {
        repeated(seq![], 1)
    } else if config.dispatcher.dpdk_source == DpdkSource::Ebpf {
        repeated(seq![], configured_fanout(config))
    } else {
        kernel_inputs(config, found, root)
    }
}

/// The number of dispatchers that share interfaces in the end.
pub open spec fn planned_fanout(config: ModuleConfig) -> nat {
    if config.dispatcher.capture_mode != PacketCaptureType::Local && is_single_special(config) {
        1
    } else {
        configured_fanout(config)
    }
}

fn repeat(links: &Vec<Link>, n: usize) -> (r: Vec<DispatcherInput>)
    ensures
        inputs_of(r@) == repeated(links_of(links@), n as nat),
{
    let mut r: Vec<DispatcherInput> = Vec::new();
    let mut i: usize = 0;
    while i < n
        invariant
            i <= n,
            r@.len() == i,
            forall|j: int|
                0 <= j < i ==> (#[trigger] r@[j])@ == (InputView {
                    links: links_of(links@),
                    netns: NsView::Root,
                }),
        decreases n - i,
    {
        r.push(DispatcherInput { links: copy_links(links), netns: NsFile::Root });
        i = i + 1;
    }
    assert(inputs_of(r@) =~= repeated(links_of(links@), n as nat));
    r
}

fn singles(links: &Vec<Link>) -> (r: Vec<DispatcherInput>)
    ensures
        inputs_of(r@) == one_each(links_of(links@)),
{
    let mut r: Vec<DispatcherInput> = Vec::new();
    let mut i: usize = 0;
    while i < links.len()
        invariant
            i <= links.len(),
            r@.len() == i,
            forall|j: int|
                0 <= j < i ==> (#[trigger] r@[j])@ == (InputView {
                    links: seq![links@[j]@],
                    netns: NsView::Root,
                }),
        decreases links.len() - i,
    {
        let mut one: Vec<Link> = Vec::new();
        one.push(links[i].copy());
        assert(links_of(one@) =~= seq![links@[i as int]@]);
        r.push(DispatcherInput { links: one, netns: NsFile::Root });
        i = i + 1;
    }
    assert(inputs_of(r@) =~= one_each(links_of(links@)));
    r
}

fn with_links(found: Vec<DispatcherInput>) -> (r: Vec<DispatcherInput>)
    ensures
        inputs_of(r@) == populated(inputs_of(found@)),
{
    let mut r: Vec<DispatcherInput> = Vec::new();
    let ghost all = inputs_of(found@);
    let ghost mut n: int = 0;
    assert(inputs_of(r@) =~= seq![]);
    assert(all.take(0) =~= seq![]);
    let ghost items = found@;
    for input in it: found
        invariant
            it.seq() == items,
            all == inputs_of(items),
            n == it.index(),
            inputs_of(r@) == populated(all.take(n)),
    {
        proof {
            assert(all.take(n + 1).drop_last() =~= all.take(n));
            assert(all.take(n + 1).last() == input@);
            n = n + 1;
        }
        if input.links.len() > 0 {
            let ghost before = r@;
            let ghost v = input@;
            r.push(input);
            assert(inputs_of(r@) =~= inputs_of(before).push(v));
        }
    }
    assert(all.take(n) =~= all);
    r
}

/// The dispatchers to build, and how many of them share interfaces. `found` holds the interfaces
/// in each further namespace, `root` those of the host.
pub fn plan_inputs(config: &ModuleConfig, found: Vec<DispatcherInput>, root: &Vec<Link>) -> (r: (
    Vec<DispatcherInput>,
    usize,
))
    ensures
        inputs_of(r.0@) == planned_inputs(*config, inputs_of(found@), links_of(root@)),
        r.1 == planned_fanout(*config),
{
    let conf = &config.dispatcher;
    let local = conf.capture_mode == PacketCaptureType::Local;
    let scans = !conf.extra_netns_regex.as_str().is_empty();
    let fanout: usize = if scans {
        1
    } else {
        config.user_config.packet_fanout_count
    };
    if !local {
        if !config.user_config.vhost_socket_path.as_str().is_empty() || conf.dpdk_source
            == DpdkSource::PDump {
            let none: Vec<Link> = Vec::new();
            assert(links_of(none@) =~= seq![]);
            return (repeat(&none, 1), 1);
        }
        if conf.dpdk_source == DpdkSource::Ebpf {
            let none: Vec<Link> = Vec::new();
            assert(links_of(none@) =~= seq![]);
            return (repeat(&none, fanout), fanout);
        }
    }
    assert(inputs_of(seq![]) =~= seq![]);
    let extra: Vec<DispatcherInput> = if local && scans {
        with_links(found)
    } else {
        Vec::new()
    };
    assert(inputs_of(extra@).len() == extra@.len());
    assert(links_of(root@).len() == root@.len());
    if extra.len() > 0 {
        return (extra, fanout);
    }
    assert(inputs_of(extra@) =~= seq![]);
    if root.len() == 0 && !conf.inner_interface_capture_enabled {
        return (extra, fanout);
    }
    if fanout > 1 || local {
        (repeat(root, fanout), fanout)
    } else {
        (singles(root), fanout)
    }
}

/// The names of the first interface of each dispatcher that has one.
pub open spec fn first_names(inputs: Seq<InputView>) -> Seq<Seq<char>>
    decreases inputs.len(),
{
    if inputs.len() == 0 {
        seq![]
    } else if inputs.last().links.len() > 0 {
        first_names(inputs.drop_last()).push(inputs.last().links[0].name)
    } else {
        first_names(inputs.drop_last())
    }
}

/// A check that is made before the agent's components are built.
pub enum StartupCheck {
    /// The number of processes.
    Processes,
    /// Core files that an earlier crash left.
    CoreFiles,
    /// That the controllers' addresses are of one family.
    ControllerIps,
    FreeSpace,
    Kernel,
    /// The named mirror interfaces.
    TapInterfaces(Vec<String>),
}

/// What a check looks at.
pub enum CheckView {
    Processes,
    CoreFiles,
    ControllerIps,
    FreeSpace,
    Kernel,
    TapInterfaces(Seq<Seq<char>>),
}

impl View for StartupCheck {
    type V = CheckView;

    open spec fn view(&self) -> CheckView {
        match self {
            StartupCheck::Processes => CheckView::Processes,
            StartupCheck::CoreFiles => CheckView::CoreFiles,
            StartupCheck::ControllerIps => CheckView::ControllerIps,
            StartupCheck::FreeSpace => CheckView::FreeSpace,
            StartupCheck::Kernel => CheckView::Kernel,
            StartupCheck::TapInterfaces(names) => CheckView::TapInterfaces(
                crate::text::texts(names@),
            ),
        }
    }
}

/// What a list of checks looks at.
pub open spec fn checks_of(v: Seq<StartupCheck>) -> Seq<CheckView> {
    v.map_values(|c: StartupCheck| c@)
}

/// The checks on the host.
pub open spec fn checked_on_host(check_core_file_disabled: bool) -> Seq<CheckView> {
    if check_core_file_disabled {
        seq![CheckView::Processes, CheckView::ControllerIps, CheckView::FreeSpace]
    } else {
        seq![
            CheckView::Processes,
            CheckView::CoreFiles,
            CheckView::ControllerIps,
            CheckView::FreeSpace,
        ]
    }
}

/// The checks on the host, in order.
pub fn host_checks(check_core_file_disabled: bool) -> (r: Vec<StartupCheck>)
    ensures
        checks_of(r@) == checked_on_host(check_core_file_disabled),
{
    let mut r: Vec<StartupCheck> = Vec::new();
    r.push(StartupCheck::Processes);
    if !check_core_file_disabled {
        r.push(StartupCheck::CoreFiles);
    }
    r.push(StartupCheck::ControllerIps);
    r.push(StartupCheck::FreeSpace);
    r
}

/// The checks on what is captured: the kernel unless the agent captures locally, and for a
/// physical mirror that DPDK does not serve the first interface of each dispatcher.
pub open spec fn checked_on_capture(config: ModuleConfig, inputs: Seq<InputView>) -> Seq<CheckView> {
    match config.dispatcher.capture_mode {
        PacketCaptureType::Local => seq![],
        PacketCaptureType::Mirror => seq![CheckView::Kernel],
        PacketCaptureType::Analyzer => if config.user_config.dpdk_source == DpdkSource::Off {
            seq![CheckView::Kernel, CheckView::TapInterfaces(first_names(inputs))]
        } else {
            seq![CheckView::Kernel]
        },
    }
}

/// The checks on what is captured, in order.
pub fn capture_checks(config: &ModuleConfig, inputs: &Vec<DispatcherInput>) -> (r: Vec<
    StartupCheck,
>)
    ensures
        checks_of(r@) == checked_on_capture(*config, inputs_of(inputs@)),
{
    let mut r: Vec<StartupCheck> = Vec::new();
    match config.dispatcher.capture_mode {
        PacketCaptureType::Local => {},
        PacketCaptureType::Mirror => {
            r.push(StartupCheck::Kernel);
        },
        PacketCaptureType::Analyzer => {
            r.push(StartupCheck::Kernel);
            if config.user_config.dpdk_source == DpdkSource::Off {
                r.push(StartupCheck::TapInterfaces(tap_names(inputs)));
            }
        },
    }
    r
}

fn tap_names(inputs: &Vec<DispatcherInput>) -> (r: Vec<String>)
    ensures
        crate::text::texts(r@) == first_names(inputs_of(inputs@)),
{
    let mut r: Vec<String> = Vec::new();
    let ghost all = inputs_of(inputs@);
    let mut i: usize = 0;
    assert(all.take(0) =~= seq![]);
    assert(crate::text::texts(r@) =~= seq![]);
    while i < inputs.len()
        invariant
            i <= inputs.len(),
            all == inputs_of(inputs@),
            crate::text::texts(r@) == first_names(all.take(i as int)),
        decreases inputs.len() - i,
    {
        proof {
            assert(all.take(i + 1).drop_last() =~= all.take(i as int));
            assert(all.take(i + 1).last() == inputs@[i as int]@);
        }
        if inputs[i].links.len() > 0 {
            let ghost before = r@;
            let name = inputs[i].links[0].name.clone();
            r.push(name);
            assert(crate::text::texts(r@) =~= crate::text::texts(before).push(name@));
        }
        i = i + 1;
    }
    assert(all.take(i as int) =~= all);
    r
}

/// The links of all dispatchers, one list after the other.
pub open spec fn all_links(inputs: Seq<DispatcherInput>) -> Seq<LinkView>
    decreases inputs.len(),
{
    if inputs.len() == 0 {
        seq![]
    } else {
        all_links(inputs.drop_last()) + links_of(inputs.last().links@)
    }
}

fn gather(inputs: &Vec<DispatcherInput>) -> (r: Vec<Link>)
    ensures
        links_of(r@) == all_links(inputs@),
{
    let mut r: Vec<Link> = Vec::new();
    let mut i: usize = 0;
    assert(inputs@.take(0) =~= seq![]);
    assert(links_of(r@) =~= seq![]);
    while i < inputs.len()
        invariant
            i <= inputs.len(),
            links_of(r@) == all_links(inputs@.take(i as int)),
        decreases inputs.len() - i,
    {
        proof {
            assert(inputs@.take(i + 1).drop_last() =~= inputs@.take(i as int));
        }
        let ghost before = r@;
        let mut more = copy_links(&inputs[i].links);
        let ghost added = more@;
        r.append(&mut more);
        assert(links_of(r@) =~= links_of(before) + links_of(added));
        i = i + 1;
    }
    assert(inputs@.take(i as int) =~= inputs@);
    r
}

/// The interfaces that are captured on, sorted.
pub fn tap_interfaces(inputs: &Vec<DispatcherInput>) -> (r: Vec<Link>)
    ensures
        is_sorted(r@),
        links_of(r@).to_multiset() == all_links(inputs@).to_multiset(),
{
    let v = gather(inputs);
    let ghost before = v@;
    let r = sort(v);
    proof {
        lemma_same_models(before, r@);
    }
    r
}

/// Lists with the same links, whatever their order, are lists of the same models.
pub proof fn lemma_same_models(a: Seq<Link>, b: Seq<Link>)
    requires
        a.to_multiset() == b.to_multiset(),
    ensures
        links_of(a).to_multiset() == links_of(b).to_multiset(),
    decreases a.len(),
{
    a.to_multiset_ensures();
    b.to_multiset_ensures();
    if a.len() == 0 {
        assert(b.len() == 0);
        assert(links_of(a) =~= links_of(b));
    } else {
        let x = a.last();
        assert(a[a.len() - 1] == x);
        assert(a.contains(x));
        assert(a.to_multiset().count(x) > 0);
        assert(b.to_multiset().count(x) > 0);
        assert(b.contains(x));
        let k = choose|k: int| 0 <= k < b.len() && b[k] == x;
        let a1 = a.drop_last();
        let b1 = b.remove(k);
        assert(a1 =~= a.remove(a.len() - 1));
        assert(a1.to_multiset() == b1.to_multiset());
        lemma_same_models(a1, b1);
        assert(links_of(a) =~= links_of(a1).push(x@));
        assert(links_of(b).remove(k) =~= links_of(b1));
        links_of(a1).to_multiset_ensures();
        links_of(b).to_multiset_ensures();
        assert(links_of(b)[k] == x@);
        let m = links_of(b).to_multiset();
        assert(links_of(b).contains(x@));
        assert(m.remove(x@).insert(x@) =~= m);
    }
}

/// How many queues the policy module has: one for each dispatcher off the host, and at least one.
pub open spec fn policy_queues(capture_mode: PacketCaptureType, dispatchers: nat) -> nat {
    if capture_mode != PacketCaptureType::Local && dispatchers > 1 {
        dispatchers
    } else {
        1
    }
}

/// The number of queues of the policy module.
pub fn policy_queue_count(capture_mode: PacketCaptureType, dispatchers: usize) -> (r: usize)
    ensures
        r == policy_queues(capture_mode, dispatchers as nat),
{
    if capture_mode != PacketCaptureType::Local && dispatchers > 1 {
        dispatchers
    } else {
        1
    }
}

/// How many packets are received at most: all from a physical mirror.
pub open spec fn packets_limited_to(config: DispatcherConfig) -> Option<u64> {
    if config.capture_mode == PacketCaptureType::Analyzer {
        None
    } else {
        Some(config.global_pps_threshold)
    }
}

/// The limit on received packets.
pub fn receive_limit(config: &DispatcherConfig) -> (r: Option<u64>)
    ensures
        r == packets_limited_to(*config),
{
    match config.capture_mode {
        PacketCaptureType::Analyzer => None,
        _ => Some(config.global_pps_threshold),
    }
}

/// Whether the eBPF collector runs: it is enabled, the kernel bears it, and the agent does not
/// analyse a physical mirror without eBPF at its source.
pub open spec fn runs_ebpf(config: ModuleConfig, kernel_ebpf_meltdown: bool) -> bool {
    !config.ebpf_disabled && !kernel_ebpf_meltdown && (config.dispatcher.capture_mode
        != PacketCaptureType::Analyzer || config.user_config.dpdk_source == DpdkSource::Ebpf)
}

/// Whether the eBPF collector runs.
pub fn ebpf_collector_runs(config: &ModuleConfig, kernel_ebpf_meltdown: bool) -> (r: bool)
    ensures
        r == runs_ebpf(*config, kernel_ebpf_meltdown),
{
    !config.ebpf_disabled && !kernel_ebpf_meltdown && (config.dispatcher.capture_mode
        != PacketCaptureType::Analyzer || config.user_config.dpdk_source == DpdkSource::Ebpf)
}

/// The numbers of the two collectors that are no dispatchers: that of eBPF data follows the
/// dispatchers, and that of external data follows it and is the last one given.
pub fn collector_ids(dispatchers: usize) -> (r: (usize, usize))
    requires
        dispatchers < usize::MAX,
    ensures
        r.0 == dispatchers,
        r.1 == dispatchers + 1,
{
    (dispatchers, dispatchers + 1)
}

/// Which address outgoing data is said to come from where no route is known: the unspecified
/// one of the controller's family.
pub fn source_ip(route: Option<String>, controller_is_v6: bool) -> (r: String)
    ensures
        match route {
            Some(ip) => r == ip,
            None => r@ == (if controller_is_v6 {
                "::"@
            } else {
                "0.0.0.0"@
            }),
        },
{
    match route {
        Some(ip) => ip,
        None => if controller_is_v6 {
            "::".to_owned()
        } else {
            "0.0.0.0".to_owned()
        },
    }
}

/// The analyzer's address: the configured one where it is an address, else the first that its
/// name resolves to.
pub fn analyzer_ip(configured: Option<String>, resolved: Vec<String>) -> (r: String)
    requires
        configured is Some || resolved.len() > 0,
    ensures
        match configured {
            Some(ip) => r == ip,
            None => r == resolved@[0],
        },
{
    match configured {
        Some(ip) => ip,
        None => resolved[0].clone(),
    }
}

/// With further namespaces that have interfaces, or without, every dispatcher that captures
/// locally has an interface unless the capture of inner interfaces was asked for.
pub proof fn local_dispatchers_have_interfaces(
    config: ModuleConfig,
    found: Seq<InputView>,
    root: Seq<LinkView>,
    i: int,
)
    requires
        config.dispatcher.capture_mode == PacketCaptureType::Local,
        !config.dispatcher.inner_interface_capture_enabled,
        0 <= i < planned_inputs(config, found, root).len(),
    ensures
        planned_inputs(config, found, root)[i].links.len() > 0,
{
    lemma_populated(found);
}

proof fn lemma_populated(found: Seq<InputView>)
    ensures
        forall|i: int|
            0 <= i < populated(found).len() ==> (#[trigger] populated(found)[i]).links.len() > 0,
    decreases found.len(),
{
    if found.len() > 0 {
        lemma_populated(found.drop_last());
    }
}

/// Off the host, one dispatcher serves one interface unless several share all of them.
pub proof fn mirrors_get_one_dispatcher_each(
    config: ModuleConfig,
    found: Seq<InputView>,
    root: Seq<LinkView>,
)
    requires
        config.dispatcher.capture_mode != PacketCaptureType::Local,
        !is_single_special(config),
        config.dispatcher.dpdk_source == DpdkSource::Off,
        planned_fanout(config) <= 1,
    ensures
        planned_inputs(config, found, root) == one_each(root),
{
    if root.len() == 0 {
        assert(one_each(root) =~= seq![]);
    }
}

} // verus!
