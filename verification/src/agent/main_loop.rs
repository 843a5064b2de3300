//! The agent's main loop: what it does each time it is woken.
use super::config::PacketCaptureType;
use super::state::{AgentState, ChangedConfig, RunningMode, State};
use vstd::prelude::*;

verus! {

/// Which components are installed.
#[derive(Debug, Clone, Copy, PartialEq, Eq, Structural)]
pub enum Installed {
    Nothing,
    Agent,
    Watcher,
    Other,
}

/// What the main loop does.
#[derive(Debug, Clone, Copy, PartialEq, Eq, Structural)]
pub enum LoopAction {
    StopComponents,
    StopGuard,
    StopMonitor,
    StopDomainNameListener,
    StopPlatformSynchronizer,
    StopApiWatcher,
    StopLibvirtExtractor,
    StopCgroups,
    Exit,
    /// The configuration that was taken is applied, to the installed components or without them.
    ApplyConfig { with_components: bool, first_run: bool },
    /// The watcher of the Kubernetes API is started or stopped as the configuration says.
    SyncApiWatcher,
    StartComponents,
    BuildComponents,
    /// The components take over the configuration in effect.
    UpdateComponents,
    ParseTapTypes,
    /// Dispatchers are added and removed as the configuration says.
    ChangeComponents,
    /// What the applied configuration left to be done on the components.
    RunCallbacks,
    NotifyDispatchers,
    /// The statistics take over the host's name and the interval.
    UpdateStats,
    StartGuard,
}

/// What the main loop remembers.
#[derive(Debug, Clone, Copy, PartialEq, Eq, Structural)]
pub struct MainLoop {
    pub components: Installed,
    pub first_run: bool,
    pub config_initialized: bool,
}

impl MainLoop {
    /// The guard is started with the first configuration, which sets its limits.
    pub open spec fn guard(self) -> Seq<LoopAction> {
        if self.config_initialized {
            seq![]
        } else {
            seq![LoopAction::StartGuard]
        }
    }

    /// The loop once a configuration was applied.
    pub open spec fn configured(self) -> MainLoop {
        MainLoop { first_run: false, config_initialized: true, ..self }
    }

    /// The actions on a wake-up.
    pub open spec fn actions(self, state: State, has_config: bool) -> Seq<LoopAction> {
        let apply = LoopAction::ApplyConfig {
            with_components: self.components == Installed::Agent && state == State::Running,
            first_run: self.first_run,
        };
        if state == State::Running && !has_config {
            if self.components == Installed::Nothing {
                seq![LoopAction::SyncApiWatcher]
            } else {
                seq![LoopAction::SyncApiWatcher, LoopAction::StartComponents]
            }
        } else if state == State::Running {
            match self.components {
                Installed::Nothing => seq![
                    apply,
                    LoopAction::SyncApiWatcher,
                    LoopAction::BuildComponents,
                ],
                Installed::Agent => seq![
                    apply,
                    LoopAction::SyncApiWatcher,
                    LoopAction::UpdateComponents,
                    LoopAction::StartComponents,
                    LoopAction::ChangeComponents,
                    LoopAction::RunCallbacks,
                    LoopAction::NotifyDispatchers,
                ] + self.guard(),
                _ => seq![apply, LoopAction::SyncApiWatcher] + self.guard(),
            }
        } else {
            (if self.components == Installed::Nothing {
                seq![]
            } else {
                seq![LoopAction::StopComponents]
            }) + (if has_config {
                seq![apply, LoopAction::SyncApiWatcher] + (if self.components == Installed::Agent {
                    seq![LoopAction::RunCallbacks, LoopAction::NotifyDispatchers]
                } else {
                    seq![LoopAction::UpdateStats]
                }) + self.guard()
            } else {
                seq![]
            })
        }
    }

    /// The loop after a wake-up. Where components are to be built it is configured only once
    /// they are.
    pub open spec fn woken(self, state: State, has_config: bool) -> MainLoop {
        if !has_config {
            self
        } else if state == State::Running && self.components == Installed::Nothing {
            MainLoop { first_run: false, ..self }
        } else {
            self.configured()
        }
    }

    /// The actions once components were built.
    pub open spec fn built_actions(
        self,
        built: Installed,
        capture_mode: PacketCaptureType,
    ) -> Seq<LoopAction> {
        seq![LoopAction::StartComponents] + (if built == Installed::Agent {
            (if capture_mode == PacketCaptureType::Analyzer {
                seq![LoopAction::ParseTapTypes]
            } else {
                seq![]
            }) + seq![LoopAction::RunCallbacks]
        } else {
            seq![]
        }) + self.guard()
    }

    pub fn new() -> (r: Self)
        ensures
            r == (MainLoop {
                components: Installed::Nothing,
                first_run: true,
                config_initialized: false,
            }),
    {
        MainLoop { components: Installed::Nothing, first_run: true, config_initialized: false }
    }

    fn push_guard(&mut self, actions: &mut Vec<LoopAction>)
        ensures
            final(actions)@ == old(actions)@ + old(self).guard(),
            *final(self) == (MainLoop { config_initialized: true, ..*old(self) }),
    {
        let ghost before = actions@;
        if !self.config_initialized {
            actions.push(LoopAction::StartGuard);
            self.config_initialized = true;
        }
        assert(actions@ =~= before + old(self).guard());
    }

    /// What is done when the agent is terminated: all that runs beside installed components is
    /// stopped with them.
    pub fn terminate(&self, cgroups: bool) -> (r: Vec<LoopAction>)
        ensures
            r@ == (if self.components == Installed::Nothing {
                seq![LoopAction::Exit]
            } else {
                seq![
                    LoopAction::StopComponents,
                    LoopAction::StopGuard,
                    LoopAction::StopMonitor,
                    LoopAction::StopDomainNameListener,
                    LoopAction::StopPlatformSynchronizer,
                    LoopAction::StopApiWatcher,
                    LoopAction::StopLibvirtExtractor,
                ] + (if cgroups {
                    seq![LoopAction::StopCgroups]
                } else {
                    seq![]
                }) + seq![LoopAction::Exit]
            }),
    {
        let mut r: Vec<LoopAction> = Vec::new();
        if self.components != Installed::Nothing {
            r.push(LoopAction::StopComponents);
            r.push(LoopAction::StopGuard);
            r.push(LoopAction::StopMonitor);
            r.push(LoopAction::StopDomainNameListener);
            r.push(LoopAction::StopPlatformSynchronizer);
            r.push(LoopAction::StopApiWatcher);
            r.push(LoopAction::StopLibvirtExtractor);
            if cgroups {
                r.push(LoopAction::StopCgroups);
            }
        }
        r.push(LoopAction::Exit);
        r
    }

    /// What is done on a wake-up, and the configuration that is taken up with it. A wake-up in
    /// the running state without a configuration starts what is installed; in the disabled state
    /// what is installed is stopped, and a configuration is applied all the same.
    pub fn wake(&mut self, state: &mut AgentState) -> (r: (Vec<LoopAction>, Option<ChangedConfig>))
        ensures
            r.0@ == old(self).actions(old(state).state.state(), old(state).pending is Some),
            r.1 == old(state).pending,
            *final(self) == old(self).woken(
                old(state).state.state(),
                old(state).pending is Some,
            ),
            final(state).pending is None,
            final(state).state == old(state).state,
            final(state).terminated == old(state).terminated,
    {
        let now = state.get();
        let config = state.pending.take();
        let has_config = config.is_some();
        let mut actions: Vec<LoopAction> = Vec::new();
        let running = now == State::Running;
        if !running && self.components != Installed::Nothing {
            actions.push(LoopAction::StopComponents);
        }
        if running && !has_config {
            actions.push(LoopAction::SyncApiWatcher);
            if self.components != Installed::Nothing {
                actions.push(LoopAction::StartComponents);
            }
        }
        if has_config {
            actions.push(
                LoopAction::ApplyConfig {
                    with_components: self.components == Installed::Agent && running,
                    first_run: self.first_run,
                },
            );
            self.first_run = false;
            actions.push(LoopAction::SyncApiWatcher);
            if running {
                match self.components {
                    Installed::Nothing => {
                        actions.push(LoopAction::BuildComponents);
                    },
                    Installed::Agent => {
                        actions.push(LoopAction::UpdateComponents);
                        actions.push(LoopAction::StartComponents);
                        actions.push(LoopAction::ChangeComponents);
                        actions.push(LoopAction::RunCallbacks);
                        actions.push(LoopAction::NotifyDispatchers);
                    },
                    _ => {},
                }
            } else if self.components == Installed::Agent {
                actions.push(LoopAction::RunCallbacks);
                actions.push(LoopAction::NotifyDispatchers);
            } else {
                actions.push(LoopAction::UpdateStats);
            }
            if !running || self.components != Installed::Nothing {
                self.push_guard(&mut actions);
            }
        }
        assert(actions@ =~= old(self).actions(
            old(state).state.state(),
            old(state).pending is Some,
        ));
        (actions, config)
    }

    /// What is done once components were built.
    pub fn built(&mut self, built: Installed, capture_mode: PacketCaptureType) -> (r: Vec<
        LoopAction,
    >)
        requires
            built != Installed::Nothing,
        ensures
            r@ == old(self).built_actions(built, capture_mode),
            *final(self) == (MainLoop {
                components: built,
                config_initialized: true,
                ..*old(self)
            }),
    {
        let mut actions: Vec<LoopAction> = Vec::new();
        actions.push(LoopAction::StartComponents);
        if built == Installed::Agent {
            if capture_mode == PacketCaptureType::Analyzer {
                actions.push(LoopAction::ParseTapTypes);
            }
            actions.push(LoopAction::RunCallbacks);
        }
        self.components = built;
        self.push_guard(&mut actions);
        assert(actions@ =~= old(self).built_actions(built, capture_mode));
        actions
    }
}

/// One round of the loop: a wake-up, and what was built if components were to be built.
pub struct Round {
    pub state: State,
    pub has_config: bool,
    pub built: Installed,
    pub capture_mode: PacketCaptureType,
}

impl Round {
    /// Whether components are built in this round.
    pub open spec fn builds(self, m: MainLoop) -> bool {
        self.state == State::Running && self.has_config && m.components == Installed::Nothing
    }

    /// All that is done in this round.
    pub open spec fn actions(self, m: MainLoop) -> Seq<LoopAction> {
        let woken = m.woken(self.state, self.has_config);
        m.actions(self.state, self.has_config) + (if self.builds(m) {
            woken.built_actions(self.built, self.capture_mode)
        } else {
            seq![]
        })
    }

    /// The loop after this round.
    pub open spec fn after(self, m: MainLoop) -> MainLoop {
        let woken = m.woken(self.state, self.has_config);
        if self.builds(m) {
            MainLoop { components: self.built, config_initialized: true, ..woken }
        } else {
            woken
        }
    }
}

/// The loop after some rounds.
pub open spec fn after_rounds(m: MainLoop, rounds: Seq<Round>) -> MainLoop
    decreases rounds.len(),
{
    if rounds.len() == 0 {
        m
    } else {
        rounds.last().after(after_rounds(m, rounds.drop_last()))
    }
}

/// All that is done in some rounds.
pub open spec fn all_actions(m: MainLoop, rounds: Seq<Round>) -> Seq<LoopAction>
    decreases rounds.len(),
{
    if rounds.len() == 0 {
        seq![]
    } else {
        all_actions(m, rounds.drop_last()) + rounds.last().actions(
            after_rounds(m, rounds.drop_last()),
        )
    }
}

/// How often the guard is started.
pub open spec fn guard_starts(actions: Seq<LoopAction>) -> nat
    decreases actions.len(),
{
    if actions.len() == 0 {
        0
    } else {
        guard_starts(actions.drop_last()) + (if actions.last() == LoopAction::StartGuard {
            1nat
        } else {
            0nat
        })
    }
}

proof fn lemma_guard_starts_add(a: Seq<LoopAction>, b: Seq<LoopAction>)
    ensures
        guard_starts(a + b) == guard_starts(a) + guard_starts(b),
    decreases b.len(),
{
    if b.len() == 0 {
        assert(a + b =~= a);
    } else {
        assert((a + b).drop_last() =~= a + b.drop_last());
        lemma_guard_starts_add(a, b.drop_last());
    }
}

proof fn lemma_guard_starts_none(a: Seq<LoopAction>)
    requires
        forall|i: int| 0 <= i < a.len() ==> #[trigger] a[i] != LoopAction::StartGuard,
    ensures
        guard_starts(a) == 0,
    decreases a.len(),
{
    if a.len() > 0 {
        assert(a[a.len() - 1] == a.last());
        assert forall|i: int| 0 <= i < a.drop_last().len() implies #[trigger] a.drop_last()[i]
            != LoopAction::StartGuard by {
            assert(a[i] == a.drop_last()[i]);
        }
        lemma_guard_starts_none(a.drop_last());
    }
}

proof fn lemma_guard(m: MainLoop)
    ensures
        guard_starts(m.guard()) == (if m.config_initialized {
            0nat
        } else {
            1nat
        }),
{
    reveal_with_fuel(guard_starts, 2);
}

proof fn lemma_round(m: MainLoop, r: Round)
    ensures
        guard_starts(r.actions(m)) == (if r.has_config && !m.config_initialized {
            1nat
        } else {
            0nat
        }),
        r.after(m).config_initialized == (m.config_initialized || r.has_config),
        r.after(m).first_run == (m.first_run && !r.has_config),
{
    let woken = m.woken(r.state, r.has_config);
    let a = m.actions(r.state, r.has_config);
    lemma_guard(m);
    lemma_guard(woken);
    if r.builds(m) {
        let b = woken.built_actions(r.built, r.capture_mode);
        let plain = seq![LoopAction::StartComponents] + (if r.built == Installed::Agent {
            (if r.capture_mode == PacketCaptureType::Analyzer {
                seq![LoopAction::ParseTapTypes]
            } else {
                seq![]
            }) + seq![LoopAction::RunCallbacks]
        } else {
            seq![]
        });
        lemma_guard_starts_none(a);
        lemma_guard_starts_none(plain);
        assert(b =~= plain + woken.guard());
        lemma_guard_starts_add(plain, woken.guard());
        lemma_guard_starts_add(a, b);
    } else if r.has_config {
        let n = a.len() - m.guard().len();
        let plain = a.take(n);
        assert(a =~= plain + m.guard());
        lemma_guard_starts_none(plain);
        lemma_guard_starts_add(plain, m.guard());
        assert(r.actions(m) =~= a);
    } else {
        lemma_guard_starts_none(a);
        assert(r.actions(m) =~= a);
    }
}

/// Over any number of rounds the guard is started once, with the first configuration, and never
/// before one.
pub proof fn the_guard_starts_once(rounds: Seq<Round>)
    ensures
        ({
            let m = MainLoop {
                components: Installed::Nothing,
                first_run: true,
                config_initialized: false,
            };
            let configured = exists|i: int| 0 <= i < rounds.len() && (#[trigger] rounds[i]).has_config;
            &&& guard_starts(all_actions(m, rounds)) == (if configured {
                1nat
            } else {
                0nat
            })
            &&& after_rounds(m, rounds).config_initialized == configured
            &&& after_rounds(m, rounds).first_run == !configured
        }),
    decreases rounds.len(),
{
    let m = MainLoop {
        components: Installed::Nothing,
        first_run: true,
        config_initialized: false,
    };
    if rounds.len() > 0 {
        let init = rounds.drop_last();
        the_guard_starts_once(init);
        let before = after_rounds(m, init);
        lemma_round(before, rounds.last());
        lemma_guard_starts_add(all_actions(m, init), rounds.last().actions(before));
        assert(rounds[rounds.len() - 1] == rounds.last());
        if exists|i: int| 0 <= i < init.len() && (#[trigger] init[i]).has_config {
            let i = choose|i: int| 0 <= i < init.len() && (#[trigger] init[i]).has_config;
            assert(rounds[i].has_config);
        }
        if exists|i: int| 0 <= i < rounds.len() && (#[trigger] rounds[i]).has_config {
            let i = choose|i: int| 0 <= i < rounds.len() && (#[trigger] rounds[i]).has_config;
            if i < init.len() {
                assert(init[i].has_config);
            }
        }
    }
}

/// Where the agent's identifier comes from.
#[derive(Debug, Clone, Copy, PartialEq, Eq, Structural)]
pub enum IdentitySource {
    /// The address towards the controller.
    ControllerAddress,
    /// The address of the host, seen from its own namespace.
    HostAddress,
}

/// What becomes of control groups.
#[derive(Debug, Clone, Copy, PartialEq, Eq, Structural)]
pub enum CgroupsChoice {
    /// The container's own limits hold.
    InContainer,
    /// The kernel has none.
    Unavailable,
    /// The configuration forbids them.
    Disabled,
    Initialize,
}

/// What the agent does before it enters its loop.
#[derive(Debug, Clone, Copy, PartialEq, Eq, Structural)]
pub enum SetupAction {
    FillKubernetesInfo,
    StartSynchronizer,
    StartRemoteExecutor,
    StartDomainNameListener,
    InitializeCgroups,
    CreateGuard,
    StartMonitor,
    RegisterHostMetrics,
    StartLibvirtExtractor,
    CreateSidecarPoller,
    CreateApiWatcher,
    StartPlatformSynchronizer,
}

/// What the set-up depends on.
#[derive(Debug, Clone, Copy, PartialEq, Eq, Structural)]
pub struct SetupFacts {
    pub agent_mode: RunningMode,
    pub sidecar_mode: bool,
    pub in_container: bool,
    pub in_kubernetes: bool,
    pub kernel_has_cgroups: bool,
    pub cgroups_disabled: bool,
}

/// A sidecar takes the address towards the controller, any other agent that of its host.
pub fn identity_source(sidecar_mode: bool) -> (r: IdentitySource)
    ensures
        r == (if sidecar_mode {
            IdentitySource::ControllerAddress
        } else {
            IdentitySource::HostAddress
        }),
{
    if sidecar_mode {
        IdentitySource::ControllerAddress
    } else {
        IdentitySource::HostAddress
    }
}

impl SetupFacts {
    pub open spec fn cgroups(self) -> CgroupsChoice {
        if self.in_container {
            CgroupsChoice::InContainer
        } else if !self.kernel_has_cgroups {
            CgroupsChoice::Unavailable
        } else if self.cgroups_disabled {
            CgroupsChoice::Disabled
        } else {
            CgroupsChoice::Initialize
        }
    }

    /// What becomes of control groups.
    pub fn cgroups_choice(&self) -> (r: CgroupsChoice)
        ensures
            r == self.cgroups(),
    {
        if self.in_container {
            CgroupsChoice::InContainer
        } else if !self.kernel_has_cgroups {
            CgroupsChoice::Unavailable
        } else if self.cgroups_disabled {
            CgroupsChoice::Disabled
        } else {
            CgroupsChoice::Initialize
        }
    }

    pub open spec fn setup(self) -> Seq<SetupAction> {
        let managed = self.agent_mode == RunningMode::Managed;
        (if managed && self.in_kubernetes {
            seq![SetupAction::FillKubernetesInfo]
        } else {
            seq![]
        }) + seq![SetupAction::StartSynchronizer] + (if managed {
            seq![SetupAction::StartRemoteExecutor]
        } else {
            seq![]
        }) + seq![SetupAction::StartDomainNameListener] + (if self.cgroups()
            == CgroupsChoice::Initialize {
            seq![SetupAction::InitializeCgroups]
        } else {
            seq![]
        }) + seq![
            SetupAction::CreateGuard,
            SetupAction::StartMonitor,
            SetupAction::RegisterHostMetrics,
            SetupAction::StartLibvirtExtractor,
        ] + (if self.sidecar_mode {
            seq![SetupAction::CreateSidecarPoller]
        } else {
            seq![]
        }) + seq![SetupAction::CreateApiWatcher] + (if managed {
            seq![SetupAction::StartPlatformSynchronizer]
        } else {
            seq![]
        })
    }

    /// What the agent does before it enters its loop, in order.
    pub fn setup_actions(&self) -> (r: Vec<SetupAction>)
        ensures
            r@ == self.setup(),
    {
        let managed = self.agent_mode == RunningMode::Managed;
        let mut r: Vec<SetupAction> = Vec::new();
        if managed && self.in_kubernetes {
            r.push(SetupAction::FillKubernetesInfo);
        }
        r.push(SetupAction::StartSynchronizer);
        if managed {
            r.push(SetupAction::StartRemoteExecutor);
        }
        r.push(SetupAction::StartDomainNameListener);
        if self.cgroups_choice() == CgroupsChoice::Initialize {
            r.push(SetupAction::InitializeCgroups);
        }
        r.push(SetupAction::CreateGuard);
        r.push(SetupAction::StartMonitor);
        r.push(SetupAction::RegisterHostMetrics);
        r.push(SetupAction::StartLibvirtExtractor);
        if self.sidecar_mode {
            r.push(SetupAction::CreateSidecarPoller);
        }
        r.push(SetupAction::CreateApiWatcher);
        if managed {
            r.push(SetupAction::StartPlatformSynchronizer);
        }
        assert(r@ =~= self.setup());
        r
    }
}

/// What a check of the kernel's version asks for.
#[derive(Debug, Clone, Copy, PartialEq, Eq, Structural)]
pub struct KernelFlags {
    pub terminate: bool,
    pub meltdown: bool,
    pub ebpf_meltdown: bool,
    pub ebpf_uprobe_meltdown: bool,
}

/// What is done about the kernel's version.
#[derive(Debug, Clone, Copy, PartialEq, Eq, Structural)]
pub enum KernelAction {
    Nothing,
    Terminate,
    MeltDown,
    MeltDownEbpf,
    MeltDownUprobes,
}

/// The severest of the actions asked for; any of them but `Nothing` raises the exception for a
/// broken kernel.
pub fn kernel_version_check(flags: KernelFlags) -> (r: KernelAction)
    ensures
        r == (if flags.terminate {
            KernelAction::Terminate
        } else if flags.meltdown {
            KernelAction::MeltDown
        } else if flags.ebpf_meltdown {
            KernelAction::MeltDownEbpf
        } else if flags.ebpf_uprobe_meltdown {
            KernelAction::MeltDownUprobes
        } else {
            KernelAction::Nothing
        }),
{
    if flags.terminate {
        KernelAction::Terminate
    } else if flags.meltdown {
        KernelAction::MeltDown
    } else if flags.ebpf_meltdown {
        KernelAction::MeltDownEbpf
    } else if flags.ebpf_uprobe_meltdown {
        KernelAction::MeltDownUprobes
    } else {
        KernelAction::Nothing
    }
}

} // verus!
