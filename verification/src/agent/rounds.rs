//! What the main loop's rounds amount to: when components run, and when a configuration is applied.
use super::config::PacketCaptureType;
use super::main_loop::{
    CgroupsChoice, Installed, LoopAction, MainLoop, Round, SetupAction, SetupFacts,
};
use super::state::{RunningMode, State};
use vstd::prelude::*;

verus! {

use super::main_loop::{after_rounds, all_actions};

/// The place of an action among all that a round can do.
pub open spec fn turn(a: LoopAction) -> int {
    match a {
        LoopAction::StopComponents => 0,
        LoopAction::ApplyConfig { .. } => 1,
        LoopAction::SyncApiWatcher => 2,
        LoopAction::BuildComponents => 3,
        LoopAction::UpdateComponents => 4,
        LoopAction::StartComponents => 5,
        LoopAction::ChangeComponents => 6,
        LoopAction::ParseTapTypes => 7,
        LoopAction::RunCallbacks => 8,
        LoopAction::NotifyDispatchers => 9,
        LoopAction::UpdateStats => 10,
        LoopAction::StartGuard => 11,
        LoopAction::StopGuard => 12,
        LoopAction::StopMonitor => 13,
        LoopAction::StopDomainNameListener => 14,
        LoopAction::StopPlatformSynchronizer => 15,
        LoopAction::StopApiWatcher => 16,
        LoopAction::StopLibvirtExtractor => 17,
        LoopAction::StopCgroups => 18,
        LoopAction::Exit => 19,
    }
}

/// Whether a wake-up calls for an action: in the running state the agent is to run, and a
/// configuration is taken up whatever the state.
pub open spec fn is_called_for(m: MainLoop, running: bool, has_config: bool, a: LoopAction) -> bool {
    let agent = m.components == Installed::Agent;
    let installed = m.components != Installed::Nothing;
    match a {
        LoopAction::StopComponents => !running && installed,
        LoopAction::ApplyConfig { with_components, first_run } => has_config && with_components == (
        agent && running) && first_run == m.first_run,
        LoopAction::SyncApiWatcher => running || has_config,
        LoopAction::BuildComponents => running && has_config && !installed,
        LoopAction::UpdateComponents => running && has_config && agent,
        LoopAction::StartComponents => running && installed && (agent || !has_config),
        LoopAction::ChangeComponents => running && has_config && agent,
        LoopAction::RunCallbacks => has_config && agent,
        LoopAction::NotifyDispatchers => has_config && agent,
        LoopAction::UpdateStats => !running && has_config && !agent,
        LoopAction::StartGuard => has_config && !m.config_initialized && (installed || !running),
        _ => false,
    }
}

/// A wake-up does what it calls for and nothing else, each thing once and in its turn. In
/// particular it starts an installed agent whenever the agent is to run, with a configuration or
/// without, and stops what is installed whenever the agent is not to run.
pub proof fn a_wake_up_does_what_it_calls_for(
    m: MainLoop,
    state: State,
    has_config: bool,
    action: LoopAction,
)
    ensures
        m.actions(state, has_config).contains(action) <==> is_called_for(
            m,
            state == State::Running,
            has_config,
            action,
        ),
        forall|i: int, j: int|
            0 <= i < j < m.actions(state, has_config).len() ==> turn(
                #[trigger] m.actions(state, has_config)[i],
            ) < turn(#[trigger] m.actions(state, has_config)[j]),
{
    let a = m.actions(state, has_config);
    let running = state == State::Running;
    let apply = LoopAction::ApplyConfig {
        with_components: m.components == Installed::Agent && running,
        first_run: m.first_run,
    };
    assert forall|i: int| 0 <= i < a.len() implies is_called_for(
        m,
        running,
        has_config,
        #[trigger] a[i],
    ) by {}
    if running && has_config && m.components == Installed::Agent {
        assert(a[0] == apply && a[1] == LoopAction::SyncApiWatcher);
        assert(a[2] == LoopAction::UpdateComponents && a[3] == LoopAction::StartComponents);
        assert(a[4] == LoopAction::ChangeComponents && a[5] == LoopAction::RunCallbacks);
        assert(a[6] == LoopAction::NotifyDispatchers);
        if !m.config_initialized {
            assert(a[7] == LoopAction::StartGuard);
        }
    } else if running && has_config && m.components == Installed::Nothing {
        assert(a[0] == apply && a[1] == LoopAction::SyncApiWatcher);
        assert(a[2] == LoopAction::BuildComponents);
    } else if running && has_config {
        assert(a[0] == apply && a[1] == LoopAction::SyncApiWatcher);
        if !m.config_initialized {
            assert(a[2] == LoopAction::StartGuard);
        }
    } else if running {
        assert(a[0] == LoopAction::SyncApiWatcher);
        if m.components != Installed::Nothing {
            assert(a[1] == LoopAction::StartComponents);
        }
    } else {
        let k: int = if m.components == Installed::Nothing {
            0
        } else {
            1
        };
        if m.components != Installed::Nothing {
            assert(a[0] == LoopAction::StopComponents);
        }
        if has_config {
            assert(a[k] == apply && a[k + 1] == LoopAction::SyncApiWatcher);
            if m.components == Installed::Agent {
                assert(a[k + 2] == LoopAction::RunCallbacks);
                assert(a[k + 3] == LoopAction::NotifyDispatchers);
                if !m.config_initialized {
                    assert(a[k + 4] == LoopAction::StartGuard);
                }
            } else {
                assert(a[k + 2] == LoopAction::UpdateStats);
                if !m.config_initialized {
                    assert(a[k + 3] == LoopAction::StartGuard);
                }
            }
        }
    }
    if a.contains(action) {
        let i = choose|i: int| 0 <= i < a.len() && a[i] == action;
        assert(is_called_for(m, running, has_config, a[i]));
    }
}

/// What was built is started at once. Only an agent has callbacks, and only one that analyses a
/// physical mirror takes over capture network types.
pub proof fn what_is_built_is_started(
    m: MainLoop,
    built: Installed,
    capture_mode: PacketCaptureType,
    action: LoopAction,
)
    ensures
        m.built_actions(built, capture_mode).contains(action) <==> (match action {
            LoopAction::StartComponents => true,
            LoopAction::ParseTapTypes => built == Installed::Agent && capture_mode
                == PacketCaptureType::Analyzer,
            LoopAction::RunCallbacks => built == Installed::Agent,
            LoopAction::StartGuard => !m.config_initialized,
            _ => false,
        }),
        forall|i: int, j: int|
            0 <= i < j < m.built_actions(built, capture_mode).len() ==> turn(
                #[trigger] m.built_actions(built, capture_mode)[i],
            ) < turn(#[trigger] m.built_actions(built, capture_mode)[j]),
{
    let a = m.built_actions(built, capture_mode);
    assert(a[0] == LoopAction::StartComponents);
    let k: int = if built != Installed::Agent {
        1
    } else if capture_mode == PacketCaptureType::Analyzer {
        assert(a[1] == LoopAction::ParseTapTypes && a[2] == LoopAction::RunCallbacks);
        3
    } else {
        assert(a[1] == LoopAction::RunCallbacks);
        2
    };
    if !m.config_initialized {
        assert(a[k] == LoopAction::StartGuard);
    }
    if a.contains(action) {
        let i = choose|i: int| 0 <= i < a.len() && a[i] == action;
        assert(a[i] == action);
    }
}

/// Whether components run after some actions: what the last start or stop among them did.
pub open spec fn run_after(actions: Seq<LoopAction>) -> Option<bool>
    decreases actions.len(),
{
    if actions.len() == 0 {
        None
    } else if actions.last() == LoopAction::StartComponents {
        Some(true)
    } else if actions.last() == LoopAction::StopComponents {
        Some(false)
    } else {
        run_after(actions.drop_last())
    }
}

proof fn lemma_run_after(before: Seq<LoopAction>, now: Seq<LoopAction>)
    ensures
        run_after(before + now) == (if run_after(now) is Some {
            run_after(now)
        } else {
            run_after(before)
        }),
    decreases now.len(),
{
    let all = before + now;
    if now.len() == 0 {
        assert(all =~= before);
    } else {
        assert(all.last() == now.last());
        assert(all.drop_last() =~= before + now.drop_last());
        lemma_run_after(before, now.drop_last());
    }
}

proof fn lemma_only(now: Seq<LoopAction>, starts: bool, stops: bool)
    requires
        now.contains(LoopAction::StartComponents) <==> starts,
        now.contains(LoopAction::StopComponents) <==> stops,
        !(starts && stops),
    ensures
        run_after(now) == (if starts {
            Some(true)
        } else if stops {
            Some(false)
        } else {
            None
        }),
    decreases now.len(),
{
    if now.len() > 0 {
        let init = now.drop_last();
        let last = now.last();
        assert(now[now.len() - 1] == last);
        if last != LoopAction::StartComponents && last != LoopAction::StopComponents {
            if starts {
                let i = choose|i: int|
                    0 <= i < now.len() && now[i] == LoopAction::StartComponents;
                assert(init[i] == LoopAction::StartComponents);
            }
            if stops {
                let i = choose|i: int| 0 <= i < now.len() && now[i] == LoopAction::StopComponents;
                assert(init[i] == LoopAction::StopComponents);
            }
            if init.contains(LoopAction::StartComponents) {
                let i = choose|i: int|
                    0 <= i < init.len() && init[i] == LoopAction::StartComponents;
                assert(now[i] == LoopAction::StartComponents);
            }
            if init.contains(LoopAction::StopComponents) {
                let i = choose|i: int|
                    0 <= i < init.len() && init[i] == LoopAction::StopComponents;
                assert(now[i] == LoopAction::StopComponents);
            }
            lemma_only(init, starts, stops);
        }
    } else {
        if starts {
            assert(now.contains(LoopAction::StartComponents));
        }
    }
}

/// Over any series of rounds, components run as the state says: after a round in the running state
/// an installed agent was last started, after one in any other state whatever is installed was
/// last stopped. What is installed once stays installed, and nothing is installed but in a round
/// in the running state with a configuration.
pub proof fn components_run_as_the_state_says(m: MainLoop, rounds: Seq<Round>)
    requires
        rounds.len() > 0,
        forall|i: int| 0 <= i < rounds.len() ==> (#[trigger] rounds[i]).built != Installed::Nothing,
    ensures
        ({
            let before = after_rounds(m, rounds.drop_last());
            let after = after_rounds(m, rounds);
            let last = rounds.last();
            let run = run_after(all_actions(m, rounds));
            &&& last.state == State::Running && after.components == Installed::Agent ==> run
                == Some(true)
            &&& last.state != State::Running && after.components != Installed::Nothing ==> run
                == Some(false)
            &&& last.state == State::Running && !last.has_config && after.components
                != Installed::Nothing ==> run == Some(true)
            &&& before.components != Installed::Nothing ==> after.components == before.components
            &&& before.components == Installed::Nothing ==> after.components == (if last.state
                == State::Running && last.has_config {
                last.built
            } else {
                Installed::Nothing
            })
        }),
{
    let last = rounds.last();
    let before = after_rounds(m, rounds.drop_last());
    let woken = before.woken(last.state, last.has_config);
    let wake = before.actions(last.state, last.has_config);
    let now = last.actions(before);
    let running = last.state == State::Running;
    assert(rounds[rounds.len() - 1] == last);
    a_wake_up_does_what_it_calls_for(
        before,
        last.state,
        last.has_config,
        LoopAction::StartComponents,
    );
    a_wake_up_does_what_it_calls_for(
        before,
        last.state,
        last.has_config,
        LoopAction::StopComponents,
    );
    let starts = is_called_for(before, running, last.has_config, LoopAction::StartComponents);
    let stops = is_called_for(before, running, last.has_config, LoopAction::StopComponents);
    lemma_only(wake, starts, stops);
    if last.builds(before) {
        let built = woken.built_actions(last.built, last.capture_mode);
        what_is_built_is_started(
            woken,
            last.built,
            last.capture_mode,
            LoopAction::StartComponents,
        );
        what_is_built_is_started(woken, last.built, last.capture_mode, LoopAction::StopComponents);
        lemma_only(built, true, false);
        lemma_run_after(wake, built);
    } else {
        assert(now =~= wake);
    }
    lemma_run_after(all_actions(m, rounds.drop_last()), now);
}

/// Each configuration is applied once, the first one as such.
pub proof fn a_round_applies_its_configuration(m: MainLoop, round: Round, first_run: bool)
    ensures
        m.actions(round.state, round.has_config).contains(
            LoopAction::ApplyConfig {
                with_components: m.components == Installed::Agent && round.state == State::Running,
                first_run,
            },
        ) <==> round.has_config && first_run == m.first_run,
        round.has_config ==> !round.after(m).first_run,
        !round.has_config ==> round.after(m).first_run == m.first_run,
{
    a_wake_up_does_what_it_calls_for(
        m,
        round.state,
        round.has_config,
        LoopAction::ApplyConfig {
            with_components: m.components == Installed::Agent && round.state == State::Running,
            first_run,
        },
    );
}

/// The place of an action in the set-up.
pub open spec fn setup_turn(a: SetupAction) -> int {
    match a {
        SetupAction::FillKubernetesInfo => 0,
        SetupAction::StartSynchronizer => 1,
        SetupAction::StartRemoteExecutor => 2,
        SetupAction::StartDomainNameListener => 3,
        SetupAction::InitializeCgroups => 4,
        SetupAction::CreateGuard => 5,
        SetupAction::StartMonitor => 6,
        SetupAction::RegisterHostMetrics => 7,
        SetupAction::StartLibvirtExtractor => 8,
        SetupAction::CreateSidecarPoller => 9,
        SetupAction::CreateApiWatcher => 10,
        SetupAction::StartPlatformSynchronizer => 11,
    }
}

/// Whether the set-up calls for an action: what speaks to a controller only where there is one.
pub open spec fn is_set_up(f: SetupFacts, a: SetupAction) -> bool {
    let managed = f.agent_mode == RunningMode::Managed;
    match a {
        SetupAction::FillKubernetesInfo => managed && f.in_kubernetes,
        SetupAction::StartRemoteExecutor => managed,
        SetupAction::StartPlatformSynchronizer => managed,
        SetupAction::InitializeCgroups => !f.in_container && f.kernel_has_cgroups
            && !f.cgroups_disabled,
        SetupAction::CreateSidecarPoller => f.sidecar_mode,
        _ => true,
    }
}

/// How many optional actions come before each part of the set-up.
spec fn places(f: SetupFacts) -> (int, int, int, int) {
    let managed = f.agent_mode == RunningMode::Managed;
    let k0: int = if managed && f.in_kubernetes {
        1
    } else {
        0
    };
    let k1: int = if managed {
        k0 + 2
    } else {
        k0 + 1
    };
    let k2: int = if !f.in_container && f.kernel_has_cgroups && !f.cgroups_disabled {
        k1 + 2
    } else {
        k1 + 1
    };
    let k3: int = if f.sidecar_mode {
        k2 + 5
    } else {
        k2 + 4
    };
    (k0, k1, k2, k3)
}

/// What stands where in the set-up.
spec fn stands_at(f: SetupFacts, i: int) -> SetupAction {
    let (k0, k1, k2, k3) = places(f);
    if i < k0 {
        SetupAction::FillKubernetesInfo
    } else if i == k0 {
        SetupAction::StartSynchronizer
    } else if i < k1 {
        SetupAction::StartRemoteExecutor
    } else if i == k1 {
        SetupAction::StartDomainNameListener
    } else if i < k2 {
        SetupAction::InitializeCgroups
    } else if i == k2 {
        SetupAction::CreateGuard
    } else if i == k2 + 1 {
        SetupAction::StartMonitor
    } else if i == k2 + 2 {
        SetupAction::RegisterHostMetrics
    } else if i == k2 + 3 {
        SetupAction::StartLibvirtExtractor
    } else if i < k3 {
        SetupAction::CreateSidecarPoller
    } else if i == k3 {
        SetupAction::CreateApiWatcher
    } else {
        SetupAction::StartPlatformSynchronizer
    }
}

proof fn lemma_setup(f: SetupFacts)
    ensures
        f.setup().len() == places(f).3 + (if f.agent_mode == RunningMode::Managed {
            2int
        } else {
            1int
        }),
        forall|i: int| 0 <= i < f.setup().len() ==> #[trigger] f.setup()[i] == stands_at(f, i),
{
    let managed = f.agent_mode == RunningMode::Managed;
    let head = (if managed && f.in_kubernetes {
        seq![SetupAction::FillKubernetesInfo]
    } else {
        seq![]
    }) + seq![SetupAction::StartSynchronizer] + (if managed {
        seq![SetupAction::StartRemoteExecutor]
    } else {
        seq![]
    }) + seq![SetupAction::StartDomainNameListener];
    let all = Seq::new(f.setup().len(), |i: int| stands_at(f, i));
    assert(head.len() == places(f).1 + 1);
    assert(f.setup() =~= all);
}

/// The set-up does what it calls for and nothing else, each thing once and in its turn.
pub proof fn the_set_up_does_what_it_calls_for(f: SetupFacts, action: SetupAction)
    ensures
        f.setup().contains(action) <==> is_set_up(f, action),
        forall|i: int, j: int|
            0 <= i < j < f.setup().len() ==> setup_turn(#[trigger] f.setup()[i]) < setup_turn(
                #[trigger] f.setup()[j],
            ),
        f.cgroups() == CgroupsChoice::Initialize <==> !f.in_container && f.kernel_has_cgroups
            && !f.cgroups_disabled,
        f.cgroups() == CgroupsChoice::InContainer <==> f.in_container,
        f.cgroups() == CgroupsChoice::Unavailable <==> !f.in_container && !f.kernel_has_cgroups,
{
    let a = f.setup();
    let (k0, k1, k2, k3) = places(f);
    lemma_setup(f);
    if is_set_up(f, action) {
        let i = match action {
            SetupAction::FillKubernetesInfo => 0,
            SetupAction::StartSynchronizer => k0,
            SetupAction::StartRemoteExecutor => k0 + 1,
            SetupAction::StartDomainNameListener => k1,
            SetupAction::InitializeCgroups => k1 + 1,
            SetupAction::CreateGuard => k2,
            SetupAction::StartMonitor => k2 + 1,
            SetupAction::RegisterHostMetrics => k2 + 2,
            SetupAction::StartLibvirtExtractor => k2 + 3,
            SetupAction::CreateSidecarPoller => k2 + 4,
            SetupAction::CreateApiWatcher => k3,
            SetupAction::StartPlatformSynchronizer => k3 + 1,
        };
        assert(a[i] == action);
    }
    if a.contains(action) {
        let i = choose|i: int| 0 <= i < a.len() && a[i] == action;
        assert(stands_at(f, i) == action);
    }
}

} // verus!
