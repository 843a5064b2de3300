//! Whether the agent runs, and the configuration that waits to be taken up.
use super::config::UserConfig;
use vstd::prelude::*;

verus! {

/// Whether a controller manages the agent.
#[derive(Clone, Copy, PartialEq, Eq, Debug, Structural)]
pub enum RunningMode {
    /// A controller manages it.
    Managed,
    /// It goes by its local configuration alone.
    Standalone,
}

impl Default for RunningMode {
    fn default() -> (r: Self)
        ensures
            r == RunningMode::Managed,
    {
        RunningMode::Managed
    }
}

/// What makes up the state: whether the agent is enabled, and whether it is melted down.
#[derive(Copy, Clone, Debug, PartialEq, Eq, Structural)]
pub struct InnerState {
    pub enabled: bool,
    pub melted_down: bool,
}

impl Default for InnerState {
    fn default() -> (r: Self)
        ensures
            r == (InnerState { enabled: false, melted_down: true }),
    {
        InnerState { enabled: false, melted_down: true }
    }
}

/// The state of the agent.
#[derive(Debug, PartialEq, Eq, Structural, Clone, Copy)]
pub enum State {
    Running,
    Terminated,
    /// By configuration, or by a meltdown.
    Disabled,
}

impl InnerState {
    /// The agent runs when it is enabled and not melted down.
    pub open spec fn state(self) -> State {
        if self.enabled && !self.melted_down {
            State::Running
        } else {
            State::Disabled
        }
    }
}

impl vstd::std_specs::convert::FromSpecImpl<InnerState> for State {
    open spec fn obeys_from_spec() -> bool {
        true
    }

    open spec fn from_spec(state: InnerState) -> State {
        state.state()
    }
}

impl From<InnerState> for State {
    fn from(state: InnerState) -> (r: State) {
        if state.enabled && !state.melted_down {
            State::Running
        } else {
            State::Disabled
        }
    }
}

/// A configuration that the agent is to take up.
#[derive(Debug)]
pub struct ChangedConfig {
    pub user_config: UserConfig,
    pub blacklist: Vec<u64>,
    pub vm_mac_addrs: Vec<u64>,
    pub gateway_vmac_addrs: Vec<u64>,
    /// The capture network types, each in its wire form.
    pub tap_types: Vec<Vec<u8>>,
}

/// The state that the agent's threads share. Each operation says whether the main loop is to be
/// woken.
pub struct AgentState {
    pub terminated: bool,
    pub state: InnerState,
    pub pending: Option<ChangedConfig>,
}

impl Default for AgentState {
    fn default() -> (r: Self)
        ensures
            !r.terminated,
            r.state == (InnerState { enabled: false, melted_down: true }),
            r.pending is None,
    {
        AgentState { terminated: false, state: InnerState::default(), pending: None }
    }
}

/// What a change of the inner state does: nothing but a wake-up once the agent is terminated,
/// and a wake-up where the state changes.
pub open spec fn changed(before: AgentState, after: AgentState, to: InnerState, wake: bool) -> bool {
    &&& after.terminated == before.terminated
    &&& after.pending == before.pending
    &&& if before.terminated {
        after.state == before.state && wake
    } else {
        after.state == to && (wake <==> before.state.state() != to.state())
    }
}

impl AgentState {
    pub fn get(&self) -> (r: State)
        ensures
            r == self.state.state(),
    {
        State::from(self.state)
    }

    fn set(&mut self, to: InnerState) -> (wake: bool)
        ensures
            changed(*old(self), *final(self), to, wake),
    {
        if self.terminated {
            return true;
        }
        let old_state = State::from(self.state);
        self.state = to;
        let new_state = State::from(self.state);
        old_state != new_state
    }

    /// Enables the agent.
    pub fn enable(&mut self) -> (wake: bool)
        ensures
            changed(
                *old(self),
                *final(self),
                (InnerState { enabled: true, ..old(self).state }),
                wake,
            ),
    {
        self.set(InnerState { enabled: true, melted_down: self.state.melted_down })
    }

    /// Disables the agent.
    pub fn disable(&mut self) -> (wake: bool)
        ensures
            changed(
                *old(self),
                *final(self),
                (InnerState { enabled: false, ..old(self).state }),
                wake,
            ),
    {
        self.set(InnerState { enabled: false, melted_down: self.state.melted_down })
    }

    /// Notes a meltdown, which disables the agent.
    pub fn melt_down(&mut self) -> (wake: bool)
        ensures
            changed(
                *old(self),
                *final(self),
                (InnerState { melted_down: true, ..old(self).state }),
                wake,
            ),
    {
        self.set(InnerState { enabled: self.state.enabled, melted_down: true })
    }

    /// Notes the end of a meltdown.
    pub fn recover(&mut self) -> (wake: bool)
        ensures
            changed(
                *old(self),
                *final(self),
                (InnerState { melted_down: false, ..old(self).state }),
                wake,
            ),
    {
        self.set(InnerState { enabled: self.state.enabled, melted_down: false })
    }

    /// Puts a configuration in place of the one that waits.
    pub fn update_config(&mut self, config: ChangedConfig) -> (wake: bool)
        ensures
            wake,
            final(self).terminated == old(self).terminated,
            if old(self).terminated {
                *final(self) == *old(self)
            } else {
                &&& final(self).state == (InnerState {
                    enabled: config.user_config.enabled,
                    ..old(self).state
                })
                &&& final(self).pending == Some(config)
            },
    {
        if self.terminated {
            return true;
        }
        self.state.enabled = config.user_config.enabled;
        self.pending = Some(config);
        true
    }

    /// Puts a user configuration into the configuration that waits, or into a new one that holds
    /// nothing else.
    pub fn update_partial_config(&mut self, user_config: UserConfig) -> (wake: bool)
        ensures
            wake,
            final(self).terminated == old(self).terminated,
            if old(self).terminated {
                *final(self) == *old(self)
            } else {
                &&& final(self).state == (InnerState {
                    enabled: user_config.enabled,
                    ..old(self).state
                })
                &&& final(self).pending matches Some(config) && config.user_config == user_config
                    && match old(self).pending {
                    Some(waiting) => config == (ChangedConfig { user_config, ..waiting }),
                    None => config.blacklist@.len() == 0 && config.vm_mac_addrs@.len() == 0
                        && config.gateway_vmac_addrs@.len() == 0 && config.tap_types@.len() == 0,
                }
            },
    {
        if self.terminated {
            return true;
        }
        self.state.enabled = user_config.enabled;
        let config = match self.pending.take() {
            Some(waiting) => ChangedConfig {
                user_config,
                blacklist: waiting.blacklist,
                vm_mac_addrs: waiting.vm_mac_addrs,
                gateway_vmac_addrs: waiting.gateway_vmac_addrs,
                tap_types: waiting.tap_types,
            },
            None => ChangedConfig {
                user_config,
                blacklist: Vec::new(),
                vm_mac_addrs: Vec::new(),
                gateway_vmac_addrs: Vec::new(),
                tap_types: Vec::new(),
            },
        };
        self.pending = Some(config);
        true
    }
}

/// A meltdown that ends leaves the agent as it was before, if it was not melted down already;
/// and what is done a second time changes nothing and wakes nobody.
pub proof fn meltdown_and_recovery(
    before: AgentState,
    melted: AgentState,
    after: AgentState,
    w1: bool,
    w2: bool,
)
    requires
        !before.terminated,
        changed(before, melted, (InnerState { melted_down: true, ..before.state }), w1),
        changed(melted, after, (InnerState { melted_down: false, ..melted.state }), w2),
    ensures
        melted.state.state() == State::Disabled,
        !before.state.melted_down ==> after == before,
        before.state.melted_down ==> !w1,
{
}

/// A terminated agent's state never changes, and the main loop is always woken.
pub proof fn terminated_state_is_final(
    before: AgentState,
    after: AgentState,
    to: InnerState,
    wake: bool,
)
    requires
        before.terminated,
        changed(before, after, to, wake),
    ensures
        after == before,
        wake,
{
}

/// The main loop is woken exactly when the agent begins or ceases to run, and what waits to be taken
/// up is not touched.
pub proof fn the_loop_is_woken_when_running_changes(
    before: AgentState,
    after: AgentState,
    to: InnerState,
    wake: bool,
)
    requires
        changed(before, after, to, wake),
        !before.terminated,
    ensures
        after.state.enabled == to.enabled && after.state.melted_down == to.melted_down,
        after.pending == before.pending,
        !after.terminated,
        wake <==> (before.state.enabled && !before.state.melted_down) != (to.enabled
            && !to.melted_down),
{
}

} // verus!
