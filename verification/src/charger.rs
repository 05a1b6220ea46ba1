//! The charger facade: external commands become state mutations.

use vstd::prelude::*;

use crate::config::Config;
use crate::network_bridge::NetworkBridge;
use crate::outlet_map::lemma_insert_changes;
use crate::outlet_map::lemma_insert_same;
use crate::outlet_map::spec_get;
use crate::outlet_map::spec_insert;
use crate::state::ChargerState;
use crate::state::OutletState;
use crate::state::State;
use crate::state::StateView;
use crate::state::TransitionView;

verus! {

/// Error returned when a command needs the charger to be connected to
/// the server and it is not.
#[derive(Clone, Copy, Debug, PartialEq, Eq, Structural)]
pub enum ChargerError {
    NotConnected,
}

impl ChargerError {
    /// The error text the station reports for this failure.
    pub fn message(&self) -> (r: &'static str)
        ensures
            r@ == "Charger is not connected to server"@,
    {
        "Charger is not connected to server"
    }
}

/// Translates external commands (boot, vehicle plugged in, tag
/// presented, shutdown) into mutations of the state store. It has no
/// protocol knowledge; the dispatch planner reacts to the transitions
/// the mutations publish.
pub struct Charger<N: NetworkBridge> {
    config: Config,
    state: State,
    bridge: N,
}

impl<N: NetworkBridge> Charger<N> {
    /// The store this charger drives.
    pub closed spec fn spec_state(&self) -> State {
        self.state
    }

    /// The static station description.
    pub closed spec fn spec_config(&self) -> Config {
        self.config
    }

    pub fn new(config: Config, state: State, bridge: N) -> (r: Self)
        ensures
            r.spec_state() == state,
            r.spec_config() == config,
    {
        Charger { config, state, bridge }
    }

    /// Read access to the store, for subscribing and reading snapshots.
    pub fn state(&self) -> (r: &State)
        ensures
            r == self.spec_state(),
    {
        &self.state
    }

    /// Exclusive access to the store, for the dispatch engine.
    pub fn state_mut(&mut self) -> (r: &mut State)
        ensures
            *r == old(self).spec_state(),
            final(self).spec_state() == *final(r),
            final(self).spec_config() == old(self).spec_config(),
    {
        &mut self.state
    }

    /// The static station description.
    pub fn config(&self) -> (r: &Config)
        ensures
            r == self.spec_config(),
    {
        &self.config
    }

    /// Shuts the session down by delegating to the network bridge; not a
    /// state mutation.
    pub fn disconnect(&self) -> Result<(), String> {
        self.bridge.disconnect()
    }

    /// Boots the charger: the state becomes `Booting` unconditionally,
    /// publishing one transition unless it already was `Booting`.
    pub fn startup(&mut self)
        requires
            old(self).spec_state().wf(),
            old(self).spec_state().transitions().len() < usize::MAX,
        ensures
            final(self).spec_state().wf(),
            final(self).spec_config() == old(self).spec_config(),
            final(self).spec_state().current() == StateView::Booting,
            final(self).spec_state().transitions() == if old(self).spec_state().current()
                == StateView::Booting {
                old(self).spec_state().transitions()
            } else {
                old(self).spec_state().transitions().push(
                    TransitionView {
                        from: old(self).spec_state().current(),
                        to: StateView::Booting,
                    },
                )
            },
    {
        let mutator = |s: ChargerState| -> (out: (ChargerState, ()))
            ensures
                out.0@ == StateView::Booting,
            { (ChargerState::Booting, ()) };
        self.state.update(mutator)
    }

    /// Marks a vehicle as plugged into `outlet_id`: while `Connected`,
    /// the outlet becomes `Preparing` (added to the map if it was
    /// unknown) and the command succeeds; in any other state the command
    /// fails and the state is untouched. A transition is published
    /// exactly when the outlet was not already `Preparing`.
    pub fn car_connected(&mut self, outlet_id: u64) -> (res: Result<(), ChargerError>)
        requires
            old(self).spec_state().wf(),
            old(self).spec_state().transitions().len() < usize::MAX,
        ensures
            final(self).spec_state().wf(),
            final(self).spec_config() == old(self).spec_config(),
            match old(self).spec_state().current() {
                StateView::Connected { heartbeat_interval, outlet_states, pending_rfid_tag } => {
                    &&& res is Ok
                    &&& final(self).spec_state().current() == (StateView::Connected {
                        heartbeat_interval,
                        outlet_states: spec_insert(
                            outlet_states,
                            outlet_id,
                            OutletState::Preparing,
                        ),
                        pending_rfid_tag,
                    })
                    &&& final(self).spec_state().transitions() == if spec_get(
                        outlet_states,
                        outlet_id,
                    ) == Some(OutletState::Preparing) {
                        old(self).spec_state().transitions()
                    } else {
                        old(self).spec_state().transitions().push(
                            TransitionView {
                                from: old(self).spec_state().current(),
                                to: final(self).spec_state().current(),
                            },
                        )
                    }
                },
                _ => {
                    &&& res == Err::<(), ChargerError>(ChargerError::NotConnected)
                    &&& final(self).spec_state().current() == old(self).spec_state().current()
                    &&& final(self).spec_state().transitions() == old(
                        self,
                    ).spec_state().transitions()
                },
            },
    {
        let mutator = |s: ChargerState| -> (out: (ChargerState, Result<(), ChargerError>))
            ensures
                match s@ {
                    StateView::Connected { heartbeat_interval, outlet_states, pending_rfid_tag } => {
                        &&& out.0@ == (StateView::Connected {
                            heartbeat_interval,
                            outlet_states: spec_insert(
                                outlet_states,
                                outlet_id,
                                OutletState::Preparing,
                            ),
                            pending_rfid_tag,
                        })
                        &&& out.1 is Ok
                    },
                    _ => out.0 == s && out.1 == Err::<(), ChargerError>(ChargerError::NotConnected),
                },
            {
                match s {
                    ChargerState::Connected {
                        heartbeat_interval,
                        mut outlet_states,
                        pending_rfid_tag,
                    } => {
                        outlet_states.insert(outlet_id, OutletState::Preparing);
                        (
                            ChargerState::Connected {
                                heartbeat_interval,
                                outlet_states,
                                pending_rfid_tag,
                            },
                            Ok(()),
                        )
                    },
                    other => (other, Err(ChargerError::NotConnected)),
                }
            };
        let res = self.state.update(mutator);
        proof {
            match old(self).spec_state().current() {
                StateView::Connected { heartbeat_interval, outlet_states, pending_rfid_tag } => {
                    if spec_get(outlet_states, outlet_id) == Some(OutletState::Preparing) {
                        lemma_insert_same(outlet_states, outlet_id, OutletState::Preparing);
                    } else {
                        lemma_insert_changes(outlet_states, outlet_id, OutletState::Preparing);
                    }
                },
                _ => {},
            }
        }
        res
    }

    /// Records a presented RFID tag: while `Connected`, the tag becomes
    /// the single pending authorization and the command succeeds; in any
    /// other state the command fails and the state is untouched. A
    /// transition is published exactly when that tag was not already
    /// pending.
    pub fn blip_rfid_tag(&mut self, tag: &str) -> (res: Result<(), ChargerError>)
        requires
            old(self).spec_state().wf(),
            old(self).spec_state().transitions().len() < usize::MAX,
        ensures
            final(self).spec_state().wf(),
            final(self).spec_config() == old(self).spec_config(),
            match old(self).spec_state().current() {
                StateView::Connected { heartbeat_interval, outlet_states, pending_rfid_tag } => {
                    &&& res is Ok
                    &&& final(self).spec_state().current() == (StateView::Connected {
                        heartbeat_interval,
                        outlet_states,
                        pending_rfid_tag: Some(tag@),
                    })
                    &&& final(self).spec_state().transitions() == if pending_rfid_tag == Some(
                        tag@,
                    ) {
                        old(self).spec_state().transitions()
                    } else {
                        old(self).spec_state().transitions().push(
                            TransitionView {
                                from: old(self).spec_state().current(),
                                to: final(self).spec_state().current(),
                            },
                        )
                    }
                },
                _ => {
                    &&& res == Err::<(), ChargerError>(ChargerError::NotConnected)
                    &&& final(self).spec_state().current() == old(self).spec_state().current()
                    &&& final(self).spec_state().transitions() == old(
                        self,
                    ).spec_state().transitions()
                },
            },
    {
        let mutator = |s: ChargerState| -> (out: (ChargerState, Result<(), ChargerError>))
            ensures
                match s@ {
                    StateView::Connected { heartbeat_interval, outlet_states, pending_rfid_tag } => {
                        &&& out.0@ == (StateView::Connected {
                            heartbeat_interval,
                            outlet_states,
                            pending_rfid_tag: Some(tag@),
                        })
                        &&& out.1 is Ok
                    },
                    _ => out.0 == s && out.1 == Err::<(), ChargerError>(ChargerError::NotConnected),
                },
            {
                match s {
                    ChargerState::Connected {
                        heartbeat_interval,
                        outlet_states,
                        pending_rfid_tag: _,
                    } => {
                        (
                            ChargerState::Connected {
                                heartbeat_interval,
                                outlet_states,
                                pending_rfid_tag: Some(tag.to_owned()),
                            },
                            Ok(()),
                        )
                    },
                    other => (other, Err(ChargerError::NotConnected)),
                }
            };
        self.state.update(mutator)
    }
}

} // verus!
