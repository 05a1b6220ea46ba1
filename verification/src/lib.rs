//! Control core of an electric-vehicle charging station.
//!
//! The crate models the reactive state engine of a charge point: a state
//! store with change notification, a facade that turns external commands
//! into state mutations, and a dispatch planner that turns observed state
//! transitions into the protocol operations that must be sent to the
//! management server. All network, clock and runtime work is left to the
//! caller; the logic here is pure and verified.

mod charger;
mod config;
mod dispatch;
mod network_bridge;
mod outlet_map;
mod state;

pub use charger::Charger;
pub use charger::ChargerError;
pub use config::Config;
pub use config::OutletConfig;
pub use config::spec_initial_outlets;
pub use dispatch::apply_authorize_outcome;
pub use dispatch::AuthorizeStatus;
pub use dispatch::dispatch_plan;
pub use dispatch::handshake_response_action;
pub use dispatch::HandshakeAction;
pub use dispatch::heartbeat_due;
pub use dispatch::lemma_clear_tag_no_authorize;
pub use dispatch::lemma_diff_exact;
pub use dispatch::ops_view;
pub use dispatch::OpView;
pub use dispatch::ProtocolOp;
pub use dispatch::RegistrationResponse;
pub use dispatch::RegistrationStatus;
pub use dispatch::spec_aggregate_ops;
pub use dispatch::spec_authorize_ops;
pub use dispatch::spec_diff_ops;
pub use dispatch::spec_dispatch;
pub use dispatch::spec_heartbeat_due;
pub use dispatch::spec_initial_status_ops;
pub use network_bridge::NetworkBridge;
pub use outlet_map::outlet_state_eq;
pub use outlet_map::OutletMap;
pub use outlet_map::sorted_by_key;
pub use outlet_map::spec_get;
pub use outlet_map::spec_insert;
pub use state::aggregate_outlet_status;
pub use state::CHANNEL_CAPACITY;
pub use state::ChargePointStatus;
pub use state::ChargerState;
pub use state::lemma_aggregate_status;
pub use state::OutletState;
pub use state::Receiver;
pub use state::RecvResult;
pub use state::spec_aggregate_status;
pub use state::spec_charge_point_status;
pub use state::spec_outlet_status;
pub use state::State;
pub use state::state_eq;
pub use state::StateUpdate;
pub use state::StateView;
pub use state::tag_view;
pub use state::TransitionView;
pub use state::view_wf;
