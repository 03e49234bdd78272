//! A partitioned time-triggered runtime: the decisions of the runner's control
//! loop, its wire format, and the reconfiguration state machine.
pub mod codec;
pub mod keyed;
pub mod types;
pub mod global_state;
pub mod scheduler;
pub mod communication;
pub mod state;
pub mod management;
pub mod timing;
pub mod component;
