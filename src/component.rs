//! The component side of the wire protocol: what a hosted process keeps of
//! the messages and snapshots it exchanges with the runner.
use vstd::prelude::*;

pub mod communication;
pub mod state;

verus! {

/// The services a component's work step is given.
pub struct Services {
    pub communication: communication::Manager,
    pub state: state::Manager,
}

impl Services {
    pub fn new() -> (r: Services)
        ensures
            r.communication.queues().is_empty(),
            r.communication.state.send_count == 0,
            r.communication.state.receive_count == 0,
            r.communication.outbox@.len() == 0,
            r.state.data@.len() == 0,
    {
        Services { communication: communication::Manager::new(), state: state::Manager::new() }
    }
}

} // verus!
