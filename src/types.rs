//! Endpoints, schedules, components, state syncs and the configuration's
//! tasks and actions. Identifiers are 128-bit UUIDs held as `u128`; times are
//! microseconds.
use vstd::prelude::*;

verus! {

/// A UDP peer: an IPv4 or IPv6 address (as an integer) and a port.
#[derive(PartialEq, Eq, Structural, Clone, Copy, Debug, Hash)]
pub enum PeerAddr {
    V4(u32, u16),
    V6(u128, u16),
}

/// Where a message comes from or goes to.
#[derive(PartialEq, Eq, Structural, Clone, Copy, Debug, Hash)]
pub enum Endpoint {
    Component(u128),
    Address(PeerAddr),
    Runner,
}

/// An endpoint together with a channel.
#[derive(PartialEq, Eq, Structural, Clone, Copy, Debug, Hash)]
pub struct RouteEndpoint {
    pub endpoint: Endpoint,
    pub channel_id: u32,
}

/// A unidirectional binding from a source to a target.
#[derive(PartialEq, Eq, Structural, Clone, Copy, Debug)]
pub struct Route {
    pub source: RouteEndpoint,
    pub target: RouteEndpoint,
}

/// The scheduling slot of one component, with its deadline in microseconds.
#[derive(PartialEq, Eq, Structural, Clone, Copy, Debug)]
pub struct MinorFrame {
    pub component_id: u128,
    pub deadline: u64,
}

/// One period's ordered minor frames.
#[derive(Clone, Debug)]
pub struct MajorFrame {
    pub minor_frames: Vec<MinorFrame>,
}

/// A cyclic schedule: the period in microseconds and its major frames.
#[derive(Clone, Debug)]
pub struct Schedule {
    pub period: u64,
    pub major_frames: Vec<MajorFrame>,
}

/// The OS side of a running component, as the runner refers to it: the
/// process id of its child, under which its process and sockets are held.
#[derive(PartialEq, Eq, Structural, Clone, Copy, Debug)]
pub struct Implementation {
    pub child_pid: i32,
}

/// A hosted component.
#[derive(Debug)]
pub struct Component {
    pub run: bool,
    pub remove: bool,
    pub path: String,
    pub core: usize,
    pub implementation: Option<Implementation>,
    pub times: Vec<u64>,
}

/// A component as plain values.
pub struct ComponentView {
    pub run: bool,
    pub remove: bool,
    pub path: String,
    pub core: usize,
    pub implementation: Option<Implementation>,
    pub times: Seq<u64>,
}

impl View for Component {
    type V = ComponentView;

    open spec fn view(&self) -> ComponentView {
        ComponentView {
            run: self.run,
            remove: self.remove,
            path: self.path,
            core: self.core,
            implementation: self.implementation,
            times: self.times@,
        }
    }
}

/// A component named by a state sync.
#[derive(PartialEq, Eq, Structural, Clone, Copy, Debug)]
pub struct StateEndpoint {
    pub component_id: u128,
}

/// Progress of a state sync; it only ever moves forward.
#[derive(PartialEq, Eq, Structural, Clone, Copy, Debug)]
pub enum StateSyncStatus {
    Created,
    Started,
    Synced,
}

/// The position of a status in the order Created, Started, Synced.
pub open spec fn status_rank(s: StateSyncStatus) -> nat {
    match s {
        StateSyncStatus::Created => 0,
        StateSyncStatus::Started => 1,
        StateSyncStatus::Synced => 2,
    }
}

/// A copy path from one component's snapshot to another component.
#[derive(PartialEq, Eq, Structural, Clone, Copy, Debug)]
pub struct StateSync {
    pub id: u128,
    pub source: StateEndpoint,
    pub target: StateEndpoint,
    pub status: StateSyncStatus,
}

/// A configuration: tasks, consumed one per period.
#[derive(Clone, Debug)]
pub struct Configuration {
    pub tasks: Vec<Task>,
}

#[derive(Clone, Debug)]
pub struct Task {
    pub id: u128,
    pub actions: Action,
}

/// A group of actions: all blocking or all non-blocking.
#[derive(Clone, Debug)]
pub enum Action {
    Blocking(Vec<BlockingAction>),
    NonBlocking(Vec<NonBlockingAction>),
}

#[derive(Clone, Debug)]
pub struct BlockingAction {
    pub id: u128,
    pub data: BlockingData,
}

#[derive(Clone, Debug)]
pub struct NonBlockingAction {
    pub id: u128,
    pub data: NonBlockingData,
}

#[derive(Clone, Debug)]
pub enum BlockingData {
    StartComponent(StartComponentData),
    StopComponent(StopComponentData),
    AddRoute(AddRouteData),
    RemoveRoute(RemoveRouteData),
    SetSchedule(SetScheduleData),
    AddStateSync(AddStateSyncData),
    RemoveStateSync(RemoveStateSyncData),
}

#[derive(Clone, Debug)]
pub enum NonBlockingData {
    AddComponent(AddComponentData),
    RemoveComponent(RemoveComponentData),
    WaitStateSync(WaitStateSyncData),
}

#[derive(Clone, Debug)]
pub struct AddComponentData {
    pub component_id: u128,
    pub component: String,
    pub core: usize,
    pub version: String,
}

#[derive(PartialEq, Eq, Structural, Clone, Copy, Debug)]
pub struct StartComponentData {
    pub component_id: u128,
}

#[derive(PartialEq, Eq, Structural, Clone, Copy, Debug)]
pub struct StopComponentData {
    pub component_id: u128,
}

#[derive(PartialEq, Eq, Structural, Clone, Copy, Debug)]
pub struct RemoveComponentData {
    pub component_id: u128,
}

#[derive(PartialEq, Eq, Structural, Clone, Copy, Debug)]
pub struct AddRouteData {
    pub source: RouteEndpoint,
    pub target: RouteEndpoint,
}

#[derive(PartialEq, Eq, Structural, Clone, Copy, Debug)]
pub struct RemoveRouteData {
    pub source: RouteEndpoint,
}

/// A new schedule: `deadline` is the major period in microseconds.
#[derive(Clone, Debug)]
pub struct SetScheduleData {
    pub deadline: u64,
    pub major_frames: Vec<MajorFrame>,
}

#[derive(PartialEq, Eq, Structural, Clone, Copy, Debug)]
pub struct AddStateSyncData {
    pub state_sync_id: u128,
    pub source: StateEndpoint,
    pub target: StateEndpoint,
}

#[derive(PartialEq, Eq, Structural, Clone, Copy, Debug)]
pub struct RemoveStateSyncData {
    pub state_sync_id: u128,
}

#[derive(PartialEq, Eq, Structural, Clone, Copy, Debug)]
pub struct WaitStateSyncData {
    pub state_sync_id: u128,
}

/// A violation of the component or state-sync lifecycle: fatal for the runner.
#[derive(PartialEq, Eq, Structural, Clone, Copy, Debug)]
pub enum LifecycleError {
    UnknownComponent(u128),
    UninitializedComponent(u128),
    UnknownStateSync(u128),
}

} // verus!
