//! The management service: the reconfiguration state machine that consumes a
//! configuration's tasks, one step per period, and the actions it applies to
//! the global state. Slow work (loading a file, spawning or killing a process)
//! is handed to a background worker through a mailbox that the control thread
//! only ever try-locks.
use std::collections::{HashMap, HashSet};
use vstd::prelude::*;
use crate::global_state::{
    component_ready, frames_backed, frames_mention, syncs_advanced, GlobalState, GlobalStateView,
    ScheduleView,
};
use crate::types::{
    Action, AddComponentData, BlockingAction, BlockingData, ComponentView, Configuration,
    Implementation,
    LifecycleError, MajorFrame, MinorFrame, NonBlockingAction, NonBlockingData,
    RemoveComponentData, Schedule, SetScheduleData, StateSyncStatus, Task, WaitStateSyncData,
};

verus! {

broadcast use vstd::std_specs::hash::group_hash_axioms;

/// Progress of one non-blocking action; one transition per period.
#[derive(PartialEq, Eq, Structural, Clone, Copy, Debug)]
pub enum ActionState {
    Started,
    Running,
    Stopped,
    Completed,
}

/// The position of an action state in the order Started, Running, Stopped,
/// Completed.
pub open spec fn action_rank(s: ActionState) -> nat {
    match s {
        ActionState::Started => 0,
        ActionState::Running => 1,
        ActionState::Stopped => 2,
        ActionState::Completed => 3,
    }
}

/// A request to load a configuration file; the path is UTF-8 bytes.
#[derive(Debug)]
pub struct LoadConfiguration {
    pub path: Vec<u8>,
}

/// A request to spawn a component's process.
#[derive(Debug)]
pub struct AddComponentImplementation {
    pub component_id: u128,
    pub component: String,
    pub core: usize,
}

/// A request to kill a component's process, if it has one.
#[derive(Debug)]
pub struct RemoveComponentImplementation {
    pub component_id: u128,
    pub implementation: Option<Implementation>,
}

/// Work for the background worker.
#[derive(Debug)]
pub enum NonBlockingImplementationData {
    LoadConfiguration(LoadConfiguration),
    AddComponent(AddComponentImplementation),
    RemoveComponent(RemoveComponentImplementation),
}

/// What the control thread holds of the structures it shares with the
/// background worker during one period. Each is `None` when its lock could
/// not be taken. `signal` asks for the worker to be woken.
pub struct WorkerMailbox {
    pub actions: Option<Vec<NonBlockingImplementationData>>,
    pub done_configuration: Option<Option<Configuration>>,
    pub done_implement: Option<HashMap<u128, Implementation>>,
    pub done_remove: Option<HashSet<u128>>,
    pub signal: bool,
}

pub struct MailboxView {
    pub actions: Option<Seq<NonBlockingImplementationData>>,
    pub done_configuration: Option<Option<Configuration>>,
    pub done_implement: Option<Map<u128, Implementation>>,
    pub done_remove: Option<Set<u128>>,
    pub signal: bool,
}

impl View for WorkerMailbox {
    type V = MailboxView;

    open spec fn view(&self) -> MailboxView {
        MailboxView {
            actions: match self.actions {
                Some(q) => Some(q@),
                None => None,
            },
            done_configuration: self.done_configuration,
            done_implement: match self.done_implement {
                Some(m) => Some(m@),
                None => None,
            },
            done_remove: match self.done_remove {
                Some(s) => Some(s@),
                None => None,
            },
            signal: self.signal,
        }
    }
}

impl MailboxView {
    /// Queues a request for the worker and asks for it to be woken.
    pub open spec fn request(self, q: Seq<NonBlockingImplementationData>, x: NonBlockingImplementationData) -> MailboxView {
        MailboxView { actions: Some(q.push(x)), signal: true, ..self }
    }
}

/// The schedule that a `SetSchedule` action asks for.
pub open spec fn requested_schedule(d: SetScheduleData) -> ScheduleView {
    ScheduleView {
        period: d.deadline,
        frames: d.major_frames@.map_values(|f: MajorFrame| f.minor_frames@),
    }
}

/// What a blocking action does to the global state.
pub open spec fn blocking_effect(v: GlobalStateView, d: BlockingData) -> Result<
    GlobalStateView,
    LifecycleError,
> {
    match d {
        BlockingData::StartComponent(x) => v.start_component(x.component_id),
        BlockingData::StopComponent(x) => v.stop_component(x.component_id),
        BlockingData::AddRoute(x) => Ok(v.add_route(x.source, x.target)),
        BlockingData::RemoveRoute(x) => Ok(v.remove_route(x.source)),
        BlockingData::SetSchedule(x) => Ok(v.set_schedule(requested_schedule(x))),
        BlockingData::AddStateSync(x) => Ok(v.add_state_sync(x.state_sync_id, x.source, x.target)),
        BlockingData::RemoveStateSync(x) => Ok(v.remove_state_sync(x.state_sync_id)),
    }
}

/// The first `n` blocking actions applied in order, stopping at the first
/// error: the state reached and the error, if any.
pub open spec fn blocking_prefix(v: GlobalStateView, actions: Seq<BlockingAction>, n: nat) -> (
    GlobalStateView,
    Option<LifecycleError>,
)
    decreases n,
{
    if n == 0 {
        (v, None)
    } else {
        let p = blocking_prefix(v, actions, (n - 1) as nat);
        if p.1 is Some {
            p
        } else {
            match blocking_effect(p.0, actions[n - 1].data) {
                Ok(w) => (w, None),
                Err(e) => (p.0, Some(e)),
            }
        }
    }
}

fn copy_minor_frames(src: &Vec<MinorFrame>) -> (r: Vec<MinorFrame>)
    ensures
        r@ == src@,
{
    let mut out: Vec<MinorFrame> = Vec::new();
    let mut i: usize = 0;
    while i < src.len()
        invariant
            i <= src@.len(),
            out@ == src@.subrange(0, i as int),
        decreases src@.len() - i,
    {
        out.push(src[i]);
        i = i + 1;
        assert(out@ =~= src@.subrange(0, i as int));
    }
    assert(src@.subrange(0, src@.len() as int) =~= src@);
    out
}

fn copy_major_frames(src: &Vec<MajorFrame>) -> (r: Vec<MajorFrame>)
    ensures
        r@.map_values(|f: MajorFrame| f.minor_frames@) == src@.map_values(
            |f: MajorFrame| f.minor_frames@,
        ),
{
    let mut out: Vec<MajorFrame> = Vec::new();
    let mut i: usize = 0;
    while i < src.len()
        invariant
            i <= src@.len(),
            out@.len() == i,
            forall|k: int| 0 <= k < i ==> (#[trigger] out@[k]).minor_frames@ == src@[k].minor_frames@,
        decreases src@.len() - i,
    {
        let minor = copy_minor_frames(&src[i].minor_frames);
        out.push(MajorFrame { minor_frames: minor });
        i = i + 1;
    }
    assert(out@.map_values(|f: MajorFrame| f.minor_frames@) =~= src@.map_values(
        |f: MajorFrame| f.minor_frames@,
    ));
    out
}

/// Applies one blocking action to the global state. Starting or stopping an
/// unknown component, or starting one without implementation, is an error
/// and changes nothing; a schedule naming a component that is missing or
/// without implementation is ignored.
pub fn execute_blocking(state: &mut GlobalState, data: &BlockingData) -> (r: Result<
    (),
    LifecycleError,
>)
    requires
        old(state).inv(),
    ensures
        final(state).inv(),
        match blocking_effect(old(state)@, *data) {
            Ok(w) => r is Ok && final(state)@ == w,
            Err(e) => r == Err::<(), LifecycleError>(e) && final(state)@ == old(state)@,
        },
{
    match data {
        BlockingData::StartComponent(x) => state.start_component(x.component_id),
        BlockingData::StopComponent(x) => state.stop_component(x.component_id),
        BlockingData::AddRoute(x) => {
            state.add_route(x.source, x.target);
            Ok(())
        },
        BlockingData::RemoveRoute(x) => {
            state.remove_route(x.source);
            Ok(())
        },
        BlockingData::SetSchedule(x) => {
            let frames = copy_major_frames(&x.major_frames);
            let schedule = Schedule { period: x.deadline, major_frames: frames };
            assert(crate::global_state::schedule_view(schedule) == requested_schedule(*x));
            let _ = state.set_schedule(schedule);
            Ok(())
        },
        BlockingData::AddStateSync(x) => {
            state.add_state_sync(x.state_sync_id, x.source, x.target);
            Ok(())
        },
        BlockingData::RemoveStateSync(x) => {
            state.remove_state_sync(x.state_sync_id);
            Ok(())
        },
    }
}

/// Applies a group of blocking actions in order, within one period, stopping
/// at the first error.
pub fn execute_blocking_group(state: &mut GlobalState, actions: &Vec<BlockingAction>) -> (r: Result<
    (),
    LifecycleError,
>)
    requires
        old(state).inv(),
    ensures
        final(state).inv(),
        ({
            let p = blocking_prefix(old(state)@, actions@, actions@.len());
            &&& final(state)@ == p.0
            &&& match p.1 {
                None => r is Ok,
                Some(e) => r == Err::<(), LifecycleError>(e),
            }
        }),
{
    let mut i: usize = 0;
    while i < actions.len()
        invariant
            i <= actions@.len(),
            state.inv(),
            blocking_prefix(old(state)@, actions@, i as nat) == (state@, None::<LifecycleError>),
        decreases actions@.len() - i,
    {
        let r = execute_blocking(state, &actions[i].data);
        match r {
            Ok(()) => {},
            Err(e) => {
                assert(blocking_prefix(old(state)@, actions@, (i + 1) as nat) == (state@, Some(e)));
                proof {
                    lemma_blocking_prefix_stops(old(state)@, actions@, (i + 1) as nat);
                }
                return Err(e);
            },
        }
        i = i + 1;
    }
    Ok(())
}

/// Once a prefix of blocking actions has failed, longer prefixes fail the same way.
proof fn lemma_blocking_prefix_stops(v: GlobalStateView, actions: Seq<BlockingAction>, n: nat)
    requires
        blocking_prefix(v, actions, n).1 is Some,
        n <= actions.len(),
    ensures
        blocking_prefix(v, actions, actions.len()) == blocking_prefix(v, actions, n),
    decreases actions.len() - n,
{
    if n < actions.len() {
        assert(blocking_prefix(v, actions, (n + 1) as nat) == blocking_prefix(v, actions, n));
        lemma_blocking_prefix_stops(v, actions, (n + 1) as nat);
    }
}

/// The result of one period's step of a non-blocking action.
pub struct Outcome {
    pub state: GlobalStateView,
    pub mailbox: MailboxView,
    pub status: ActionState,
    pub error: Option<LifecycleError>,
}

/// Adding a component: insert a skeleton, then ask the worker to spawn it,
/// then attach the implementation once the worker has produced it.
pub open spec fn add_component_step(
    v: GlobalStateView,
    mb: MailboxView,
    st: ActionState,
    d: AddComponentData,
) -> Outcome {
    let id = d.component_id;
    let same = Outcome { state: v, mailbox: mb, status: st, error: None };
    match st {
        ActionState::Started => Outcome {
            state: v.add_component(id, d.component, d.core),
            status: ActionState::Running,
            ..same
        },
        ActionState::Running => match mb.actions {
            Some(q) => Outcome {
                mailbox: mb.request(
                    q,
                    NonBlockingImplementationData::AddComponent(
                        AddComponentImplementation {
                            component_id: id,
                            component: d.component,
                            core: d.core,
                        },
                    ),
                ),
                status: ActionState::Stopped,
                ..same
            },
            None => same,
        },
        ActionState::Stopped => match mb.done_implement {
            Some(m) => if m.contains_key(id) {
                let mb2 = MailboxView { done_implement: Some(m.remove(id)), ..mb };
                match v.add_component_implementation(id, m[id]) {
                    Ok(w) => Outcome {
                        state: w,
                        mailbox: mb2,
                        status: ActionState::Completed,
                        error: None,
                    },
                    Err(e) => Outcome { mailbox: mb2, error: Some(e), ..same },
                }
            } else {
                same
            },
            None => same,
        },
        ActionState::Completed => same,
    }
}

/// Removing a component: mark it, then hand its implementation to the worker
/// to kill, then delete it once the worker reports the kill.
pub open spec fn remove_component_step(
    v: GlobalStateView,
    mb: MailboxView,
    st: ActionState,
    d: RemoveComponentData,
) -> Outcome {
    let id = d.component_id;
    let same = Outcome { state: v, mailbox: mb, status: st, error: None };
    match st {
        ActionState::Started => match v.remove_component(id) {
            Ok(w) => Outcome { state: w, status: ActionState::Running, ..same },
            Err(e) => Outcome { error: Some(e), ..same },
        },
        ActionState::Running => match mb.actions {
            Some(q) => match v.remove_component_implementation(id) {
                Ok(w) => Outcome {
                    state: w,
                    mailbox: mb.request(
                        q,
                        NonBlockingImplementationData::RemoveComponent(
                            RemoveComponentImplementation {
                                component_id: id,
                                implementation: v.components[id].implementation,
                            },
                        ),
                    ),
                    status: ActionState::Stopped,
                    error: None,
                },
                Err(e) => Outcome { error: Some(e), ..same },
            },
            None => same,
        },
        ActionState::Stopped => match mb.done_remove {
            Some(s) => if s.contains(id) {
                let mb2 = MailboxView { done_remove: Some(s.remove(id)), ..mb };
                match v.delete_component(id) {
                    Ok(w) => Outcome {
                        state: w,
                        mailbox: mb2,
                        status: ActionState::Completed,
                        error: None,
                    },
                    Err(e) => Outcome { mailbox: mb2, error: Some(e), ..same },
                }
            } else {
                same
            },
            None => same,
        },
        ActionState::Completed => same,
    }
}

/// Waiting on a state sync: start it, then wait until it is synced. The
/// state reached, the action's next state, and the error, if any.
pub open spec fn wait_state_sync_effect(v: GlobalStateView, st: ActionState, d: WaitStateSyncData) -> (
    GlobalStateView,
    ActionState,
    Option<LifecycleError>,
) {
    let id = d.state_sync_id;
    match st {
        ActionState::Started => match v.advance_state_sync(id, StateSyncStatus::Started) {
            Ok(w) => (w, ActionState::Running, None),
            Err(e) => (v, st, Some(e)),
        },
        ActionState::Running => if !v.state_syncs.contains_key(id) {
            (v, st, Some(LifecycleError::UnknownStateSync(id)))
        } else if v.state_syncs[id].status == StateSyncStatus::Synced {
            (v, ActionState::Completed, None)
        } else {
            (v, st, None)
        },
        _ => (v, st, None),
    }
}

pub open spec fn nonblocking_step(
    v: GlobalStateView,
    mb: MailboxView,
    st: ActionState,
    d: NonBlockingData,
) -> Outcome {
    match d {
        NonBlockingData::AddComponent(x) => add_component_step(v, mb, st, x),
        NonBlockingData::RemoveComponent(x) => remove_component_step(v, mb, st, x),
        NonBlockingData::WaitStateSync(x) => {
            let e = wait_state_sync_effect(v, st, x);
            Outcome { state: e.0, mailbox: mb, status: e.1, error: e.2 }
        },
    }
}

/// One period's step of a whole non-blocking group.
pub struct GroupOutcome {
    pub state: GlobalStateView,
    pub mailbox: MailboxView,
    pub statuses: Seq<ActionState>,
    pub error: Option<LifecycleError>,
}

/// The first `n` actions of a group stepped in order, stopping at the first error.
pub open spec fn nonblocking_prefix(
    v: GlobalStateView,
    mb: MailboxView,
    statuses: Seq<ActionState>,
    actions: Seq<NonBlockingAction>,
    n: nat,
) -> GroupOutcome
    decreases n,
{
    if n == 0 {
        GroupOutcome { state: v, mailbox: mb, statuses, error: None }
    } else {
        let p = nonblocking_prefix(v, mb, statuses, actions, (n - 1) as nat);
        if p.error is Some {
            p
        } else {
            let o = nonblocking_step(p.state, p.mailbox, p.statuses[n - 1], actions[n - 1].data);
            GroupOutcome {
                state: o.state,
                mailbox: o.mailbox,
                statuses: p.statuses.update(n - 1, o.status),
                error: o.error,
            }
        }
    }
}

pub open spec fn all_completed(statuses: Seq<ActionState>) -> bool {
    forall|i: int| 0 <= i < statuses.len() ==> #[trigger] statuses[i] == ActionState::Completed
}

fn mailbox_request(mailbox: &mut WorkerMailbox, x: NonBlockingImplementationData) -> (r: bool)
    ensures
        r == old(mailbox)@.actions is Some,
        match old(mailbox)@.actions {
            Some(q) => final(mailbox)@ == old(mailbox)@.request(q, x),
            None => final(mailbox)@ == old(mailbox)@,
        },
{
    match mailbox.actions.take() {
        Some(mut q) => {
            q.push(x);
            mailbox.actions = Some(q);
            mailbox.signal = true;
            true
        },
        None => false,
    }
}

/// One period's step of an `AddComponent` action.
pub fn add_component(
    state: &mut GlobalState,
    action_status: &mut ActionState,
    mailbox: &mut WorkerMailbox,
    data: &AddComponentData,
) -> (r: Result<(), LifecycleError>)
    requires
        old(state).inv(),
    ensures
        final(state).inv(),
        ({
            let o = add_component_step(old(state)@, old(mailbox)@, *old(action_status), *data);
            &&& final(state)@ == o.state
            &&& final(mailbox)@ == o.mailbox
            &&& *final(action_status) == o.status
            &&& match o.error {
                None => r is Ok,
                Some(e) => r == Err::<(), LifecycleError>(e),
            }
        }),
{
    let id = data.component_id;
    match *action_status {
        ActionState::Started => {
            state.add_component(id, data.component.clone(), data.core);
            *action_status = ActionState::Running;
            Ok(())
        },
        ActionState::Running => {
            let request = NonBlockingImplementationData::AddComponent(
                AddComponentImplementation {
                    component_id: id,
                    component: data.component.clone(),
                    core: data.core,
                },
            );
            if mailbox_request(mailbox, request) {
                *action_status = ActionState::Stopped;
            }
            Ok(())
        },
        ActionState::Stopped => {
            match mailbox.done_implement.take() {
                Some(mut m) => {
                    match m.remove(&id) {
                        Some(imp) => {
                            mailbox.done_implement = Some(m);
                            let r = state.add_component_implementation(id, imp);
                            if r.is_ok() {
                                *action_status = ActionState::Completed;
                            }
                            r
                        },
                        None => {
                            assert(m@ =~= old(mailbox).done_implement->Some_0@);
                            mailbox.done_implement = Some(m);
                            Ok(())
                        },
                    }
                },
                None => Ok(()),
            }
        },
        ActionState::Completed => Ok(()),
    }
}

/// One period's step of a `RemoveComponent` action.
pub fn remove_component(
    state: &mut GlobalState,
    action_status: &mut ActionState,
    mailbox: &mut WorkerMailbox,
    data: &RemoveComponentData,
) -> (r: Result<(), LifecycleError>)
    requires
        old(state).inv(),
    ensures
        final(state).inv(),
        ({
            let o = remove_component_step(old(state)@, old(mailbox)@, *old(action_status), *data);
            &&& final(state)@ == o.state
            &&& final(mailbox)@ == o.mailbox
            &&& *final(action_status) == o.status
            &&& match o.error {
                None => r is Ok,
                Some(e) => r == Err::<(), LifecycleError>(e),
            }
        }),
{
    let id = data.component_id;
    match *action_status {
        ActionState::Started => {
            let r = state.remove_component(id);
            if r.is_ok() {
                *action_status = ActionState::Running;
            }
            r
        },
        ActionState::Running => {
            if mailbox.actions.is_none() {
                return Ok(());
            }
            match state.remove_component_implementation(id) {
                Ok(implementation) => {
                    let request = NonBlockingImplementationData::RemoveComponent(
                        RemoveComponentImplementation { component_id: id, implementation },
                    );
                    let _ = mailbox_request(mailbox, request);
                    *action_status = ActionState::Stopped;
                    Ok(())
                },
                Err(e) => Err(e),
            }
        },
        ActionState::Stopped => {
            match mailbox.done_remove.take() {
                Some(mut s) => {
                    if s.remove(&id) {
                        mailbox.done_remove = Some(s);
                        let r = state.delete_component(id);
                        if r.is_ok() {
                            *action_status = ActionState::Completed;
                        }
                        r
                    } else {
                        assert(s@ =~= old(mailbox).done_remove->Some_0@);
                        mailbox.done_remove = Some(s);
                        Ok(())
                    }
                },
                None => Ok(()),
            }
        },
        ActionState::Completed => Ok(()),
    }
}

/// One period's step of a `WaitStateSync` action.
pub fn wait_state_sync(
    state: &mut GlobalState,
    action_status: &mut ActionState,
    data: &WaitStateSyncData,
) -> (r: Result<(), LifecycleError>)
    requires
        old(state).inv(),
    ensures
        final(state).inv(),
        crate::global_state::syncs_advanced(old(state)@.state_syncs, final(state)@.state_syncs),
        ({
            let e = wait_state_sync_effect(old(state)@, *old(action_status), *data);
            &&& final(state)@ == e.0
            &&& *final(action_status) == e.1
            &&& match e.2 {
                None => r is Ok,
                Some(x) => r == Err::<(), LifecycleError>(x),
            }
        }),
{
    let id = data.state_sync_id;
    match *action_status {
        ActionState::Started => {
            let r = state.set_state_sync_status(id, StateSyncStatus::Started);
            if r.is_ok() {
                *action_status = ActionState::Running;
            }
            r
        },
        ActionState::Running => {
            match state.get_state_sync_status(id) {
                Some(StateSyncStatus::Synced) => {
                    *action_status = ActionState::Completed;
                    Ok(())
                },
                Some(_) => Ok(()),
                None => Err(LifecycleError::UnknownStateSync(id)),
            }
        },
        _ => Ok(()),
    }
}

/// One period's step of any non-blocking action.
pub fn execute_non_blocking(
    state: &mut GlobalState,
    action_status: &mut ActionState,
    mailbox: &mut WorkerMailbox,
    data: &NonBlockingData,
) -> (r: Result<(), LifecycleError>)
    requires
        old(state).inv(),
    ensures
        final(state).inv(),
        ({
            let o = nonblocking_step(old(state)@, old(mailbox)@, *old(action_status), *data);
            &&& final(state)@ == o.state
            &&& final(mailbox)@ == o.mailbox
            &&& *final(action_status) == o.status
            &&& match o.error {
                None => r is Ok,
                Some(e) => r == Err::<(), LifecycleError>(e),
            }
        }),
{
    match data {
        NonBlockingData::AddComponent(x) => add_component(state, action_status, mailbox, x),
        NonBlockingData::RemoveComponent(x) => remove_component(state, action_status, mailbox, x),
        NonBlockingData::WaitStateSync(x) => wait_state_sync(state, action_status, x),
    }
}

/// Steps every action of a blocked non-blocking group once, in order,
/// stopping at the first error.
fn step_group(
    state: &mut GlobalState,
    statuses: &mut Vec<ActionState>,
    mailbox: &mut WorkerMailbox,
    actions: &Vec<NonBlockingAction>,
) -> (r: Result<(), LifecycleError>)
    requires
        old(state).inv(),
        old(statuses)@.len() == actions@.len(),
    ensures
        final(state).inv(),
        ({
            let g = nonblocking_prefix(
                old(state)@,
                old(mailbox)@,
                old(statuses)@,
                actions@,
                actions@.len(),
            );
            &&& final(state)@ == g.state
            &&& final(mailbox)@ == g.mailbox
            &&& final(statuses)@ == g.statuses
            &&& match g.error {
                None => r is Ok,
                Some(e) => r == Err::<(), LifecycleError>(e),
            }
        }),
{
    let mut i: usize = 0;
    while i < actions.len()
        invariant
            i <= actions@.len(),
            statuses@.len() == actions@.len(),
            state.inv(),
            nonblocking_prefix(old(state)@, old(mailbox)@, old(statuses)@, actions@, i as nat)
                == (GroupOutcome {
                state: state@,
                mailbox: mailbox@,
                statuses: statuses@,
                error: None,
            }),
        decreases actions@.len() - i,
    {
        let mut st = statuses[i];
        let r = execute_non_blocking(state, &mut st, mailbox, &actions[i].data);
        statuses.set(i, st);
        match r {
            Ok(()) => {},
            Err(e) => {
                proof {
                    lemma_nonblocking_prefix_stops(
                        old(state)@,
                        old(mailbox)@,
                        old(statuses)@,
                        actions@,
                        (i + 1) as nat,
                    );
                }
                return Err(e);
            },
        }
        i = i + 1;
    }
    Ok(())
}

/// Once a prefix of a group has failed, longer prefixes fail the same way.
proof fn lemma_nonblocking_prefix_stops(
    v: GlobalStateView,
    mb: MailboxView,
    statuses: Seq<ActionState>,
    actions: Seq<NonBlockingAction>,
    n: nat,
)
    requires
        nonblocking_prefix(v, mb, statuses, actions, n).error is Some,
        n <= actions.len(),
    ensures
        nonblocking_prefix(v, mb, statuses, actions, actions.len()) == nonblocking_prefix(
            v,
            mb,
            statuses,
            actions,
            n,
        ),
    decreases actions.len() - n,
{
    if n < actions.len() {
        assert(nonblocking_prefix(v, mb, statuses, actions, (n + 1) as nat) == nonblocking_prefix(
            v,
            mb,
            statuses,
            actions,
            n,
        ));
        lemma_nonblocking_prefix_stops(v, mb, statuses, actions, (n + 1) as nat);
    }
}

/// Stepping a group keeps one status per action.
proof fn lemma_nonblocking_prefix_len(
    v: GlobalStateView,
    mb: MailboxView,
    statuses: Seq<ActionState>,
    actions: Seq<NonBlockingAction>,
    n: nat,
)
    requires
        n <= statuses.len(),
    ensures
        nonblocking_prefix(v, mb, statuses, actions, n).statuses.len() == statuses.len(),
    decreases n,
{
    if n > 0 {
        lemma_nonblocking_prefix_len(v, mb, statuses, actions, (n - 1) as nat);
    }
}

fn all_done(statuses: &Vec<ActionState>) -> (r: bool)
    ensures
        r == all_completed(statuses@),
{
    let mut i: usize = 0;
    while i < statuses.len()
        invariant
            i <= statuses@.len(),
            forall|k: int| 0 <= k < i ==> #[trigger] statuses@[k] == ActionState::Completed,
        decreases statuses@.len() - i,
    {
        if statuses[i] != ActionState::Completed {
            return false;
        }
        i = i + 1;
    }
    true
}

/// The top-level state of the reconfiguration state machine.
pub enum ManagementState {
    Idle,
    Waiting { configuration: Vec<u8> },
    Loading,
    Running {
        current_task: usize,
        tasks: Vec<Task>,
        blocked: bool,
        action_status: Vec<ActionState>,
    },
}

/// Where a running configuration goes next: its next task, or Idle after the last.
pub enum Phase {
    Idle,
    Running { current_task: nat, blocked: bool, action_status: Seq<ActionState> },
}

/// The state machine after a step from `Running`, as a phase over the same tasks.
pub open spec fn in_phase(s: ManagementState, tasks: Vec<Task>, p: Phase) -> bool {
    match p {
        Phase::Idle => s is Idle,
        Phase::Running { current_task: c, blocked: b, action_status: a } => match s {
            ManagementState::Running { current_task, tasks: t, blocked, action_status } => {
                &&& current_task == c
                &&& t == tasks
                &&& blocked == b
                &&& action_status@ == a
            },
            _ => false,
        },
    }
}

/// What a step of a running configuration does: the next phase, the state,
/// the mailbox, and the lifecycle error, if any.
pub struct RunningOutcome {
    pub phase: Phase,
    pub state: GlobalStateView,
    pub mailbox: MailboxView,
    pub error: Option<LifecycleError>,
}

/// The phase after the task at `cursor` is done.
pub open spec fn advanced(cursor: nat, n_tasks: nat) -> Phase {
    if cursor + 1 < n_tasks {
        Phase::Running { current_task: cursor + 1, blocked: false, action_status: Seq::empty() }
    } else {
        Phase::Idle
    }
}

/// One step of a running configuration. A blocking group runs whole and
/// the cursor moves on. A non-blocking group is registered on its first
/// visit (every action Started) and stepped on later visits until every
/// action is Completed; a group with no actions is done at once.
pub open spec fn running_step(
    v: GlobalStateView,
    mb: MailboxView,
    cursor: nat,
    tasks: Seq<Task>,
    blocked: bool,
    statuses: Seq<ActionState>,
) -> RunningOutcome {
    let stay = RunningOutcome {
        phase: Phase::Running { current_task: cursor, blocked, action_status: statuses },
        state: v,
        mailbox: mb,
        error: None,
    };
    match tasks[cursor as int].actions {
        Action::Blocking(actions) => if blocked {
            stay
        } else {
            let p = blocking_prefix(v, actions@, actions@.len());
            match p.1 {
                None => RunningOutcome { phase: advanced(cursor, tasks.len()), state: p.0, ..stay },
                Some(e) => RunningOutcome { state: p.0, error: Some(e), ..stay },
            }
        },
        Action::NonBlocking(actions) => if blocked {
            let g = nonblocking_prefix(v, mb, statuses, actions@, actions@.len());
            let phase = if g.error is None && all_completed(g.statuses) {
                advanced(cursor, tasks.len())
            } else {
                Phase::Running { current_task: cursor, blocked: true, action_status: g.statuses }
            };
            RunningOutcome { phase, state: g.state, mailbox: g.mailbox, error: g.error }
        } else if actions@.len() == 0 {
            RunningOutcome { phase: advanced(cursor, tasks.len()), ..stay }
        } else {
            RunningOutcome {
                phase: Phase::Running {
                    current_task: cursor,
                    blocked: true,
                    action_status: Seq::new(actions@.len(), |i: int| ActionState::Started),
                },
                ..stay
            }
        },
    }
}

/// The state after the terminate channel is polled: a message on channel 0
/// is taken and sets `done`.
pub open spec fn after_terminate(v: GlobalStateView) -> GlobalStateView {
    if v.inbox(0).len() > 0 {
        GlobalStateView { done: true, ..v.pop_message(0) }
    } else {
        v
    }
}

pub struct ManagementService {
    pub state: ManagementState,
}

impl ManagementService {
    /// A running configuration points at one of its tasks, and a blocked
    /// one is a non-blocking group with one status per action.
    pub open spec fn inv(&self) -> bool {
        match self.state {
            ManagementState::Running { current_task, tasks, blocked, action_status } => {
                &&& current_task < tasks@.len()
                &&& blocked ==> match tasks@[current_task as int].actions {
                    Action::NonBlocking(a) => action_status@.len() == a@.len(),
                    Action::Blocking(_) => false,
                }
            },
            _ => true,
        }
    }

    /// A service that first loads the configuration at `configuration`.
    pub fn new(configuration: Vec<u8>) -> (r: ManagementService)
        ensures
            r.inv(),
            r.state matches ManagementState::Waiting { configuration: c } && c == configuration,
    {
        ManagementService { state: ManagementState::Waiting { configuration } }
    }

    /// One period of the management service.
    pub fn run(&mut self, state: &mut GlobalState, mailbox: &mut WorkerMailbox) -> (r: Result<
        (),
        LifecycleError,
    >)
        requires
            old(state).inv(),
            old(self).inv(),
        ensures
            final(state).inv(),
            final(self).inv(),
            ({
                let v = after_terminate(old(state)@);
                let mb = old(mailbox)@;
                match old(self).state {
                    ManagementState::Idle => {
                        &&& r is Ok
                        &&& final(mailbox)@ == mb
                        &&& if v.inbox(1).len() > 0 {
                            &&& final(state)@ == v.pop_message(1)
                            &&& final(self).state matches ManagementState::Waiting {
                                configuration,
                            } && configuration@ == v.inbox(1)[0].data
                        } else {
                            final(state)@ == v && final(self).state is Idle
                        }
                    },
                    ManagementState::Waiting { configuration } => {
                        &&& r is Ok
                        &&& final(state)@ == v
                        &&& match mb.actions {
                            Some(q) => {
                                &&& final(mailbox)@ == mb.request(
                                    q,
                                    NonBlockingImplementationData::LoadConfiguration(
                                        LoadConfiguration { path: configuration },
                                    ),
                                )
                                &&& final(self).state is Loading
                            },
                            None => final(mailbox)@ == mb && final(self).state == old(self).state,
                        }
                    },
                    ManagementState::Loading => {
                        &&& r is Ok
                        &&& final(state)@ == v
                        &&& match mb.done_configuration {
                            Some(Some(cfg)) => {
                                &&& final(mailbox)@ == MailboxView {
                                    done_configuration: Some(None),
                                    ..mb
                                }
                                &&& if cfg.tasks@.len() == 0 {
                                    final(self).state is Idle
                                } else {
                                    final(self).state matches ManagementState::Running {
                                        current_task,
                                        tasks,
                                        blocked,
                                        action_status,
                                    } && current_task == 0 && tasks == cfg.tasks && !blocked
                                        && action_status@.len() == 0
                                }
                            },
                            _ => final(mailbox)@ == mb && final(self).state is Loading,
                        }
                    },
                    ManagementState::Running { current_task, tasks, blocked, action_status } => {
                        let o = running_step(
                            v,
                            mb,
                            current_task as nat,
                            tasks@,
                            blocked,
                            action_status@,
                        );
                        &&& final(state)@ == o.state
                        &&& final(mailbox)@ == o.mailbox
                        &&& in_phase(final(self).state, tasks, o.phase)
                        &&& match o.error {
                            None => r is Ok,
                            Some(e) => r == Err::<(), LifecycleError>(e),
                        }
                    },
                }
            }),
    {
        match state.get_message(0) {
            Some(_) => state.set_done(true),
            None => {},
        }
        let mut current = ManagementState::Idle;
        std::mem::swap(&mut self.state, &mut current);
        match current {
            ManagementState::Idle => {
                match state.get_message(1) {
                    Some(m) => {
                        self.state = ManagementState::Waiting { configuration: m.data };
                    },
                    None => {},
                }
                Ok(())
            },
            ManagementState::Waiting { configuration } => {
                if mailbox.actions.is_some() {
                    let request = NonBlockingImplementationData::LoadConfiguration(
                        LoadConfiguration { path: configuration },
                    );
                    let _ = mailbox_request(mailbox, request);
                    self.state = ManagementState::Loading;
                } else {
                    self.state = ManagementState::Waiting { configuration };
                }
                Ok(())
            },
            ManagementState::Loading => {
                match mailbox.done_configuration.take() {
                    Some(Some(cfg)) => {
                        mailbox.done_configuration = Some(None);
                        if cfg.tasks.len() == 0 {
                            self.state = ManagementState::Idle;
                        } else {
                            self.state = ManagementState::Running {
                                current_task: 0,
                                tasks: cfg.tasks,
                                blocked: false,
                                action_status: Vec::new(),
                            };
                        }
                    },
                    other => {
                        mailbox.done_configuration = other;
                        self.state = ManagementState::Loading;
                    },
                }
                Ok(())
            },
            ManagementState::Running { current_task, tasks, blocked, action_status } => {
                self.run_task(state, mailbox, current_task, tasks, blocked, action_status)
            },
        }
    }

    fn run_task(
        &mut self,
        state: &mut GlobalState,
        mailbox: &mut WorkerMailbox,
        current_task: usize,
        tasks: Vec<Task>,
        blocked: bool,
        action_status: Vec<ActionState>,
    ) -> (r: Result<(), LifecycleError>)
        requires
            old(state).inv(),
            current_task < tasks@.len(),
            blocked ==> match tasks@[current_task as int].actions {
                Action::NonBlocking(a) => action_status@.len() == a@.len(),
                Action::Blocking(_) => false,
            },
        ensures
            final(state).inv(),
            final(self).inv(),
            ({
                let o = running_step(
                    old(state)@,
                    old(mailbox)@,
                    current_task as nat,
                    tasks@,
                    blocked,
                    action_status@,
                );
                &&& final(state)@ == o.state
                &&& final(mailbox)@ == o.mailbox
                &&& in_phase(final(self).state, tasks, o.phase)
                &&& match o.error {
                    None => r is Ok,
                    Some(e) => r == Err::<(), LifecycleError>(e),
                }
            }),
    {
        let mut statuses = action_status;
        let mut now_blocked = blocked;
        let mut result: Result<(), LifecycleError> = Ok(());
        match &tasks[current_task].actions {
            Action::Blocking(actions) => {
                if !blocked {
                    result = execute_blocking_group(state, actions);
                }
            },
            Action::NonBlocking(actions) => {
                if blocked {
                    result = step_group(state, &mut statuses, mailbox, actions);
                    proof {
                        lemma_nonblocking_prefix_len(
                            old(state)@,
                            old(mailbox)@,
                            action_status@,
                            actions@,
                            actions@.len(),
                        );
                    }
                    if result.is_ok() && all_done(&statuses) {
                        now_blocked = false;
                    }
                } else if actions.len() > 0 {
                    let mut fresh: Vec<ActionState> = Vec::new();
                    let mut i: usize = 0;
                    while i < actions.len()
                        invariant
                            i <= actions@.len(),
                            fresh@ == Seq::new(i as nat, |k: int| ActionState::Started),
                        decreases actions@.len() - i,
                    {
                        fresh.push(ActionState::Started);
                        i = i + 1;
                        assert(fresh@ =~= Seq::new(i as nat, |k: int| ActionState::Started));
                    }
                    statuses = fresh;
                    now_blocked = true;
                }
            },
        }
        if result.is_err() || now_blocked {
            self.state = ManagementState::Running {
                current_task,
                tasks,
                blocked: now_blocked,
                action_status: statuses,
            };
        } else if current_task < tasks.len() - 1 {
            self.state = ManagementState::Running {
                current_task: current_task + 1,
                tasks,
                blocked: false,
                action_status: Vec::new(),
            };
        } else {
            self.state = ManagementState::Idle;
        }
        result
    }
}

/// Every blocking action, except one that re-creates a state sync that
/// already exists, leaves each state sync's status where it was or further
/// along Created, Started, Synced.
pub proof fn lemma_blocking_syncs_forward(v: GlobalStateView, d: BlockingData)
    requires
        !(d matches BlockingData::AddStateSync(x) && v.state_syncs.contains_key(x.state_sync_id)),
    ensures
        blocking_effect(v, d) matches Ok(w) ==> syncs_advanced(v.state_syncs, w.state_syncs),
{
}

/// Every step of a non-blocking action leaves each state sync's status where
/// it was or further along.
pub proof fn lemma_nonblocking_syncs_forward(
    v: GlobalStateView,
    mb: MailboxView,
    st: ActionState,
    d: NonBlockingData,
)
    ensures
        syncs_advanced(v.state_syncs, nonblocking_step(v, mb, st, d).state.state_syncs),
{
}

/// A step of a non-blocking action never moves its state back.
proof fn lemma_step_forward(v: GlobalStateView, mb: MailboxView, st: ActionState, d: NonBlockingData)
    ensures
        action_rank(st) <= action_rank(nonblocking_step(v, mb, st, d).status),
{
}

proof fn lemma_prefix_forward(
    v: GlobalStateView,
    mb: MailboxView,
    statuses: Seq<ActionState>,
    actions: Seq<NonBlockingAction>,
    n: nat,
)
    requires
        n <= statuses.len(),
        n <= actions.len(),
    ensures
        nonblocking_prefix(v, mb, statuses, actions, n).statuses.len() == statuses.len(),
        forall|i: int|
            0 <= i < statuses.len() ==> action_rank(#[trigger] statuses[i]) <= action_rank(
                nonblocking_prefix(v, mb, statuses, actions, n).statuses[i],
            ),
    decreases n,
{
    if n > 0 {
        lemma_prefix_forward(v, mb, statuses, actions, (n - 1) as nat);
        let p = nonblocking_prefix(v, mb, statuses, actions, (n - 1) as nat);
        if p.error is None {
            lemma_step_forward(p.state, p.mailbox, p.statuses[n - 1], actions[n - 1].data);
        }
    }
}

/// While a non-blocking group is blocked, a step never registers its
/// actions afresh: if the configuration stays on that task, the group stays
/// blocked, keeps one state per action, and no action's state moves back.
pub proof fn lemma_blocked_group_not_merged(
    v: GlobalStateView,
    mb: MailboxView,
    cursor: nat,
    tasks: Seq<Task>,
    statuses: Seq<ActionState>,
)
    requires
        cursor < tasks.len(),
        tasks[cursor as int].actions matches Action::NonBlocking(a) && statuses.len() == a@.len(),
    ensures
        match running_step(v, mb, cursor, tasks, true, statuses).phase {
            Phase::Running { current_task, blocked, action_status } => current_task == cursor ==> {
                &&& blocked
                &&& action_status.len() == statuses.len()
                &&& forall|i: int|
                    0 <= i < statuses.len() ==> action_rank(#[trigger] statuses[i]) <= action_rank(
                        action_status[i],
                    )
            },
            Phase::Idle => true,
        },
{
    match tasks[cursor as int].actions {
        Action::NonBlocking(a) => {
            lemma_prefix_forward(v, mb, statuses, a@, a@.len());
        },
        Action::Blocking(_) => {},
    }
}

proof fn lemma_backed_after_insert(
    components: Map<u128, ComponentView>,
    frames: Seq<Seq<MinorFrame>>,
    id: u128,
    c: ComponentView,
)
    requires
        frames_backed(components, frames),
        c.implementation is Some || !frames_mention(frames, id),
    ensures
        frames_backed(components.insert(id, c), frames),
{
    assert forall|i: int, j: int| 0 <= i < frames.len() && 0 <= j < frames[i].len() implies component_ready(
        components.insert(id, c),
        #[trigger] frames[i][j].component_id,
    ) by {
        assert(component_ready(components, frames[i][j].component_id));
    }
}

proof fn lemma_backed_after_remove(
    components: Map<u128, ComponentView>,
    frames: Seq<Seq<MinorFrame>>,
    id: u128,
)
    requires
        frames_backed(components, frames),
        !frames_mention(frames, id),
    ensures
        frames_backed(components.remove(id), frames),
{
    assert forall|i: int, j: int| 0 <= i < frames.len() && 0 <= j < frames[i].len() implies component_ready(
        components.remove(id),
        #[trigger] frames[i][j].component_id,
    ) by {
        assert(component_ready(components, frames[i][j].component_id));
    }
}

/// Every blocking action keeps each component named in the schedule backed
/// by an implementation.
pub proof fn lemma_blocking_keeps_schedule_backed(v: GlobalStateView, d: BlockingData)
    requires
        v.schedule_backed(),
    ensures
        blocking_effect(v, d) matches Ok(w) ==> w.schedule_backed(),
{
    match d {
        BlockingData::StartComponent(x) => {
            let id = x.component_id;
            if v.components.contains_key(id) && v.components[id].implementation is Some {
                lemma_backed_after_insert(
                    v.components,
                    v.schedule.frames,
                    id,
                    ComponentView { run: true, ..v.components[id] },
                );
            }
        },
        BlockingData::StopComponent(x) => {
            let id = x.component_id;
            if v.components.contains_key(id) {
                let c = ComponentView { run: false, ..v.components[id] };
                if c.implementation is None {
                    assert(!frames_mention(v.schedule.frames, id));
                }
                lemma_backed_after_insert(v.components, v.schedule.frames, id, c);
            }
        },
        _ => {},
    }
}

/// The component that a non-blocking action adds, removes, or none.
pub open spec fn action_component(d: NonBlockingData) -> Option<u128> {
    match d {
        NonBlockingData::AddComponent(x) => Some(x.component_id),
        NonBlockingData::RemoveComponent(x) => Some(x.component_id),
        NonBlockingData::WaitStateSync(_) => None,
    }
}

/// A step of a non-blocking action keeps each component named in the
/// schedule backed by an implementation, unless the action adds or removes
/// a component that the schedule names.
pub proof fn lemma_nonblocking_keeps_schedule_backed(
    v: GlobalStateView,
    mb: MailboxView,
    st: ActionState,
    d: NonBlockingData,
)
    requires
        v.schedule_backed(),
        action_component(d) matches Some(id) ==> !frames_mention(v.schedule.frames, id),
    ensures
        nonblocking_step(v, mb, st, d).state.schedule_backed(),
{
    match d {
        NonBlockingData::AddComponent(x) => {
            let id = x.component_id;
            match st {
                ActionState::Started => {
                    lemma_backed_after_insert(
                        v.components,
                        v.schedule.frames,
                        id,
                        crate::global_state::skeleton(x.component, x.core),
                    );
                },
                ActionState::Stopped => {
                    if v.components.contains_key(id) {
                        match mb.done_implement {
                            Some(m) => if m.contains_key(id) {
                                lemma_backed_after_insert(
                                    v.components,
                                    v.schedule.frames,
                                    id,
                                    ComponentView {
                                        implementation: Some(m[id]),
                                        ..v.components[id]
                                    },
                                );
                            },
                            None => {},
                        }
                    }
                },
                _ => {},
            }
        },
        NonBlockingData::RemoveComponent(x) => {
            let id = x.component_id;
            if v.components.contains_key(id) {
                lemma_backed_after_insert(
                    v.components,
                    v.schedule.frames,
                    id,
                    ComponentView { remove: true, run: false, ..v.components[id] },
                );
                lemma_backed_after_insert(
                    v.components,
                    v.schedule.frames,
                    id,
                    ComponentView { implementation: None, run: false, ..v.components[id] },
                );
                lemma_backed_after_remove(v.components, v.schedule.frames, id);
            }
        },
        NonBlockingData::WaitStateSync(_) => {},
    }
}

} // verus!
