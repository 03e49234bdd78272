//! The runner's world state, owned by the control thread, and the
//! lifecycle operations on it.
use std::collections::HashMap;
use vstd::prelude::*;
use crate::codec::{Message, MessageView};
use crate::keyed::{
    has_key, keyed_map, lemma_keyed_absent, lemma_keyed_index, lemma_keyed_push,
    lemma_keyed_remove, lemma_keyed_update, unique_keys,
};
use crate::types::{
    Component, ComponentView, Implementation, LifecycleError, MajorFrame, MinorFrame, Route, RouteEndpoint, Schedule,
    StateEndpoint, StateSync, StateSyncStatus, status_rank,
};

verus! {

broadcast use vstd::std_specs::hash::group_hash_axioms;

/// The key function of the route table.
pub open spec fn route_key() -> spec_fn(Route) -> RouteEndpoint {
    |r: Route| r.source
}

/// The key function of the state-sync table.
pub open spec fn sync_key() -> spec_fn(StateSync) -> u128 {
    |s: StateSync| s.id
}

/// A component that exists and has an implementation.
pub open spec fn component_ready(components: Map<u128, ComponentView>, id: u128) -> bool {
    components.contains_key(id) && components[id].implementation is Some
}

/// Every minor frame of `frames` names a ready component.
pub open spec fn frames_backed(components: Map<u128, ComponentView>, frames: Seq<Seq<MinorFrame>>) -> bool {
    forall|i: int, j: int|
        0 <= i < frames.len() && 0 <= j < frames[i].len() ==> component_ready(
            components,
            #[trigger] frames[i][j].component_id,
        )
}

/// Some minor frame of `frames` names component `id`.
pub open spec fn frames_mention(frames: Seq<Seq<MinorFrame>>, id: u128) -> bool {
    exists|i: int, j: int|
        0 <= i < frames.len() && 0 <= j < frames[i].len() && #[trigger] frames[i][j].component_id
            == id
}

/// A schedule as plain values: the period and each major frame's minor frames.
pub struct ScheduleView {
    pub period: u64,
    pub frames: Seq<Seq<MinorFrame>>,
}

pub open spec fn schedule_view(s: Schedule) -> ScheduleView {
    ScheduleView {
        period: s.period,
        frames: s.major_frames@.map_values(|f: MajorFrame| f.minor_frames@),
    }
}

/// No state sync present in both maps has moved backwards.
pub open spec fn syncs_advanced(before: Map<u128, StateSync>, after: Map<u128, StateSync>) -> bool {
    forall|id: u128|
        before.contains_key(id) && after.contains_key(id) ==> status_rank(
            #[trigger] before[id].status,
        ) <= status_rank(after[id].status)
}

/// The later of two statuses.
pub open spec fn later_status(a: StateSyncStatus, b: StateSyncStatus) -> StateSyncStatus {
    if status_rank(a) >= status_rank(b) {
        a
    } else {
        b
    }
}

/// The views of a queue's messages.
pub open spec fn queue_view(q: Seq<Message>) -> Seq<MessageView> {
    q.map_values(|m: Message| m@)
}

/// A freshly added component: not running, not removed, with no
/// implementation and an empty invocation log.
pub open spec fn skeleton(path: String, core: usize) -> ComponentView {
    ComponentView {
        run: false,
        remove: false,
        path,
        core,
        implementation: None,
        times: Seq::empty(),
    }
}

/// The global state as mathematical values.
pub struct GlobalStateView {
    pub components: Map<u128, ComponentView>,
    pub routes: Map<RouteEndpoint, RouteEndpoint>,
    pub schedule: ScheduleView,
    pub messages: Map<u32, Seq<MessageView>>,
    pub state_syncs: Map<u128, StateSync>,
    pub done: bool,
    pub schedule_changed: bool,
}

/// What an operation that may fail did: on success the state became the
/// expected one; on failure it is unchanged and the error is the expected one.
pub open spec fn applied(
    before: GlobalStateView,
    after: GlobalStateView,
    r: Result<(), LifecycleError>,
    expected: Result<GlobalStateView, LifecycleError>,
) -> bool {
    match expected {
        Ok(v) => r is Ok && after == v,
        Err(e) => r == Err::<(), LifecycleError>(e) && after == before,
    }
}

impl GlobalStateView {
    /// Every running component has an implementation.
    pub open spec fn run_backed(self) -> bool {
        forall|id: u128|
            self.components.contains_key(id) && (#[trigger] self.components[id]).run
                ==> self.components[id].implementation is Some
    }

    /// Every component in the current schedule has an implementation.
    pub open spec fn schedule_backed(self) -> bool {
        frames_backed(self.components, self.schedule.frames)
    }

    pub open spec fn with_component(self, id: u128, c: ComponentView) -> GlobalStateView {
        GlobalStateView { components: self.components.insert(id, c), ..self }
    }

    pub open spec fn add_component(self, id: u128, path: String, core: usize) -> GlobalStateView {
        self.with_component(id, skeleton(path, core))
    }


    pub open spec fn start_component(self, id: u128) -> Result<GlobalStateView, LifecycleError> {
        if !self.components.contains_key(id) {
            Err(LifecycleError::UnknownComponent(id))
        } else if self.components[id].implementation is None {
            Err(LifecycleError::UninitializedComponent(id))
        } else {
            Ok(self.with_component(id, ComponentView { run: true, ..self.components[id] }))
        }
    }

    pub open spec fn stop_component(self, id: u128) -> Result<GlobalStateView, LifecycleError> {
        if !self.components.contains_key(id) {
            Err(LifecycleError::UnknownComponent(id))
        } else {
            Ok(self.with_component(id, ComponentView { run: false, ..self.components[id] }))
        }
    }

    pub open spec fn add_component_implementation(self, id: u128, i: Implementation) -> Result<
        GlobalStateView,
        LifecycleError,
    > {
        if !self.components.contains_key(id) {
            Err(LifecycleError::UnknownComponent(id))
        } else {
            Ok(self.with_component(id, ComponentView { implementation: Some(i), ..self.components[id] }))
        }
    }

    pub open spec fn remove_component(self, id: u128) -> Result<GlobalStateView, LifecycleError> {
        if !self.components.contains_key(id) {
            Err(LifecycleError::UnknownComponent(id))
        } else {
            Ok(
                self.with_component(
                    id,
                    ComponentView { remove: true, run: false, ..self.components[id] },
                ),
            )
        }
    }

    pub open spec fn remove_component_implementation(self, id: u128) -> Result<
        GlobalStateView,
        LifecycleError,
    > {
        if !self.components.contains_key(id) {
            Err(LifecycleError::UnknownComponent(id))
        } else {
            Ok(
                self.with_component(
                    id,
                    ComponentView { implementation: None, run: false, ..self.components[id] },
                ),
            )
        }
    }

    pub open spec fn delete_component(self, id: u128) -> Result<GlobalStateView, LifecycleError> {
        if !self.components.contains_key(id) {
            Err(LifecycleError::UnknownComponent(id))
        } else {
            Ok(GlobalStateView { components: self.components.remove(id), ..self })
        }
    }

    pub open spec fn add_route(self, source: RouteEndpoint, target: RouteEndpoint) -> GlobalStateView {
        GlobalStateView { routes: self.routes.insert(source, target), ..self }
    }

    pub open spec fn remove_route(self, source: RouteEndpoint) -> GlobalStateView {
        GlobalStateView { routes: self.routes.remove(source), ..self }
    }

    /// Whether a schedule may replace the current one.
    pub open spec fn accepts_schedule(self, s: ScheduleView) -> bool {
        frames_backed(self.components, s.frames)
    }

    pub open spec fn set_schedule(self, s: ScheduleView) -> GlobalStateView {
        if self.accepts_schedule(s) {
            GlobalStateView { schedule: s, schedule_changed: true, ..self }
        } else {
            self
        }
    }

    /// The runner's queue on a channel; empty where nothing was ever queued.
    pub open spec fn inbox(self, channel: u32) -> Seq<MessageView> {
        if self.messages.contains_key(channel) {
            self.messages[channel]
        } else {
            Seq::empty()
        }
    }

    pub open spec fn push_message(self, channel: u32, m: MessageView) -> GlobalStateView {
        GlobalStateView {
            messages: self.messages.insert(channel, self.inbox(channel).push(m)),
            ..self
        }
    }

    /// Takes the oldest message of a channel, if there is one.
    pub open spec fn pop_message(self, channel: u32) -> GlobalStateView {
        if self.inbox(channel).len() == 0 {
            self
        } else {
            GlobalStateView {
                messages: self.messages.insert(channel, self.inbox(channel).drop_first()),
                ..self
            }
        }
    }

    pub open spec fn add_state_sync(self, id: u128, source: StateEndpoint, target: StateEndpoint) -> GlobalStateView {
        GlobalStateView {
            state_syncs: self.state_syncs.insert(
                id,
                StateSync { id, source, target, status: StateSyncStatus::Created },
            ),
            ..self
        }
    }

    pub open spec fn remove_state_sync(self, id: u128) -> GlobalStateView {
        GlobalStateView { state_syncs: self.state_syncs.remove(id), ..self }
    }

    pub open spec fn advance_state_sync(self, id: u128, status: StateSyncStatus) -> Result<
        GlobalStateView,
        LifecycleError,
    > {
        if !self.state_syncs.contains_key(id) {
            Err(LifecycleError::UnknownStateSync(id))
        } else {
            let s = self.state_syncs[id];
            Ok(
                GlobalStateView {
                    state_syncs: self.state_syncs.insert(
                        id,
                        StateSync { status: later_status(s.status, status), ..s },
                    ),
                    ..self
                },
            )
        }
    }
}

/// Process-wide state of the runner.
pub struct GlobalState {
    pub components: HashMap<u128, Component>,
    pub routes: Vec<Route>,
    pub schedule: Schedule,
    pub messages: HashMap<u32, Vec<Message>>,
    pub state_sync: Vec<StateSync>,
    pub schedule_changed: bool,
    pub done: bool,
}

impl View for GlobalState {
    type V = GlobalStateView;

    open spec fn view(&self) -> GlobalStateView {
        GlobalStateView {
            components: self.components@.map_values(|c: Component| c@),
            routes: keyed_map(self.routes@, route_key()).map_values(|r: Route| r.target),
            schedule: schedule_view(self.schedule),
            messages: self.messages@.map_values(|q: Vec<Message>| queue_view(q@)),
            state_syncs: keyed_map(self.state_sync@, sync_key()),
            done: self.done,
            schedule_changed: self.schedule_changed,
        }
    }
}

impl GlobalState {
    /// Well-formedness: route sources and sync ids are unique, and every
    /// running component has an implementation.
    pub open spec fn inv(&self) -> bool {
        &&& unique_keys(self.routes@, route_key())
        &&& unique_keys(self.state_sync@, sync_key())
        &&& self@.run_backed()
    }

    pub fn new() -> (r: GlobalState)
        ensures
            r.inv(),
            r@.components.is_empty(),
            r@.routes.is_empty(),
            r@.messages.is_empty(),
            r@.state_syncs.is_empty(),
            r@.schedule.period == 1000,
            r@.schedule.frames.len() == 0,
            !r@.done,
            !r@.schedule_changed,
    {
        let r = GlobalState {
            components: HashMap::new(),
            routes: Vec::new(),
            schedule: Schedule { period: 1000, major_frames: Vec::new() },
            messages: HashMap::new(),
            state_sync: Vec::new(),
            schedule_changed: false,
            done: false,
        };
        assert(r@.routes =~= Map::empty());
        assert(r@.messages =~= Map::empty());
        assert(r@.state_syncs =~= Map::empty());
        r
    }

    pub fn get_done(&self) -> (r: bool)
        ensures
            r == self@.done,
    {
        self.done
    }

    pub fn set_done(&mut self, done: bool)
        requires
            old(self).inv(),
        ensures
            final(self).inv(),
            final(self)@ == (GlobalStateView { done, ..old(self)@ }),
    {
        self.done = done;
    }


    pub fn get_component(&self, id: u128) -> (r: Option<&Component>)
        ensures
            match r {
                Some(c) => self@.components.contains_key(id) && self@.components[id] == c@,
                None => !self@.components.contains_key(id),
            },
    {
        self.components.get(&id)
    }

    pub fn total_components(&self) -> (r: usize)
        ensures
            r == self@.components.len(),
    {
        assert(self@.components.dom() =~= self.components@.dom());
        self.components.len()
    }

    /// Inserts a skeleton component under `id`, replacing any component
    /// already there.
    pub fn add_component(&mut self, id: u128, path: String, core: usize)
        requires
            old(self).inv(),
        ensures
            final(self).inv(),
            final(self)@ == old(self)@.add_component(id, path, core),
            syncs_advanced(old(self)@.state_syncs, final(self)@.state_syncs),
            old(self)@.schedule_backed() && !frames_mention(old(self)@.schedule.frames, id)
                ==> final(self)@.schedule_backed(),
    {
        let c = Component {
            run: false,
            remove: false,
            path,
            core,
            implementation: None,
            times: Vec::new(),
        };
        let _ = self.components.insert(id, c);
        assert(self@.components =~= old(self)@.components.insert(id, skeleton(path, core)));
        assert(self@ =~= old(self)@.add_component(id, path, core));
        proof {
            let o = old(self)@;
            if o.schedule_backed() && !frames_mention(o.schedule.frames, id) {
                assert forall|i: int, j: int|
                    0 <= i < o.schedule.frames.len() && 0
                        <= j < o.schedule.frames[i].len() implies component_ready(
                    self@.components,
                    #[trigger] o.schedule.frames[i][j].component_id,
                ) by {
                    assert(component_ready(
                        o.components,
                        o.schedule.frames[i][j].component_id,
                    ));
                }
            }
        }
    }

    /// Starts a component: it must exist and have an implementation.
    pub fn start_component(&mut self, id: u128) -> (r: Result<(), LifecycleError>)
        requires
            old(self).inv(),
        ensures
            final(self).inv(),
            applied(old(self)@, final(self)@, r, old(self)@.start_component(id)),
            old(self)@.schedule_backed() ==> final(self)@.schedule_backed(),
    {
        let mut c = match self.components.remove(&id) {
            Some(c) => c,
            None => {
                assert(self.components@ =~= old(self).components@);
                assert(self@.components =~= old(self)@.components);
                return Err(LifecycleError::UnknownComponent(id));
            },
        };
        if c.implementation.is_none() {
            let _ = self.components.insert(id, c);
            assert(self@.components =~= old(self)@.components);
            assert(self@ =~= old(self)@);
            return Err(LifecycleError::UninitializedComponent(id));
        }
        c.run = true;
        let _ = self.components.insert(id, c);
        assert(self@.components =~= old(self)@.components.insert(id, c@));
        assert(self@ =~= old(self)@.start_component(id).unwrap());
        Ok(())
    }

    /// Stops a component; it must exist.
    pub fn stop_component(&mut self, id: u128) -> (r: Result<(), LifecycleError>)
        requires
            old(self).inv(),
        ensures
            final(self).inv(),
            applied(old(self)@, final(self)@, r, old(self)@.stop_component(id)),
            old(self)@.schedule_backed() ==> final(self)@.schedule_backed(),
    {
        let mut c = match self.components.remove(&id) {
            Some(c) => c,
            None => {
                assert(self.components@ =~= old(self).components@);
                assert(self@.components =~= old(self)@.components);
                return Err(LifecycleError::UnknownComponent(id));
            },
        };
        c.run = false;
        let _ = self.components.insert(id, c);
        assert(self@.components =~= old(self)@.components.insert(id, c@));
        assert(self@ =~= old(self)@.stop_component(id).unwrap());
        Ok(())
    }

    /// Attaches the implementation that the background worker produced.
    pub fn add_component_implementation(&mut self, id: u128, implementation: Implementation) -> (r:
        Result<(), LifecycleError>)
        requires
            old(self).inv(),
        ensures
            final(self).inv(),
            applied(
                old(self)@,
                final(self)@,
                r,
                old(self)@.add_component_implementation(id, implementation),
            ),
            old(self)@.schedule_backed() ==> final(self)@.schedule_backed(),
    {
        let mut c = match self.components.remove(&id) {
            Some(c) => c,
            None => {
                assert(self.components@ =~= old(self).components@);
                assert(self@.components =~= old(self)@.components);
                return Err(LifecycleError::UnknownComponent(id));
            },
        };
        c.implementation = Some(implementation);
        let _ = self.components.insert(id, c);
        assert(self@.components =~= old(self)@.components.insert(id, c@));
        assert(self@ =~= old(self)@.add_component_implementation(id, implementation).unwrap());
        proof {
            let o = old(self)@;
            if o.schedule_backed() {
                assert forall|i: int, j: int|
                    0 <= i < o.schedule.frames.len() && 0
                        <= j < o.schedule.frames[i].len() implies component_ready(
                    self@.components,
                    #[trigger] o.schedule.frames[i][j].component_id,
                ) by {
                    assert(component_ready(
                        o.components,
                        o.schedule.frames[i][j].component_id,
                    ));
                }
            }
        }
        Ok(())
    }

    /// Marks a component for removal and stops it.
    pub fn remove_component(&mut self, id: u128) -> (r: Result<(), LifecycleError>)
        requires
            old(self).inv(),
        ensures
            final(self).inv(),
            applied(old(self)@, final(self)@, r, old(self)@.remove_component(id)),
            old(self)@.schedule_backed() ==> final(self)@.schedule_backed(),
    {
        let mut c = match self.components.remove(&id) {
            Some(c) => c,
            None => {
                assert(self.components@ =~= old(self).components@);
                assert(self@.components =~= old(self)@.components);
                return Err(LifecycleError::UnknownComponent(id));
            },
        };
        c.remove = true;
        c.run = false;
        let _ = self.components.insert(id, c);
        assert(self@.components =~= old(self)@.components.insert(id, c@));
        assert(self@ =~= old(self)@.remove_component(id).unwrap());
        proof {
            let o = old(self)@;
            if o.schedule_backed() {
                assert forall|i: int, j: int|
                    0 <= i < o.schedule.frames.len() && 0
                        <= j < o.schedule.frames[i].len() implies component_ready(
                    self@.components,
                    #[trigger] o.schedule.frames[i][j].component_id,
                ) by {
                    assert(component_ready(
                        o.components,
                        o.schedule.frames[i][j].component_id,
                    ));
                }
            }
        }
        Ok(())
    }

    /// Takes the implementation out of a component, which stops running,
    /// and hands it back.
    pub fn remove_component_implementation(&mut self, id: u128) -> (r: Result<
        Option<Implementation>,
        LifecycleError,
    >)
        requires
            old(self).inv(),
        ensures
            final(self).inv(),
            match r {
                Ok(i) => old(self)@.remove_component_implementation(id) == Ok::<
                    GlobalStateView,
                    LifecycleError,
                >(final(self)@) && i == old(self)@.components[id].implementation,
                Err(e) => old(self)@.remove_component_implementation(id) == Err::<
                    GlobalStateView,
                    LifecycleError,
                >(e) && final(self)@ == old(self)@,
            },
            old(self)@.schedule_backed() && !frames_mention(old(self)@.schedule.frames, id)
                ==> final(self)@.schedule_backed(),
    {
        let mut c = match self.components.remove(&id) {
            Some(c) => c,
            None => {
                assert(self.components@ =~= old(self).components@);
                assert(self@.components =~= old(self)@.components);
                return Err(LifecycleError::UnknownComponent(id));
            },
        };
        let taken = c.implementation;
        c.implementation = None;
        c.run = false;
        let _ = self.components.insert(id, c);
        assert(self@.components =~= old(self)@.components.insert(id, c@));
        assert(self@ =~= old(self)@.remove_component_implementation(id).unwrap());
        proof {
            let o = old(self)@;
            if o.schedule_backed() && !frames_mention(o.schedule.frames, id) {
                assert forall|i: int, j: int|
                    0 <= i < o.schedule.frames.len() && 0
                        <= j < o.schedule.frames[i].len() implies component_ready(
                    self@.components,
                    #[trigger] o.schedule.frames[i][j].component_id,
                ) by {
                    assert(component_ready(
                        o.components,
                        o.schedule.frames[i][j].component_id,
                    ));
                }
            }
        }
        Ok(taken)
    }

    /// Deletes a component from the state.
    pub fn delete_component(&mut self, id: u128) -> (r: Result<(), LifecycleError>)
        requires
            old(self).inv(),
        ensures
            final(self).inv(),
            applied(old(self)@, final(self)@, r, old(self)@.delete_component(id)),
            old(self)@.schedule_backed() && !frames_mention(old(self)@.schedule.frames, id)
                ==> final(self)@.schedule_backed(),
    {
        match self.components.remove(&id) {
            Some(_) => {
                assert(self@.components =~= old(self)@.components.remove(id));
            },
            None => {
                assert(self.components@ =~= old(self).components@);
                assert(self@.components =~= old(self)@.components);
                return Err(LifecycleError::UnknownComponent(id));
            },
        }
        assert(self@ =~= old(self)@.delete_component(id).unwrap());
        proof {
            let o = old(self)@;
            if o.schedule_backed() && !frames_mention(o.schedule.frames, id) {
                assert forall|i: int, j: int|
                    0 <= i < o.schedule.frames.len() && 0
                        <= j < o.schedule.frames[i].len() implies component_ready(
                    self@.components,
                    #[trigger] o.schedule.frames[i][j].component_id,
                ) by {
                    assert(component_ready(
                        o.components,
                        o.schedule.frames[i][j].component_id,
                    ));
                }
            }
        }
        Ok(())
    }

    /// The index of the route whose source is `source`.
    fn find_route(&self, source: &RouteEndpoint) -> (r: Option<usize>)
        ensures
            match r {
                Some(i) => i < self.routes@.len() && self.routes@[i as int].source == *source,
                None => forall|i: int|
                    0 <= i < self.routes@.len() ==> #[trigger] self.routes@[i].source != *source,
            },
    {
        let mut i: usize = 0;
        while i < self.routes.len()
            invariant
                i <= self.routes@.len(),
                forall|k: int| 0 <= k < i ==> #[trigger] self.routes@[k].source != *source,
            decreases self.routes@.len() - i,
        {
            if self.routes[i].source == *source {
                return Some(i);
            }
            i = i + 1;
        }
        None
    }

    /// The target that `source` is routed to.
    pub fn get_route(&self, source: &RouteEndpoint) -> (r: Option<RouteEndpoint>)
        requires
            self.inv(),
        ensures
            match r {
                Some(t) => self@.routes.contains_key(*source) && self@.routes[*source] == t,
                None => !self@.routes.contains_key(*source),
            },
    {
        match self.find_route(source) {
            Some(i) => {
                proof {
                    lemma_keyed_index(self.routes@, route_key(), i as int);
                }
                Some(self.routes[i].target)
            },
            None => {
                proof {
                    assert forall|k: int| 0 <= k < self.routes@.len() implies #[trigger] route_key()(
                        self.routes@[k],
                    ) != *source by {
                        assert(self.routes@[k].source != *source);
                    }
                    lemma_keyed_absent(self.routes@, route_key(), *source);
                }
                None
            },
        }
    }

    /// Routes `source` to `target`, replacing any earlier target of `source`.
    pub fn add_route(&mut self, source: RouteEndpoint, target: RouteEndpoint)
        requires
            old(self).inv(),
        ensures
            final(self).inv(),
            final(self)@ == old(self)@.add_route(source, target),
    {
        let route = Route { source, target };
        let ghost before = self.routes@;
        match self.find_route(&source) {
            Some(i) => {
                self.routes.set(i, route);
                proof {
                    lemma_keyed_update(before, route_key(), i as int, route);
                }
            },
            None => {
                self.routes.push(route);
                proof {
                    assert(!has_key(before, route_key(), source)) by {
                        if has_key(before, route_key(), source) {
                            let j = choose|j: int|
                                0 <= j < before.len() && #[trigger] route_key()(before[j]) == source;
                            assert(before[j].source != source);
                        }
                    }
                    lemma_keyed_push(before, route_key(), route);
                }
            },
        }
        assert(self@.routes =~= old(self)@.routes.insert(source, target));
        assert(self@ =~= old(self)@.add_route(source, target));
    }

    /// Removes the route from `source`, if there is one.
    pub fn remove_route(&mut self, source: RouteEndpoint)
        requires
            old(self).inv(),
        ensures
            final(self).inv(),
            final(self)@ == old(self)@.remove_route(source),
    {
        let ghost before = self.routes@;
        match self.find_route(&source) {
            Some(i) => {
                self.routes.remove(i);
                proof {
                    lemma_keyed_remove(before, route_key(), i as int);
                }
                assert(self@.routes =~= old(self)@.routes.remove(source));
            },
            None => {
                proof {
                    assert forall|k: int| 0 <= k < before.len() implies #[trigger] route_key()(
                        before[k],
                    ) != source by {
                        assert(before[k].source != source);
                    }
                    lemma_keyed_absent(before, route_key(), source);
                }
                assert(self@.routes =~= old(self)@.routes.remove(source));
            },
        }
        assert(self@ =~= old(self)@.remove_route(source));
    }

    fn component_is_ready(&self, id: u128) -> (r: bool)
        ensures
            r == component_ready(self@.components, id),
    {
        match self.components.get(&id) {
            Some(c) => c.implementation.is_some(),
            None => false,
        }
    }

    /// Whether every minor frame of `schedule` names a ready component.
    pub fn accepts_schedule(&self, schedule: &Schedule) -> (r: bool)
        ensures
            r == self@.accepts_schedule(schedule_view(*schedule)),
    {
        let frames = &schedule.major_frames;
        let mut i: usize = 0;
        while i < frames.len()
            invariant
                frames@ == schedule.major_frames@,
                i <= frames@.len(),
                forall|a: int, b: int|
                    0 <= a < i && 0 <= b < frames@[a].minor_frames@.len() ==> component_ready(
                        self@.components,
                        #[trigger] frames@[a].minor_frames@[b].component_id,
                    ),
            decreases frames@.len() - i,
        {
            let minor = &frames[i].minor_frames;
            let mut j: usize = 0;
            while j < minor.len()
                invariant
                    frames@ == schedule.major_frames@,
                    i < frames@.len(),
                    minor == frames@[i as int].minor_frames,
                    j <= minor@.len(),
                    forall|a: int, b: int|
                        0 <= a < i && 0 <= b < frames@[a].minor_frames@.len() ==> component_ready(
                            self@.components,
                            #[trigger] frames@[a].minor_frames@[b].component_id,
                        ),
                    forall|b: int|
                        0 <= b < j ==> component_ready(
                            self@.components,
                            #[trigger] minor@[b].component_id,
                        ),
                decreases minor@.len() - j,
            {
                if !self.component_is_ready(minor[j].component_id) {
                    assert(!component_ready(
                        self@.components,
                        frames@[i as int].minor_frames@[j as int].component_id,
                    ));
                    let ghost fi = i as int;
                    let ghost fj = j as int;
                    assert(0 <= fi < schedule.major_frames@.len());
                    assert(0 <= fj < schedule.major_frames@[fi].minor_frames@.len());
                    assert(schedule_view(*schedule).frames[fi][fj] == frames@[fi].minor_frames@[fj]);
                    assert(!frames_backed(self@.components, schedule_view(*schedule).frames));
                    return false;
                }
                j = j + 1;
            }
            i = i + 1;
        }
        assert forall|a: int, b: int|
            0 <= a < schedule_view(*schedule).frames.len() && 0 <= b < schedule_view(
                *schedule,
            ).frames[a].len() implies component_ready(
            self@.components,
            #[trigger] schedule_view(*schedule).frames[a][b].component_id,
        ) by {
            assert(schedule_view(*schedule).frames[a][b] == frames@[a].minor_frames@[b]);
        }
        true
    }

    /// Replaces the schedule when every component it names exists and has
    /// an implementation; otherwise leaves the current one in place. Returns
    /// whether it was replaced.
    pub fn set_schedule(&mut self, schedule: Schedule) -> (r: bool)
        requires
            old(self).inv(),
        ensures
            final(self).inv(),
            r == old(self)@.accepts_schedule(schedule_view(schedule)),
            final(self)@ == old(self)@.set_schedule(schedule_view(schedule)),
            old(self)@.schedule_backed() ==> final(self)@.schedule_backed(),
    {
        if self.accepts_schedule(&schedule) {
            self.schedule = schedule;
            self.schedule_changed = true;
            assert(self@ =~= old(self)@.set_schedule(schedule_view(schedule)));
            true
        } else {
            false
        }
    }

    /// Appends a message to the runner's queue on `channel`.
    pub fn push_message(&mut self, channel: u32, message: Message)
        requires
            old(self).inv(),
        ensures
            final(self).inv(),
            final(self)@ == old(self)@.push_message(channel, message@),
    {
        let mut q = match self.messages.remove(&channel) {
            Some(q) => q,
            None => Vec::new(),
        };
        assert(queue_view(q@) =~= old(self)@.inbox(channel));
        q.push(message);
        assert(queue_view(q@) =~= old(self)@.inbox(channel).push(message@));
        let _ = self.messages.insert(channel, q);
        assert(self@.messages =~= old(self)@.push_message(channel, message@).messages);
        assert(self@ =~= old(self)@.push_message(channel, message@));
    }

    /// Takes the oldest message queued for the runner on `channel`.
    pub fn get_message(&mut self, channel: u32) -> (r: Option<Message>)
        requires
            old(self).inv(),
        ensures
            final(self).inv(),
            final(self)@ == old(self)@.pop_message(channel),
            old(self)@.inbox(channel).len() == 0 ==> r is None,
            old(self)@.inbox(channel).len() > 0 ==> (r matches Some(m) && m@ == old(
                self,
            )@.inbox(channel)[0]),
    {
        let mut q = match self.messages.remove(&channel) {
            Some(q) => q,
            None => {
                assert(self.messages@ =~= old(self).messages@);
                assert(self@ =~= old(self)@);
                return None;
            },
        };
        if q.len() == 0 {
            let _ = self.messages.insert(channel, q);
            assert(self.messages@ =~= old(self).messages@);
            assert(self@.messages =~= old(self)@.messages);
            assert(self@ =~= old(self)@);
            return None;
        }
        let ghost q0 = q@;
        let m = q.remove(0);
        assert(queue_view(q@) =~= queue_view(q0).drop_first());
        let _ = self.messages.insert(channel, q);
        assert(self@.messages =~= old(self)@.pop_message(channel).messages);
        assert(self@ =~= old(self)@.pop_message(channel));
        Some(m)
    }

    fn find_state_sync(&self, id: u128) -> (r: Option<usize>)
        ensures
            match r {
                Some(i) => i < self.state_sync@.len() && self.state_sync@[i as int].id == id,
                None => forall|i: int|
                    0 <= i < self.state_sync@.len() ==> #[trigger] self.state_sync@[i].id != id,
            },
    {
        let mut i: usize = 0;
        while i < self.state_sync.len()
            invariant
                i <= self.state_sync@.len(),
                forall|k: int| 0 <= k < i ==> #[trigger] self.state_sync@[k].id != id,
            decreases self.state_sync@.len() - i,
        {
            if self.state_sync[i].id == id {
                return Some(i);
            }
            i = i + 1;
        }
        None
    }

    proof fn lemma_sync_absent(&self, id: u128)
        requires
            forall|i: int| 0 <= i < self.state_sync@.len() ==> #[trigger] self.state_sync@[i].id != id,
        ensures
            !self@.state_syncs.contains_key(id),
    {
        assert forall|k: int| 0 <= k < self.state_sync@.len() implies #[trigger] sync_key()(
            self.state_sync@[k],
        ) != id by {
            assert(self.state_sync@[k].id != id);
        }
        lemma_keyed_absent(self.state_sync@, sync_key(), id);
    }

    /// Creates a state sync with status Created, replacing one with the same id.
    pub fn add_state_sync(&mut self, state_sync_id: u128, source: StateEndpoint, target: StateEndpoint)
        requires
            old(self).inv(),
        ensures
            final(self).inv(),
            final(self)@ == old(self)@.add_state_sync(state_sync_id, source, target),
            !old(self)@.state_syncs.contains_key(state_sync_id) ==> syncs_advanced(
                old(self)@.state_syncs,
                final(self)@.state_syncs,
            ),
    {
        let s = StateSync { id: state_sync_id, source, target, status: StateSyncStatus::Created };
        let ghost before = self.state_sync@;
        match self.find_state_sync(state_sync_id) {
            Some(i) => {
                self.state_sync.set(i, s);
                proof {
                    lemma_keyed_update(before, sync_key(), i as int, s);
                }
            },
            None => {
                proof {
                    self.lemma_sync_absent(state_sync_id);
                }
                self.state_sync.push(s);
                proof {
                    lemma_keyed_push(before, sync_key(), s);
                }
            },
        }
        assert(self@ =~= old(self)@.add_state_sync(state_sync_id, source, target));
    }

    /// Removes a state sync, if there is one.
    pub fn remove_state_sync(&mut self, state_sync_id: u128)
        requires
            old(self).inv(),
        ensures
            final(self).inv(),
            final(self)@ == old(self)@.remove_state_sync(state_sync_id),
            syncs_advanced(old(self)@.state_syncs, final(self)@.state_syncs),
    {
        let ghost before = self.state_sync@;
        match self.find_state_sync(state_sync_id) {
            Some(i) => {
                self.state_sync.remove(i);
                proof {
                    lemma_keyed_remove(before, sync_key(), i as int);
                }
            },
            None => {
                proof {
                    self.lemma_sync_absent(state_sync_id);
                }
            },
        }
        assert(self@.state_syncs =~= old(self)@.remove_state_sync(state_sync_id).state_syncs);
        assert(self@ =~= old(self)@.remove_state_sync(state_sync_id));
    }

    /// The status of a state sync, if it exists.
    pub fn get_state_sync_status(&self, state_sync_id: u128) -> (r: Option<StateSyncStatus>)
        requires
            self.inv(),
        ensures
            match r {
                Some(s) => self@.state_syncs.contains_key(state_sync_id)
                    && self@.state_syncs[state_sync_id].status == s,
                None => !self@.state_syncs.contains_key(state_sync_id),
            },
    {
        match self.find_state_sync(state_sync_id) {
            Some(i) => {
                proof {
                    lemma_keyed_index(self.state_sync@, sync_key(), i as int);
                }
                Some(self.state_sync[i].status)
            },
            None => {
                proof {
                    self.lemma_sync_absent(state_sync_id);
                }
                None
            },
        }
    }

    /// Moves a state sync's status forward to `status`; a status that would
    /// move it back leaves it as it is.
    pub fn set_state_sync_status(&mut self, state_sync_id: u128, status: StateSyncStatus) -> (r:
        Result<(), LifecycleError>)
        requires
            old(self).inv(),
        ensures
            final(self).inv(),
            applied(
                old(self)@,
                final(self)@,
                r,
                old(self)@.advance_state_sync(state_sync_id, status),
            ),
            syncs_advanced(old(self)@.state_syncs, final(self)@.state_syncs),
    {
        let ghost before = self.state_sync@;
        match self.find_state_sync(state_sync_id) {
            Some(i) => {
                let mut s = self.state_sync[i];
                let later = match (s.status, status) {
                    (StateSyncStatus::Synced, _) => StateSyncStatus::Synced,
                    (StateSyncStatus::Started, StateSyncStatus::Created) => StateSyncStatus::Started,
                    _ => status,
                };
                s.status = later;
                self.state_sync.set(i, s);
                proof {
                    lemma_keyed_index(before, sync_key(), i as int);
                    lemma_keyed_update(before, sync_key(), i as int, s);
                }
                assert(self@ =~= old(self)@.advance_state_sync(state_sync_id, status).unwrap());
                Ok(())
            },
            None => {
                proof {
                    self.lemma_sync_absent(state_sync_id);
                }
                Err(LifecycleError::UnknownStateSync(state_sync_id))
            },
        }
    }
}

/// Adding a route from a source that had none, then removing the route from
/// that source, leaves the state exactly as it was before the addition.
pub proof fn lemma_add_then_remove_route(
    v: GlobalStateView,
    source: RouteEndpoint,
    target: RouteEndpoint,
)
    requires
        !v.routes.contains_key(source),
    ensures
        v.add_route(source, target).remove_route(source) == v,
{
    assert(v.add_route(source, target).remove_route(source).routes =~= v.routes);
}

/// Adding a state sync and then removing it leaves no sync under that id;
/// where the id was free before, the state is exactly as it was.
pub proof fn lemma_add_then_remove_state_sync(
    v: GlobalStateView,
    id: u128,
    source: StateEndpoint,
    target: StateEndpoint,
)
    ensures
        !v.add_state_sync(id, source, target).remove_state_sync(id).state_syncs.contains_key(id),
        !v.state_syncs.contains_key(id) ==> v.add_state_sync(id, source, target).remove_state_sync(
            id,
        ) == v,
{
    if !v.state_syncs.contains_key(id) {
        assert(v.add_state_sync(id, source, target).remove_state_sync(id).state_syncs
            =~= v.state_syncs);
    }
}

/// Of two schedules set one after the other, only the second remains, as if
/// the first had never been set, whenever the second is accepted.
pub proof fn lemma_schedule_overwrite(v: GlobalStateView, first: ScheduleView, second: ScheduleView)
    requires
        v.accepts_schedule(second),
    ensures
        v.set_schedule(first).set_schedule(second) == v.set_schedule(second),
{
}

} // verus!
