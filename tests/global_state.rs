use elafry::codec::Message;
use elafry::global_state::GlobalState;
use elafry::types::{
    Endpoint, Implementation, LifecycleError, MajorFrame, MinorFrame, RouteEndpoint, Schedule,
    StateEndpoint, StateSyncStatus,
};

fn new_id() -> u128 {
    uuid::Uuid::new_v4().as_u128()
}

fn implementation() -> Implementation {
    Implementation { child_pid: 0 }
}

#[test]
fn test_global_state_component() {
    let mut state = GlobalState::new();

    let id = new_id();
    let path = "path".to_string();
    let core = 0;

    state.add_component(id, path.clone(), core);
    assert_eq!(state.total_components(), 1);
    assert_eq!(state.get_component(id).unwrap().path, path);
    assert_eq!(state.get_component(id).unwrap().core, core);
    assert_eq!(state.get_component(id).unwrap().implementation.is_none(), true);

    state.components.get_mut(&id).unwrap().times.push(1);
    assert_eq!(state.get_component(id).unwrap().times.len(), 1);

    state.add_component_implementation(id, implementation()).unwrap();
    assert_eq!(state.get_component(id).unwrap().implementation.is_some(), true);

    state.start_component(id).unwrap();
    assert_eq!(state.get_component(id).unwrap().run, true);

    state.stop_component(id).unwrap();
    assert_eq!(state.get_component(id).unwrap().run, false);

    state.remove_component_implementation(id).unwrap();
    assert_eq!(state.get_component(id).unwrap().implementation.is_none(), true);

    state.remove_component(id).unwrap();
    assert_eq!(state.total_components(), 1);
    assert_eq!(state.get_component(id).unwrap().remove, true);
    assert_eq!(state.get_component(id).unwrap().run, false);
    assert_eq!(state.get_component(id).unwrap().implementation.is_none(), true);
}

#[test]
fn test_global_state_schedule_empty() {
    let mut state = GlobalState::new();

    let schedule = Schedule {
        period: 1_000_000,
        major_frames: vec![],
    };

    state.set_schedule(schedule);

    assert_eq!(state.schedule.period, 1_000_000);
}

#[test]
fn test_global_state_schedule() {
    let mut state = GlobalState::new();

    let id = new_id();
    state.add_component(id, "path".to_string(), 0);
    state.add_component_implementation(id, implementation()).unwrap();

    let schedule = Schedule {
        period: 1_000_000,
        major_frames: vec![MajorFrame {
            minor_frames: vec![MinorFrame {
                component_id: id,
                deadline: 1_000_000,
            }],
        }],
    };

    state.set_schedule(schedule);

    assert_eq!(state.schedule.period, 1_000_000);
}

#[test]
fn test_global_state_route() {
    let mut state = GlobalState::new();

    let source = RouteEndpoint {
        endpoint: Endpoint::Component(new_id()),
        channel_id: 0,
    };

    let target = RouteEndpoint {
        endpoint: Endpoint::Component(new_id()),
        channel_id: 1,
    };

    state.add_route(source, target);

    assert_eq!(state.routes.len(), 1);
    assert_eq!(state.get_route(&source).unwrap().endpoint, target.endpoint);

    state.remove_route(source);

    assert_eq!(state.routes.len(), 0);
}

#[test]
fn test_global_state_message() {
    let mut state = GlobalState::new();

    let channel_id = 0;
    let message = Message {
        channel_id,
        data: vec![],
        count: 0,
    };

    state.messages.insert(channel_id, vec![message.clone()]);

    let message = state.get_message(channel_id).unwrap();
    assert_eq!(message.channel_id, channel_id);
    assert_eq!(state.messages.get(&channel_id).unwrap().len(), 0);
}

#[test]
fn test_global_state_message_empty() {
    let mut state = GlobalState::new();

    let channel_id = 0;

    let message = state.get_message(channel_id);
    assert_eq!(message.is_none(), true);
}

#[test]
fn test_global_state_done() {
    let mut state = GlobalState::new();

    assert_eq!(state.get_done(), false);

    state.set_done(true);
    assert_eq!(state.get_done(), true);
}

#[test]
fn start_unknown_component_is_an_error() {
    let mut state = GlobalState::new();
    let id = new_id();
    assert_eq!(state.start_component(id), Err(LifecycleError::UnknownComponent(id)));
    assert_eq!(state.stop_component(id), Err(LifecycleError::UnknownComponent(id)));
    assert_eq!(state.remove_component(id), Err(LifecycleError::UnknownComponent(id)));
    assert_eq!(
        state.add_component_implementation(id, implementation()),
        Err(LifecycleError::UnknownComponent(id))
    );
    assert_eq!(
        state.remove_component_implementation(id),
        Err(LifecycleError::UnknownComponent(id))
    );
    assert_eq!(state.delete_component(id), Err(LifecycleError::UnknownComponent(id)));
    assert_eq!(state.total_components(), 0);
}

#[test]
fn start_uninitialized_component_is_an_error() {
    let mut state = GlobalState::new();
    let id = new_id();
    state.add_component(id, "path".to_string(), 0);
    assert_eq!(state.start_component(id), Err(LifecycleError::UninitializedComponent(id)));
    assert_eq!(state.get_component(id).unwrap().run, false);
}

#[test]
fn schedule_naming_missing_component_is_ignored() {
    let mut state = GlobalState::new();
    let schedule = Schedule {
        period: 1_000_000,
        major_frames: vec![MajorFrame {
            minor_frames: vec![MinorFrame { component_id: new_id(), deadline: 10 }],
        }],
    };
    assert_eq!(state.set_schedule(schedule), false);
    assert_eq!(state.schedule.period, 1000);
    assert!(state.schedule.major_frames.is_empty());
    assert!(!state.schedule_changed);
}

#[test]
fn schedule_naming_uninitialized_component_is_ignored() {
    let mut state = GlobalState::new();
    let id = new_id();
    state.add_component(id, "path".to_string(), 0);
    let schedule = Schedule {
        period: 2000,
        major_frames: vec![MajorFrame {
            minor_frames: vec![MinorFrame { component_id: id, deadline: 10 }],
        }],
    };
    assert_eq!(state.set_schedule(schedule), false);
    assert_eq!(state.schedule.period, 1000);
}

#[test]
fn second_schedule_overwrites_first() {
    let mut state = GlobalState::new();
    let a = new_id();
    let b = new_id();
    for id in [a, b] {
        state.add_component(id, "path".to_string(), 0);
        state.add_component_implementation(id, implementation()).unwrap();
    }
    let first = Schedule {
        period: 1000,
        major_frames: vec![
            MajorFrame { minor_frames: vec![MinorFrame { component_id: a, deadline: 100 }] },
            MajorFrame { minor_frames: vec![] },
        ],
    };
    let second = Schedule {
        period: 2000,
        major_frames: vec![MajorFrame {
            minor_frames: vec![MinorFrame { component_id: b, deadline: 300 }],
        }],
    };
    assert!(state.set_schedule(first));
    assert!(state.set_schedule(second));
    assert_eq!(state.schedule.period, 2000);
    assert_eq!(state.schedule.major_frames.len(), 1);
    assert_eq!(
        state.schedule.major_frames[0].minor_frames,
        vec![MinorFrame { component_id: b, deadline: 300 }]
    );
}

#[test]
fn add_then_remove_route_restores_routes() {
    let mut state = GlobalState::new();
    let kept_source = RouteEndpoint { endpoint: Endpoint::Runner, channel_id: 3 };
    let kept_target = RouteEndpoint { endpoint: Endpoint::Component(1), channel_id: 4 };
    state.add_route(kept_source, kept_target);
    let source = RouteEndpoint { endpoint: Endpoint::Component(2), channel_id: 1 };
    let target = RouteEndpoint { endpoint: Endpoint::Component(3), channel_id: 1 };
    state.add_route(source, target);
    state.remove_route(source);
    assert_eq!(state.routes.len(), 1);
    assert_eq!(state.get_route(&source), None);
    assert_eq!(state.get_route(&kept_source), Some(kept_target));
}

#[test]
fn route_has_one_target_per_source() {
    let mut state = GlobalState::new();
    let source = RouteEndpoint { endpoint: Endpoint::Component(2), channel_id: 1 };
    let first = RouteEndpoint { endpoint: Endpoint::Component(3), channel_id: 1 };
    let second = RouteEndpoint { endpoint: Endpoint::Runner, channel_id: 8 };
    state.add_route(source, first);
    state.add_route(source, second);
    assert_eq!(state.routes.len(), 1);
    assert_eq!(state.get_route(&source), Some(second));
}

#[test]
fn add_then_remove_state_sync_leaves_none() {
    let mut state = GlobalState::new();
    let id = new_id();
    let source = StateEndpoint { component_id: 1 };
    let target = StateEndpoint { component_id: 2 };
    state.add_state_sync(id, source, target);
    assert_eq!(state.get_state_sync_status(id), Some(StateSyncStatus::Created));
    state.remove_state_sync(id);
    assert_eq!(state.get_state_sync_status(id), None);
    assert!(state.state_sync.is_empty());
}

#[test]
fn state_sync_status_only_moves_forward() {
    let mut state = GlobalState::new();
    let id = new_id();
    state.add_state_sync(id, StateEndpoint { component_id: 1 }, StateEndpoint { component_id: 2 });
    state.set_state_sync_status(id, StateSyncStatus::Started).unwrap();
    assert_eq!(state.get_state_sync_status(id), Some(StateSyncStatus::Started));
    state.set_state_sync_status(id, StateSyncStatus::Created).unwrap();
    assert_eq!(state.get_state_sync_status(id), Some(StateSyncStatus::Started));
    state.set_state_sync_status(id, StateSyncStatus::Synced).unwrap();
    state.set_state_sync_status(id, StateSyncStatus::Started).unwrap();
    assert_eq!(state.get_state_sync_status(id), Some(StateSyncStatus::Synced));
}

#[test]
fn unknown_state_sync_is_an_error() {
    let mut state = GlobalState::new();
    let id = new_id();
    assert_eq!(
        state.set_state_sync_status(id, StateSyncStatus::Started),
        Err(LifecycleError::UnknownStateSync(id))
    );
}

#[test]
fn inbox_is_first_in_first_out() {
    let mut state = GlobalState::new();
    for count in 0..3u8 {
        state.push_message(5, Message { channel_id: 9, count, data: vec![count] });
    }
    assert_eq!(state.get_message(5).unwrap().count, 0);
    assert_eq!(state.get_message(5).unwrap().count, 1);
    assert_eq!(state.get_message(5).unwrap().count, 2);
    assert_eq!(state.get_message(5), None);
}

#[test]
fn removing_implementation_stops_component() {
    let mut state = GlobalState::new();
    let id = new_id();
    state.add_component(id, "path".to_string(), 2);
    state.add_component_implementation(id, Implementation { child_pid: 42 }).unwrap();
    state.start_component(id).unwrap();
    assert_eq!(
        state.remove_component_implementation(id),
        Ok(Some(Implementation { child_pid: 42 }))
    );
    let c = state.get_component(id).unwrap();
    assert!(!c.run);
    assert!(c.implementation.is_none());
}
