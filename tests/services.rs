use elafry::codec::{encode_frame, frame, Message};
use elafry::communication::CommunicationService;
use elafry::component::communication::Manager as ComponentComms;
use elafry::component::state::Manager as ComponentState;
use elafry::component::Services;
use elafry::global_state::GlobalState;
use elafry::scheduler::{Dispatch, SchedulerService};
use elafry::state::StateService;
use elafry::timing::{management_allowed, LoopTiming};
use elafry::types::{
    Endpoint, Implementation, MajorFrame, MinorFrame, PeerAddr, RouteEndpoint, Schedule,
    StateEndpoint, StateSyncStatus,
};

fn ready(state: &mut GlobalState, id: u128, pid: i32) {
    state.add_component(id, "path".to_string(), 0);
    state.add_component_implementation(id, Implementation { child_pid: pid }).unwrap();
    state.start_component(id).unwrap();
}

fn body(channel_id: u32, count: u8, data: &[u8]) -> Vec<u8> {
    Message { channel_id, count, data: data.to_vec() }.encode()
}

#[test]
fn scheduler_runs_frames_in_order_and_wraps() {
    let mut state = GlobalState::new();
    ready(&mut state, 1, 101);
    ready(&mut state, 2, 102);
    let schedule = Schedule {
        period: 1000,
        major_frames: vec![
            MajorFrame {
                minor_frames: vec![
                    MinorFrame { component_id: 1, deadline: 300 },
                    MinorFrame { component_id: 2, deadline: 400 },
                ],
            },
            MajorFrame { minor_frames: vec![MinorFrame { component_id: 2, deadline: 500 }] },
        ],
    };
    assert!(state.set_schedule(schedule));
    let mut scheduler = SchedulerService::new();
    assert_eq!(
        scheduler.run(&mut state),
        vec![
            Dispatch { component_id: 1, child_pid: 101, deadline: 300 },
            Dispatch { component_id: 2, child_pid: 102, deadline: 400 },
        ]
    );
    assert_eq!(scheduler.frame_index(), 1);
    assert_eq!(
        scheduler.run(&mut state),
        vec![Dispatch { component_id: 2, child_pid: 102, deadline: 500 }]
    );
    assert_eq!(scheduler.frame_index(), 0);
    assert_eq!(scheduler.run(&mut state).len(), 2);
}

#[test]
fn scheduler_skips_stopped_and_missing_components() {
    let mut state = GlobalState::new();
    ready(&mut state, 1, 101);
    ready(&mut state, 2, 102);
    let schedule = Schedule {
        period: 1000,
        major_frames: vec![MajorFrame {
            minor_frames: vec![
                MinorFrame { component_id: 1, deadline: 300 },
                MinorFrame { component_id: 2, deadline: 400 },
            ],
        }],
    };
    assert!(state.set_schedule(schedule));
    state.stop_component(1).unwrap();
    state.remove_component_implementation(2).unwrap();
    state.delete_component(2).unwrap();
    let mut scheduler = SchedulerService::new();
    assert!(scheduler.run(&mut state).is_empty());
    assert_eq!(scheduler.frame_index(), 0);
}

#[test]
fn scheduler_with_no_major_frames_does_nothing() {
    let mut state = GlobalState::new();
    let mut scheduler = SchedulerService::new();
    for _ in 0..3 {
        assert!(scheduler.run(&mut state).is_empty());
        assert_eq!(scheduler.frame_index(), 0);
    }
}

#[test]
fn scheduler_restarts_after_schedule_change() {
    let mut state = GlobalState::new();
    ready(&mut state, 1, 101);
    let two = Schedule {
        period: 1000,
        major_frames: vec![
            MajorFrame { minor_frames: vec![] },
            MajorFrame { minor_frames: vec![MinorFrame { component_id: 1, deadline: 5 }] },
        ],
    };
    assert!(state.set_schedule(two));
    let mut scheduler = SchedulerService::new();
    assert!(scheduler.run(&mut state).is_empty());
    assert_eq!(scheduler.frame_index(), 1);
    let again = Schedule {
        period: 1000,
        major_frames: vec![
            MajorFrame { minor_frames: vec![MinorFrame { component_id: 1, deadline: 7 }] },
            MajorFrame { minor_frames: vec![] },
        ],
    };
    assert!(state.set_schedule(again));
    assert_eq!(
        scheduler.run(&mut state),
        vec![Dispatch { component_id: 1, child_pid: 101, deadline: 7 }]
    );
    assert!(!state.schedule_changed);
}

#[test]
fn component_message_is_buffered_and_flushed_in_order() {
    let mut state = GlobalState::new();
    ready(&mut state, 1, 101);
    ready(&mut state, 2, 102);
    state.add_route(
        RouteEndpoint { endpoint: Endpoint::Component(1), channel_id: 1 },
        RouteEndpoint { endpoint: Endpoint::Component(2), channel_id: 1 },
    );
    let mut comms = CommunicationService::new();
    let bodies = vec![body(1, 0, b"a"), body(3, 0, b"dropped"), body(1, 1, b"b")];
    comms.route_frames(&mut state, Endpoint::Component(1), &bodies);
    let out = comms.flush_components(&state);
    assert_eq!(out.len(), 2);
    assert_eq!(out[0].component_id, 2);
    assert_eq!(out[0].child_pid, 102);
    assert_eq!(out[0].frame, frame(&body(1, 0, b"a")));
    assert_eq!(out[1].frame, frame(&body(1, 1, b"b")));
    assert!(comms.component_exit_buffer.is_empty());
    assert!(comms.flush_components(&state).is_empty());
}

#[test]
fn message_to_runner_lands_on_target_channel() {
    let mut state = GlobalState::new();
    ready(&mut state, 1, 101);
    state.add_route(
        RouteEndpoint { endpoint: Endpoint::Component(1), channel_id: 4 },
        RouteEndpoint { endpoint: Endpoint::Runner, channel_id: 9 },
    );
    let mut comms = CommunicationService::new();
    comms.route_frame(&mut state, Endpoint::Component(1), &body(4, 0, b"test"));
    assert!(state.get_message(4).is_none());
    let m = state.get_message(9).unwrap();
    assert_eq!(m.channel_id, 4);
    assert_eq!(m.data, b"test".to_vec());
}

#[test]
fn message_to_address_is_sent_framed() {
    let mut state = GlobalState::new();
    ready(&mut state, 1, 101);
    let peer = PeerAddr::V4(0x7f00_0001, 6001);
    state.add_route(
        RouteEndpoint { endpoint: Endpoint::Component(1), channel_id: 2 },
        RouteEndpoint { endpoint: Endpoint::Address(peer), channel_id: 2 },
    );
    let mut comms = CommunicationService::new();
    comms.route_frame(&mut state, Endpoint::Component(1), &body(2, 5, b"x"));
    let out = comms.flush_addresses();
    assert_eq!(out, vec![(peer, frame(&body(2, 5, b"x")))]);
    assert!(comms.flush_addresses().is_empty());
}

#[test]
fn unrouted_or_undecodable_messages_are_dropped() {
    let mut state = GlobalState::new();
    ready(&mut state, 1, 101);
    let mut comms = CommunicationService::new();
    comms.route_frame(&mut state, Endpoint::Component(1), &body(1, 0, b"a"));
    comms.route_frame(&mut state, Endpoint::Component(1), &vec![0, 0, 1]);
    assert!(comms.component_exit_buffer.is_empty());
    assert!(comms.address_exit_buffer.is_empty());
    assert!(state.messages.is_empty());
}

#[test]
fn egress_to_stopped_component_is_dropped() {
    let mut state = GlobalState::new();
    ready(&mut state, 1, 101);
    ready(&mut state, 2, 102);
    state.add_route(
        RouteEndpoint { endpoint: Endpoint::Component(1), channel_id: 1 },
        RouteEndpoint { endpoint: Endpoint::Component(2), channel_id: 1 },
    );
    let mut comms = CommunicationService::new();
    comms.route_frame(&mut state, Endpoint::Component(1), &body(1, 0, b"a"));
    state.stop_component(2).unwrap();
    assert!(comms.flush_components(&state).is_empty());
    assert!(comms.component_exit_buffer.is_empty());
}

#[test]
fn zero_length_datagram_has_no_effect() {
    let mut state = GlobalState::new();
    let peer = PeerAddr::V4(0x7f00_0001, 6000);
    state.add_route(
        RouteEndpoint { endpoint: Endpoint::Address(peer), channel_id: 0 },
        RouteEndpoint { endpoint: Endpoint::Runner, channel_id: 0 },
    );
    let mut comms = CommunicationService::new();
    comms.route_datagram(&mut state, peer, &vec![0, 0, 0, 0, 0, 0, 0, 0, 0]);
    assert!(state.messages.is_empty());
}

#[test]
fn state_frames_outside_bounds_are_rejected() {
    let mut service = StateService::new();
    assert!(!service.frame_length_ok(0));
    assert!(service.frame_length_ok(1));
    assert!(service.frame_length_ok(1000));
    assert!(!service.frame_length_ok(1001));
    assert!(service.accept_snapshot(1, vec![1, 2]));
    assert!(!service.accept_snapshot(1, vec![]));
    assert!(!service.accept_snapshot(1, vec![0; 1001]));
    assert_eq!(service.input_state.get(&1), Some(&vec![1, 2]));
    assert!(service.accept_snapshot(1, vec![0; 1000]));
    assert_eq!(service.input_state.get(&1).unwrap().len(), 1000);
    service.clear();
    assert!(service.input_state.is_empty());
}

#[test]
fn state_sync_writes_source_snapshot_to_target() {
    let mut state = GlobalState::new();
    ready(&mut state, 1, 101);
    ready(&mut state, 2, 102);
    state.add_state_sync(77, StateEndpoint { component_id: 1 }, StateEndpoint { component_id: 2 });
    let mut service = StateService::new();
    assert!(service.accept_snapshot(1, vec![9, 9]));
    assert!(service.pending_writes(&state).is_empty());
    state.set_state_sync_status(77, StateSyncStatus::Started).unwrap();
    let writes = service.pending_writes(&state);
    assert_eq!(writes.len(), 1);
    assert_eq!(writes[0].state_sync_id, 77);
    assert_eq!(writes[0].child_pid, 102);
    assert_eq!(writes[0].frame, vec![0, 0, 0, 2, 9, 9]);
    service.clear();
    assert!(service.pending_writes(&state).is_empty());
}

#[test]
fn management_headroom() {
    assert!(management_allowed(0, 1000));
    assert!(management_allowed(900, 1000));
    assert!(!management_allowed(901, 1000));
    assert!(!management_allowed(0, 99));
}

#[test]
fn loop_timing_sleeps_or_counts_overrun() {
    let mut timing = LoopTiming::new();
    assert_eq!(timing.end_period(300, 1000), 700);
    assert_eq!(timing.overruns, 0);
    assert_eq!(timing.end_period(1000, 1000), 0);
    assert_eq!(timing.overruns, 0);
    assert_eq!(timing.end_period(1500, 1000), 0);
    assert_eq!(timing.overruns, 1);
    assert_eq!(timing.last_duration, 1500);
    assert_eq!(timing.last_sleep, 0);
}

#[test]
fn component_receives_in_arrival_order() {
    let mut comms = ComponentComms::new();
    comms.receive(&body(3, 0, b"a"));
    comms.receive(&body(3, 1, b"b"));
    comms.receive(&body(4, 2, b"c"));
    comms.receive(&vec![1, 2]);
    assert_eq!(comms.state.receive_count, 3);
    assert_eq!(comms.get_message(3).unwrap().data, b"a".to_vec());
    assert_eq!(comms.get_message(3).unwrap().data, b"b".to_vec());
    assert_eq!(comms.get_message(3), None);
    assert_eq!(comms.get_message(4).unwrap().count, 2);
}

#[test]
fn component_send_counter_wraps() {
    let mut comms = ComponentComms::new();
    comms.state.send_count = 255;
    comms.send_message(6, vec![1]);
    assert_eq!(comms.state.send_count, 0);
    comms.send_message(6, vec![]);
    assert_eq!(comms.state.send_count, 1);
    let mut expected = encode_frame(&Message { channel_id: 6, count: 255, data: vec![1] });
    expected.extend_from_slice(&[0, 0, 0, 5, 0, 0, 0, 6, 0]);
    assert_eq!(comms.take_outbox(), expected);
    assert!(comms.take_outbox().is_empty());
}

#[test]
fn component_state_snapshot() {
    let mut services = Services::new();
    assert!(services.state.get_data().is_empty());
    assert_eq!(services.state.set_data(vec![5, 6]), vec![0, 0, 0, 2, 5, 6]);
    services.state.receive(vec![]);
    assert_eq!(services.state.get_data(), vec![5, 6]);
    services.state.receive(vec![7]);
    assert_eq!(services.state.get_data(), vec![7]);
    let mut fresh = ComponentState::new();
    fresh.receive(vec![1]);
    assert_eq!(fresh.get_data(), vec![1]);
}
