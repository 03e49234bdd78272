use elafry::component::communication::Manager as Communication;
use elafry::component::state::Manager as State;

/// Splits a byte stream into frame bodies, skipping zero-length frames, as
/// the component runtime does when it reads a socket.
fn bodies(stream: &[u8]) -> Vec<Vec<u8>> {
    let mut out = Vec::new();
    let mut at = 0;
    while at + 4 <= stream.len() {
        let length = u32::from_be_bytes([stream[at], stream[at + 1], stream[at + 2], stream[at + 3]]) as usize;
        at += 4;
        if length == 0 {
            continue;
        }
        out.push(stream[at..at + length].to_vec());
        at += length;
    }
    out
}

#[test]
fn test_communication() {
    let mut manager_1 = Communication::new();
    let mut manager_2 = Communication::new();

    manager_1.send_message(1, vec![7, 8, 9]);
    manager_1.send_message(1, vec![4, 5, 6]);

    manager_1.send_message(2, vec![10, 11, 12]);
    for body in bodies(&manager_1.take_outbox()) {
        manager_2.receive(&body);
    }

    let message = manager_2.get_message(1).unwrap();
    assert_eq!(message.data, vec![7, 8, 9]);

    let message = manager_2.get_message(1).unwrap();
    assert_eq!(message.data, vec![4, 5, 6]);

    let message = manager_2.get_message(2).unwrap();
    assert_eq!(message.data, vec![10, 11, 12]);

    let message = manager_2.get_message(1);
    assert_eq!(message, None);

    let message = manager_2.get_message(2);
    assert_eq!(message, None);
}

#[test]
fn test_communication_zero_length() {
    let mut manager = Communication::new();

    for body in bodies(&[0, 0, 0, 0]) {
        manager.receive(&body);
    }

    let message = manager.get_message(1);
    assert_eq!(message, None);
}

#[test]
fn test_communication_short_length() {
    let mut manager = Communication::new();

    for body in bodies(&[0, 0, 0, 1, 1]) {
        manager.receive(&body);
    }

    let message = manager.get_message(1);
    assert_eq!(message, None);
}

#[test]
fn test_communication_bad_data() {
    let mut manager = Communication::new();

    for body in bodies(&[0, 0, 0, 5, 1, 2, 3, 4, 5]) {
        manager.receive(&body);
    }

    let message = manager.get_message(1);
    assert_eq!(message, None);
}

#[test]
fn test_manager_get_data() {
    let mut manager = State::new();

    let data = vec![1, 2, 3, 4];
    let mut stream = 4u32.to_be_bytes().to_vec();
    stream.extend_from_slice(&data);
    for body in bodies(&stream) {
        manager.receive(body);
    }

    assert_eq!(manager.get_data(), data);
    assert_eq!(manager.get_data(), data);

    let data = vec![5, 6, 7, 8];
    let mut stream = 4u32.to_be_bytes().to_vec();
    stream.extend_from_slice(&data);
    for body in bodies(&stream) {
        manager.receive(body);
    }

    assert_eq!(manager.get_data(), data);
    assert_eq!(manager.get_data(), data);
}

#[test]
fn test_manager_set_data() {
    let mut manager_1 = State::new();
    let mut manager_2 = State::new();

    assert_eq!(manager_2.get_data(), vec![]);

    let data = vec![1, 2, 3, 4];
    let frame = manager_1.set_data(data.clone());
    for body in bodies(&frame) {
        manager_2.receive(body);
    }

    assert_eq!(manager_2.get_data(), data);

    let data = vec![5, 6, 7, 8];
    let frame = manager_1.set_data(data.clone());
    for body in bodies(&frame) {
        manager_2.receive(body);
    }

    assert_eq!(manager_2.get_data(), data);
}

#[test]
fn test_manager_zero_length() {
    let mut manager = State::new();

    for body in bodies(&[0, 0, 0, 0]) {
        manager.receive(body);
    }

    let data = manager.get_data();
    assert_eq!(data, vec![]);
}

#[test]
fn receive_count_follows_sender() {
    let mut sender = Communication::new();
    let mut receiver = Communication::new();
    sender.state.send_count = 254;
    sender.send_message(3, vec![1]);
    sender.send_message(3, vec![2]);
    for body in bodies(&sender.take_outbox()) {
        receiver.receive(&body);
    }
    assert_eq!(receiver.state.receive_count, 0);
    assert_eq!(receiver.get_message(3).unwrap().count, 254);
    assert_eq!(receiver.get_message(3).unwrap().count, 255);
}
