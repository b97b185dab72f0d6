use std::collections::VecDeque;
use tokio_way_sock::{
    encode_event, take_messages, EventWriter, SendAction, SendEvent, WaylandEvent,
};

fn event(object_id: u32, args: Vec<u8>, fds: Vec<u32>) -> WaylandEvent<u32> {
    WaylandEvent { object_id, op_code: 1, args, fds }
}

#[test]
fn event_is_written_in_parts() {
    let (mut writer, action) = EventWriter::<u32>::start();
    assert_eq!(action, SendAction::NextEvent);
    assert!(writer.unsent().is_empty());
    let action = writer.step(SendEvent::Event(event(3, vec![1, 2, 3, 4], vec![50, 51])));
    assert_eq!(action, SendAction::WaitWritable);
    assert_eq!(writer.step(SendEvent::Writable), SendAction::Write);
    assert_eq!(writer.unsent(), [3, 0, 0, 0, 1, 0, 12, 0, 1, 2, 3, 4]);
    assert_eq!(writer.attached(), [50, 51]);
    assert_eq!(writer.step(SendEvent::Sent(5)), SendAction::WaitWritable);
    assert_eq!(writer.step(SendEvent::Writable), SendAction::Write);
    assert_eq!(writer.unsent(), [0, 12, 0, 1, 2, 3, 4]);
    assert!(writer.attached().is_empty());
    assert_eq!(writer.step(SendEvent::Sent(7)), SendAction::NextEvent);
    assert!(writer.unsent().is_empty());
    assert!(writer.attached().is_empty());
}

#[test]
fn blocked_write_keeps_bytes_and_descriptors() {
    let (mut writer, _) = EventWriter::<u32>::start();
    writer.step(SendEvent::Event(event(3, Vec::new(), vec![50])));
    writer.step(SendEvent::Writable);
    assert_eq!(writer.step(SendEvent::WouldBlock), SendAction::WaitWritable);
    assert_eq!(writer.unsent().len(), 8);
    assert_eq!(writer.attached(), [50]);
}

#[test]
fn empty_write_takes_the_descriptors() {
    let (mut writer, _) = EventWriter::<u32>::start();
    writer.step(SendEvent::Event(event(3, Vec::new(), vec![50])));
    writer.step(SendEvent::Writable);
    assert_eq!(writer.step(SendEvent::Sent(0)), SendAction::WaitWritable);
    assert_eq!(writer.unsent().len(), 8);
    assert!(writer.attached().is_empty());
}

#[test]
fn writing_stops() {
    let (mut writer, _) = EventWriter::<u32>::start();
    assert_eq!(writer.step(SendEvent::QueueClosed), SendAction::Finish);
    let (mut writer, _) = EventWriter::<u32>::start();
    assert_eq!(writer.step(SendEvent::Cancelled), SendAction::Finish);
    let (mut writer, _) = EventWriter::<u32>::start();
    writer.step(SendEvent::Event(event(3, Vec::new(), Vec::new())));
    assert_eq!(writer.step(SendEvent::WaitFailed), SendAction::Finish);
    let (mut writer, _) = EventWriter::<u32>::start();
    writer.step(SendEvent::Event(event(3, Vec::new(), Vec::new())));
    assert_eq!(writer.step(SendEvent::Cancelled), SendAction::Finish);
    let (mut writer, _) = EventWriter::<u32>::start();
    writer.step(SendEvent::Event(event(3, Vec::new(), Vec::new())));
    writer.step(SendEvent::Writable);
    assert_eq!(writer.step(SendEvent::SendFailed), SendAction::Finish);
    assert!(!writer.accepts(&SendEvent::Writable));
}

#[test]
fn only_answers_to_the_write_side_action_are_accepted() {
    let (mut writer, _) = EventWriter::<u32>::start();
    assert!(writer.accepts(&SendEvent::Event(event(3, Vec::new(), Vec::new()))));
    assert!(writer.accepts(&SendEvent::QueueClosed));
    assert!(!writer.accepts(&SendEvent::Sent(1)));
    writer.step(SendEvent::Event(event(3, Vec::new(), Vec::new())));
    assert!(!writer.accepts(&SendEvent::Event(event(3, Vec::new(), Vec::new()))));
    assert!(writer.accepts(&SendEvent::Writable));
}

#[test]
fn client_reads_back_the_events() {
    let (mut writer, _) = EventWriter::<u32>::start();
    let mut wire: Vec<u8> = Vec::new();
    let mut carried: Vec<u32> = Vec::new();
    let mut expected: Vec<u8> = Vec::new();
    for n in 0..10u32 {
        let queued = event(n, vec![n as u8; n as usize * 4], vec![n; n as usize % 3]);
        expected.extend(encode_event(&queued));
        let mut action = writer.step(SendEvent::Event(queued));
        while action != SendAction::NextEvent {
            assert_eq!(writer.step(SendEvent::Writable), SendAction::Write);
            let taken = writer.unsent().len().min(7);
            wire.extend(&writer.unsent()[..taken]);
            carried.extend(writer.attached());
            action = writer.step(SendEvent::Sent(taken));
        }
    }
    assert_eq!(wire, expected);
    assert_eq!(carried, vec![1, 2, 2, 4, 5, 5, 7, 8, 8]);
    let mut data: VecDeque<u8> = wire.into_iter().collect();
    let (messages, malformed) = take_messages(&mut data);
    assert_eq!(malformed, None);
    assert!(data.is_empty());
    assert_eq!(messages.len(), 10);
    for (n, message) in messages.iter().enumerate() {
        assert_eq!(message.object_id, n as u32);
        assert_eq!(message.args, vec![n as u8; n * 4]);
    }
}
