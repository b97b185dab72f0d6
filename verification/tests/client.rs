use tokio::sync::mpsc::channel;
use tokio_util::sync::CancellationToken;
use tokio_way_sock::{
    encode_event, ClientAction, ClientEvent, ClientReader, WaylandEvent, WaylandReadBatch,
    WaylandSocketMessage,
};

const GET_REGISTRY: [u8; 12] = [1, 0, 0, 0, 1, 0, 12, 0, 2, 0, 0, 0];

fn read(bytes: &[u8], fds: &[u32]) -> ClientEvent<u32> {
    ClientEvent::Read { bytes: bytes.to_vec(), fds: fds.to_vec() }
}

/// A reader that waits for its client, and what the listener's token is.
fn waiting(client_id: u32) -> (ClientReader, CancellationToken) {
    let token = CancellationToken::new();
    let (mut reader, action) = ClientReader::start::<u32>(client_id, &token);
    assert!(matches!(action, ClientAction::OpenQueue { limit: 4096 }));
    let (socket_sender, _rx) = channel(1);
    let action: ClientAction<u32> = reader.step(ClientEvent::QueueOpened { socket_sender });
    assert!(matches!(
        action,
        ClientAction::Send(WaylandSocketMessage::NewClient(_))
    ));
    assert!(matches!(
        reader.step(ClientEvent::<u32>::Delivered),
        ClientAction::StartSending
    ));
    assert!(matches!(
        reader.step(ClientEvent::<u32>::SendingStarted),
        ClientAction::Wait
    ));
    (reader, token)
}

fn readable(reader: &mut ClientReader) {
    assert!(matches!(
        reader.step(ClientEvent::<u32>::Readable),
        ClientAction::Read { bytes: 4096, fds: 28, close_on_exec: true }
    ));
}

fn batch(action: ClientAction<u32>) -> WaylandReadBatch<u32> {
    match action {
        ClientAction::Send(WaylandSocketMessage::Read(batch)) => batch,
        _ => panic!("not a batch"),
    }
}

fn disconnected(action: ClientAction<u32>) -> u32 {
    match action {
        ClientAction::Send(WaylandSocketMessage::ClientDisconnected { client_id }) => client_id,
        _ => panic!("not a disconnect"),
    }
}

#[test]
fn client_is_announced_with_its_queue_and_token() {
    let token = CancellationToken::new();
    let (mut reader, _) = ClientReader::start::<u32>(7, &token);
    let (socket_sender, mut rx) = channel(3);
    match reader.step(ClientEvent::QueueOpened { socket_sender }) {
        ClientAction::Send(WaylandSocketMessage::NewClient(message)) => {
            assert_eq!(message.client_id, 7);
            assert_eq!(message.socket_sender.max_capacity(), 3);
            let event = WaylandEvent { object_id: 5, op_code: 6, args: vec![7], fds: vec![8] };
            assert!(message.socket_sender.try_send(event).is_ok());
            assert_eq!(rx.try_recv().unwrap().object_id, 5);
            assert!(&message.client_cancel_token == reader.cancel_token());
            message.client_cancel_token.cancel();
            assert!(reader.cancel_token().is_cancelled());
            assert!(!token.is_cancelled());
        }
        _ => panic!("not an announcement"),
    }
}

#[test]
fn listener_token_cancels_every_client() {
    let token = CancellationToken::new();
    let (one, _) = ClientReader::start::<u32>(1, &token);
    let (other, _) = ClientReader::start::<u32>(2, &token);
    assert!(one.cancel_token() != &token);
    one.cancel_token().cancel();
    assert!(!other.cancel_token().is_cancelled());
    token.cancel();
    assert!(other.cancel_token().is_cancelled());
}

#[test]
fn unannounced_client_is_not_reported_gone() {
    let token = CancellationToken::new();
    let (mut reader, _) = ClientReader::start::<u32>(7, &token);
    let (socket_sender, _rx) = channel(1);
    reader.step(ClientEvent::<u32>::QueueOpened { socket_sender });
    assert!(matches!(
        reader.step(ClientEvent::<u32>::CompositorGone),
        ClientAction::Finish
    ));
}

#[test]
fn read_is_handed_over_in_one_batch() {
    let (mut reader, _token) = waiting(9);
    readable(&mut reader);
    let mut bytes = GET_REGISTRY.to_vec();
    bytes.extend([5, 0, 0, 0, 2, 0, 8, 0]);
    let batch = batch(reader.step(read(&bytes, &[30, 31])));
    assert_eq!(batch.client_id, 9);
    assert_eq!(batch.fds, vec![30, 31]);
    assert_eq!(batch.messages.len(), 2);
    assert_eq!(batch.messages[0].args, vec![2, 0, 0, 0]);
    assert_eq!(batch.messages[1].object_id, 5);
    assert!(matches!(
        reader.step(ClientEvent::<u32>::Delivered),
        ClientAction::Wait
    ));
}

#[test]
fn partial_message_is_kept_for_the_next_read() {
    let (mut reader, _token) = waiting(9);
    readable(&mut reader);
    assert!(matches!(
        reader.step(read(&GET_REGISTRY[..5], &[])),
        ClientAction::Wait
    ));
    readable(&mut reader);
    let batch = batch(reader.step(read(&GET_REGISTRY[5..], &[])));
    assert_eq!(batch.messages.len(), 1);
    assert!(batch.fds.is_empty());
}

#[test]
fn descriptors_may_come_before_their_message() {
    let (mut reader, _token) = waiting(9);
    readable(&mut reader);
    let first = batch(reader.step(read(&GET_REGISTRY[..5], &[40, 41])));
    assert_eq!(first.fds, vec![40, 41]);
    assert!(first.messages.is_empty());
    reader.step(ClientEvent::<u32>::Delivered);
    readable(&mut reader);
    let second = batch(reader.step(read(&GET_REGISTRY[5..], &[42])));
    assert_eq!(second.fds, vec![42]);
    assert_eq!(second.messages.len(), 1);
}

#[test]
fn malformed_stream_is_given_up() {
    let (mut reader, _token) = waiting(9);
    readable(&mut reader);
    let mut bytes = GET_REGISTRY.to_vec();
    bytes.extend([1, 0, 0, 0, 0, 0, 4, 0]);
    assert_eq!(reader.malformed_length(), None);
    assert_eq!(batch(reader.step(read(&bytes, &[]))).messages.len(), 1);
    assert_eq!(reader.malformed_length(), Some(4));
    assert_eq!(disconnected(reader.step(ClientEvent::Delivered)), 9);
    assert!(matches!(
        reader.step(ClientEvent::<u32>::Delivered),
        ClientAction::Finish
    ));
}

#[test]
fn malformed_stream_without_messages_is_given_up_at_once() {
    let (mut reader, _token) = waiting(9);
    readable(&mut reader);
    assert_eq!(disconnected(reader.step(read(&[1, 0, 0, 0, 0, 0, 7, 0], &[]))), 9);
}

#[test]
fn end_of_stream_disconnects() {
    let (mut reader, _token) = waiting(3);
    readable(&mut reader);
    assert_eq!(disconnected(reader.step(read(&[], &[]))), 3);
    assert!(matches!(
        reader.step(ClientEvent::<u32>::CompositorGone),
        ClientAction::Finish
    ));
}

#[test]
fn failures_and_cancellation_disconnect() {
    let (mut reader, _token) = waiting(3);
    assert_eq!(disconnected(reader.step(ClientEvent::Cancelled)), 3);
    let (mut reader, _token) = waiting(4);
    assert_eq!(disconnected(reader.step(ClientEvent::WaitFailed)), 4);
    let (mut reader, _token) = waiting(5);
    readable(&mut reader);
    assert_eq!(disconnected(reader.step(ClientEvent::ReadFailed)), 5);
    let (mut reader, _token) = waiting(6);
    readable(&mut reader);
    batch(reader.step(read(&GET_REGISTRY, &[])));
    assert_eq!(disconnected(reader.step(ClientEvent::CompositorGone)), 6);
}

#[test]
fn blocked_read_waits_again() {
    let (mut reader, _token) = waiting(3);
    readable(&mut reader);
    assert!(matches!(
        reader.step(ClientEvent::<u32>::WouldBlock),
        ClientAction::Wait
    ));
}

#[test]
fn only_answers_to_the_action_are_accepted() {
    let (mut reader, _token) = waiting(3);
    assert!(reader.accepts(&ClientEvent::<u32>::Readable));
    assert!(reader.accepts(&ClientEvent::<u32>::Cancelled));
    assert!(!reader.accepts(&ClientEvent::<u32>::Delivered));
    assert!(!reader.accepts(&read(&[1], &[])));
    readable(&mut reader);
    assert!(reader.accepts(&read(&[1], &[])));
    assert!(!reader.accepts(&ClientEvent::<u32>::Readable));
}

#[test]
fn requests_and_descriptors_pass_in_order() {
    let mut stream: Vec<u8> = Vec::new();
    for n in 0..20u8 {
        let event: WaylandEvent<u32> = WaylandEvent {
            object_id: u32::from(n),
            op_code: 3,
            args: vec![n; usize::from(n % 4) * 4],
            fds: Vec::new(),
        };
        stream.extend(encode_event(&event));
    }
    let (mut reader, _token) = waiting(3);
    let mut requests = Vec::new();
    let mut fds = Vec::new();
    let mut sent_fds = Vec::new();
    for (i, part) in stream.chunks(13).enumerate() {
        let with: Vec<u32> = vec![i as u32; i % 3];
        sent_fds.extend(with.clone());
        readable(&mut reader);
        match reader.step(read(part, &with)) {
            ClientAction::Send(WaylandSocketMessage::Read(batch)) => {
                requests.extend(batch.messages.into_iter().map(|m| m.object_id));
                fds.extend(batch.fds);
                reader.step(ClientEvent::<u32>::Delivered);
            }
            ClientAction::Wait => {}
            _ => panic!("neither a batch nor a wait"),
        }
    }
    assert_eq!(requests, (0..20).collect::<Vec<u32>>());
    assert_eq!(fds, sent_fds);
}
