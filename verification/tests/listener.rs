use tokio_way_sock::{retain_running, ClientIds, Listener, ListenerAction, ListenerEvent};

/// A listener that waits for clients.
fn accepting(requested: &str) -> Listener {
    let (mut listener, action) = Listener::start::<u8>(Some(requested.to_string()));
    assert!(matches!(action, ListenerAction::Claim(path) if path == requested));
    assert!(matches!(
        listener.step(ListenerEvent::<u8>::Done),
        ListenerAction::Inspect
    ));
    assert!(matches!(
        listener.step(ListenerEvent::<u8>::Found(true)),
        ListenerAction::Clear
    ));
    assert!(matches!(
        listener.step(ListenerEvent::<u8>::Done),
        ListenerAction::Bind
    ));
    assert!(matches!(
        listener.step(ListenerEvent::<u8>::Done),
        ListenerAction::Listen { backlog: 1024 }
    ));
    match listener.step(ListenerEvent::<u8>::Done) {
        ListenerAction::Report(path) => assert_eq!(path, requested),
        _ => panic!("not a report"),
    }
    assert!(matches!(
        listener.step(ListenerEvent::<u8>::Done),
        ListenerAction::Accept
    ));
    assert_eq!(listener.socket_path(), requested);
    listener
}

#[test]
fn client_ids_count_up_from_one() {
    let mut ids = ClientIds::new();
    assert_eq!(ids.assign(), 1);
    assert_eq!(ids.assign(), 2);
    assert_eq!(ids.assign(), 3);
}

#[test]
fn clients_are_admitted_one_by_one() {
    let mut listener = accepting("/run/sock");
    for _ in 0..3 {
        assert!(matches!(
            listener.step(ListenerEvent::<u8>::Accepted),
            ListenerAction::Admit
        ));
        assert!(matches!(
            listener.step(ListenerEvent::<u8>::Done),
            ListenerAction::Accept
        ));
    }
}

#[test]
fn shutdown_waits_for_clients_and_succeeds() {
    for event in [ListenerEvent::<u8>::Cancelled, ListenerEvent::AcceptFailed] {
        let mut listener = accepting("/run/sock");
        assert!(matches!(listener.step(event), ListenerAction::Drain));
        assert!(matches!(
            listener.step(ListenerEvent::<u8>::Done),
            ListenerAction::Remove
        ));
        assert!(matches!(
            listener.step(ListenerEvent::<u8>::Done),
            ListenerAction::Finish(Ok(()))
        ));
        assert!(!listener.accepts(&ListenerEvent::<u8>::Done));
    }
}

#[test]
fn setup_fails_with_its_own_error() {
    // Claiming, clearing, binding and listening, by how many answers come before
    for before in [0u8, 2, 3, 4] {
        let (mut listener, _) = Listener::start::<u8>(Some("/run/sock".to_string()));
        let answers = [
            ListenerEvent::<u8>::Done,
            ListenerEvent::Found(true),
            ListenerEvent::Done,
            ListenerEvent::Done,
        ];
        for answer in answers.into_iter().take(usize::from(before)) {
            listener.step(answer);
        }
        assert!(listener.accepts(&ListenerEvent::Failed(before)));
        match listener.step(ListenerEvent::Failed(before)) {
            ListenerAction::Finish(Err(error)) => assert_eq!(error, before),
            _ => panic!("not a failure"),
        }
    }
}

#[test]
fn found_name_is_reported() {
    let (mut listener, action) = Listener::start::<u8>(None);
    assert!(matches!(action, ListenerAction::Search));
    assert!(!listener.accepts(&ListenerEvent::<u8>::Done));
    let named = ListenerEvent::<u8>::Named { socket_path: "/run/wayland-4".to_string() };
    assert!(matches!(listener.step(named), ListenerAction::Inspect));
    assert!(matches!(
        listener.step(ListenerEvent::<u8>::Found(false)),
        ListenerAction::Bind
    ));
    listener.step(ListenerEvent::<u8>::Done);
    match listener.step(ListenerEvent::<u8>::Done) {
        ListenerAction::Report(path) => assert_eq!(path, "/run/wayland-4"),
        _ => panic!("not a report"),
    }
}

#[test]
fn finished_tasks_are_forgotten() {
    let mut handles = vec![10, 11, 12, 13, 14];
    retain_running(&mut handles, &vec![true, false, true, true, false]);
    assert_eq!(handles, vec![11, 14]);
    retain_running(&mut handles, &vec![false, false]);
    assert_eq!(handles, vec![11, 14]);
    retain_running(&mut handles, &vec![true, true]);
    assert!(handles.is_empty());
    retain_running(&mut handles, &Vec::new());
    assert!(handles.is_empty());
}

#[test]
fn found_name_is_reported_and_the_listener_shuts_down() {
    for name in ["/run/wayland-0", "/run/wayland-1"] {
        let (mut listener, _) = Listener::start::<u8>(None);
        listener.step(ListenerEvent::<u8>::Named { socket_path: name.to_string() });
        listener.step(ListenerEvent::<u8>::Found(false));
        listener.step(ListenerEvent::<u8>::Done);
        match listener.step(ListenerEvent::<u8>::Done) {
            ListenerAction::Report(path) => assert_eq!(path, name),
            _ => panic!("not a report"),
        }
        assert!(matches!(
            listener.step(ListenerEvent::<u8>::Done),
            ListenerAction::Accept
        ));
        assert!(matches!(
            listener.step(ListenerEvent::<u8>::Cancelled),
            ListenerAction::Drain
        ));
        assert!(matches!(
            listener.step(ListenerEvent::<u8>::Done),
            ListenerAction::Remove
        ));
        assert_eq!(listener.socket_path(), name);
        assert!(matches!(
            listener.step(ListenerEvent::<u8>::Done),
            ListenerAction::Finish(Ok(()))
        ));
    }
}
