use std::collections::BTreeSet;
use tokio_way_sock::{
    claim_socket_name, lock_path, Listener, ListenerAction, ListenerEvent, LockAttempt, NameSearch,
    SearchStep, SocketNameError,
};

/// Lock files that somebody holds.
struct Locks {
    held: BTreeSet<String>,
}

impl Locks {
    fn claim(&mut self, socket_path: &str) -> Result<String, SocketNameError> {
        let lock = lock_path(socket_path);
        let status = if self.held.insert(lock.clone()) { 0 } else { -1 };
        let cause = "Resource temporarily unavailable (os error 11)".to_string();
        claim_socket_name(socket_path, LockAttempt::Flocked { lock, status, cause })
    }

    fn claim_auto(&mut self, dir: Option<&str>) -> Result<(String, String), SocketNameError> {
        let (mut search, mut path) = NameSearch::start(dir.map(str::to_string))?;
        loop {
            match search.step(self.claim(&path)) {
                SearchStep::Try(next) => path = next,
                SearchStep::Claimed { socket_path, lock } => return Ok((socket_path, lock)),
                SearchStep::Failed(error) => return Err(error),
            }
        }
    }

    /// Bring a listener up, and give it with the name that it reports.
    fn bring_up(
        &mut self,
        requested: Option<&str>,
        dir: &str,
    ) -> Result<(Listener, String), String> {
        let (mut listener, mut action) =
            Listener::start::<String>(requested.map(str::to_string));
        loop {
            let event = match action {
                ListenerAction::Claim(path) => match self.claim(&path) {
                    Ok(_) => ListenerEvent::Done,
                    Err(error) => ListenerEvent::Failed(error.message()),
                },
                ListenerAction::Search => match self.claim_auto(Some(dir)) {
                    Ok((socket_path, _)) => ListenerEvent::Named { socket_path },
                    Err(error) => ListenerEvent::Failed(error.message()),
                },
                ListenerAction::Inspect => ListenerEvent::Found(false),
                ListenerAction::Bind => ListenerEvent::Done,
                ListenerAction::Listen { backlog } => {
                    assert_eq!(backlog, 1024);
                    ListenerEvent::Done
                }
                ListenerAction::Report(path) => return Ok((listener, path)),
                ListenerAction::Finish(Err(error)) => return Err(error),
                _ => panic!("the socket is not up yet"),
            };
            action = listener.step(event);
        }
    }
}

/// Cancel a listener that has reported its name, and give its outcome.
fn shut_down(mut listener: Listener) -> Result<(), String> {
    assert!(matches!(
        listener.step(ListenerEvent::<String>::Done),
        ListenerAction::Accept
    ));
    let mut action = listener.step(ListenerEvent::<String>::Cancelled);
    loop {
        match action {
            ListenerAction::Drain | ListenerAction::Remove => {
                action = listener.step(ListenerEvent::Done);
            }
            ListenerAction::Finish(outcome) => return outcome,
            _ => panic!("the listener goes on"),
        }
    }
}

#[test]
fn autonames_and_reports() {
    let dir = "/tmp/way-sock-test-1";
    let mut locks = Locks { held: BTreeSet::new() };

    // First server: should claim wayland-0 and report it via ready.
    let (h1, name1) = locks.bring_up(None, dir).expect("first server should come up");
    assert_eq!(name1, format!("{dir}/{}", "wayland-0"));

    // Second server while the first holds its lock: should skip to wayland-1.
    let (h2, name2) = locks.bring_up(None, dir).expect("second server should come up");
    assert_eq!(name2, format!("{dir}/{}", "wayland-1"));

    // Explicit path: ready carries the path back unchanged.
    let explicit = format!("{dir}/{}", "my-sock");
    let (h3, name3) = locks.bring_up(Some(&explicit), dir).unwrap();
    assert_eq!(name3, explicit);

    shut_down(h1).unwrap();
    shut_down(h2).unwrap();
    shut_down(h3).unwrap();
}

#[test]
fn lock_stands_beside_the_socket() {
    assert_eq!(lock_path("/run/user/1000/wayland-0"), "/run/user/1000/wayland-0.lock");
    assert_eq!(lock_path(""), ".lock");
    assert_ne!(lock_path("a"), lock_path("b"));
}

#[test]
fn names_are_tried_in_order_up_to_the_last() {
    let mut locks = Locks { held: BTreeSet::new() };
    let mut names = BTreeSet::new();
    for n in 0..=32 {
        let (name, lock) = locks.claim_auto(Some("/run")).unwrap();
        assert_eq!(name, format!("/run/wayland-{n}"));
        assert_eq!(lock, format!("/run/wayland-{n}.lock"));
        assert!(names.insert(name));
    }
    let error = locks.claim_auto(Some("/run")).unwrap_err();
    assert!(matches!(error, SocketNameError::AllTaken { .. }));
    assert_eq!(
        error.message(),
        "every socket name from wayland-0 to wayland-32 in /run is taken; set an explicit \
         socket_path to use another",
    );
}

#[test]
fn freed_name_is_found_again() {
    let mut locks = Locks { held: BTreeSet::new() };
    for _ in 0..5 {
        locks.claim_auto(Some("/run")).unwrap();
    }
    locks.held.remove("/run/wayland-2.lock");
    assert_eq!(locks.claim_auto(Some("/run")).unwrap().0, "/run/wayland-2");
    assert_eq!(locks.claim_auto(Some("/run")).unwrap().0, "/run/wayland-5");
}

#[test]
fn runtime_dir_is_needed() {
    let mut locks = Locks { held: BTreeSet::new() };
    let error = locks.claim_auto(None).unwrap_err();
    assert!(matches!(error, SocketNameError::NoRuntimeDir));
    assert_eq!(error.message(), "XDG_RUNTIME_DIR is not set; cannot auto-name the socket");
}

#[test]
fn unopened_lock_is_an_error() {
    let attempt: LockAttempt<u32> = LockAttempt::OpenFailed {
        cause: "Permission denied (os error 13)".to_string(),
    };
    let error = claim_socket_name("/run/sock", attempt).unwrap_err();
    assert_eq!(
        error.message(),
        "cannot open the lock file /run/sock.lock: Permission denied (os error 13)",
    );
}

#[test]
fn refused_lock_is_an_error() {
    let attempt = LockAttempt::Flocked { lock: 5u32, status: -1, cause: "busy".to_string() };
    let error = claim_socket_name("/run/sock", attempt).unwrap_err();
    assert!(matches!(error, SocketNameError::InUse { .. }));
    assert_eq!(
        error.message(),
        "another compositor is already using /run/sock (busy); set a different socket_path to \
         run a second one",
    );
    let attempt = LockAttempt::Flocked { lock: 5u32, status: 0, cause: "stale".to_string() };
    assert_eq!(claim_socket_name("/run/sock", attempt).unwrap(), 5);
}

#[test]
fn claims_are_exclusive_and_independent() {
    let mut locks = Locks { held: BTreeSet::new() };
    assert!(locks.claim("/run/a").is_ok());
    assert!(locks.claim("/run/a").is_err());
    assert!(locks.claim("/run/b").is_ok());
    assert!(locks.claim("/run/a").is_err());
    locks.held.remove("/run/a.lock");
    assert!(locks.claim("/run/a").is_ok());
    assert!(locks.claim("/run/b").is_err());
}
