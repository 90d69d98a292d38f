use s3fs::{
    hello_namespace, make_adapters, validate_descriptors, Adapter, ConfigError, EntryReply,
    MountDescriptor, SupAction, SupEvent, Supervisor, TimeSpec, HELLO_INO, ROOT_INO,
};

fn ts(sec: i64) -> TimeSpec {
    TimeSpec { sec, nsec: 0 }
}

fn descriptor(bucket: &str, path: &str) -> MountDescriptor {
    MountDescriptor { bucket: bucket.to_owned(), path: path.to_owned() }
}

#[test]
fn distinct_paths_are_accepted() {
    let ds = vec![descriptor("a", "/mnt/a"), descriptor("b", "/mnt/b")];
    assert_eq!(validate_descriptors(&ds), Ok(()));
    let empty: Vec<MountDescriptor> = Vec::new();
    assert_eq!(validate_descriptors(&empty), Ok(()));
}

#[test]
fn duplicate_paths_are_rejected() {
    let ds = vec![
        descriptor("a", "/mnt/a"),
        descriptor("b", "/mnt/b"),
        descriptor("c", "/mnt/a"),
    ];
    assert_eq!(validate_descriptors(&ds), Err(ConfigError::DuplicatePath));
}

#[test]
fn one_adapter_per_descriptor() {
    let ds = vec![descriptor("a", "/mnt/a"), descriptor("b", "/mnt/b")];
    let adapters = make_adapters(&ds, 10, 20, ts(5), ts(1));
    assert_eq!(adapters.len(), 2);
    for a in adapters.iter() {
        match a.lookup(ROOT_INO, "hello.txt") {
            EntryReply::Entry { attr, .. } => assert_eq!(attr.ino, HELLO_INO),
            EntryReply::Error { .. } => panic!("lookup failed on a fresh mount"),
        }
    }
}

#[test]
fn mounts_answer_independently() {
    // Two mounts with distinct build-time identities: each adapter
    // answers from its own namespace, never from the other's.
    let first = Adapter::new(hello_namespace(1000, 1000, ts(1)), ts(1));
    let second = Adapter::new(hello_namespace(2000, 2000, ts(2)), ts(1));

    let a1 = match first.lookup(ROOT_INO, "hello.txt") {
        EntryReply::Entry { attr, .. } => attr,
        EntryReply::Error { .. } => panic!("lookup failed on the first mount"),
    };
    let a2 = match second.lookup(ROOT_INO, "hello.txt") {
        EntryReply::Entry { attr, .. } => attr,
        EntryReply::Error { .. } => panic!("lookup failed on the second mount"),
    };
    assert_eq!(a1.uid, 1000);
    assert_eq!(a2.uid, 2000);
    assert_eq!(a1.crtime.sec, 1);
    assert_eq!(a2.crtime.sec, 2);
}

#[test]
fn ticks_keep_the_loop_alive_without_actions() {
    let mut sup = Supervisor::new(2);
    assert!(sup.step(SupEvent::Tick).is_empty());
    assert!(sup.step(SupEvent::Tick).is_empty());
    assert!(!sup.stopped);
}

#[test]
fn cancellation_stops_each_session_exactly_once() {
    let mut sup = Supervisor::new(3);
    assert!(sup.step(SupEvent::Tick).is_empty());

    let acts = sup.step(SupEvent::Cancel);
    assert_eq!(
        acts,
        vec![
            SupAction::Unmount { session: 0 },
            SupAction::Unmount { session: 1 },
            SupAction::Unmount { session: 2 },
            SupAction::AnnounceShutdown,
        ]
    );
    assert!(sup.stopped);

    // A redundant delivery of the signal produces no further action.
    assert!(sup.step(SupEvent::Cancel).is_empty());
    assert!(sup.step(SupEvent::Tick).is_empty());
    assert!(sup.step(SupEvent::Cancel).is_empty());
    assert!(sup.stopped);
}

#[test]
fn shutdown_with_no_sessions_only_announces() {
    let mut sup = Supervisor::new(0);
    let acts = sup.step(SupEvent::Cancel);
    assert_eq!(acts, vec![SupAction::AnnounceShutdown]);
}
