use s3fs::{
    hello_namespace, Adapter, AttrReply, DataReply, DirReply, EntryReply, FileKind, NsError,
    TimeSpec, ENOENT_CODE, HELLO_INO, ROOT_INO,
};

fn ts(sec: i64) -> TimeSpec {
    TimeSpec { sec, nsec: 0 }
}

#[test]
fn hello_scenario() {
    let ns = hello_namespace(501, 501, ts(1_381_237_736));

    let attr = ns.resolve_child(ROOT_INO, "hello.txt").unwrap();
    assert_eq!(attr.ino, HELLO_INO);
    assert_eq!(attr.kind, FileKind::RegularFile);
    assert_eq!(attr.size, 13);
    assert_eq!(attr.uid, 501);
    assert_eq!(attr.gid, 501);

    let bytes = ns.read(HELLO_INO, 0, 1024).unwrap();
    assert_eq!(bytes, b"Hello World!\n".to_vec());

    assert_eq!(ns.resolve_child(ROOT_INO, "missing.txt"), Err(NsError::NotFound));

    let listing = ns.list(ROOT_INO, 0).unwrap();
    assert_eq!(listing.len(), 3);
    assert_eq!(listing[0].name, ".");
    assert_eq!(listing[0].ino, ROOT_INO);
    assert_eq!(listing[0].kind, FileKind::Directory);
    assert_eq!(listing[1].name, "..");
    assert_eq!(listing[1].ino, ROOT_INO);
    assert_eq!(listing[1].kind, FileKind::Directory);
    assert_eq!(listing[2].name, "hello.txt");
    assert_eq!(listing[2].ino, HELLO_INO);
    assert_eq!(listing[2].kind, FileKind::RegularFile);
}

#[test]
fn unknown_identifiers_are_not_found() {
    let ns = hello_namespace(0, 0, ts(7));
    assert!(ns.attributes(ROOT_INO).is_ok());
    assert!(ns.attributes(HELLO_INO).is_ok());
    assert_eq!(ns.attributes(3), Err(NsError::NotFound));
    assert_eq!(ns.attributes(999), Err(NsError::NotFound));
    assert_eq!(ns.attributes(u64::MAX), Err(NsError::NotFound));
}

#[test]
fn attributes_are_idempotent() {
    let ns = hello_namespace(42, 43, ts(11));
    for id in [ROOT_INO, HELLO_INO, 3u64] {
        let first = ns.attributes(id);
        let second = ns.attributes(id);
        assert_eq!(first, second);
    }
}

#[test]
fn synthetic_entries_come_first() {
    let ns = hello_namespace(1, 1, ts(0));
    // `.` and `..` are not required to resolve via lookup...
    assert_eq!(ns.resolve_child(ROOT_INO, "."), Err(NsError::NotFound));
    assert_eq!(ns.resolve_child(ROOT_INO, ".."), Err(NsError::NotFound));
    // ...but the listing yields them first, in that order.
    let listing = ns.list(ROOT_INO, 0).unwrap();
    assert_eq!(listing[0].name, ".");
    assert_eq!(listing[1].name, "..");
}

#[test]
fn listing_restarts_without_duplicates_or_gaps() {
    let ns = hello_namespace(1, 1, ts(0));
    let full = ns.list(ROOT_INO, 0).unwrap();
    for k in 0..=full.len() as u64 {
        let head = ns.list(ROOT_INO, 0).unwrap();
        let tail = ns.list(ROOT_INO, k).unwrap();
        let mut glued: Vec<(u64, FileKind, String)> = Vec::new();
        for e in head.iter().take(k as usize) {
            glued.push((e.ino, e.kind, e.name.clone()));
        }
        for e in tail.iter() {
            glued.push((e.ino, e.kind, e.name.clone()));
        }
        let whole: Vec<(u64, FileKind, String)> =
            full.iter().map(|e| (e.ino, e.kind, e.name.clone())).collect();
        assert_eq!(glued, whole);
    }
    // An offset past the end is an empty success, not an error.
    assert_eq!(ns.list(ROOT_INO, 100).unwrap().len(), 0);
}

#[test]
fn read_boundaries() {
    let ns = hello_namespace(1, 1, ts(0));
    let size = ns.attributes(HELLO_INO).unwrap().size;
    assert_eq!(size, 13);
    // Reading from the size onward is empty for any requested length.
    assert_eq!(ns.read(HELLO_INO, size, 0).unwrap(), Vec::<u8>::new());
    assert_eq!(ns.read(HELLO_INO, size, 5).unwrap(), Vec::<u8>::new());
    assert_eq!(ns.read(HELLO_INO, size + 100, 1024).unwrap(), Vec::<u8>::new());
    // Reading from 0 with length at least the size gives the whole content.
    assert_eq!(ns.read(HELLO_INO, 0, 13).unwrap(), b"Hello World!\n".to_vec());
    assert_eq!(ns.read(HELLO_INO, 0, 4096).unwrap(), b"Hello World!\n".to_vec());
    // A middle slice.
    assert_eq!(ns.read(HELLO_INO, 6, 5).unwrap(), b"World".to_vec());
    assert_eq!(ns.read(HELLO_INO, 6, 1000).unwrap(), b"World!\n".to_vec());
}

#[test]
fn kind_mismatches_and_missing_nodes() {
    let ns = hello_namespace(1, 1, ts(0));
    assert_eq!(ns.read(ROOT_INO, 0, 10), Err(NsError::NotAFile));
    assert_eq!(ns.read(77, 0, 10), Err(NsError::NotFound));
    assert_eq!(ns.list(HELLO_INO, 0), Err(NsError::NotADirectory));
    assert_eq!(ns.list(77, 0), Err(NsError::NotFound));
    assert_eq!(ns.resolve_child(HELLO_INO, "x"), Err(NsError::NotADirectory));
    assert_eq!(ns.resolve_child(77, "x"), Err(NsError::NotFound));
}

#[test]
fn every_error_maps_to_no_such_entry() {
    assert_eq!(s3fs::errno_of(NsError::NotFound), ENOENT_CODE);
    assert_eq!(s3fs::errno_of(NsError::NotAFile), ENOENT_CODE);
    assert_eq!(s3fs::errno_of(NsError::NotADirectory), ENOENT_CODE);
    assert_eq!(ENOENT_CODE, 2);
}

#[test]
fn adapter_replies() {
    let ttl = ts(1);
    let adapter = Adapter::new(hello_namespace(7, 8, ts(9)), ttl);

    match adapter.lookup(ROOT_INO, "hello.txt") {
        EntryReply::Entry { ttl: t, attr, generation } => {
            assert_eq!(t, ttl);
            assert_eq!(attr.ino, HELLO_INO);
            assert_eq!(generation, 0);
        },
        EntryReply::Error { .. } => panic!("lookup of hello.txt failed"),
    }
    match adapter.lookup(ROOT_INO, "nope") {
        EntryReply::Entry { .. } => panic!("lookup of a missing name succeeded"),
        EntryReply::Error { errno } => assert_eq!(errno, ENOENT_CODE),
    }

    match adapter.getattr(ROOT_INO) {
        AttrReply::Attributes { ttl: t, attr } => {
            assert_eq!(t, ttl);
            assert_eq!(attr.ino, ROOT_INO);
            assert_eq!(attr.kind, FileKind::Directory);
        },
        AttrReply::Error { .. } => panic!("getattr of the root failed"),
    }
    match adapter.getattr(9000) {
        AttrReply::Attributes { .. } => panic!("getattr of an unknown identifier succeeded"),
        AttrReply::Error { errno } => assert_eq!(errno, ENOENT_CODE),
    }

    match adapter.read(HELLO_INO, 0, 1024) {
        DataReply::Data { bytes } => assert_eq!(bytes, b"Hello World!\n".to_vec()),
        DataReply::Error { .. } => panic!("read of hello.txt failed"),
    }
    match adapter.read(ROOT_INO, 0, 1024) {
        DataReply::Data { .. } => panic!("read of a directory succeeded"),
        DataReply::Error { errno } => assert_eq!(errno, ENOENT_CODE),
    }
}

#[test]
fn readdir_numbering_resumes_the_listing() {
    let adapter = Adapter::new(hello_namespace(7, 8, ts(9)), ts(1));

    let all = match adapter.readdir(ROOT_INO, 0) {
        DirReply::Entries { entries } => entries,
        DirReply::Error { .. } => panic!("readdir of the root failed"),
    };
    assert_eq!(all.len(), 3);
    assert_eq!(all[0].name, ".");
    assert_eq!(all[0].next_offset, 1);
    assert_eq!(all[1].name, "..");
    assert_eq!(all[1].next_offset, 2);
    assert_eq!(all[2].name, "hello.txt");
    assert_eq!(all[2].next_offset, 3);

    // Resuming at an entry's number continues right after it.
    let resumed = match adapter.readdir(ROOT_INO, all[0].next_offset) {
        DirReply::Entries { entries } => entries,
        DirReply::Error { .. } => panic!("resumed readdir failed"),
    };
    assert_eq!(resumed.len(), 2);
    assert_eq!(resumed[0].name, "..");
    assert_eq!(resumed[0].next_offset, 2);
    assert_eq!(resumed[1].name, "hello.txt");
    assert_eq!(resumed[1].next_offset, 3);

    let done = match adapter.readdir(ROOT_INO, 3) {
        DirReply::Entries { entries } => entries,
        DirReply::Error { .. } => panic!("readdir past the end failed"),
    };
    assert!(done.is_empty());

    match adapter.readdir(HELLO_INO, 0) {
        DirReply::Entries { .. } => panic!("readdir of a file succeeded"),
        DirReply::Error { errno } => assert_eq!(errno, ENOENT_CODE),
    }
}
