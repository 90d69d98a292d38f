//! The fixed namespace the adapter currently serves: a root directory
//! holding one regular file, `hello.txt`. All attribute values — owner,
//! group and timestamps — are passed in at build time rather than read
//! from ambient process state, so any backend or test can build the same
//! shape with values of its choosing.

use vstd::prelude::*;

use crate::namespace::{entry_views, Namespace};
use crate::node::{Attr, FileKind, TimeSpec, ROOT_INO};

verus! {

/// The identifier of the one regular file of the fixed namespace.
pub const HELLO_INO: u64 = 2;

/// The content of `hello.txt`: the bytes of `"Hello World!\n"`.
pub open spec fn hello_content() -> Seq<u8> {
    seq![72u8, 101u8, 108u8, 108u8, 111u8, 32u8, 87u8, 111u8, 114u8, 108u8, 100u8, 33u8, 10u8]
}

/// The attribute record of the root directory.
pub open spec fn hello_root_attr(uid: u32, gid: u32, created: TimeSpec) -> Attr {
    Attr {
        ino: ROOT_INO,
        size: 0,
        blocks: 0,
        atime: created,
        mtime: created,
        ctime: created,
        crtime: created,
        kind: FileKind::Directory,
        perm: 448,
        nlink: 2,
        uid,
        gid,
        rdev: 0,
        flags: 0,
    }
}

/// The attribute record of `hello.txt`; its size is the content length.
pub open spec fn hello_file_attr(uid: u32, gid: u32, created: TimeSpec) -> Attr {
    Attr {
        ino: HELLO_INO,
        size: 13,
        blocks: 1,
        atime: created,
        mtime: created,
        ctime: created,
        crtime: created,
        kind: FileKind::RegularFile,
        perm: 511,
        nlink: 1,
        uid,
        gid,
        rdev: 0,
        flags: 0,
    }
}

/// What it means for a namespace to be the fixed one: well-formed, its
/// only nodes the root and `hello.txt`, with the given build-time
/// attribute values and the fixed content.
pub open spec fn is_hello_namespace(ns: Namespace, uid: u32, gid: u32, created: TimeSpec) -> bool {
    &&& ns.wf()
    &&& forall|x: u64| ns.has_node(x) <==> x == ROOT_INO || x == HELLO_INO
    &&& ns.is_dir(ROOT_INO)
    &&& ns.spec_attr(ROOT_INO) == hello_root_attr(uid, gid, created)
    &&& ns.parent_of(ROOT_INO) == ROOT_INO
    &&& ns.is_file(HELLO_INO)
    &&& ns.spec_attr(HELLO_INO) == hello_file_attr(uid, gid, created)
    &&& ns.spec_content(HELLO_INO) == hello_content()
    &&& ns.has_child(ROOT_INO, "hello.txt"@)
    &&& ns.child_entry(ROOT_INO, "hello.txt"@).ino == HELLO_INO
    &&& ns.full_listing(ROOT_INO) =~= seq![
        (ROOT_INO, FileKind::Directory, "."@),
        (ROOT_INO, FileKind::Directory, ".."@),
        (HELLO_INO, FileKind::RegularFile, "hello.txt"@),
    ]
}

/// Build the fixed namespace: the root directory and one file
/// `hello.txt` with content `"Hello World!\n"`.
pub fn hello_namespace(uid: u32, gid: u32, created: TimeSpec) -> (ns: Namespace)
    ensures
        ns.wf(),
        is_hello_namespace(ns, uid, gid, created),
{
    let root = Attr {
        ino: ROOT_INO,
        size: 0,
        blocks: 0,
        atime: created,
        mtime: created,
        ctime: created,
        crtime: created,
        kind: FileKind::Directory,
        perm: 448,
        nlink: 2,
        uid,
        gid,
        rdev: 0,
        flags: 0,
    };
    let mut ns = Namespace::new(root);
    let mut content: Vec<u8> = Vec::new();
    content.push(72u8);
    content.push(101u8);
    content.push(108u8);
    content.push(108u8);
    content.push(111u8);
    content.push(32u8);
    content.push(87u8);
    content.push(111u8);
    content.push(114u8);
    content.push(108u8);
    content.push(100u8);
    content.push(33u8);
    content.push(10u8);
    proof {
        assert(content@ =~= hello_content());
    }
    let fattr = Attr {
        ino: HELLO_INO,
        size: 13,
        blocks: 1,
        atime: created,
        mtime: created,
        ctime: created,
        crtime: created,
        kind: FileKind::RegularFile,
        perm: 511,
        nlink: 1,
        uid,
        gid,
        rdev: 0,
        flags: 0,
    };
    proof {
        reveal_strlit("hello.txt");
        reveal_strlit(".");
        reveal_strlit("..");
        assert("hello.txt"@.len() == 9 && "."@.len() == 1 && ".."@.len() == 2);
    }
    ns.add_file(ROOT_INO, "hello.txt".to_owned(), fattr, content);
    proof {
        assert(entry_views(ns.children(ROOT_INO)).len() == 1);
        assert(ns.children(ROOT_INO).len() == 1);
        assert(entry_views(ns.children(ROOT_INO))[0] == ns.children(ROOT_INO)[0]@);
        assert(ns.children(ROOT_INO)[0]@ == (HELLO_INO, FileKind::RegularFile, "hello.txt"@));
        ns.lemma_child_unique(ROOT_INO, 0);
        assert(ns.full_listing(ROOT_INO) =~= seq![
            (ROOT_INO, FileKind::Directory, "."@),
            (ROOT_INO, FileKind::Directory, ".."@),
            (HELLO_INO, FileKind::RegularFile, "hello.txt"@),
        ]);
    }
    ns
}

} // verus!
