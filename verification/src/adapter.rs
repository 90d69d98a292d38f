//! The request adapter: bridges the four kernel filesystem requests —
//! lookup, getattr, read, readdir — to the virtual namespace and shapes
//! the replies the kernel driver expects, including not-found signaling.

use vstd::prelude::*;

use crate::namespace::{Namespace, NsError};
use crate::node::{Attr, FileKind, TimeSpec};
use crate::ENOENT_CODE;

verus! {

/// One readdir reply entry: a directory entry together with the offset
/// at which a later readdir request resumes after it.
pub struct NumberedEntry {
    pub ino: u64,
    pub kind: FileKind,
    pub name: String,
    pub next_offset: u64,
}

/// Reply to a lookup request: the child's attributes with a validity
/// duration and a generation number, or an error code.
pub enum EntryReply {
    Entry { ttl: TimeSpec, attr: Attr, generation: u64 },
    Error { errno: i32 },
}

/// Reply to a getattr request: attributes with a validity duration, or
/// an error code.
pub enum AttrReply {
    Attributes { ttl: TimeSpec, attr: Attr },
    Error { errno: i32 },
}

/// Reply to a read request: the produced byte range (possibly empty), or
/// an error code.
pub enum DataReply {
    Data { bytes: Vec<u8> },
    Error { errno: i32 },
}

/// Reply to a readdir request: the entries to append, each carrying the
/// offset at which a later request resumes after it, or an error code.
pub enum DirReply {
    Entries { entries: Vec<NumberedEntry> },
    Error { errno: i32 },
}

/// Map a namespace error to the reply error code. This design uses
/// exactly one value, "no such entry", for every not-found condition,
/// kind mismatches included.
pub fn errno_of(e: NsError) -> (r: i32)
    ensures
        r == ENOENT_CODE,
{
    match e {
        NsError::NotFound => ENOENT_CODE,
        NsError::NotAFile => ENOENT_CODE,
        NsError::NotADirectory => ENOENT_CODE,
    }
}

/// One mount's request adapter: the namespace it serves and the validity
/// duration its replies carry. Requests are read-only: no request
/// mutates the namespace.
pub struct Adapter {
    pub ns: Namespace,
    pub ttl: TimeSpec,
}

impl Adapter {
    /// The adapter is sound when its namespace is.
    pub open spec fn wf(self) -> bool {
        self.ns.wf()
    }

    /// Pair a namespace with the validity duration its replies carry.
    pub fn new(ns: Namespace, ttl: TimeSpec) -> (a: Adapter)
        ensures
            a.ns == ns,
            a.ttl == ttl,
    {
        Adapter { ns, ttl }
    }

    /// Answer a lookup request: resolve `name` under `parent` and reply
    /// with the child's attributes and the validity duration, or with
    /// "no such entry" and no other side effect.
    pub fn lookup(&self, parent: u64, name: &str) -> (r: EntryReply)
        requires
            self.wf(),
        ensures
            self.ns.resolve_child_spec(parent, name@) matches Ok(a) ==> r == (EntryReply::Entry {
                ttl: self.ttl,
                attr: a,
                generation: 0,
            }),
            self.ns.resolve_child_spec(parent, name@) is Err ==> r == (EntryReply::Error {
                errno: ENOENT_CODE,
            }),
    {
        match self.ns.resolve_child(parent, name) {
            Ok(attr) => EntryReply::Entry { ttl: self.ttl, attr, generation: 0 },
            Err(e) => EntryReply::Error { errno: errno_of(e) },
        }
    }

    /// Answer a getattr request: reply with the node's attributes and the
    /// validity duration, or with "no such entry".
    pub fn getattr(&self, ino: u64) -> (r: AttrReply)
        requires
            self.wf(),
        ensures
            self.ns.has_node(ino) ==> r == (AttrReply::Attributes {
                ttl: self.ttl,
                attr: self.ns.spec_attr(ino),
            }),
            !self.ns.has_node(ino) ==> r == (AttrReply::Error { errno: ENOENT_CODE }),
    {
        match self.ns.attributes(ino) {
            Ok(attr) => AttrReply::Attributes { ttl: self.ttl, attr },
            Err(e) => AttrReply::Error { errno: errno_of(e) },
        }
    }

    /// Answer a read request: reply with whatever byte range the
    /// namespace produced — possibly empty, never an error for a valid
    /// file — or with "no such entry".
    pub fn read(&self, ino: u64, offset: u64, size: u32) -> (r: DataReply)
        requires
            self.wf(),
        ensures
            self.ns.has_node(ino) && self.ns.is_file(ino) ==> {
                &&& r matches DataReply::Data { bytes }
                &&& bytes@ == self.ns.read_spec_bytes(ino, offset as int, size as int)
            },
            !(self.ns.has_node(ino) && self.ns.is_file(ino)) ==> r == (DataReply::Error {
                errno: ENOENT_CODE,
            }),
    {
        match self.ns.read(ino, offset, size) {
            Ok(bytes) => DataReply::Data { bytes },
            Err(e) => DataReply::Error { errno: errno_of(e) },
        }
    }

    /// The entries of a readdir reply are exactly the listing resumed at
    /// `offset`, in order, each numbered with the offset at which the
    /// kernel resumes after it: its absolute position plus one.
    pub open spec fn readdir_entries_ok(self, ino: u64, offset: int, entries: Seq<NumberedEntry>) -> bool {
        let l = self.ns.listing_from(ino, offset);
        &&& entries.len() == l.len()
        &&& forall|j: int| 0 <= j < l.len() ==> {
            &&& (#[trigger] entries[j]).ino == l[j].0
            &&& entries[j].kind == l[j].1
            &&& entries[j].name@ == l[j].2
            &&& entries[j].next_offset == offset + j + 1
        }
    }

    /// Answer a readdir request: reply with the listing of `ino` resumed
    /// at `offset`, or with "no such entry". The caller appends the
    /// entries in order to its reply buffer and may stop early when the
    /// buffer is full; resuming at the last appended entry's number
    /// continues the listing without duplicate or gap.
    pub fn readdir(&self, ino: u64, offset: u64) -> (r: DirReply)
        requires
            self.wf(),
        ensures
            self.ns.has_node(ino) && self.ns.is_dir(ino) ==> {
                &&& r matches DirReply::Entries { entries }
                &&& self.readdir_entries_ok(ino, offset as int, entries@)
            },
            !(self.ns.has_node(ino) && self.ns.is_dir(ino)) ==> r == (DirReply::Error {
                errno: ENOENT_CODE,
            }),
    {
        match self.ns.list(ino, offset) {
            Err(e) => DirReply::Error { errno: errno_of(e) },
            Ok(v) => {
                proof {
                    let i = self.ns.index_of(ino);
                    assert(self.ns.node_ok(i));
                    assert(self.ns.full_listing(ino).len() <= u64::MAX);
                }
                let ghost l = self.ns.listing_from(ino, offset as int);
                let n = v.len();
                let mut out: Vec<NumberedEntry> = Vec::new();
                let mut k: usize = 0;
                while k < n
                    invariant
                        self.wf(),
                        self.ns.has_node(ino),
                        self.ns.is_dir(ino),
                        l == self.ns.listing_from(ino, offset as int),
                        crate::namespace::entry_views(v@) == l,
                        n == v@.len(),
                        n == l.len(),
                        k <= n,
                        n > 0 ==> offset + n <= self.ns.full_listing(ino).len(),
                        self.ns.full_listing(ino).len() <= u64::MAX,
                        out@.len() == k,
                        forall|j: int| 0 <= j < k ==> {
                            &&& (#[trigger] out@[j]).ino == l[j].0
                            &&& out@[j].kind == l[j].1
                            &&& out@[j].name@ == l[j].2
                            &&& out@[j].next_offset == offset + j + 1
                        },
                    decreases n - k,
                {
                    let e = &v[k];
                    proof {
                        assert(crate::namespace::entry_views(v@)[k as int] == v@[k as int]@);
                    }
                    out.push(
                        NumberedEntry {
                            ino: e.ino,
                            kind: e.kind,
                            name: e.name.clone(),
                            next_offset: offset + (k as u64) + 1,
                        },
                    );
                    k = k + 1;
                }
                DirReply::Entries { entries: out }
            },
        }
    }
}

} // verus!
