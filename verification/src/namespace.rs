//! The virtual namespace: an in-memory tree of directories and regular
//! files addressed by integer identifiers, answering name-to-identifier,
//! identifier-to-attribute, content-read and directory-listing queries.

use vstd::prelude::*;

use crate::node::{Attr, FileKind, ROOT_INO};

verus! {

/// The errors a namespace query can end in.
#[derive(Clone, Copy, Debug, PartialEq, Eq, Structural)]
pub enum NsError {
    /// The identifier or name does not resolve.
    NotFound,
    /// A content read was directed at a directory.
    NotAFile,
    /// A listing was directed at a regular file.
    NotADirectory,
}

/// One entry of a directory's child table: identifier, kind and name.
#[derive(Debug, PartialEq, Eq)]
pub struct DirEntry {
    pub ino: u64,
    pub kind: FileKind,
    pub name: String,
}

impl View for DirEntry {
    type V = (u64, FileKind, Seq<char>);

    open spec fn view(&self) -> (u64, FileKind, Seq<char>) {
        (self.ino, self.kind, self.name@)
    }
}

/// What a node holds besides its attributes: a child table for a
/// directory (synthetic `.` and `..` excluded), content bytes for a file.
pub enum NodeData {
    Directory { parent: u64, entries: Vec<DirEntry> },
    File { content: Vec<u8> },
}

/// One node of the namespace: its attribute record plus its data.
pub struct NodeRec {
    pub attr: Attr,
    pub data: NodeData,
}

impl NodeRec {
    pub open spec fn is_dir(&self) -> bool {
        self.data is Directory
    }

    pub open spec fn is_file(&self) -> bool {
        self.data is File
    }

    pub open spec fn entries(&self) -> Seq<DirEntry> {
        self.data->entries@
    }

    pub open spec fn parent(&self) -> u64 {
        self.data->parent
    }

    pub open spec fn content(&self) -> Seq<u8> {
        self.data->content@
    }

    /// A node's attribute record agrees with its data: the kind matches
    /// the variant and a file's size is its content length.
    pub open spec fn consistent(&self) -> bool {
        &&& self.is_dir() <==> self.attr.kind == FileKind::Directory
        &&& self.is_file() <==> self.attr.kind == FileKind::RegularFile
        &&& self.is_file() ==> self.attr.size == self.content().len()
        &&& self.is_dir() ==> self.entries().len() + 2 <= u64::MAX
    }
}

/// The mathematical content of a sequence of directory entries:
/// (identifier, kind, name) triples in the same order.
pub open spec fn entry_views(s: Seq<DirEntry>) -> Seq<(u64, FileKind, Seq<char>)> {
    s.map(|k: int, e: DirEntry| e@)
}

/// An in-memory tree of nodes. Identifier `ROOT_INO` is reserved for the
/// root directory; every other node is reachable through some directory's
/// child table.
pub struct Namespace {
    pub nodes: Vec<NodeRec>,
}

impl Namespace {
    /// Whether some node carries the identifier `ino`.
    pub open spec fn has_node(self, ino: u64) -> bool {
        exists|i: int| 0 <= i < self.nodes@.len() && self.nodes@[i].attr.ino == ino
    }

    /// The index of the node with identifier `ino` (meaningful only when
    /// `has_node(ino)` holds; under `wf` it is unique).
    pub open spec fn index_of(self, ino: u64) -> int {
        choose|i: int| 0 <= i < self.nodes@.len() && self.nodes@[i].attr.ino == ino
    }

    /// The node with identifier `ino`.
    pub open spec fn node(self, ino: u64) -> NodeRec {
        self.nodes@[self.index_of(ino)]
    }

    /// The attribute record of node `ino`.
    pub open spec fn spec_attr(self, ino: u64) -> Attr {
        self.node(ino).attr
    }

    /// Whether node `ino` is a directory.
    pub open spec fn is_dir(self, ino: u64) -> bool {
        self.node(ino).is_dir()
    }

    /// Whether node `ino` is a regular file.
    pub open spec fn is_file(self, ino: u64) -> bool {
        self.node(ino).is_file()
    }

    /// The content bytes of file `ino`.
    pub open spec fn spec_content(self, ino: u64) -> Seq<u8> {
        self.node(ino).content()
    }

    /// The parent identifier of directory `ino`.
    pub open spec fn parent_of(self, ino: u64) -> u64 {
        self.node(ino).parent()
    }

    /// The child table of directory `ino`, without the synthetic entries.
    pub open spec fn children(self, ino: u64) -> Seq<DirEntry> {
        self.node(ino).entries()
    }

    /// One directory entry is sound within this namespace: its identifier
    /// resolves to a node of the kind the entry announces, and its name is
    /// a real name, not one of the synthetic `.` / `..`.
    pub open spec fn entry_ok(self, e: DirEntry) -> bool {
        &&& self.has_node(e.ino)
        &&& self.node(e.ino).attr.kind == e.kind
        &&& e.name@ != "."@
        &&& e.name@ != ".."@
    }

    /// The node at index `i` is sound: consistent in itself, and, for a
    /// directory, its parent resolves to a directory and its child table
    /// holds sound entries under pairwise-distinct names.
    pub open spec fn node_ok(self, i: int) -> bool {
        let rec = self.nodes@[i];
        &&& rec.consistent()
        &&& rec.is_dir() ==> {
            &&& self.has_node(rec.parent())
            &&& self.node(rec.parent()).is_dir()
            &&& forall|k: int| 0 <= k < rec.entries().len() ==> self.entry_ok(#[trigger] rec.entries()[k])
            &&& forall|k1: int, k2: int|
                0 <= k1 < rec.entries().len() && 0 <= k2 < rec.entries().len() && k1 != k2
                    ==> (#[trigger] rec.entries()[k1]).name@ != (#[trigger] rec.entries()[k2]).name@
        }
    }

    /// Well-formedness of the whole namespace: the root is present at
    /// index 0 and is a directory that is its own parent, identifiers are
    /// pairwise distinct, and every node is sound.
    pub open spec fn wf(self) -> bool {
        &&& self.nodes@.len() >= 1
        &&& self.nodes@[0].attr.ino == ROOT_INO
        &&& self.nodes@[0].is_dir()
        &&& self.nodes@[0].parent() == ROOT_INO
        &&& self.distinct_inos()
        &&& forall|i: int| 0 <= i < self.nodes@.len() ==> self.node_ok(i)
    }

    /// The identifiers of the nodes are pairwise distinct.
    pub open spec fn distinct_inos(self) -> bool {
        forall|i: int, j: int|
            0 <= i < self.nodes@.len() && 0 <= j < self.nodes@.len() && i != j
                ==> (#[trigger] self.nodes@[i]).attr.ino != (#[trigger] self.nodes@[j]).attr.ino
    }

    /// With distinct identifiers, any index holding `ino` is the one
    /// `index_of` denotes.
    pub proof fn lemma_index_unique(self, i: int, ino: u64)
        requires
            self.distinct_inos(),
            0 <= i < self.nodes@.len(),
            self.nodes@[i].attr.ino == ino,
        ensures
            self.has_node(ino),
            self.index_of(ino) == i,
            self.node(ino) == self.nodes@[i],
    {
        assert(self.has_node(ino));
        let j = self.index_of(ino);
        assert(0 <= j < self.nodes@.len() && self.nodes@[j].attr.ino == ino);
        if i != j {
            assert(self.nodes@[i].attr.ino != self.nodes@[j].attr.ino);
        }
    }

    /// Locate the node carrying `ino` by a linear scan.
    fn find(&self, ino: u64) -> (r: Option<usize>)
        requires
            self.wf(),
        ensures
            match r {
                Some(i) => {
                    &&& i < self.nodes@.len()
                    &&& self.nodes@[i as int].attr.ino == ino
                    &&& self.has_node(ino)
                    &&& self.index_of(ino) == i as int
                    &&& self.node(ino) == self.nodes@[i as int]
                },
                None => !self.has_node(ino),
            },
    {
        let n = self.nodes.len();
        let mut i: usize = 0;
        while i < n
            invariant
                self.wf(),
                n == self.nodes@.len(),
                i <= n,
                forall|j: int| 0 <= j < i ==> (#[trigger] self.nodes@[j]).attr.ino != ino,
            decreases n - i,
        {
            if self.nodes[i].attr.ino == ino {
                proof {
                    self.lemma_index_unique(i as int, ino);
                }
                return Some(i);
            }
            i = i + 1;
        }
        None
    }

    /// Whether directory `parent` has a child table entry named `name`.
    pub open spec fn has_child(self, parent: u64, name: Seq<char>) -> bool {
        exists|k: int| 0 <= k < self.children(parent).len() && self.children(parent)[k].name@ == name
    }

    /// The child table entry of `parent` named `name` (meaningful only
    /// when `has_child` holds; under `wf` names are distinct, so it is
    /// unique).
    pub open spec fn child_entry(self, parent: u64, name: Seq<char>) -> DirEntry {
        self.children(parent)[choose|k: int|
            0 <= k < self.children(parent).len() && self.children(parent)[k].name@ == name]
    }

    /// Under `wf`, any child table position holding `name` is the one
    /// `child_entry` denotes.
    pub proof fn lemma_child_unique(self, parent: u64, k: int)
        requires
            self.wf(),
            self.has_node(parent),
            self.is_dir(parent),
            0 <= k < self.children(parent).len(),
        ensures
            self.has_child(parent, self.children(parent)[k].name@),
            self.child_entry(parent, self.children(parent)[k].name@) == self.children(parent)[k],
            self.entry_ok(self.children(parent)[k]),
        {
        let i = self.index_of(parent);
        assert(self.node_ok(i));
        let name = self.children(parent)[k].name@;
        assert(self.has_child(parent, name));
        let k2 = choose|k2: int|
            0 <= k2 < self.children(parent).len() && self.children(parent)[k2].name@ == name;
        if k2 != k {
            assert(self.children(parent)[k].name@ != self.children(parent)[k2].name@);
        }
    }

    /// What a name lookup returns: the attribute record of the child of
    /// `parent` named `name`, matched byte for byte; `NotFound` when the
    /// parent is missing or no child carries the name, `NotADirectory`
    /// when the parent is a regular file.
    pub open spec fn resolve_child_spec(self, parent: u64, name: Seq<char>) -> Result<Attr, NsError> {
        if !self.has_node(parent) {
            Err(NsError::NotFound)
        } else if !self.is_dir(parent) {
            Err(NsError::NotADirectory)
        } else if self.has_child(parent, name) {
            Ok(self.spec_attr(self.child_entry(parent, name).ino))
        } else {
            Err(NsError::NotFound)
        }
    }

    /// Resolve child `name` within directory `parent` to the child's full
    /// attribute record.
    ///
    /// The match is exact (byte for byte, no folding or normalization),
    /// deterministic and side-effect-free. Success comes exactly when the
    /// parent exists, is a directory, and its child table carries the
    /// name; the synthetic `.` and `..` never resolve here, only in
    /// listings.
    pub fn resolve_child(&self, parent: u64, name: &str) -> (r: Result<Attr, NsError>)
        requires
            self.wf(),
        ensures
            r == self.resolve_child_spec(parent, name@),
            r is Ok <==> self.has_node(parent) && self.is_dir(parent)
                && self.has_child(parent, name@),
            r matches Ok(a) ==> a == self.spec_attr(self.child_entry(parent, name@).ino),
    {
        let wanted: String = name.to_owned();
        let i = match self.find(parent) {
            Some(i) => i,
            None => {
                return Err(NsError::NotFound);
            },
        };
        let rec = &self.nodes[i];
        match &rec.data {
            NodeData::File { .. } => Err(NsError::NotADirectory),
            NodeData::Directory { entries, .. } => {
                let n = entries.len();
                let mut k: usize = 0;
                while k < n
                    invariant
                        self.wf(),
                        self.has_node(parent),
                        self.is_dir(parent),
                        i < self.nodes@.len(),
                        i as int == self.index_of(parent),
                        entries@ == self.children(parent),
                        n == entries@.len(),
                        k <= n,
                        wanted@ == name@,
                        forall|j: int| 0 <= j < k ==> (#[trigger] entries@[j]).name@ != name@,
                    decreases n - k,
                {
                    if entries[k].name == wanted {
                        proof {
                            self.lemma_child_unique(parent, k as int);
                        }
                        let child_ino = entries[k].ino;
                        let j = self.find(child_ino).unwrap();
                        return Ok(self.nodes[j].attr);
                    }
                    k = k + 1;
                }
                Err(NsError::NotFound)
            },
        }
    }

    /// The full, ordered listing of directory `d`: the synthetic `.` and
    /// `..` at positions 0 and 1 (for the root, both denote the root),
    /// then the child table in its stored order.
    pub open spec fn full_listing(self, d: u64) -> Seq<(u64, FileKind, Seq<char>)> {
        seq![
            (d, FileKind::Directory, "."@),
            (self.parent_of(d), FileKind::Directory, ".."@),
        ] + entry_views(self.children(d))
    }

    /// The listing resumed after `offset` entries have already been
    /// consumed: the full listing with its first `offset` entries dropped
    /// (empty once the offset is at or past the end).
    pub open spec fn listing_from(self, d: u64, offset: int) -> Seq<(u64, FileKind, Seq<char>)> {
        let full = self.full_listing(d);
        full.skip(vstd::math::min(offset, full.len() as int))
    }

    /// Produce the entry sequence of directory `id` starting after
    /// `offset` entries already consumed.
    ///
    /// Success comes exactly when `id` names a directory, whatever the
    /// offset; the entries returned are the tail of the one full stable
    /// listing, so a caller that resumes at the count it has consumed
    /// sees no duplicate and no gap. Regular files answer
    /// `NotADirectory`, unknown identifiers `NotFound`.
    pub fn list(&self, id: u64, offset: u64) -> (r: Result<Vec<DirEntry>, NsError>)
        requires
            self.wf(),
        ensures
            r is Ok <==> self.has_node(id) && self.is_dir(id),
            r matches Ok(v) ==> entry_views(v@) == self.listing_from(id, offset as int),
            r matches Err(e) ==> e == (if !self.has_node(id) {
                NsError::NotFound
            } else {
                NsError::NotADirectory
            }),
    {
        let i = match self.find(id) {
            Some(i) => i,
            None => {
                return Err(NsError::NotFound);
            },
        };
        let rec = &self.nodes[i];
        match &rec.data {
            NodeData::File { .. } => Err(NsError::NotADirectory),
            NodeData::Directory { parent, entries } => {
                let ghost full = self.full_listing(id);
                let ghost s0: int = vstd::math::min(offset as int, full.len() as int);
                let mut out: Vec<DirEntry> = Vec::new();
                if offset == 0 {
                    out.push(DirEntry { ino: id, kind: FileKind::Directory, name: ".".to_owned() });
                }
                if offset <= 1 {
                    out.push(
                        DirEntry { ino: *parent, kind: FileKind::Directory, name: "..".to_owned() },
                    );
                }
                let n = entries.len();
                let start: usize = if offset <= 2 {
                    0
                } else {
                    let past: u64 = offset - 2;
                    if past >= n as u64 {
                        n
                    } else {
                        past as usize
                    }
                };
                proof {
                    assert(full.len() == entries@.len() + 2);
                    assert(entry_views(out@) =~= full.subrange(s0, 2 + start as int));
                }
                let mut k = start;
                while k < n
                    invariant
                        self.wf(),
                        self.has_node(id),
                        self.is_dir(id),
                        i < self.nodes@.len(),
                        i as int == self.index_of(id),
                        entries@ == self.children(id),
                        n == entries@.len(),
                        start <= k <= n,
                        full == self.full_listing(id),
                        full.len() == entries@.len() + 2,
                        s0 == vstd::math::min(offset as int, full.len() as int),
                        0 <= s0 <= 2 + k as int,
                        entry_views(out@) =~= full.subrange(s0, 2 + k as int),
                    decreases n - k,
                {
                    let e = &entries[k];
                    let copied = DirEntry { ino: e.ino, kind: e.kind, name: e.name.clone() };
                    proof {
                        assert(copied@ == full[2 + k as int]);
                        assert(entry_views(out@.push(copied)) =~= entry_views(out@).push(copied@));
                    }
                    out.push(copied);
                    proof {
                        assert(entry_views(out@) =~= full.subrange(s0, 2 + k as int + 1));
                    }
                    k = k + 1;
                }
                proof {
                    assert(entry_views(out@) =~= self.listing_from(id, offset as int));
                }
                Ok(out)
            },
        }
    }

    /// What an attribute query returns: the record of the node carrying
    /// `id`, or `NotFound` when no node does.
    pub open spec fn attributes_spec(self, id: u64) -> Result<Attr, NsError> {
        if self.has_node(id) {
            Ok(self.spec_attr(id))
        } else {
            Err(NsError::NotFound)
        }
    }

    /// The bytes a content read produces: the slice of the file's content
    /// from `offset`, at most `max` bytes long, clamped to the content's
    /// end (a read at or past end-of-content is empty, not an error).
    pub open spec fn read_spec_bytes(self, id: u64, offset: int, max: int) -> Seq<u8> {
        let c = self.spec_content(id);
        let start = vstd::math::min(offset, c.len() as int);
        let end = vstd::math::min(offset + max, c.len() as int);
        c.subrange(start, end)
    }

    /// Read at most `max` bytes of file `id` starting at `offset`.
    ///
    /// Success comes exactly when `id` names a regular file, whatever the
    /// offset; directories answer `NotAFile`, unknown identifiers
    /// `NotFound`.
    pub fn read(&self, id: u64, offset: u64, max: u32) -> (r: Result<Vec<u8>, NsError>)
        requires
            self.wf(),
        ensures
            r is Ok <==> self.has_node(id) && self.is_file(id),
            r matches Ok(bytes) ==> bytes@ == self.read_spec_bytes(id, offset as int, max as int),
            r matches Err(e) ==> e == (if !self.has_node(id) {
                NsError::NotFound
            } else {
                NsError::NotAFile
            }),
    {
        let i = match self.find(id) {
            Some(i) => i,
            None => {
                return Err(NsError::NotFound);
            },
        };
        let rec = &self.nodes[i];
        match &rec.data {
            NodeData::Directory { .. } => Err(NsError::NotAFile),
            NodeData::File { content } => {
                let n = content.len();
                let start: usize = if offset >= n as u64 {
                    n
                } else {
                    offset as usize
                };
                let avail = n - start;
                let take: usize = if (max as u64) >= (avail as u64) {
                    avail
                } else {
                    max as usize
                };
                let end = start + take;
                let mut out: Vec<u8> = Vec::new();
                let mut k = start;
                while k < end
                    invariant
                        content@ == self.spec_content(id),
                        start <= k <= end <= content@.len(),
                        out@ == content@.subrange(start as int, k as int),
                    decreases end - k,
                {
                    out.push(content[k]);
                    proof {
                        assert(out@ =~= content@.subrange(start as int, k + 1 as int));
                    }
                    k = k + 1;
                }
                proof {
                    assert(out@ =~= self.read_spec_bytes(id, offset as int, max as int));
                }
                Ok(out)
            },
        }
    }

    /// Return the full attribute record of node `id`.
    ///
    /// Queries are read-only and deterministic: the result is a function
    /// of the namespace value alone, and `NotFound` comes exactly on the
    /// identifiers that no node carries.
    pub fn attributes(&self, id: u64) -> (r: Result<Attr, NsError>)
        requires
            self.wf(),
        ensures
            r == self.attributes_spec(id),
            r is Ok <==> self.has_node(id),
            r matches Ok(a) ==> a == self.spec_attr(id),
            r matches Err(e) ==> e == NsError::NotFound && !self.has_node(id),
    {
        match self.find(id) {
            Some(i) => Ok(self.nodes[i].attr),
            None => Err(NsError::NotFound),
        }
    }

    /// Build a namespace holding nothing but its root directory, with the
    /// given attribute record. All attribute values come from the caller
    /// at build time; nothing is read from ambient process state.
    pub fn new(root: Attr) -> (ns: Namespace)
        requires
            root.ino == ROOT_INO,
            root.kind == FileKind::Directory,
        ensures
            ns.wf(),
            ns.has_node(ROOT_INO),
            ns.spec_attr(ROOT_INO) == root,
            ns.is_dir(ROOT_INO),
            ns.parent_of(ROOT_INO) == ROOT_INO,
            ns.children(ROOT_INO) =~= Seq::<DirEntry>::empty(),
            forall|x: u64| ns.has_node(x) ==> x == ROOT_INO,
    {
        let mut nodes: Vec<NodeRec> = Vec::new();
        nodes.push(
            NodeRec {
                attr: root,
                data: NodeData::Directory { parent: ROOT_INO, entries: Vec::new() },
            },
        );
        let ns = Namespace { nodes };
        proof {
            assert(ns.nodes@.len() == 1);
            assert(ns.nodes@[0].attr.ino == ROOT_INO);
            ns.lemma_index_unique(0, ROOT_INO);
            assert forall|x: u64| ns.has_node(x) implies x == ROOT_INO by {
                let i = choose|i: int|
                    0 <= i < ns.nodes@.len() && ns.nodes@[i].attr.ino == x;
                assert(i == 0);
            }
            assert(ns.node_ok(0));
        }
        ns
    }

    /// Add a regular file with record `attr` and content `content` as
    /// child `name` of directory `parent`.
    ///
    /// The new identifier must be fresh and the name unused in the
    /// parent; the record must announce a regular file whose size is the
    /// content length. Everything already present keeps its identifier,
    /// attributes, content and listing; the parent's listing grows by the
    /// one new entry, at its end.
    pub fn add_file(&mut self, parent: u64, name: String, attr: Attr, content: Vec<u8>)
        requires
            old(self).wf(),
            old(self).has_node(parent),
            old(self).is_dir(parent),
            !old(self).has_node(attr.ino),
            !old(self).has_child(parent, name@),
            name@ != "."@,
            name@ != ".."@,
            attr.kind == FileKind::RegularFile,
            attr.size == content@.len(),
            old(self).children(parent).len() + 3 <= u64::MAX,
        ensures
            final(self).wf(),
            forall|x: u64| final(self).has_node(x) <==> old(self).has_node(x) || x == attr.ino,
            final(self).is_file(attr.ino),
            final(self).spec_attr(attr.ino) == attr,
            final(self).spec_content(attr.ino) == content@,
            forall|x: u64|
                old(self).has_node(x) ==> final(self).spec_attr(x) == old(self).spec_attr(x),
            forall|x: u64|
                old(self).has_node(x) && old(self).is_file(x) ==> final(self).is_file(x)
                    && final(self).spec_content(x) == old(self).spec_content(x),
            forall|x: u64|
                old(self).has_node(x) && old(self).is_dir(x) ==> final(self).is_dir(x)
                    && final(self).parent_of(x) == old(self).parent_of(x),
            forall|x: u64|
                old(self).has_node(x) && old(self).is_dir(x) && x != parent
                    ==> final(self).children(x) == old(self).children(x),
            entry_views(final(self).children(parent)) =~= entry_views(
                old(self).children(parent),
            ).push((attr.ino, FileKind::RegularFile, name@)),
    {
        let ghost oldn = self.nodes@;
        let p = self.find(parent).unwrap();
        let rec = self.nodes.remove(p);
        let NodeRec { attr: pattr, data } = rec;
        if let NodeData::Directory { parent: pp, mut entries } = data {
            let ghost oldentries = entries@;
            entries.push(DirEntry { ino: attr.ino, kind: FileKind::RegularFile, name });
            self.nodes.insert(
                p,
                NodeRec { attr: pattr, data: NodeData::Directory { parent: pp, entries } },
            );
            self.nodes.push(NodeRec { attr, data: NodeData::File { content } });
            proof {
                let old_ns = *old(self);
                let pi = p as int;
                let n = oldn.len() as int;
                let rec2 = self.nodes@[pi];
                let newrec = self.nodes@[n];
                // Shape of the new node vector: the parent record updated
                // in place, the file record appended.
                assert(self.nodes@.len() == n + 1);
                assert forall|j: int| 0 <= j < n && j != pi implies self.nodes@[j] == oldn[j] by {
                    assert(self.nodes@[j] == oldn.remove(pi).insert(pi, rec2)[j]);
                }
                assert(rec2.attr == oldn[pi].attr);
                assert(rec2.is_dir() && rec2.parent() == oldn[pi].parent());
                assert(rec2.entries().len() == oldentries.len() + 1);
                assert(rec2.entries().last().ino == attr.ino);
                assert(rec2.entries().last().kind == FileKind::RegularFile);
                assert(rec2.entries().last().name@ == name@);
                assert(newrec.attr == attr && newrec.is_file() && newrec.content() == content@);
                // No old identifier equals the fresh one.
                assert forall|j: int| 0 <= j < n implies (#[trigger] oldn[j]).attr.ino != attr.ino by {
                    if oldn[j].attr.ino == attr.ino {
                        assert(old_ns.has_node(attr.ino));
                    }
                }
                assert(self.distinct_inos());
                // Identifier sets.
                assert forall|x: u64| self.has_node(x) implies old_ns.has_node(x) || x == attr.ino by {
                    let i = choose|i: int|
                        0 <= i < self.nodes@.len() && self.nodes@[i].attr.ino == x;
                    if i < n {
                        assert(oldn[i].attr.ino == x);
                    }
                }
                assert forall|x: u64| old_ns.has_node(x) implies self.has_node(x) by {
                    let i = choose|i: int| 0 <= i < oldn.len() && oldn[i].attr.ino == x;
                    assert(self.nodes@[i].attr.ino == x);
                }
                assert(self.nodes@[n].attr.ino == attr.ino && self.has_node(attr.ino));
                // Old nodes keep their index, hence their record shape.
                assert forall|x: u64| old_ns.has_node(x) implies self.index_of(x)
                    == old_ns.index_of(x) && 0 <= old_ns.index_of(x) < n by {
                    let i = old_ns.index_of(x);
                    assert(0 <= i < n && oldn[i].attr.ino == x);
                    assert(self.nodes@[i].attr.ino == x);
                    self.lemma_index_unique(i, x);
                }
                self.lemma_index_unique(n, attr.ino);
                assert(self.node(attr.ino) == newrec);
                assert(old_ns.index_of(parent) == pi && old_ns.node(parent) == oldn[pi]) by {
                    old_ns.lemma_index_unique(pi, parent);
                }
                assert(oldentries == old_ns.children(parent));
                assert(self.node(parent) == rec2);
                // The parent's former names do not include the new one.
                assert forall|k: int| 0 <= k < oldentries.len()
                    implies (#[trigger] oldentries[k]).name@ != name@ by {
                    if oldentries[k].name@ == name@ {
                        assert(old_ns.has_child(parent, name@));
                    }
                }
                // Soundness of every node in the new namespace.
                assert forall|i: int| 0 <= i < self.nodes@.len() implies self.node_ok(i) by {
                    if i < n {
                        assert(old_ns.node_ok(i));
                        let r = self.nodes@[i];
                        if r.is_dir() {
                            let es = r.entries();
                            assert(old_ns.has_node(oldn[i].parent()));
                            assert(self.node(r.parent()).is_dir());
                            assert forall|k: int| 0 <= k < es.len()
                                implies self.entry_ok(#[trigger] es[k]) by {
                                if i == pi && k == es.len() - 1 {
                                    assert(es[k].ino == attr.ino);
                                } else {
                                    let olde = oldn[i].entries()[k];
                                    assert(es[k] == olde);
                                    assert(old_ns.entry_ok(olde));
                                    assert(self.node(olde.ino).attr == old_ns.node(olde.ino).attr);
                                }
                            }
                            assert forall|k1: int, k2: int|
                                0 <= k1 < es.len() && 0 <= k2 < es.len() && k1 != k2
                                implies (#[trigger] es[k1]).name@ != (#[trigger] es[k2]).name@ by {
                                if i == pi {
                                    if k1 < oldentries.len() && k2 < oldentries.len() {
                                        assert(es[k1] == oldentries[k1] && es[k2] == oldentries[k2]);
                                    } else if k1 == oldentries.len() {
                                        assert(es[k2] == oldentries[k2]);
                                        assert(es[k1].name@ == name@);
                                    } else {
                                        assert(es[k1] == oldentries[k1]);
                                        assert(es[k2].name@ == name@);
                                    }
                                }
                            }
                        }
                    }
                }
                // The contract's per-node preservation statements.
                assert forall|x: u64| old_ns.has_node(x) implies self.spec_attr(x)
                    == old_ns.spec_attr(x) by {
                    assert(self.node(x).attr == oldn[old_ns.index_of(x)].attr);
                }
                assert(entry_views(self.children(parent)) =~= entry_views(
                    old_ns.children(parent),
                ).push((attr.ino, FileKind::RegularFile, name@)));
            }
        }
    }
}

/// Idempotence law: with no mutation in between, two attribute queries
/// for the same identifier return byte-identical records. Any result the
/// contract of `attributes` permits equals `attributes_spec`, a function
/// of the namespace value alone, so any two such results coincide.
pub proof fn lemma_attributes_idempotent(
    ns: Namespace,
    id: u64,
    r1: Result<Attr, NsError>,
    r2: Result<Attr, NsError>,
)
    requires
        r1 == ns.attributes_spec(id),
        r2 == ns.attributes_spec(id),
    ensures
        r1 == r2,
{
}

/// Unknown-identifier law: an attribute query for an identifier that no
/// node carries returns `NotFound`.
pub proof fn lemma_unknown_identifier_not_found(ns: Namespace, id: u64)
    requires
        !ns.has_node(id),
    ensures
        ns.attributes_spec(id) == Err::<Attr, NsError>(NsError::NotFound),
{
}

/// Listing restart law: for any directory `d` and split point `k`, the
/// listing from the start truncated to its first `k` entries, followed by
/// the listing resumed at `k`, equals the listing from the start in full:
/// no duplicate and no skipped entry.
pub proof fn lemma_listing_restart(ns: Namespace, d: u64, k: int)
    requires
        ns.wf(),
        ns.has_node(d),
        ns.is_dir(d),
        0 <= k <= ns.full_listing(d).len(),
    ensures
        ns.listing_from(d, 0).take(k) + ns.listing_from(d, k) =~= ns.listing_from(d, 0),
{
    assert(ns.listing_from(d, 0) =~= ns.full_listing(d));
}

/// Read boundary law: a read that starts at the file's size returns an
/// empty result whatever its length bound, and a read from the start
/// whose bound is at least the size returns the whole content. The size
/// attribute of a well-formed file equals its content length.
pub proof fn lemma_read_boundary(ns: Namespace, f: u64, n: int)
    requires
        ns.wf(),
        ns.has_node(f),
        ns.is_file(f),
        n >= 0,
    ensures
        ns.spec_attr(f).size == ns.spec_content(f).len(),
        ns.read_spec_bytes(f, ns.spec_attr(f).size as int, n) =~= Seq::<u8>::empty(),
        n >= ns.spec_attr(f).size ==> ns.read_spec_bytes(f, 0, n) =~= ns.spec_content(f),
{
    let i = ns.index_of(f);
    assert(ns.node_ok(i));
}

/// Synthetic-entry law: every directory listing taken from the start
/// yields `.` and then `..` before any other entry; for the root both
/// denote the root itself.
pub proof fn lemma_listing_dots(ns: Namespace, d: u64)
    requires
        ns.wf(),
        ns.has_node(d),
        ns.is_dir(d),
    ensures
        ns.full_listing(d).len() >= 2,
        ns.full_listing(d)[0] == (d, FileKind::Directory, "."@),
        ns.full_listing(d)[1] == (ns.parent_of(d), FileKind::Directory, ".."@),
        d == ROOT_INO ==> ns.parent_of(d) == ROOT_INO,
{
    if d == ROOT_INO {
        ns.lemma_index_unique(0, ROOT_INO);
    }
}

/// Mount isolation law: a successful lookup returns a record that
/// belongs to this namespace — its identifier resolves here, to exactly
/// the returned record. Since every mount owns its namespace exclusively
/// and namespaces share no state, a lookup against one mount can never
/// produce a node of another.
pub proof fn lemma_lookup_stays_in_namespace(ns: Namespace, parent: u64, name: Seq<char>)
    requires
        ns.wf(),
    ensures
        ns.resolve_child_spec(parent, name) matches Ok(a) ==> ns.has_node(a.ino) && a
            == ns.spec_attr(a.ino),
{
    if ns.resolve_child_spec(parent, name) is Ok {
        let k = choose|k: int|
            0 <= k < ns.children(parent).len() && ns.children(parent)[k].name@ == name;
        ns.lemma_child_unique(parent, k);
        let e = ns.child_entry(parent, name);
        let i = ns.index_of(e.ino);
        assert(0 <= i < ns.nodes@.len() && ns.nodes@[i].attr.ino == e.ino);
    }
}

} // verus!
