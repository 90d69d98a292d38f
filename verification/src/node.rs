//! Node identities, kinds and attribute records for the virtual namespace.

use vstd::prelude::*;

verus! {

/// The identifier reserved for the root directory of every namespace.
pub const ROOT_INO: u64 = 1;

/// What kind of object a node is.
#[derive(Clone, Copy, Debug, PartialEq, Eq, Structural)]
pub enum FileKind {
    Directory,
    RegularFile,
}

/// A point in time, as whole seconds and nanoseconds since the epoch.
#[derive(Clone, Copy, Debug, PartialEq, Eq, Structural)]
pub struct TimeSpec {
    pub sec: i64,
    pub nsec: i32,
}

/// The full attribute record of one node, as the kernel protocol
/// reports it: identity, kind, size, timestamps, permissions and
/// ownership.
#[derive(Clone, Copy, Debug, PartialEq, Eq, Structural)]
pub struct Attr {
    /// Process-lifetime-unique node identifier.
    pub ino: u64,
    /// Size in bytes; for a regular file this equals the content length.
    pub size: u64,
    /// Number of blocks allocated.
    pub blocks: u64,
    /// Last access time.
    pub atime: TimeSpec,
    /// Last modification time.
    pub mtime: TimeSpec,
    /// Last status-change time.
    pub ctime: TimeSpec,
    /// Creation time.
    pub crtime: TimeSpec,
    /// Directory or regular file.
    pub kind: FileKind,
    /// Permission bits.
    pub perm: u16,
    /// Hard-link count.
    pub nlink: u32,
    /// Owning user identifier.
    pub uid: u32,
    /// Owning group identifier.
    pub gid: u32,
    /// Device identifier.
    pub rdev: u32,
    /// Implementation-defined flags.
    pub flags: u32,
}

} // verus!
