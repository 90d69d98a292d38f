//! A user-space filesystem core: an in-memory virtual namespace, a
//! kernel-request adapter, and a mount-session supervisor.

use vstd::prelude::*;

mod adapter;
mod hello;
mod namespace;
mod node;
mod supervisor;

pub use adapter::{errno_of, Adapter, AttrReply, DataReply, DirReply, EntryReply, NumberedEntry};
pub use hello::{
    hello_content, hello_file_attr, hello_namespace, hello_root_attr, is_hello_namespace,
    HELLO_INO,
};
pub use namespace::{
    entry_views, lemma_attributes_idempotent, lemma_listing_dots, lemma_listing_restart,
    lemma_lookup_stays_in_namespace, lemma_read_boundary, lemma_unknown_identifier_not_found,
    DirEntry, Namespace, NodeData, NodeRec, NsError,
};
pub use node::{Attr, FileKind, TimeSpec, ROOT_INO};
pub use supervisor::{
    count_unmounts, distinct_paths, lemma_shutdown_exactly_once, lemma_stopped_stays_silent,
    make_adapters, run_actions, run_state, shutdown_actions, spec_step, unmount_seq,
    validate_descriptors, ConfigError, MountDescriptor, SupAction, SupEvent, Supervisor,
};

verus! {

/// The single error code surfaced to the kernel for every not-found
/// condition.
pub const ENOENT_CODE: i32 = 2;

} // verus!
