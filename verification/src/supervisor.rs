//! The session supervisor: validates the configured mount descriptors,
//! builds one independent namespace and adapter per descriptor, and runs
//! the shutdown protocol — a state machine consuming tick and
//! cancellation events and emitting the unmount actions to perform.

use vstd::prelude::*;

use crate::adapter::Adapter;
use crate::hello::{hello_namespace, is_hello_namespace};
use crate::namespace::Namespace;
use crate::node::TimeSpec;

verus! {

/// One configured mount: a storage namespace identifier (a bucket name)
/// and the local filesystem path to bind it to.
pub struct MountDescriptor {
    pub bucket: String,
    pub path: String,
}

/// Why a configuration is rejected at validation time.
#[derive(Clone, Copy, Debug, PartialEq, Eq, Structural)]
pub enum ConfigError {
    /// Two descriptors target the same filesystem path.
    DuplicatePath,
}

/// The mount paths of the descriptors are pairwise distinct.
pub open spec fn distinct_paths(ds: Seq<MountDescriptor>) -> bool {
    forall|i: int, j: int|
        0 <= i < ds.len() && 0 <= j < ds.len() && i != j
            ==> (#[trigger] ds[i]).path@ != (#[trigger] ds[j]).path@
}

/// Reject a configuration in which two descriptors target the same
/// path: behavior of double-binding one path is undefined, so it is
/// refused before any mount is attempted.
pub fn validate_descriptors(ds: &Vec<MountDescriptor>) -> (r: Result<(), ConfigError>)
    ensures
        r is Ok <==> distinct_paths(ds@),
        r is Err ==> r == Err::<(), ConfigError>(ConfigError::DuplicatePath),
{
    let n = ds.len();
    let mut i: usize = 0;
    while i < n
        invariant
            n == ds@.len(),
            i <= n,
            forall|a: int, b: int|
                0 <= a < b < n && a < i ==> (#[trigger] ds@[a]).path@ != (#[trigger] ds@[b]).path@,
        decreases n - i,
    {
        let mut j: usize = i + 1;
        while j < n
            invariant
                n == ds@.len(),
                i < n,
                i < j <= n,
                forall|b: int| i < b < j ==> (#[trigger] ds@[b]).path@ != ds@[i as int].path@,
            decreases n - j,
        {
            if ds[i].path == ds[j].path {
                return Err(ConfigError::DuplicatePath);
            }
            j = j + 1;
        }
        i = i + 1;
    }
    Ok(())
}

/// Build one fresh namespace and adapter per descriptor. Every mount
/// owns its namespace exclusively: the namespaces share no state, so
/// requests against different mounts can never observe one another.
pub fn make_adapters(
    ds: &Vec<MountDescriptor>,
    uid: u32,
    gid: u32,
    created: TimeSpec,
    ttl: TimeSpec,
) -> (v: Vec<Adapter>)
    ensures
        v@.len() == ds@.len(),
        forall|i: int| 0 <= i < v@.len() ==> {
            &&& (#[trigger] v@[i]).wf()
            &&& v@[i].ttl == ttl
            &&& is_hello_namespace(v@[i].ns, uid, gid, created)
        },
{
    let n = ds.len();
    let mut v: Vec<Adapter> = Vec::new();
    let mut i: usize = 0;
    while i < n
        invariant
            v@.len() == i,
            i <= n,
            forall|k: int| 0 <= k < i ==> {
                &&& (#[trigger] v@[k]).wf()
                &&& v@[k].ttl == ttl
                &&& is_hello_namespace(v@[k].ns, uid, gid, created)
            },
        decreases n - i,
    {
        let ns: Namespace = hello_namespace(uid, gid, created);
        v.push(Adapter::new(ns, ttl));
        i = i + 1;
    }
    v
}

/// An event the supervisor's loop wakes on: a periodic tick that carries
/// no required behavior, or the process-wide cancellation signal.
#[derive(Clone, Copy, Debug, PartialEq, Eq, Structural)]
pub enum SupEvent {
    Tick,
    Cancel,
}

/// An action the caller performs on the supervisor's behalf: tear down
/// the mount session with the given index, or emit the shutdown notice.
#[derive(Clone, Copy, Debug, PartialEq, Eq, Structural)]
pub enum SupAction {
    Unmount { session: usize },
    AnnounceShutdown,
}

/// The supervisor's state: how many sessions it started and whether the
/// single shutdown sequence has already run.
#[derive(Clone, Copy, Debug, PartialEq, Eq, Structural)]
pub struct Supervisor {
    pub n_sessions: usize,
    pub stopped: bool,
}

/// The unmount actions for sessions `0 .. n`, in ascending order (the
/// design leaves the order unspecified; this is the one emitted here).
pub open spec fn unmount_seq(n: int) -> Seq<SupAction>
    decreases n,
{
    if n <= 0 {
        Seq::empty()
    } else {
        unmount_seq(n - 1).push(SupAction::Unmount { session: (n - 1) as usize })
    }
}

/// The whole shutdown sequence: every session unmounted once, then the
/// shutdown notice.
pub open spec fn shutdown_actions(n: int) -> Seq<SupAction> {
    unmount_seq(n).push(SupAction::AnnounceShutdown)
}

/// The supervisor's transition function. A tick does nothing. The first
/// cancellation runs the shutdown sequence; once stopped, further events
/// — redundant signal deliveries included — produce no action at all.
pub open spec fn spec_step(s: Supervisor, ev: SupEvent) -> (Supervisor, Seq<SupAction>) {
    match ev {
        SupEvent::Tick => (s, Seq::empty()),
        SupEvent::Cancel => if s.stopped {
            (s, Seq::empty())
        } else {
            (
                Supervisor { n_sessions: s.n_sessions, stopped: true },
                shutdown_actions(s.n_sessions as int),
            )
        },
    }
}

impl Supervisor {
    /// A supervisor over `n_sessions` freshly started sessions.
    pub fn new(n_sessions: usize) -> (s: Supervisor)
        ensures
            s.n_sessions == n_sessions,
            !s.stopped,
    {
        Supervisor { n_sessions, stopped: false }
    }

    /// Consume one event and return the actions to perform, exactly as
    /// the transition function dictates.
    pub fn step(&mut self, ev: SupEvent) -> (acts: Vec<SupAction>)
        ensures
            *final(self) == spec_step(*old(self), ev).0,
            acts@ == spec_step(*old(self), ev).1,
    {
        match ev {
            SupEvent::Tick => Vec::new(),
            SupEvent::Cancel => {
                if self.stopped {
                    Vec::new()
                } else {
                    self.stopped = true;
                    let n = self.n_sessions;
                    let mut acts: Vec<SupAction> = Vec::new();
                    let mut i: usize = 0;
                    while i < n
                        invariant
                            i <= n,
                            acts@ =~= unmount_seq(i as int),
                        decreases n - i,
                    {
                        acts.push(SupAction::Unmount { session: i });
                        proof {
                            assert(acts@ =~= unmount_seq(i as int + 1));
                        }
                        i = i + 1;
                    }
                    acts.push(SupAction::AnnounceShutdown);
                    proof {
                        assert(acts@ =~= shutdown_actions(n as int));
                    }
                    acts
                }
            },
        }
    }
}

/// The state after consuming `evs` one by one.
pub open spec fn run_state(s: Supervisor, evs: Seq<SupEvent>) -> Supervisor
    decreases evs.len(),
{
    if evs.len() == 0 {
        s
    } else {
        run_state(spec_step(s, evs[0]).0, evs.skip(1))
    }
}

/// Every action emitted while consuming `evs` one by one, in order.
pub open spec fn run_actions(s: Supervisor, evs: Seq<SupEvent>) -> Seq<SupAction>
    decreases evs.len(),
{
    if evs.len() == 0 {
        Seq::empty()
    } else {
        spec_step(s, evs[0]).1 + run_actions(spec_step(s, evs[0]).0, evs.skip(1))
    }
}

/// How often session `sess` is unmounted in a sequence of actions.
pub open spec fn count_unmounts(acts: Seq<SupAction>, sess: usize) -> nat
    decreases acts.len(),
{
    if acts.len() == 0 {
        0
    } else {
        (if acts[0] == (SupAction::Unmount { session: sess }) {
            1nat
        } else {
            0nat
        }) + count_unmounts(acts.skip(1), sess)
    }
}

proof fn lemma_count_concat(a: Seq<SupAction>, b: Seq<SupAction>, sess: usize)
    ensures
        count_unmounts(a + b, sess) == count_unmounts(a, sess) + count_unmounts(b, sess),
    decreases a.len(),
{
    if a.len() == 0 {
        assert(a + b =~= b);
    } else {
        assert((a + b).skip(1) =~= a.skip(1) + b);
        lemma_count_concat(a.skip(1), b, sess);
    }
}

proof fn lemma_count_unmount_seq(n: int, sess: usize)
    requires
        n <= usize::MAX,
    ensures
        count_unmounts(unmount_seq(n), sess) == if (sess as int) < n {
            1nat
        } else {
            0nat
        },
    decreases n,
{
    if n <= 0 {
    } else {
        lemma_count_unmount_seq(n - 1, sess);
        let u = SupAction::Unmount { session: (n - 1) as usize };
        assert(unmount_seq(n) =~= unmount_seq(n - 1) + seq![u]);
        lemma_count_concat(unmount_seq(n - 1), seq![u], sess);
        assert(seq![u].skip(1) =~= Seq::<SupAction>::empty());
        assert(count_unmounts(Seq::<SupAction>::empty(), sess) == 0);
        assert(seq![u][0] == u);
        assert(count_unmounts(seq![u], sess) == if sess == (n - 1) as usize {
            1nat
        } else {
            0nat
        });
    }
}

proof fn lemma_count_shutdown(n: int, sess: usize)
    requires
        0 <= n <= usize::MAX,
    ensures
        count_unmounts(shutdown_actions(n), sess) == if (sess as int) < n {
            1nat
        } else {
            0nat
        },
{
    lemma_count_unmount_seq(n, sess);
    assert(shutdown_actions(n) =~= unmount_seq(n) + seq![SupAction::AnnounceShutdown]);
    lemma_count_concat(unmount_seq(n), seq![SupAction::AnnounceShutdown], sess);
    assert(seq![SupAction::AnnounceShutdown].skip(1) =~= Seq::<SupAction>::empty());
    assert(count_unmounts(Seq::<SupAction>::empty(), sess) == 0);
    assert(seq![SupAction::AnnounceShutdown][0] == SupAction::AnnounceShutdown);
    assert(count_unmounts(seq![SupAction::AnnounceShutdown], sess) == 0);
}

/// Once stopped, no event sequence of any length produces another
/// unmount: a stopped supervisor emits no action at all.
pub proof fn lemma_stopped_stays_silent(s: Supervisor, evs: Seq<SupEvent>, sess: usize)
    requires
        s.stopped,
    ensures
        run_actions(s, evs) =~= Seq::<SupAction>::empty(),
        count_unmounts(run_actions(s, evs), sess) == 0,
        run_state(s, evs) == s,
    decreases evs.len(),
{
    if evs.len() == 0 {
    } else {
        assert(spec_step(s, evs[0]).0 == s);
        assert(spec_step(s, evs[0]).1 =~= Seq::<SupAction>::empty());
        lemma_stopped_stays_silent(s, evs.skip(1), sess);
        assert(run_actions(s, evs) =~= spec_step(s, evs[0]).1 + run_actions(s, evs.skip(1)));
    }
}

/// Shutdown safety law: starting from a running supervisor, over any
/// sequence of tick and cancellation events, each session is unmounted
/// exactly once if at least one cancellation arrives, and never
/// otherwise. In particular a second delivery of the signal — however
/// late — produces no additional unmount.
pub proof fn lemma_shutdown_exactly_once(s: Supervisor, evs: Seq<SupEvent>, sess: usize)
    requires
        !s.stopped,
        (sess as int) < s.n_sessions,
    ensures
        count_unmounts(run_actions(s, evs), sess) == if evs.contains(SupEvent::Cancel) {
            1nat
        } else {
            0nat
        },
    decreases evs.len(),
{
    if evs.len() == 0 {
        assert(!evs.contains(SupEvent::Cancel));
    } else {
        let head = evs[0];
        let rest = evs.skip(1);
        match head {
            SupEvent::Tick => {
                assert(spec_step(s, head).1 =~= Seq::<SupAction>::empty());
                lemma_shutdown_exactly_once(s, rest, sess);
                assert(evs.contains(SupEvent::Cancel) <==> rest.contains(SupEvent::Cancel)) by {
                    if evs.contains(SupEvent::Cancel) {
                        let i = choose|i: int| 0 <= i < evs.len() && evs[i] == SupEvent::Cancel;
                        assert(i != 0);
                        assert(rest[i - 1] == SupEvent::Cancel);
                    }
                    if rest.contains(SupEvent::Cancel) {
                        let i = choose|i: int| 0 <= i < rest.len() && rest[i] == SupEvent::Cancel;
                        assert(evs[i + 1] == SupEvent::Cancel);
                    }
                }
            },
            SupEvent::Cancel => {
                let s1 = spec_step(s, head).0;
                lemma_count_shutdown(s.n_sessions as int, sess);
                lemma_stopped_stays_silent(s1, rest, sess);
                lemma_count_concat(spec_step(s, head).1, run_actions(s1, rest), sess);
                assert(evs.contains(SupEvent::Cancel));
            },
        }
    }
}

} // verus!
