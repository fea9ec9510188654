//! Streamer process supervisor.
//!
//! A process-wide registry tracks the per-session streamer children by
//! process identifier.  The operating-system work — spawning, killing,
//! listing processes — happens outside; the registry records the outcomes and
//! decides which processes to kill before a new session starts.

use vstd::prelude::*;
use vstd::string::StrSliceExecFns;

verus! {

/// Milliseconds between sweeps of the registry for entries whose process has
/// exited.
pub const REGISTRY_CLEANUP_INTERVAL_MS: u64 = 60_000;

/// Information about one tracked streamer process.
pub struct StreamerProcessInfo {
    /// Process identifier.
    pub pid: u32,
    /// Instant (milliseconds) at which the process was started.
    pub started_at: u64,
    /// Session the process belongs to, when known.
    pub session_id: Option<String>,
    /// Whether the process is considered alive.
    pub active: bool,
}

/// There is a registry entry for this process identifier.
pub open spec fn has_pid(procs: Seq<StreamerProcessInfo>, pid: u32) -> bool {
    exists|i: int| 0 <= i < procs.len() && (#[trigger] procs[i].pid) == pid
}

/// The position of the entry for this process identifier.
pub open spec fn pid_at(procs: Seq<StreamerProcessInfo>, pid: u32) -> int {
    choose|i: int| 0 <= i < procs.len() && (#[trigger] procs[i].pid) == pid
}

/// Process identifiers in the registry are pairwise distinct.
pub open spec fn pids_distinct(procs: Seq<StreamerProcessInfo>) -> bool {
    forall|i: int, j: int|
        0 <= i < j < procs.len() ==> (#[trigger] procs[i].pid) != (#[trigger] procs[j].pid)
}

/// Every registry entry of `sub` occurs in `sup`.
pub open spec fn procs_from(sub: Seq<StreamerProcessInfo>, sup: Seq<StreamerProcessInfo>) -> bool {
    forall|i: int| 0 <= i < sub.len() ==> sup.contains(#[trigger] sub[i])
}

/// The registry of streamer child processes.
pub struct StreamerProcessManager {
    processes: Vec<StreamerProcessInfo>,
    streamer_path: Option<String>,
}

impl StreamerProcessManager {
    /// The tracked processes.
    pub closed spec fn procs(&self) -> Seq<StreamerProcessInfo> {
        self.processes@
    }

    /// The configured streamer binary path, used for orphan detection.
    pub closed spec fn path(&self) -> Option<String> {
        self.streamer_path
    }

    /// Well-formedness: process identifiers are distinct.
    pub open spec fn wf(&self) -> bool {
        pids_distinct(self.procs())
    }

    /// An empty registry.
    pub fn new() -> (r: StreamerProcessManager)
        ensures
            r.wf(),
            r.procs().len() == 0,
            r.path() is None,
    {
        StreamerProcessManager { processes: Vec::new(), streamer_path: None }
    }

    /// Configure the streamer binary path for orphan detection.
    pub fn set_streamer_path(&mut self, path: String)
        ensures
            final(self).procs() == old(self).procs(),
            final(self).path() == Some(path),
            old(self).wf() ==> final(self).wf(),
    {
        self.streamer_path = Some(path);
    }

    /// Find the position of the entry for a process identifier.
    fn find_pid(&self, pid: u32) -> (r: Option<usize>)
        ensures
            match r {
                Some(i) => i < self.procs().len() && self.procs()[i as int].pid == pid,
                None => !has_pid(self.procs(), pid),
            },
    {
        let n = self.processes.len();
        let mut i: usize = 0;
        while i < n
            invariant
                n == self.processes@.len(),
                i <= n,
                forall|k: int| 0 <= k < i ==> (#[trigger] self.processes@[k].pid) != pid,
            decreases n - i,
        {
            if self.processes[i].pid == pid {
                return Some(i);
            }
            i = i + 1;
        }
        None
    }

    /// Register a newly spawned streamer process.  Registering a process
    /// identifier twice is a bug, so a tracked identifier is refused by
    /// contract.
    pub fn register(&mut self, pid: u32, session_id: Option<String>, now: u64)
        requires
            old(self).wf(),
            !has_pid(old(self).procs(), pid),
        ensures
            final(self).wf(),
            final(self).procs() == old(self).procs().push(
                StreamerProcessInfo { pid, started_at: now, session_id, active: true },
            ),
            final(self).path() == old(self).path(),
    {
        self.processes.push(
            StreamerProcessInfo { pid, started_at: now, session_id, active: true },
        );
        proof {
            assert forall|a: int, b: int|
                0 <= a < b < self.processes@.len() implies (#[trigger] self.processes@[a].pid) != (
            #[trigger] self.processes@[b].pid) by {
                if b == self.processes@.len() - 1 {
                    assert(!(old(self).procs()[a].pid == pid));
                } else {
                    assert(old(self).procs()[a].pid != old(self).procs()[b].pid);
                }
            }
        }
    }

    /// Remove the entry of a process identifier, if present.
    pub fn unregister(&mut self, pid: u32)
        requires
            old(self).wf(),
        ensures
            final(self).wf(),
            !has_pid(final(self).procs(), pid),
            final(self).path() == old(self).path(),
            if has_pid(old(self).procs(), pid) {
                final(self).procs() == old(self).procs().remove(pid_at(old(self).procs(), pid))
            } else {
                final(self).procs() == old(self).procs()
            },
    {
        let found = self.find_pid(pid);
        if let Some(i) = found {
            proof {
                lemma_pid_at_unique(self.procs(), pid, i as int);
            }
            self.processes.remove(i);
            proof {
                let pre = old(self).procs();
                assert forall|a: int, b: int|
                    0 <= a < b < self.processes@.len() implies (#[trigger] self.processes@[a].pid)
                    != (#[trigger] self.processes@[b].pid) by {
                    let a0 = if a < i as int { a } else { a + 1 };
                    let b0 = if b < i as int { b } else { b + 1 };
                    assert(pre[a0].pid != pre[b0].pid);
                }
                assert(!has_pid(self.processes@, pid)) by {
                    if has_pid(self.processes@, pid) {
                        let k = choose|k: int|
                            0 <= k < self.processes@.len() && (#[trigger] self.processes@[k].pid)
                                == pid;
                        let k0 = if k < i as int { k } else { k + 1 };
                        assert(pre[k0].pid == pid);
                        if k0 < i as int {
                            assert(pre[k0].pid != pre[i as int].pid);
                        } else {
                            assert(pre[i as int].pid != pre[k0].pid);
                        }
                    }
                }
            }
        }
    }

    /// Record the outcome of killing a process: a confirmed kill removes the
    /// entry, a failed kill keeps it for the next attempt.  The result
    /// reports the outcome back.
    pub fn kill_process(&mut self, pid: u32, killed: bool) -> (r: bool)
        requires
            old(self).wf(),
        ensures
            final(self).wf(),
            r == killed,
            final(self).path() == old(self).path(),
            killed ==> !has_pid(final(self).procs(), pid),
            killed ==> if has_pid(old(self).procs(), pid) {
                final(self).procs() == old(self).procs().remove(pid_at(old(self).procs(), pid))
            } else {
                final(self).procs() == old(self).procs()
            },
            !killed ==> final(self).procs() == old(self).procs(),
    {
        if killed {
            self.unregister(pid);
        }
        killed
    }

    /// The identifiers of all tracked processes, in registry order.  Before a
    /// new session every one of them is to be killed.
    pub fn tracked_pids(&self) -> (r: Vec<u32>)
        ensures
            r@.len() == self.procs().len(),
            forall|i: int| 0 <= i < r@.len() ==> (#[trigger] r@[i]) == self.procs()[i].pid,
    {
        let mut r: Vec<u32> = Vec::new();
        let n = self.processes.len();
        let mut i: usize = 0;
        while i < n
            invariant
                n == self.processes@.len(),
                i <= n,
                r@.len() == i,
                forall|k: int| 0 <= k < i ==> (#[trigger] r@[k]) == self.processes@[k].pid,
            decreases n - i,
        {
            r.push(self.processes[i].pid);
            i = i + 1;
        }
        r
    }

    /// Which of the processes listed by the operating system are orphans: they
    /// match the streamer image but are not tracked.  Exactly the untracked
    /// listed identifiers come back, in listing order.
    pub fn orphan_pids(&self, listed: &Vec<u32>) -> (r: Vec<u32>)
        ensures
            forall|k: int|
                0 <= k < r@.len() ==> !has_pid(self.procs(), #[trigger] r@[k]) && listed@.contains(
                    r@[k],
                ),
            forall|w: int|
                0 <= w < listed@.len() && !has_pid(self.procs(), #[trigger] listed@[w])
                    ==> r@.contains(listed@[w]),
    {
        let mut r: Vec<u32> = Vec::new();
        let n = listed.len();
        let mut i: usize = 0;
        while i < n
            invariant
                n == listed@.len(),
                i <= n,
                forall|k: int|
                    0 <= k < r@.len() ==> !has_pid(self.procs(), #[trigger] r@[k])
                        && listed@.contains(r@[k]),
                forall|w: int|
                    0 <= w < i && !has_pid(self.procs(), #[trigger] listed@[w]) ==> r@.contains(
                        listed@[w],
                    ),
            decreases n - i,
        {
            let ghost old_r = r@;
            let pid = listed[i];
            if self.find_pid(pid).is_none() {
                r.push(pid);
                proof {
                    assert(listed@.contains(listed@[i as int]));
                    assert(r@[r@.len() - 1] == pid);
                    assert forall|w: int|
                        0 <= w < i + 1 && !has_pid(self.procs(), #[trigger] listed@[w]) implies
                        r@.contains(listed@[w]) by {
                        if w == i {
                            assert(r@[r@.len() - 1] == listed@[w]);
                        } else {
                            let k = choose|k: int|
                                0 <= k < old_r.len() && (#[trigger] old_r[k]) == listed@[w];
                            assert(r@[k] == listed@[w]);
                        }
                    }
                }
            }
            i = i + 1;
        }
        r
    }

    /// Sweep the registry: remove the entries whose process no longer runs,
    /// without touching live entries.  `dead` lists the identifiers the
    /// liveness check found gone.
    pub fn remove_dead(&mut self, dead: &Vec<u32>)
        requires
            old(self).wf(),
        ensures
            final(self).wf(),
            final(self).path() == old(self).path(),
            procs_from(final(self).procs(), old(self).procs()),
            forall|k: int|
                0 <= k < final(self).procs().len() ==> !dead@.contains(
                    (#[trigger] final(self).procs()[k]).pid,
                ),
            forall|w: int|
                0 <= w < old(self).procs().len() && !dead@.contains(
                    (#[trigger] old(self).procs()[w]).pid,
                ) ==> final(self).procs().contains(old(self).procs()[w]),
    {
        let ghost pre = self.processes@;
        proof {
            assert forall|k: int| 0 <= k < self.processes@.len() implies pre.contains(
                #[trigger] self.processes@[k],
            ) by {
                assert(pre[k] == self.processes@[k]);
            }
        }
        let n = dead.len();
        let mut i: usize = 0;
        while i < n
            invariant
                n == dead@.len(),
                i <= n,
                self.wf(),
                self.path() == old(self).path(),
                procs_from(self.procs(), pre),
                forall|k: int|
                    0 <= k < self.procs().len() ==> !dead@.take(i as int).contains(
                        (#[trigger] self.procs()[k]).pid,
                    ),
                forall|w: int|
                    0 <= w < pre.len() && !dead@.contains((#[trigger] pre[w]).pid)
                        ==> self.procs().contains(pre[w]),
            decreases n - i,
        {
            let ghost cur = self.processes@;
            let pid = dead[i];
            self.unregister(pid);
            proof {
                let post = self.processes@;
                if has_pid(cur, pid) {
                    let at = pid_at(cur, pid);
                    assert(post == cur.remove(at));
                    assert forall|k: int| 0 <= k < post.len() implies pre.contains(
                        #[trigger] post[k],
                    ) by {
                        let k0 = if k < at { k } else { k + 1 };
                        assert(post[k] == cur[k0]);
                        assert(cur.contains(cur[k0]));
                    }
                    assert forall|w: int|
                        0 <= w < pre.len() && !dead@.contains((#[trigger] pre[w]).pid) implies
                        post.contains(pre[w]) by {
                        assert(cur.contains(pre[w]));
                        let c = choose|c: int| 0 <= c < cur.len() && cur[c] == pre[w];
                        assert(dead@[i as int] == pid);
                        assert(dead@.contains(dead@[i as int]));
                        assert(c != at);
                        let c1 = if c < at { c } else { c - 1 };
                        assert(post[c1] == cur[c]);
                    }
                } else {
                    assert(post == cur);
                }
                assert forall|k: int| 0 <= k < post.len() implies !dead@.take(i as int + 1).contains(
                    (#[trigger] post[k]).pid,
                ) by {
                    assert(!has_pid(post, pid));
                    if dead@.take(i as int + 1).contains(post[k].pid) {
                        let w = choose|w: int|
                            0 <= w < i + 1 && (#[trigger] dead@.take(i as int + 1)[w])
                                == post[k].pid;
                        if w == i as int {
                            assert(post[k].pid == pid);
                        } else {
                            assert(dead@.take(i as int)[w] == post[k].pid);
                            assert(dead@.take(i as int).contains(post[k].pid));
                            assert(cur.contains(post[k]));
                            let c = choose|c: int| 0 <= c < cur.len() && cur[c] == post[k];
                            assert(!dead@.take(i as int).contains(cur[c].pid));
                        }
                    }
                }
            }
            i = i + 1;
        }
        proof {
            assert(dead@.take(n as int) =~= dead@);
        }
    }

    /// The number of tracked processes.
    pub fn process_count(&self) -> (r: usize)
        ensures
            r == self.procs().len(),
    {
        self.processes.len()
    }

    /// Whether any streamer is currently tracked.
    pub fn has_active_streamer(&self) -> (r: bool)
        ensures
            r == (self.procs().len() > 0),
    {
        self.processes.len() > 0
    }
}

/// In a registry with distinct identifiers, `pid_at` agrees with any witness
/// position.
pub proof fn lemma_pid_at_unique(procs: Seq<StreamerProcessInfo>, pid: u32, i: int)
    requires
        pids_distinct(procs),
        0 <= i < procs.len(),
        procs[i].pid == pid,
    ensures
        has_pid(procs, pid),
        pid_at(procs, pid) == i,
{
    assert(has_pid(procs, pid));
    let k = pid_at(procs, pid);
    if k != i {
        if k < i {
            assert(procs[k].pid != procs[i].pid);
        } else {
            assert(procs[i].pid != procs[k].pid);
        }
    }
}

/// Law: a confirmed kill is final — once the process is out of the registry,
/// the effect of killing it again is the identity, so repeated cleanup never
/// re-kills an already-dead child and leaves the registry as it stands.
pub proof fn lemma_confirmed_kill_is_final(m: StreamerProcessManager, pid: u32)
    requires
        !has_pid(m.procs(), pid),
    ensures
        (if has_pid(m.procs(), pid) {
            m.procs().remove(pid_at(m.procs(), pid))
        } else {
            m.procs()
        }) == m.procs(),
{
}

/// The decimal value of a line of digits, when every character is a digit
/// and the value fits a 32-bit process identifier.
pub open spec fn spec_parse_pid(l: Seq<char>, i: int, acc: nat) -> Option<u32>
    decreases l.len() - i,
{
    if i < 0 || i >= l.len() {
        if l.len() > 0 && acc <= u32::MAX {
            Some(acc as u32)
        } else {
            None
        }
    } else if '0' <= l[i] && l[i] <= '9' {
        spec_parse_pid(l, i + 1, (acc * 10 + (l[i] as int - '0' as int)) as nat)
    } else {
        None
    }
}

/// Once the accumulator has outgrown the identifier range, no run of
/// further digits can bring the parse back: it yields nothing.
proof fn lemma_parse_pid_overflow(l: Seq<char>, i: int, acc: nat)
    requires
        acc > u32::MAX,
    ensures
        spec_parse_pid(l, i, acc) is None,
    decreases l.len() - i,
{
    if !(i < 0 || i >= l.len()) {
        if '0' <= l[i] && l[i] <= '9' {
            lemma_parse_pid_overflow(l, i + 1, (acc * 10 + (l[i] as int - '0' as int)) as nat);
        }
    }
}

/// Parse one line of a process listing as a decimal process identifier.
/// Anything but a non-empty run of digits whose value fits is rejected.
pub fn parse_pid_line(line: &str) -> (r: Option<u32>)
    ensures
        r == spec_parse_pid(line@, 0, 0),
{
    let n = line.unicode_len();
    if n == 0 {
        return None;
    }
    let mut value: u64 = 0;
    let mut i: usize = 0;
    while i < n
        invariant
            n == line@.len(),
            n > 0,
            i <= n,
            value <= u32::MAX,
            spec_parse_pid(line@, 0, 0) == spec_parse_pid(line@, i as int, value as nat),
        decreases n - i,
    {
        let c = line.get_char(i);
        if !('0' <= c && c <= '9') {
            return None;
        }
        let d = (c as u32) - ('0' as u32);
        let next = value * 10 + (d as u64);
        if next > 0xFFFF_FFFF {
            proof {
                lemma_parse_pid_overflow(line@, i as int + 1, next as nat);
            }
            return None;
        }
        value = next;
        i = i + 1;
    }
    Some(value as u32)
}

} // verus!
