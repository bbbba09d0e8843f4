//! Registry of monitored targets, keyed by name: registration, removal, and
//! the per-scrape reconciliation of each target's resolved process.
use crate::stats::ProcessStats;
use vstd::prelude::*;

verus! {

/// A monitored target as its registration gave it.
#[derive(Clone, Debug)]
pub struct ProcessConfig {
    /// Unique key of the target.
    pub name: String,
    /// Match rule: a regular expression, or a substring when it does not compile.
    pub cmdline: String,
    pub labels: Vec<(String, String)>,
}

/// A registration call.
#[derive(Clone, Debug)]
pub struct RegisterRequest {
    pub name: String,
    pub cmdline: String,
    pub labels: Vec<(String, String)>,
}

/// Current state of one target.
#[derive(Clone, Debug)]
pub struct ProcessStatus {
    pub config: ProcessConfig,
    /// Seconds since the epoch of the first registration under this name.
    pub registered_at: u64,
    /// Seconds since the epoch of the last liveness check.
    pub last_check: u64,
    pub is_running: bool,
    pub pid: Option<i32>,
    /// Last snapshot obtained; kept while the process is not found.
    pub stats: ProcessStats,
}

/// One step on the loader's tables, to run in the given order.
#[derive(Clone, Copy, Debug, PartialEq, Eq, Structural)]
pub enum LoaderOp {
    /// Remove the process from the whitelist.
    Revoke(i32),
    /// Add the process to the whitelist.
    Grant(i32),
    /// Read the process's network counters.
    ReadCounters(i32),
}

/// Refusal of a registry operation.
#[derive(Clone, Debug)]
pub enum RegistryError {
    /// The resolved process is already registered under another name.
    Conflict { existing_name: String, pid: i32 },
    /// No target has that name.
    NotFound,
}

/// What a scrape needs of one target before the registry lock is released.
#[derive(Clone, Debug)]
pub struct RefreshTask {
    pub name: String,
    pub cmdline: String,
    pub old_pid: Option<i32>,
}

pub open spec fn names_unique(s: Seq<ProcessStatus>) -> bool {
    forall|i: int, j: int|
        0 <= i < s.len() && 0 <= j < s.len() && i != j ==> s[i].config.name@ != s[j].config.name@
}

/// Some target of `s` is named `name`.
pub open spec fn holds_name(s: Seq<ProcessStatus>, name: Seq<char>) -> bool {
    exists|i: int| 0 <= i < s.len() && #[trigger] s[i].config.name@ == name
}

/// `pid` is held by a target of `s` named otherwise than `name`.
pub open spec fn claimed_by_other(s: Seq<ProcessStatus>, name: Seq<char>, pid: Option<i32>) -> bool {
    pid is Some && exists|i: int|
        0 <= i < s.len() && #[trigger] s[i].pid == pid && s[i].config.name@ != name
}

/// The whitelist steps when a target's process changes from `old` to `new`:
/// nothing when it is the same; else revoke the old one, then grant the new one.
pub open spec fn identity_change_ops(old: Option<i32>, new: Option<i32>) -> Seq<LoaderOp> {
    if old == new {
        Seq::empty()
    } else {
        let revoke = match old {
            Some(p) => seq![LoaderOp::Revoke(p)],
            None => Seq::empty(),
        };
        let grant = match new {
            Some(p) => seq![LoaderOp::Grant(p)],
            None => Seq::empty(),
        };
        revoke + grant
    }
}

/// The steps of one scrape for a target: the identity change, then the
/// counter read of the current process.
pub open spec fn refresh_ops_spec(old: Option<i32>, new: Option<i32>) -> Seq<LoaderOp> {
    match new {
        Some(p) => identity_change_ops(old, new).push(LoaderOp::ReadCounters(p)),
        None => identity_change_ops(old, new),
    }
}

/// The steps of a registration: revoke the process the name held before if
/// it is another one, then grant the resolved one.
pub open spec fn registration_ops(prior: Option<i32>, new: Option<i32>) -> Seq<LoaderOp> {
    let revoke = match prior {
        Some(p) => if prior != new {
            seq![LoaderOp::Revoke(p)]
        } else {
            Seq::empty()
        },
        None => Seq::empty(),
    };
    let grant = match new {
        Some(p) => seq![LoaderOp::Grant(p)],
        None => Seq::empty(),
    };
    revoke + grant
}

/// The steps of an unregistration: revoke the process the target held.
pub open spec fn removal_ops(pid: Option<i32>) -> Seq<LoaderOp> {
    match pid {
        Some(p) => seq![LoaderOp::Revoke(p)],
        None => Seq::empty(),
    }
}

/// No two labels share a key.
pub open spec fn labels_unique(s: Seq<(String, String)>) -> bool {
    forall|i: int, j: int| 0 <= i < s.len() && 0 <= j < s.len() && i != j ==> s[i].0@ != s[j].0@
}

/// Some label of `s` has key `k`.
pub open spec fn has_label_key(s: Seq<(String, String)>, k: Seq<char>) -> bool {
    exists|i: int| 0 <= i < s.len() && #[trigger] s[i].0@ == k
}

/// The labels of `s`, each key kept at its first occurrence.
pub open spec fn first_labels(s: Seq<(String, String)>) -> Seq<(String, String)>
    decreases s.len(),
{
    if s.len() == 0 {
        Seq::empty()
    } else {
        let d = first_labels(s.drop_last());
        if has_label_key(d, s.last().0@) {
            d
        } else {
            d.push(s.last())
        }
    }
}

/// Every target's labels have distinct keys.
pub open spec fn all_labels_unique(s: Seq<ProcessStatus>) -> bool {
    forall|i: int| 0 <= i < s.len() ==> labels_unique(#[trigger] s[i].config.labels@)
}

/// The labels of a request as a map: the first value given for a key wins.
pub fn dedup_labels(labels: &Vec<(String, String)>) -> (r: Vec<(String, String)>)
    ensures
        r@ == first_labels(labels@),
        labels_unique(r@),
{
    let mut out: Vec<(String, String)> = Vec::new();
    let n = labels.len();
    let mut i: usize = 0;
    while i < n
        invariant
            i <= n,
            n == labels@.len(),
            out@ == first_labels(labels@.subrange(0, i as int)),
            labels_unique(out@),
        decreases n - i,
    {
        assert(labels@.subrange(0, i + 1).drop_last() =~= labels@.subrange(0, i as int));
        assert(labels@.subrange(0, i + 1).last() == labels@[i as int]);
        let m = out.len();
        let mut seen = false;
        let mut j: usize = 0;
        while j < m
            invariant
                j <= m,
                m == out@.len(),
                i < n,
                n == labels@.len(),
                seen == exists|k: int| 0 <= k < j && #[trigger] out@[k].0@ == labels@[i as int].0@,
            decreases m - j,
        {
            if out[j].0 == labels[i].0 {
                seen = true;
            }
            j += 1;
        }
        if !seen {
            out.push((labels[i].0.clone(), labels[i].1.clone()));
        }
        i += 1;
    }
    assert(labels@.subrange(0, n as int) =~= labels@);
    out
}

/// The status a registration writes with the labels `labels`, before the
/// registration time of an earlier entry under the same name is carried over.
pub open spec fn fresh_status(
    req: RegisterRequest,
    labels: Vec<(String, String)>,
    pid: Option<i32>,
    is_running: bool,
    stats: ProcessStats,
    now: u64,
) -> ProcessStatus {
    ProcessStatus {
        config: ProcessConfig { name: req.name, cmdline: req.cmdline, labels },
        registered_at: now,
        last_check: now,
        is_running,
        pid,
        stats,
    }
}

/// A target after one liveness check.
pub open spec fn refreshed(
    st: ProcessStatus,
    is_running: bool,
    pid: Option<i32>,
    now: u64,
    stats: Option<ProcessStats>,
) -> ProcessStatus {
    ProcessStatus {
        is_running,
        pid,
        last_check: now,
        stats: match stats {
            Some(s) => s,
            None => st.stats,
        },
        ..st
    }
}

fn option_eq(a: Option<i32>, b: Option<i32>) -> (r: bool)
    ensures
        r == (a == b),
{
    match (a, b) {
        (Some(x), Some(y)) => x == y,
        (None, None) => true,
        _ => false,
    }
}

/// The whitelist steps of an identity change from `old` to `new`.
pub fn identity_ops(old: Option<i32>, new: Option<i32>) -> (r: Vec<LoaderOp>)
    ensures
        r@ == identity_change_ops(old, new),
{
    let mut ops: Vec<LoaderOp> = Vec::new();
    if option_eq(old, new) {
        return ops;
    }
    if let Some(p) = old {
        ops.push(LoaderOp::Revoke(p));
    }
    if let Some(p) = new {
        ops.push(LoaderOp::Grant(p));
    }
    assert(ops@ =~= identity_change_ops(old, new));
    ops
}

/// The steps of one scrape for a target whose process went from `old` to
/// `new`: whitelist changes first, then the counter read of `new`.
pub fn refresh_ops(old: Option<i32>, new: Option<i32>) -> (r: Vec<LoaderOp>)
    ensures
        r@ == refresh_ops_spec(old, new),
{
    let mut ops = identity_ops(old, new);
    if let Some(p) = new {
        ops.push(LoaderOp::ReadCounters(p));
    }
    ops
}

/// The registered targets, at most one per name.
pub struct Registry {
    entries: Vec<ProcessStatus>,
}

impl Registry {
    pub closed spec fn entries_spec(&self) -> Seq<ProcessStatus> {
        self.entries@
    }

    /// At most one target per name, and distinct label keys in each target:
    /// `new` establishes it and every method keeps it.
    pub open spec fn wf(&self) -> bool {
        names_unique(self.entries_spec()) && all_labels_unique(self.entries_spec())
    }

    /// No target.
    pub fn new() -> (r: Registry)
        ensures
            r.wf(),
            r.entries_spec() == Seq::<ProcessStatus>::empty(),
    {
        Registry { entries: Vec::new() }
    }

    /// Every target, in registration order.
    pub fn entries(&self) -> (r: &Vec<ProcessStatus>)
        ensures
            r@ == self.entries_spec(),
    {
        &self.entries
    }

    /// Index of the target named `name`.
    pub fn find(&self, name: &str) -> (r: Option<usize>)
        ensures
            r matches Some(i) ==> i < self.entries_spec().len()
                && self.entries_spec()[i as int].config.name@ == name@,
            r is None ==> !holds_name(self.entries_spec(), name@),
    {
        let key = name.to_owned();
        let n = self.entries.len();
        let mut i: usize = 0;
        while i < n
            invariant
                i <= n,
                n == self.entries@.len(),
                key@ == name@,
                forall|k: int| 0 <= k < i ==> self.entries@[k].config.name@ != name@,
            decreases n - i,
        {
            if self.entries[i].config.name == key {
                return Some(i);
            }
            i += 1;
        }
        None
    }

    /// Index of a target named otherwise than `name` that holds `pid`.
    pub fn claimant(&self, name: &str, pid: Option<i32>) -> (r: Option<usize>)
        ensures
            r matches Some(i) ==> i < self.entries_spec().len() && pid is Some
                && self.entries_spec()[i as int].pid == pid
                && self.entries_spec()[i as int].config.name@ != name@,
            r is None <==> !claimed_by_other(self.entries_spec(), name@, pid),
    {
        let p = match pid {
            Some(p) => p,
            None => { return None; },
        };
        let key = name.to_owned();
        let n = self.entries.len();
        let mut i: usize = 0;
        while i < n
            invariant
                i <= n,
                n == self.entries@.len(),
                key@ == name@,
                pid == Some(p),
                forall|k: int|
                    0 <= k < i ==> !(#[trigger] self.entries@[k].pid == pid
                        && self.entries@[k].config.name@ != name@),
            decreases n - i,
        {
            let holds = match self.entries[i].pid {
                Some(q) => q == p,
                None => false,
            };
            if holds && !(self.entries[i].config.name == key) {
                return Some(i);
            }
            i += 1;
        }
        None
    }

    /// Registers `req` with the process it resolved to. Refused, with no
    /// change, when another name holds that process. A name registered before
    /// keeps its place and its registration time; everything else is replaced.
    /// Returns the whitelist steps to run.
    pub fn register(
        &mut self,
        req: RegisterRequest,
        pid: Option<i32>,
        is_running: bool,
        stats: ProcessStats,
        now: u64,
    ) -> (r: Result<Vec<LoaderOp>, RegistryError>)
        requires
            old(self).wf(),
        ensures
            final(self).wf(),
            r is Err <==> claimed_by_other(old(self).entries_spec(), req.name@, pid),
            r is Err ==> final(self).entries_spec() == old(self).entries_spec(),
            r matches Err(e) ==> (e matches RegistryError::Conflict { existing_name, pid: p }
                && Some(p) == pid && existing_name@ != req.name@ && exists|i: int|
                0 <= i < old(self).entries_spec().len()
                    && old(self).entries_spec()[i].config.name@ == existing_name@
                    && #[trigger] old(self).entries_spec()[i].pid == pid),
            r is Ok && !holds_name(old(self).entries_spec(), req.name@) ==> {
                let k = old(self).entries_spec().len() as int;
                &&& final(self).entries_spec() == old(self).entries_spec().push(
                    fresh_status(
                        req,
                        final(self).entries_spec()[k].config.labels,
                        pid,
                        is_running,
                        stats,
                        now,
                    ),
                )
                &&& final(self).entries_spec()[k].config.labels@ == first_labels(req.labels@)
                &&& r->Ok_0@ == registration_ops(None, pid)
            },
            forall|i: int|
                r is Ok && 0 <= i < old(self).entries_spec().len()
                    && #[trigger] old(self).entries_spec()[i].config.name@ == req.name@ ==> {
                    &&& final(self).entries_spec() == old(self).entries_spec().update(
                        i,
                        ProcessStatus {
                            registered_at: old(self).entries_spec()[i].registered_at,
                            ..fresh_status(
                                req,
                                final(self).entries_spec()[i].config.labels,
                                pid,
                                is_running,
                                stats,
                                now,
                            )
                        },
                    )
                    &&& final(self).entries_spec()[i].registered_at == old(
                        self,
                    ).entries_spec()[i].registered_at
                    &&& final(self).entries_spec()[i].config.cmdline@ == req.cmdline@
                    &&& final(self).entries_spec()[i].config.labels@ == first_labels(req.labels@)
                    &&& r->Ok_0@ == registration_ops(old(self).entries_spec()[i].pid, pid)
                },
    {
        if let Some(k) = self.claimant(req.name.as_str(), pid) {
            if let Some(p) = pid {
                return Err(
                    RegistryError::Conflict {
                        existing_name: self.entries[k].config.name.clone(),
                        pid: p,
                    },
                );
            }
        }
        let found = self.find(req.name.as_str());
        let ghost old_entries = self.entries@;
        let prior: Option<i32> = match found {
            Some(i) => self.entries[i].pid,
            None => None,
        };
        let registered_at: u64 = match found {
            Some(i) => self.entries[i].registered_at,
            None => now,
        };
        let labels = dedup_labels(&req.labels);
        let status = ProcessStatus {
            config: ProcessConfig { name: req.name, cmdline: req.cmdline, labels },
            registered_at,
            last_check: now,
            is_running,
            pid,
            stats,
        };
        match found {
            Some(i) => {
                self.entries.set(i, status);
                proof {
                    assert forall|j: int|
                        0 <= j < old_entries.len() && #[trigger] old_entries[j].config.name@
                            == req.name@ implies j == i by {}
                }
            },
            None => {
                self.entries.push(status);
            },
        }
        let mut ops: Vec<LoaderOp> = Vec::new();
        if let Some(q) = prior {
            if !option_eq(prior, pid) {
                ops.push(LoaderOp::Revoke(q));
            }
        }
        if let Some(q) = pid {
            ops.push(LoaderOp::Grant(q));
        }
        assert(ops@ =~= registration_ops(prior, pid));
        Ok(ops)
    }

    /// Removes the target named `name`; not found, with no change, when there
    /// is none. Returns the whitelist steps to run.
    pub fn unregister(&mut self, name: &str) -> (r: Result<Vec<LoaderOp>, RegistryError>)
        requires
            old(self).wf(),
        ensures
            final(self).wf(),
            !holds_name(old(self).entries_spec(), name@) ==> (r matches Err(e) && e is NotFound),
            !holds_name(old(self).entries_spec(), name@) ==> final(self).entries_spec() == old(
                self,
            ).entries_spec(),
            forall|i: int|
                0 <= i < old(self).entries_spec().len() && #[trigger] old(
                    self,
                ).entries_spec()[i].config.name@ == name@ ==> {
                    &&& r is Ok
                    &&& final(self).entries_spec() == old(self).entries_spec().remove(i)
                    &&& r->Ok_0@ == removal_ops(old(self).entries_spec()[i].pid)
                },
    {
        match self.find(name) {
            None => Err(RegistryError::NotFound),
            Some(i) => {
                let ghost old_entries = self.entries@;
                let st = self.entries.remove(i);
                let mut ops: Vec<LoaderOp> = Vec::new();
                if let Some(p) = st.pid {
                    ops.push(LoaderOp::Revoke(p));
                }
                proof {
                    assert forall|j: int|
                        0 <= j < old_entries.len() && #[trigger] old_entries[j].config.name@
                            == name@ implies j == i by {}
                    assert(ops@ =~= removal_ops(st.pid));
                    assert forall|a: int, b: int|
                        0 <= a < self.entries@.len() && 0 <= b < self.entries@.len() && a != b
                            implies self.entries@[a].config.name@ != self.entries@[b].config.name@ by {
                        let a0 = if a < i { a } else { a + 1 };
                        let b0 = if b < i { b } else { b + 1 };
                        assert(self.entries@[a] == old_entries[a0]);
                        assert(self.entries@[b] == old_entries[b0]);
                    }
                }
                Ok(ops)
            },
        }
    }

    /// For each target, in order, what a scrape needs to resolve it again.
    pub fn refresh_tasks(&self) -> (r: Vec<RefreshTask>)
        ensures
            r@.len() == self.entries_spec().len(),
            forall|i: int|
                0 <= i < r@.len() ==> {
                    &&& (#[trigger] r@[i]).name@ == self.entries_spec()[i].config.name@
                    &&& r@[i].cmdline@ == self.entries_spec()[i].config.cmdline@
                    &&& r@[i].old_pid == self.entries_spec()[i].pid
                },
    {
        let mut out: Vec<RefreshTask> = Vec::new();
        let n = self.entries.len();
        let mut i: usize = 0;
        while i < n
            invariant
                i <= n,
                n == self.entries@.len(),
                out@.len() == i,
                forall|k: int|
                    0 <= k < i ==> {
                        &&& (#[trigger] out@[k]).name@ == self.entries@[k].config.name@
                        &&& out@[k].cmdline@ == self.entries@[k].config.cmdline@
                        &&& out@[k].old_pid == self.entries@[k].pid
                    },
            decreases n - i,
        {
            let st = &self.entries[i];
            out.push(
                RefreshTask {
                    name: st.config.name.clone(),
                    cmdline: st.config.cmdline.clone(),
                    old_pid: st.pid,
                },
            );
            i += 1;
        }
        out
    }

    /// Records one liveness check of the target named `name`, if it is still
    /// registered: running state, process and check time always; the snapshot
    /// only when a fresh one was obtained. Returns whether the target was found.
    pub fn apply_refresh(
        &mut self,
        name: &str,
        is_running: bool,
        pid: Option<i32>,
        now: u64,
        stats: Option<ProcessStats>,
    ) -> (r: bool)
        requires
            old(self).wf(),
        ensures
            final(self).wf(),
            r == holds_name(old(self).entries_spec(), name@),
            !r ==> final(self).entries_spec() == old(self).entries_spec(),
            forall|i: int|
                0 <= i < old(self).entries_spec().len() && #[trigger] old(
                    self,
                ).entries_spec()[i].config.name@ == name@ ==> final(self).entries_spec() == old(
                    self,
                ).entries_spec().update(
                    i,
                    refreshed(old(self).entries_spec()[i], is_running, pid, now, stats),
                ),
    {
        match self.find(name) {
            None => false,
            Some(i) => {
                let ghost old_entries = self.entries@;
                let mut st = self.entries.remove(i);
                st.is_running = is_running;
                st.pid = pid;
                st.last_check = now;
                if let Some(s) = stats {
                    st.stats = s;
                }
                self.entries.insert(i, st);
                proof {
                    assert(self.entries@ =~= old_entries.update(
                        i as int,
                        refreshed(old_entries[i as int], is_running, pid, now, stats),
                    ));
                    assert forall|j: int|
                        0 <= j < old_entries.len() && #[trigger] old_entries[j].config.name@
                            == name@ implies j == i by {}
                }
                true
            },
        }
    }
}

} // verus!
