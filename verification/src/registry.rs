//! The process registry: one record per launched game process, keyed by
//! pid, with the `Running -> Exited` state machine.
//!
//! Records are never removed, only marked exited; pids are assumed not to
//! be reused within a session. The blocking wait on the child and the
//! periodic liveness poll both converge here: a poll reports no exit code
//! and therefore never overwrites one that the authoritative wait stored.
use vstd::prelude::*;
use vstd::pervasive::VecAdditionalExecFns;

verus! {

/// One captured log line of a running instance.
#[derive(Debug)]
pub struct LogEntry {
    pub log_type: String,
    pub message: String,
    pub time: i64,
}

impl LogEntry {
    /// A copy of this log line.
    pub fn duplicate(&self) -> (r: Self)
        ensures
            r == *self,
    {
        LogEntry {
            log_type: self.log_type.clone(),
            message: self.message.clone(),
            time: self.time,
        }
    }
}

/// One launched game process.
#[derive(Debug)]
pub struct RunningInstance {
    pub version_id: String,
    pub start_time: i64,
    pub account_username: String,
    pub exited: bool,
    pub exit_code: Option<i32>,
    pub logs: Vec<LogEntry>,
}

/// A copy of a log vector.
fn clone_logs(v: &Vec<LogEntry>) -> (r: Vec<LogEntry>)
    ensures
        r@ == v@,
{
    let mut r: Vec<LogEntry> = Vec::new();
    let mut i: usize = 0;
    while i < v.len()
        invariant
            i <= v@.len(),
            r@ == v@.subrange(0, i as int),
        decreases v@.len() - i,
    {
        r.push(v[i].duplicate());
        i = i + 1;
        proof {
            assert(r@ =~= v@.subrange(0, i as int));
        }
    }
    proof {
        assert(r@ =~= v@);
    }
    r
}

/// The current wall-clock time in milliseconds since the Unix epoch.
///
/// Relies on `chrono::Utc::now` and `DateTime::timestamp_millis`; the
/// value depends on the clock, so nothing is assumed of it.
#[verifier::external_body]
fn now_millis() -> i64 {
    chrono::Utc::now().timestamp_millis()
}

/// The registry of launched game processes.
#[derive(Debug)]
pub struct InstanceRegistry {
    entries: Vec<(u32, RunningInstance)>,
}

/// The first record of `entries` with the given pid.
pub open spec fn lookup_pid(
    entries: Seq<(u32, RunningInstance)>,
    pid: u32,
) -> Option<RunningInstance>
    decreases entries.len(),
{
    if entries.len() == 0 {
        Option::None
    } else if entries[0].0 == pid {
        Option::Some(entries[0].1)
    } else {
        lookup_pid(entries.drop_first(), pid)
    }
}

/// The first non-exited record of `entries` with the given version id.
pub open spec fn find_running_spec(
    entries: Seq<(u32, RunningInstance)>,
    vid: Seq<char>,
) -> Option<u32>
    decreases entries.len(),
{
    if entries.len() == 0 {
        Option::None
    } else if entries[0].1.version_id@ == vid && !entries[0].1.exited {
        Option::Some(entries[0].0)
    } else {
        find_running_spec(entries.drop_first(), vid)
    }
}

impl InstanceRegistry {
    /// The records of the registry, in insertion order.
    pub closed spec fn records(&self) -> Seq<(u32, RunningInstance)> {
        self.entries@
    }

    /// No pid occurs twice.
    pub open spec fn wf(&self) -> bool {
        forall|i: int, j: int|
            0 <= i < j < self.records().len() ==> self.records()[i].0 != self.records()[j].0
    }

    /// The record stored for `pid`, if any.
    pub open spec fn lookup(&self, pid: u32) -> Option<RunningInstance> {
        lookup_pid(self.records(), pid)
    }

    /// An empty registry.
    pub fn new() -> (r: Self)
        ensures
            r.wf(),
            r.records().len() == 0,
    {
        InstanceRegistry { entries: Vec::new() }
    }

    /// How many records the registry holds.
    pub fn len(&self) -> (r: usize)
        ensures
            r == self.records().len(),
    {
        self.entries.len()
    }

    /// A reference to the record stored for `pid`.
    pub fn get<'a>(&'a self, pid: u32) -> (r: Option<&'a RunningInstance>)
        ensures
            match r {
                Option::Some(inst) => self.lookup(pid) == Option::Some(*inst),
                Option::None => self.lookup(pid) is None,
            },
    {
        let ghost ev = self.entries@;
        proof {
            assert(ev.subrange(0, ev.len() as int) =~= ev);
        }
        let mut i: usize = 0;
        while i < self.entries.len()
            invariant
                i <= ev.len(),
                ev == self.entries@,
                ev == self.records(),
                lookup_pid(ev, pid) == lookup_pid(ev.subrange(i as int, ev.len() as int), pid),
            decreases ev.len() - i,
        {
            let ghost pre = ev.subrange(i as int, ev.len() as int);
            if self.entries[i].0 == pid {
                proof {
                    assert(pre[0] == ev[i as int]);
                }
                return Option::Some(&self.entries[i].1);
            }
            i = i + 1;
            proof {
                assert(pre[0] == ev[i - 1]);
                assert(pre.drop_first() =~= ev.subrange(i as int, ev.len() as int));
            }
        }
        proof {
            assert(ev.subrange(ev.len() as int, ev.len() as int) =~= Seq::<
                (u32, RunningInstance),
            >::empty());
        }
        Option::None
    }

    /// Registers a newly spawned process with an explicit start time.
    pub fn register_at(
        &mut self,
        pid: u32,
        version_id: String,
        account_username: String,
        start_time: i64,
    )
        requires
            old(self).wf(),
            old(self).lookup(pid) is None,
        ensures
            final (self).wf(),
            final (self).records().len() == old(self).records().len() + 1,
            final (self).records().drop_last() == old(self).records(),
            final (self).records().last().0 == pid,
            final (self).records().last().1.version_id == version_id,
            final (self).records().last().1.account_username == account_username,
            final (self).records().last().1.start_time == start_time,
            final (self).records().last().1.exited == false,
            final (self).records().last().1.exit_code is None,
            final (self).records().last().1.logs@.len() == 0,
    {
        let inst = RunningInstance {
            version_id,
            start_time,
            account_username,
            exited: false,
            exit_code: Option::None,
            logs: Vec::new(),
        };
        proof {
            lemma_lookup_none_no_pid(self.entries@, pid);
        }
        self.entries.push((pid, inst));
        proof {
            assert(self.entries@.drop_last() =~= old(self).entries@);
        }
    }

    /// Registers a newly spawned process, stamped with the current time.
    pub fn register(&mut self, pid: u32, version_id: String, account_username: String)
        requires
            old(self).wf(),
            old(self).lookup(pid) is None,
        ensures
            final (self).wf(),
            final (self).records().len() == old(self).records().len() + 1,
            final (self).records().drop_last() == old(self).records(),
            final (self).records().last().0 == pid,
            final (self).records().last().1.version_id == version_id,
            final (self).records().last().1.account_username == account_username,
            final (self).records().last().1.exited == false,
            final (self).records().last().1.exit_code is None,
            final (self).records().last().1.logs@.len() == 0,
    {
        let t = now_millis();
        self.register_at(pid, version_id, account_username, t);
    }

    /// Marks the process `pid` as exited.
    ///
    /// A reported exit code is stored; a report without one (a liveness
    /// poll) keeps whatever code the authoritative wait already stored.
    /// Every other record is untouched, and marking twice is harmless.
    pub fn mark_exited(&mut self, pid: u32, code: Option<i32>)
        requires
            old(self).wf(),
        ensures
            final (self).wf(),
            final (self).records().len() == old(self).records().len(),
            forall|i: int|
                0 <= i < old(self).records().len() && old(self).records()[i].0 != pid ==> final (
                self
                ).records()[i] == old(self).records()[i],
            forall|i: int|
                0 <= i < old(self).records().len() && old(self).records()[i].0 == pid ==> {
                    let before = old(self).records()[i].1;
                    let after = final (self).records()[i];
                    &&& after.0 == pid
                    &&& after.1.version_id == before.version_id
                    &&& after.1.start_time == before.start_time
                    &&& after.1.account_username == before.account_username
                    &&& after.1.exited == true
                    &&& after.1.exit_code == (if code is Some {
                        code
                    } else {
                        before.exit_code
                    })
                    &&& after.1.logs@ == before.logs@
                },
    {
        let n = self.entries.len();
        let mut i: usize = 0;
        while i < n
            invariant
                i <= n,
                n == self.entries@.len(),
                self.entries@.len() == old(self).records().len(),
                old(self).wf(),
                forall|k: int|
                    0 <= k < i && old(self).records()[k].0 != pid ==> self.entries@[k] == old(
                        self,
                    ).records()[k],
                forall|k: int| i <= k < n ==> self.entries@[k] == old(self).records()[k],
                forall|k: int|
                    0 <= k < i && old(self).records()[k].0 == pid ==> {
                        let before = old(self).records()[k].1;
                        let after = self.entries@[k];
                        &&& after.0 == pid
                        &&& after.1.version_id == before.version_id
                        &&& after.1.start_time == before.start_time
                        &&& after.1.account_username == before.account_username
                        &&& after.1.exited == true
                        &&& after.1.exit_code == (if code is Some {
                            code
                        } else {
                            before.exit_code
                        })
                        &&& after.1.logs@ == before.logs@
                    },
                forall|k: int| 0 <= k < n ==> self.entries@[k].0 == old(self).records()[k].0,
            decreases n - i,
        {
            if self.entries[i].0 == pid {
                let inst = &self.entries[i].1;
                let updated = RunningInstance {
                    version_id: inst.version_id.clone(),
                    start_time: inst.start_time,
                    account_username: inst.account_username.clone(),
                    exited: true,
                    exit_code: match code {
                        Option::Some(c) => Option::Some(c),
                        Option::None => inst.exit_code,
                    },
                    logs: clone_logs(&inst.logs),
                };
                self.entries.set(i, (pid, updated));
            }
            i = i + 1;
        }
        proof {
            assert forall|a: int, b: int|
                0 <= a < b < self.entries@.len() implies self.entries@[a].0
                != self.entries@[b].0 by {
                assert(self.entries@[a].0 == old(self).records()[a].0);
                assert(self.entries@[b].0 == old(self).records()[b].0);
            }
        }
    }

    /// The pid of a non-exited instance of `version_id`, if one runs: the
    /// duplicate-instance guard consulted before a launch.
    pub fn find_running(&self, version_id: &String) -> (r: Option<u32>)
        ensures
            r == find_running_spec(self.records(), version_id@),
    {
        let ghost ev = self.entries@;
        proof {
            assert(ev.subrange(0, ev.len() as int) =~= ev);
        }
        let mut i: usize = 0;
        while i < self.entries.len()
            invariant
                i <= ev.len(),
                ev == self.entries@,
                ev == self.records(),
                find_running_spec(ev, version_id@) == find_running_spec(
                    ev.subrange(i as int, ev.len() as int),
                    version_id@,
                ),
            decreases ev.len() - i,
        {
            let ghost pre = ev.subrange(i as int, ev.len() as int);
            if !self.entries[i].1.exited && self.entries[i].1.version_id.eq(version_id) {
                proof {
                    assert(pre[0] == ev[i as int]);
                }
                return Option::Some(self.entries[i].0);
            }
            i = i + 1;
            proof {
                assert(pre[0] == ev[i - 1]);
                assert(pre.drop_first() =~= ev.subrange(i as int, ev.len() as int));
            }
        }
        proof {
            assert(ev.subrange(ev.len() as int, ev.len() as int) =~= Seq::<
                (u32, RunningInstance),
            >::empty());
        }
        Option::None
    }

    /// The pids of all records not yet marked exited, in insertion order:
    /// the set a liveness poll walks.
    pub fn active_pids(&self) -> (r: Vec<u32>)
        ensures
            r@ == self.records().filter_map(
                |e: (u32, RunningInstance)|
                    if !e.1.exited {
                        Option::Some(e.0)
                    } else {
                        Option::<u32>::None
                    },
            ),
    {
        let ghost f = |e: (u32, RunningInstance)|
            if !e.1.exited {
                Option::Some(e.0)
            } else {
                Option::<u32>::None
            };
        let ghost ev = self.entries@;
        let mut r: Vec<u32> = Vec::new();
        proof {
            assert(ev.subrange(0, 0) =~= Seq::<(u32, RunningInstance)>::empty());
            assert(r@ =~= ev.subrange(0, 0).filter_map(f));
        }
        let mut i: usize = 0;
        while i < self.entries.len()
            invariant
                i <= ev.len(),
                ev == self.entries@,
                ev == self.records(),
                f == (|e: (u32, RunningInstance)|
                    if !e.1.exited {
                        Option::Some(e.0)
                    } else {
                        Option::<u32>::None
                    }),
                r@ == ev.subrange(0, i as int).filter_map(f),
            decreases ev.len() - i,
        {
            let ghost pre = ev.subrange(0, i as int);
            let ghost now = ev.subrange(0, i + 1);
            if !self.entries[i].1.exited {
                r.push(self.entries[i].0);
            }
            i = i + 1;
            proof {
                assert(now.drop_last() =~= pre);
                assert(now.last() == ev[i - 1]);
                assert(now.filter_map(f) == if f(now.last()) is Some {
                    now.drop_last().filter_map(f).push(f(now.last()).unwrap())
                } else {
                    now.drop_last().filter_map(f)
                });
                assert(r@ =~= now.filter_map(f));
            }
        }
        proof {
            assert(ev.subrange(0, ev.len() as int) =~= ev);
        }
        r
    }

    /// How many records are not yet marked exited.
    pub fn running_count(&self) -> (r: usize)
        ensures
            r == self.records().filter_map(
                |e: (u32, RunningInstance)|
                    if !e.1.exited {
                        Option::Some(e.0)
                    } else {
                        Option::<u32>::None
                    },
            ).len(),
    {
        let pids = self.active_pids();
        pids.len()
    }
}

/// Where `lookup_pid` finds nothing, no record carries the pid.
proof fn lemma_lookup_none_no_pid(entries: Seq<(u32, RunningInstance)>, pid: u32)
    requires
        lookup_pid(entries, pid) is None,
    ensures
        forall|i: int| 0 <= i < entries.len() ==> entries[i].0 != pid,
    decreases entries.len(),
{
    if entries.len() > 0 {
        lemma_lookup_none_no_pid(entries.drop_first(), pid);
        assert forall|i: int| 0 <= i < entries.len() implies entries[i].0 != pid by {
            if i > 0 {
                assert(entries.drop_first()[i - 1] == entries[i]);
            }
        }
    }
}

} // verus!
