//! The job registry: every submitted job, keyed by its identifier, with the
//! two lifecycle mutations a job's background task performs. Records are
//! never removed; identifiers are never reused; logs only grow.
//!
//! The registry itself is a plain value: whoever runs it concurrently wraps
//! it in a lock, and the `&mut` contracts here say exactly what each mutation
//! does to the whole store.

use vstd::prelude::*;
use crate::ext::{now_millis, random_id};
use crate::job::{pending_view, step_allowed, Job, JobStatus, JobView};
use crate::lifecycle::{
    build_outcome_logs, make_starting_line, outcome_log_lines, outcome_progress, outcome_status,
    starting_line, Outcome, OutcomeView,
};

verus! {

/// Whether some record in the sequence carries the id.
pub open spec fn contains_id(s: Seq<JobView>, id: u128) -> bool {
    exists|i: int| 0 <= i < s.len() && s[i].id == id
}

/// The record after its lifecycle task has started: Running, with the
/// starting log line appended.
pub open spec fn run_view(j: JobView) -> JobView {
    JobView { status: JobStatus::Running, logs: j.logs.push(starting_line(j.url)), ..j }
}

/// The record after its outcome has been applied: the terminal status, the
/// final progress, and the outcome's log lines appended.
pub open spec fn done_view(j: JobView, o: OutcomeView) -> JobView {
    JobView {
        status: outcome_status(o),
        progress: outcome_progress(o),
        logs: j.logs + outcome_log_lines(o),
        ..j
    }
}

/// The in-memory job registry.
pub struct JobStore {
    jobs: Vec<Job>,
}

impl View for JobStore {
    type V = Seq<JobView>;

    closed spec fn view(&self) -> Seq<JobView> {
        Seq::new(self.jobs@.len(), |i: int| self.jobs@[i]@)
    }
}

impl JobStore {
    /// Every identifier names exactly one record, and every record is
    /// well-formed.
    pub open spec fn wf(&self) -> bool {
        &&& forall|i: int, j: int| 0 <= i < j < self@.len() ==> self@[i].id != self@[j].id
        &&& forall|i: int| 0 <= i < self@.len() ==> self@[i].wf()
    }

    /// Whether a record with the id is present.
    pub open spec fn spec_contains(&self, id: u128) -> bool {
        contains_id(self@, id)
    }

    /// Position of the record with the id, when one is present.
    pub open spec fn spec_index_of(&self, id: u128) -> int {
        choose|i: int| 0 <= i < self@.len() && self@[i].id == id
    }

    /// The record with the id, when one is present.
    pub open spec fn spec_get(&self, id: u128) -> Option<JobView> {
        if self.spec_contains(id) {
            Some(self@[self.spec_index_of(id)])
        } else {
            None
        }
    }

    /// In a well-formed store a position holding the id is the only one.
    pub proof fn lemma_index_unique(&self, id: u128, i: int)
        requires
            self.wf(),
            0 <= i < self@.len(),
            self@[i].id == id,
        ensures
            self.spec_index_of(id) == i,
            self.spec_get(id) == Some(self@[i]),
    {
        assert(self.spec_contains(id));
        let j = self.spec_index_of(id);
        if j != i {
            if j < i {
                assert(self@[j].id != self@[i].id);
            } else {
                assert(self@[i].id != self@[j].id);
            }
        }
    }

    /// An empty registry.
    pub fn new() -> (r: JobStore)
        ensures
            r@ == Seq::<JobView>::empty(),
            r.wf(),
    {
        let r = JobStore { jobs: Vec::new() };
        proof {
            assert(r@ =~= Seq::<JobView>::empty());
        }
        r
    }

    /// How many jobs the registry holds.
    pub fn len(&self) -> (n: usize)
        ensures
            n == self@.len(),
    {
        self.jobs.len()
    }

    /// Position of the record with the id, or nothing.
    fn index_of(&self, id: u128) -> (r: Option<usize>)
        ensures
            match r {
                Some(i) => 0 <= i < self@.len() && self@[i as int].id == id,
                None => !self.spec_contains(id),
            },
    {
        let mut i: usize = 0;
        while i < self.jobs.len()
            invariant
                i <= self@.len(),
                self@.len() == self.jobs@.len(),
                forall|k: int| 0 <= k < i ==> self@[k].id != id,
            decreases self@.len() - i,
        {
            if self.jobs[i].id == id {
                return Some(i);
            }
            i += 1;
        }
        None
    }

    /// A copy of the record with the id, or nothing when the id is unknown.
    pub fn get_copy(&self, id: u128) -> (r: Option<Job>)
        requires
            self.wf(),
        ensures
            match r {
                Some(job) => self.spec_get(id) == Some(job@),
                None => self.spec_get(id) is None,
            },
    {
        match self.index_of(id) {
            Some(i) => {
                let job = self.jobs[i].duplicate();
                proof {
                    self.lemma_index_unique(id, i as int);
                }
                Some(job)
            },
            None => None,
        }
    }

    /// A point-in-time copy of every record, in insertion order.
    pub fn snapshot(&self) -> (r: Vec<Job>)
        ensures
            r@.len() == self@.len(),
            forall|k: int| 0 <= k < self@.len() ==> r@[k]@ == self@[k],
    {
        let mut r: Vec<Job> = Vec::new();
        let mut i: usize = 0;
        while i < self.jobs.len()
            invariant
                i <= self@.len(),
                self@.len() == self.jobs@.len(),
                r@.len() == i,
                forall|k: int| 0 <= k < i ==> r@[k]@ == self@[k],
            decreases self@.len() - i,
        {
            r.push(self.jobs[i].duplicate());
            i += 1;
        }
        r
    }

    /// Adds a fresh Pending record under the given id. Nothing changes and
    /// `false` comes back when the id is already taken; the caller owns
    /// uniqueness.
    pub fn submit_with_id(&mut self, id: u128, url: String, profile: String, created_at: i64) -> (r:
        bool)
        requires
            old(self).wf(),
        ensures
            final(self).wf(),
            r == !contains_id(old(self)@, id),
            r ==> final(self)@ == old(self)@.push(pending_view(id, url@, profile@, created_at)),
            r ==> final(self).spec_get(id) == Some(pending_view(id, url@, profile@, created_at)),
            !r ==> final(self)@ == old(self)@,
    {
        match self.index_of(id) {
            Some(_) => false,
            None => {
                let job = Job::pending(id, url, profile, created_at);
                self.jobs.push(job);
                proof {
                    assert(self@ =~= old(self)@.push(
                        pending_view(id, job.url@, job.profile@, created_at),
                    ));
                    self.lemma_index_unique(id, old(self)@.len() as int);
                }
                true
            },
        }
    }

    /// Creates a job for a request: a generated id, the current time, state
    /// Pending with no progress and no logs. The id generator is random, so
    /// a collision is answered with `None` and an unchanged store; whatever
    /// id comes back was free before the call.
    pub fn submit(&mut self, url: String, profile: String) -> (r: Option<u128>)
        requires
            old(self).wf(),
        ensures
            final(self).wf(),
            r is None ==> final(self)@ == old(self)@,
            r matches Some(id) ==> !contains_id(old(self)@, id) && (exists|t: i64|
                final(self)@ == old(self)@.push(pending_view(id, url@, profile@, t))) && (final(
                self).spec_get(id) matches Some(j) && j == pending_view(
                id,
                url@,
                profile@,
                j.created_at,
            )),
    {
        let id = random_id();
        let t = now_millis();
        let ghost u = url@;
        let ghost p = profile@;
        if self.submit_with_id(id, url, profile, t) {
            proof {
                assert(self@ == old(self)@.push(pending_view(id, u, p, t)));
                assert(exists|tt: i64| self@ == old(self)@.push(pending_view(id, u, p, tt)));
            }
            Some(id)
        } else {
            None
        }
    }

    /// Moves the job to Running and appends its starting log line. Only the
    /// job's own lifecycle task calls this, once, while the job is Pending.
    pub fn mark_running(&mut self, id: u128)
        requires
            old(self).wf(),
            old(self).spec_get(id) matches Some(j) && j.status is Pending,
        ensures
            final(self).wf(),
            final(self)@.len() == old(self)@.len(),
            forall|k: int| 0 <= k < old(self)@.len() ==> final(self)@[k] == (if old(
                self,
            )@[k].id == id {
                run_view(old(self)@[k])
            } else {
                old(self)@[k]
            }),
            final(self).spec_get(id) == Some(run_view(old(self).spec_get(id)->Some_0)),
            forall|k: int| 0 <= k < old(self)@.len() ==> step_allowed(
                old(self)@[k].status,
                final(self)@[k].status,
            ),
            forall|k: int| 0 <= k < old(self)@.len() ==> old(self)@[k].logs.is_prefix_of(
                final(self)@[k].logs,
            ),
    {
        match self.index_of(id) {
            Some(i) => {
                proof {
                    old(self).lemma_index_unique(id, i as int);
                }
                let mut job = self.jobs.remove(i);
                let line = make_starting_line(job.url.as_str());
                let ghost lv = line@;
                let ghost logs0 = job.logs.deep_view();
                job.status = JobStatus::Running;
                job.logs.push(line);
                proof {
                    assert(job.logs.deep_view() =~= logs0.push(lv));
                }
                self.jobs.insert(i, job);
                proof {
                    assert(job@ == run_view(old(self)@[i as int]));
                    assert forall|k: int| 0 <= k < old(self)@.len() implies self@[k] == (if old(
                        self,
                    )@[k].id == id {
                        run_view(old(self)@[k])
                    } else {
                        old(self)@[k]
                    }) by {
                        if old(self)@[k].id == id {
                            old(self).lemma_index_unique(id, k);
                        }
                    }
                    self.lemma_index_unique(id, i as int);
                    assert forall|k: int| 0 <= k < old(self)@.len() implies old(
                        self,
                    )@[k].logs.is_prefix_of(self@[k].logs) by {
                        assert(old(self)@[k].logs.is_prefix_of(old(self)@[k].logs.push(
                            starting_line(old(self)@[k].url),
                        ))) by {
                            assert(old(self)@[k].logs.push(starting_line(old(self)@[k].url)).take(
                                old(self)@[k].logs.len() as int,
                            ) =~= old(self)@[k].logs);
                        }
                        assert(old(self)@[k].logs.is_prefix_of(old(self)@[k].logs)) by {
                            assert(old(self)@[k].logs.take(old(self)@[k].logs.len() as int)
                                =~= old(self)@[k].logs);
                        }
                    }
                }
            },
            None => {
                proof {
                    assert(false);
                }
            },
        }
    }

    /// Applies a classified outcome to the job: the terminal status, the
    /// final progress, and the outcome's log lines appended. Only the job's
    /// own lifecycle task calls this, once, while the job is Running.
    pub fn apply_outcome(&mut self, id: u128, outcome: &Outcome)
        requires
            old(self).wf(),
            old(self).spec_get(id) matches Some(j) && j.status is Running,
        ensures
            final(self).wf(),
            final(self)@.len() == old(self)@.len(),
            forall|k: int| 0 <= k < old(self)@.len() ==> final(self)@[k] == (if old(
                self,
            )@[k].id == id {
                done_view(old(self)@[k], outcome@)
            } else {
                old(self)@[k]
            }),
            final(self).spec_get(id) == Some(done_view(old(self).spec_get(id)->Some_0, outcome@)),
            forall|k: int| 0 <= k < old(self)@.len() ==> step_allowed(
                old(self)@[k].status,
                final(self)@[k].status,
            ),
            forall|k: int| 0 <= k < old(self)@.len() ==> old(self)@[k].logs.is_prefix_of(
                final(self)@[k].logs,
            ),
    {
        match self.index_of(id) {
            Some(i) => {
                proof {
                    old(self).lemma_index_unique(id, i as int);
                }
                let mut job = self.jobs.remove(i);
                let st = match outcome {
                    Outcome::Succeeded { .. } => JobStatus::Completed,
                    Outcome::Failed { .. } => JobStatus::Failed,
                    Outcome::SpawnError { .. } => JobStatus::Failed,
                };
                let pg: u8 = match outcome {
                    Outcome::Succeeded { .. } => 100,
                    _ => 0,
                };
                let mut lines = build_outcome_logs(outcome);
                let ghost linesv = lines.deep_view();
                let ghost logs0 = job.logs.deep_view();
                job.status = st;
                job.progress = pg;
                job.logs.append(&mut lines);
                proof {
                    assert(job.logs.deep_view() =~= logs0 + linesv);
                }
                self.jobs.insert(i, job);
                proof {
                    assert(job@ == done_view(old(self)@[i as int], outcome@));
                    assert forall|k: int| 0 <= k < old(self)@.len() implies self@[k] == (if old(
                        self,
                    )@[k].id == id {
                        done_view(old(self)@[k], outcome@)
                    } else {
                        old(self)@[k]
                    }) by {
                        if old(self)@[k].id == id {
                            old(self).lemma_index_unique(id, k);
                        }
                    }
                    self.lemma_index_unique(id, i as int);
                    assert forall|k: int| 0 <= k < old(self)@.len() implies old(
                        self,
                    )@[k].logs.is_prefix_of(self@[k].logs) by {
                        assert(old(self)@[k].logs.is_prefix_of(old(self)@[k].logs
                            + outcome_log_lines(outcome@))) by {
                            assert((old(self)@[k].logs + outcome_log_lines(outcome@)).take(
                                old(self)@[k].logs.len() as int,
                            ) =~= old(self)@[k].logs);
                        }
                        assert(old(self)@[k].logs.is_prefix_of(old(self)@[k].logs)) by {
                            assert(old(self)@[k].logs.take(old(self)@[k].logs.len() as int)
                                =~= old(self)@[k].logs);
                        }
                    }
                }
            },
            None => {
                proof {
                    assert(false);
                }
            },
        }
    }
}

/// In a well-formed store every observable record shows full progress
/// exactly when it is completed, whatever point in its lifecycle a snapshot
/// catches it at.
pub proof fn lemma_snapshot_progress(s: &JobStore)
    requires
        s.wf(),
    ensures
        forall|k: int|
            0 <= k < s@.len() ==> (s@[k].progress == 100 <==> s@[k].status is Completed),
{
}

/// A job's log never shrinks: across successive observations each one is a
/// prefix of the next, so the log's length is non-decreasing, and the first
/// observation is still a prefix of the last.
pub proof fn lemma_log_growth(a: Seq<Seq<char>>, b: Seq<Seq<char>>, c: Seq<Seq<char>>)
    requires
        a.is_prefix_of(b),
        b.is_prefix_of(c),
    ensures
        a.len() <= b.len() <= c.len(),
        a.is_prefix_of(c),
{
    assert(c.take(b.len() as int).take(a.len() as int) =~= c.take(a.len() as int));
}

/// Submissions never lose or overwrite records: after one submission and a
/// second under an id the store did not hold, the two ids differ, both
/// records are present, and every record from before stands untouched.
pub proof fn lemma_submissions_distinct(
    s0: Seq<JobView>,
    s1: Seq<JobView>,
    s2: Seq<JobView>,
    a: JobView,
    b: JobView,
)
    requires
        s1 == s0.push(a),
        !contains_id(s1, b.id),
        s2 == s1.push(b),
    ensures
        a.id != b.id,
        contains_id(s2, a.id),
        contains_id(s2, b.id),
        forall|k: int| 0 <= k < s0.len() ==> s2[k] == s0[k],
{
    assert(s1[s0.len() as int] == a);
    assert(s2[s0.len() as int] == a);
    assert(s2[s1.len() as int] == b);
}

} // verus!
