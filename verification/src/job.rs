//! The job record: one download request and its tracked lifecycle.

use vstd::prelude::*;

verus! {

/// Lifecycle states of a download job. A job only ever moves forward:
/// Pending -> Running -> (Completed | Failed), and never leaves a terminal
/// state.
#[derive(Clone, Copy, PartialEq, Eq, Structural, Debug)]
pub enum JobStatus {
    Pending,
    Running,
    Completed,
    Failed,
}

/// Position of a status along the lifecycle; the two terminal states share
/// the top rank.
pub open spec fn status_rank(s: JobStatus) -> int {
    match s {
        JobStatus::Pending => 0,
        JobStatus::Running => 1,
        JobStatus::Completed => 2,
        JobStatus::Failed => 2,
    }
}

/// The transitions a single mutation of a job record may take (staying put
/// included). This is the whole lifecycle: no state is skipped and no state
/// is ever left backwards.
pub open spec fn step_allowed(a: JobStatus, b: JobStatus) -> bool {
    ||| a == b
    ||| (a is Pending && b is Running)
    ||| (a is Running && (b is Completed || b is Failed))
}

/// An allowed step never regresses, never skips Pending or Running, and
/// never leaves a terminal state.
pub proof fn lemma_steps_never_regress(a: JobStatus, b: JobStatus)
    requires
        step_allowed(a, b),
    ensures
        status_rank(a) <= status_rank(b),
        b is Running ==> (a is Pending || a is Running),
        (b is Completed || b is Failed) ==> (a is Running || a == b),
        (a is Completed || a is Failed) ==> b == a,
{
}

/// Along any chain of allowed steps — and every mutation of the registry
/// takes only allowed steps — an observed status never regresses, and a
/// terminal status never changes again.
pub proof fn lemma_history_never_regresses(h: Seq<JobStatus>, i: int, j: int)
    requires
        0 <= i <= j < h.len(),
        forall|k: int| 0 <= k < h.len() - 1 ==> #[trigger] step_allowed(h[k], h[k + 1]),
    ensures
        status_rank(h[i]) <= status_rank(h[j]),
        (h[i] is Completed || h[i] is Failed) ==> h[j] == h[i],
    decreases j - i,
{
    if i < j {
        lemma_history_never_regresses(h, i, j - 1);
        assert(step_allowed(h[j - 1], h[j - 1 + 1]));
        lemma_steps_never_regress(h[j - 1], h[j]);
    }
}

/// Mathematical model of a job record.
pub struct JobView {
    pub id: u128,
    pub url: Seq<char>,
    pub profile: Seq<char>,
    pub status: JobStatus,
    pub progress: u8,
    pub created_at: i64,
    pub logs: Seq<Seq<char>>,
}

impl JobView {
    /// Well-formedness of a record: progress is 100 exactly on completion and
    /// 0 in every other state.
    pub open spec fn wf(self) -> bool {
        self.progress == (if self.status is Completed {
            100u8
        } else {
            0u8
        })
    }
}

/// In a well-formed record, full progress and completion coincide.
pub proof fn lemma_progress_iff_completed(j: JobView)
    requires
        j.wf(),
    ensures
        j.progress == 100 <==> j.status is Completed,
{
}

/// One download job: identifier, request data, current lifecycle state and
/// its append-only log.
pub struct Job {
    pub id: u128,
    pub url: String,
    pub profile: String,
    pub status: JobStatus,
    pub progress: u8,
    pub created_at: i64,
    pub logs: Vec<String>,
}

impl View for Job {
    type V = JobView;

    open spec fn view(&self) -> JobView {
        JobView {
            id: self.id,
            url: self.url@,
            profile: self.profile@,
            status: self.status,
            progress: self.progress,
            created_at: self.created_at,
            logs: self.logs.deep_view(),
        }
    }
}

/// The record a submission creates: Pending, no progress, no logs yet.
pub open spec fn pending_view(id: u128, url: Seq<char>, profile: Seq<char>, created_at: i64) -> JobView {
    JobView {
        id,
        url,
        profile,
        status: JobStatus::Pending,
        progress: 0,
        created_at,
        logs: Seq::empty(),
    }
}

impl Job {
    /// Builds the fresh record for a newly submitted request.
    pub fn pending(id: u128, url: String, profile: String, created_at: i64) -> (r: Job)
        ensures
            r@ == pending_view(id, url@, profile@, created_at),
            r@.wf(),
    {
        let r = Job {
            id,
            url,
            profile,
            status: JobStatus::Pending,
            progress: 0,
            created_at,
            logs: Vec::new(),
        };
        proof {
            assert(r@.logs =~= Seq::<Seq<char>>::empty());
            assert(r@ == pending_view(id, r.url@, r.profile@, created_at));
        }
        r
    }

    /// A field-for-field copy of the record.
    pub fn duplicate(&self) -> (r: Job)
        ensures
            r@ == self@,
    {
        let logs = clone_logs(&self.logs);
        let r = Job {
            id: self.id,
            url: self.url.clone(),
            profile: self.profile.clone(),
            status: self.status,
            progress: self.progress,
            created_at: self.created_at,
            logs,
        };
        proof {
            assert(r@ == self@);
        }
        r
    }
}

/// Copies a log, entry for entry.
fn clone_logs(v: &Vec<String>) -> (r: Vec<String>)
    ensures
        r@ == v@,
{
    let mut r: Vec<String> = Vec::new();
    let mut i: usize = 0;
    while i < v.len()
        invariant
            i <= v@.len(),
            r@ == v@.subrange(0, i as int),
        decreases v@.len() - i,
    {
        r.push(v[i].clone());
        proof {
            assert(r@ =~= v@.subrange(0, i + 1 as int));
        }
        i += 1;
    }
    proof {
        assert(r@ =~= v@);
    }
    r
}

} // verus!
