use vstd::prelude::*;

use crate::editor::{job_status_of, parse_job_status, JobStatus};
use crate::precision::{narrow_to_single_bits, single_bits_of_double_bits};
use crate::text::same_text;

verus! {

/// Where a generation job stands. Progress is a single-precision fraction
/// held as its bit pattern.
pub enum JobState {
    Queued,
    Running(u32),
    Completed,
    Failed(String),
}

/// A job state seen by its values.
pub enum JobStateView {
    Queued,
    Running(u32),
    Completed,
    Failed(Seq<char>),
}

/// One job of the list: its id, its type and where it stands.
pub struct Job {
    pub id: String,
    pub job_type: String,
    pub state: JobState,
}

/// A job seen by its values: (id, type, state).
pub type JobView = (Seq<char>, Seq<char>, JobStateView);

pub open spec fn state_view(s: JobState) -> JobStateView {
    match s {
        JobState::Queued => JobStateView::Queued,
        JobState::Running(p) => JobStateView::Running(p),
        JobState::Completed => JobStateView::Completed,
        JobState::Failed(e) => JobStateView::Failed(e@),
    }
}

pub open spec fn job_view(j: Job) -> JobView {
    (j.id@, j.job_type@, state_view(j.state))
}

/// One update of a job as the server reports it. The progress is the bit
/// pattern of the double the server sent.
pub struct JobUpdate {
    pub id: String,
    pub job_type: String,
    pub status: String,
    pub progress_bits: u64,
    pub error: Option<String>,
}

/// The jobs `s` without those whose id is `id`, in order.
pub open spec fn without_id(s: Seq<JobView>, id: Seq<char>) -> Seq<JobView>
    decreases s.len(),
{
    if s.len() == 0 {
        s
    } else {
        let rest = without_id(s.drop_last(), id);
        if s.last().0 == id {
            rest
        } else {
            rest.push(s.last())
        }
    }
}

/// The jobs `s` with every job whose id is `id` set to `state`.
pub open spec fn with_state(s: Seq<JobView>, id: Seq<char>, state: JobStateView) -> Seq<JobView> {
    Seq::new(s.len(), |i: int| if s[i].0 == id { (s[i].0, s[i].1, state) } else { s[i] })
}

/// No two jobs share an id.
pub open spec fn ids_distinct(s: Seq<JobView>) -> bool {
    forall|i: int, j: int| 0 <= i < j < s.len() ==> #[trigger] s[i].0 != #[trigger] s[j].0
}

proof fn lemma_without_id(s: Seq<JobView>, id: Seq<char>)
    ensures
        forall|i: int| 0 <= i < without_id(s, id).len() ==> #[trigger] without_id(s, id)[i].0 != id,
        forall|i: int|
            0 <= i < without_id(s, id).len() ==> exists|j: int| 0 <= j < s.len() && s[j] == #[trigger] without_id(s, id)[i],
        ids_distinct(s) ==> ids_distinct(without_id(s, id)),
        forall|i: int, j: int| 0 <= i < j < without_id(s, id).len() ==> exists|a: int, b: int|
            0 <= a < b < s.len() && s[a] == #[trigger] without_id(s, id)[i] && s[b] == #[trigger] without_id(s, id)[j],
    decreases s.len(),
{
    if s.len() > 0 {
        let r = without_id(s.drop_last(), id);
        lemma_without_id(s.drop_last(), id);
        let w = without_id(s, id);
        assert forall|i: int| 0 <= i < w.len() implies exists|j: int| 0 <= j < s.len() && s[j] == #[trigger] w[i] by {
            if i < r.len() {
                let j = choose|j: int| 0 <= j < s.drop_last().len() && s.drop_last()[j] == r[i];
                assert(s[j] == w[i]);
            } else {
                assert(s[s.len() - 1] == w[i]);
            }
        }
        assert forall|i: int, j: int| 0 <= i < j < w.len() implies exists|a: int, b: int|
            0 <= a < b < s.len() && s[a] == #[trigger] w[i] && s[b] == #[trigger] w[j] by {
            let t = s.drop_last();
            if j < r.len() {
                let (a, b) = choose|a: int, b: int| 0 <= a < b < t.len() && t[a] == r[i] && t[b] == r[j];
                assert(s[a] == w[i] && s[b] == w[j]);
            } else {
                let a = choose|a: int| 0 <= a < t.len() && t[a] == r[i];
                assert(s[a] == w[i] && s[s.len() - 1] == w[j]);
            }
        }
        if ids_distinct(s) {
            assert(ids_distinct(s.drop_last()));
            assert forall|i: int, j: int| 0 <= i < j < w.len() implies #[trigger] w[i].0 != #[trigger] w[j].0 by {
                let (a, b) = choose|a: int, b: int| 0 <= a < b < s.len() && s[a] == w[i] && s[b] == w[j];
            }
        }
    }
}

/// The jobs reported by the server, newest last, each id once.
pub struct GenerationStatus {
    pub jobs: Vec<Job>,
}

impl GenerationStatus {
    pub open spec fn view(&self) -> Seq<JobView> {
        self.jobs@.map_values(|j: Job| job_view(j))
    }

    pub open spec fn wf(&self) -> bool {
        ids_distinct(self.view())
    }

    pub fn new() -> (r: Self)
        ensures
            r.wf(),
            r.view() == Seq::<JobView>::empty(),
    {
        let r = GenerationStatus { jobs: Vec::new() };
        assert(r.view() =~= Seq::<JobView>::empty());
        r
    }

    /// Lists a newly queued job last, dropping any job listed under its id.
    pub fn add_job(&mut self, id: String, job_type: String)
        requires
            old(self).wf(),
        ensures
            final(self).wf(),
            final(self).view() == without_id(old(self).view(), id@).push((id@, job_type@, JobStateView::Queued)),
    {
        let ghost s = self.view();
        let mut kept: Vec<Job> = Vec::new();
        let mut rest: Vec<Job> = Vec::new();
        std::mem::swap(&mut self.jobs, &mut rest);
        let n = rest.len();
        let mut i: usize = 0;
        while i < n
            invariant
                n == s.len(),
                rest@.len() == n - i,
                i <= n,
                forall|k: int| 0 <= k < n - i ==> job_view(#[trigger] rest@[k]) == s[i + k],
                kept@.map_values(|j: Job| job_view(j)) == without_id(s.take(i as int), id@),
            decreases n - i,
        {
            let job = rest.remove(0);
            proof {
                assert(s.take(i + 1).drop_last() =~= s.take(i as int));
                assert(job_view(job) == s[i as int]);
            }
            let ghost before = kept@.map_values(|j: Job| job_view(j));
            if !same_text(job.id.as_str(), id.as_str()) {
                kept.push(job);
                assert(kept@.map_values(|j: Job| job_view(j)) =~= before.push(s[i as int]));
            }
            i = i + 1;
        }
        assert(s.take(n as int) =~= s);
        let ghost w = kept@.map_values(|j: Job| job_view(j));
        kept.push(Job { id, job_type, state: JobState::Queued });
        self.jobs = kept;
        proof {
            lemma_without_id(s, id@);
            assert(self.view() =~= w.push((id@, job_type@, JobStateView::Queued)));
            assert forall|a: int, b: int| 0 <= a < b < self.view().len() implies #[trigger] self.view()[a].0
                != #[trigger] self.view()[b].0 by {
                if b < w.len() {
                    assert(w[a].0 != w[b].0);
                } else {
                    assert(w[a].0 != id@);
                }
            }
        }
    }

    /// Sets the state of the job listed under `id`; no change where none is.
    pub fn set_state(&mut self, id: &str, state: JobState)
        requires
            old(self).wf(),
        ensures
            final(self).wf(),
            final(self).view() == with_state(old(self).view(), id@, state_view(state)),
    {
        let ghost s = self.view();
        let ghost st = state_view(state);
        let n = self.jobs.len();
        let mut i: usize = 0;
        while i < n
            invariant
                n == self.jobs@.len(),
                i <= n,
                s == self.view(),
                s == old(self).view(),
                st == state_view(state),
                ids_distinct(s),
                forall|k: int| 0 <= k < i ==> #[trigger] s[k].0 != id@,
            decreases n - i,
        {
            if same_text(self.jobs[i].id.as_str(), id) {
                let job = Job { id: self.jobs[i].id.clone(), job_type: self.jobs[i].job_type.clone(), state };
                assert(job_view(job) == (s[i as int].0, s[i as int].1, st));
                let ghost jobs0 = self.jobs@;
                self.jobs.set(i, job);
                proof {
                    assert(self.jobs@ == jobs0.update(i as int, job));
                    assert(self.view() =~= s.update(i as int, job_view(job)));
                    assert forall|k: int| 0 <= k < n && k != i implies #[trigger] s[k].0 != id@ by {
                        if k > i {
                            assert(s[i as int].0 != s[k].0);
                        }
                    }
                    assert(self.view() =~= with_state(s, id@, st));
                    assert(with_state(s, id@, st) =~= s.update(i as int, (s[i as int].0, s[i as int].1, st)));
                }
                return;
            }
            i = i + 1;
        }
        assert(self.view() =~= with_state(s, id@, st));
    }

    /// Records one job update from the server: a queued job is listed anew; a
    /// running one shows its progress, narrowed to single precision; a
    /// completed or failed one its outcome, with the error text (empty where
    /// the server sent none). An update of unknown status changes nothing.
    pub fn apply_update(&mut self, update: JobUpdate)
        requires
            old(self).wf(),
        ensures
            final(self).wf(),
            final(self).view() == match job_status_of(update.status@) {
                Some(JobStatus::Queued) => without_id(old(self).view(), update.id@).push(
                    (update.id@, update.job_type@, JobStateView::Queued),
                ),
                Some(JobStatus::Running) => with_state(
                    old(self).view(),
                    update.id@,
                    JobStateView::Running(single_bits_of_double_bits(update.progress_bits)),
                ),
                Some(JobStatus::Completed) => with_state(old(self).view(), update.id@, JobStateView::Completed),
                Some(JobStatus::Failed) => with_state(
                    old(self).view(),
                    update.id@,
                    JobStateView::Failed(
                        match update.error {
                            Some(e) => e@,
                            None => Seq::empty(),
                        },
                    ),
                ),
                None => old(self).view(),
            },
    {
        match parse_job_status(update.status.as_str()) {
            Some(JobStatus::Queued) => self.add_job(update.id, update.job_type),
            Some(JobStatus::Running) => {
                let p = narrow_to_single_bits(update.progress_bits);
                self.set_state(update.id.as_str(), JobState::Running(p))
            },
            Some(JobStatus::Completed) => self.set_state(update.id.as_str(), JobState::Completed),
            Some(JobStatus::Failed) => {
                let e = match update.error {
                    Some(e) => e,
                    None => String::new(),
                };
                self.set_state(update.id.as_str(), JobState::Failed(e))
            },
            None => {},
        }
    }
}

} // verus!
