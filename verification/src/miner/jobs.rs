//! The jobs that a share may still be submitted for.

use vstd::prelude::*;
use crate::miner::work::{JOB_SLOTS, STALE_CREDIT_GRACE};

verus! {

/// A job id as the server spelled it, beside the number that the miner goes
/// by. A job id is an opaque string, and a submit has to echo it letter for
/// letter: "2341" given back as "00002341" names a job that was never served.
#[derive(Debug, Clone)]
pub struct JobId {
    pub id: u32,
    pub hex: String,
}

/// The mathematical value of a `JobId`.
pub struct Job {
    pub id: u32,
    pub hex: Seq<char>,
}

impl View for JobId {
    type V = Job;

    open spec fn view(&self) -> Job {
        Job { id: self.id, hex: self.hex@ }
    }
}

/// The jobs that are live on the server, the oldest first, and the one that
/// the last clean job displaced, with the time of that, in milliseconds.
pub struct JobTrack {
    live: Vec<JobId>,
    displaced: Option<(JobId, u64)>,
    newest: Option<u32>,
}

/// The mathematical value of a `JobTrack`.
#[verifier::ext_equal]
pub struct Jobs {
    pub live: Seq<Job>,
    pub displaced: Option<(Job, u64)>,
    pub newest: Option<u32>,
}

pub open spec fn jobs_view(s: Seq<JobId>) -> Seq<Job> {
    Seq::new(s.len(), |k: int| s[k]@)
}

impl View for JobTrack {
    type V = Jobs;

    closed spec fn view(&self) -> Jobs {
        Jobs {
            live: jobs_view(self.live@),
            displaced: match self.displaced {
                Some((j, at)) => Some((j@, at)),
                None => None,
            },
            newest: self.newest,
        }
    }
}

/// The last `n` of a sequence.
pub open spec fn last_n(s: Seq<Job>, n: int) -> Seq<Job> {
    if s.len() > n {
        s.skip(s.len() - n)
    } else {
        s
    }
}

/// The jobs after a new one: a clean one displaces the newest and retires the
/// rest; else the oldest gives way when the slots are full.
pub open spec fn notified(j: Jobs, job: Job, clean: bool, now: u64) -> Jobs {
    if clean {
        Jobs {
            live: seq![job],
            displaced: if j.live.len() > 0 {
                Some((j.live.last(), now))
            } else {
                None
            },
            newest: Some(job.id),
        }
    } else {
        Jobs {
            live: last_n(j.live.push(job), JOB_SLOTS as int),
            displaced: j.displaced,
            newest: Some(job.id),
        }
    }
}

/// Whether one of `s` has this id.
pub open spec fn holds(s: Seq<Job>, id: u32) -> bool {
    exists|i: int| 0 <= i < s.len() && (#[trigger] s[i]).id == id
}

/// Whether `now` is within the grace that began at `at`.
pub open spec fn in_grace(at: u64, now: u64) -> bool {
    now < at + STALE_CREDIT_GRACE
}

/// Whether a share for this job still earns credit.
pub open spec fn earns(j: Jobs, id: u32, now: u64) -> bool {
    ||| holds(j.live, id)
    ||| j.displaced matches Some((d, at)) && d.id == id && in_grace(at, now)
}

/// The spelling of the first of `s` with this id.
pub open spec fn spelling(s: Seq<Job>, id: u32) -> Option<Seq<char>>
    decreases s.len(),
{
    if s.len() == 0 {
        None
    } else if s[0].id == id {
        Some(s[0].hex)
    } else {
        spelling(s.skip(1), id)
    }
}

/// The server's own spelling of a job id.
pub open spec fn spelled(j: Jobs, id: u32) -> Option<Seq<char>> {
    match spelling(j.live, id) {
        Some(h) => Some(h),
        None => match j.displaced {
            Some((d, _)) => if d.id == id {
                Some(d.hex)
            } else {
                None
            },
            None => None,
        },
    }
}

/// No job yet.
pub open spec fn no_jobs() -> Jobs {
    Jobs { live: Seq::empty(), displaced: None, newest: None }
}

impl Default for JobTrack {
    fn default() -> (j: JobTrack)
        ensures
            j@ == no_jobs(),
    {
        let j = JobTrack { live: Vec::new(), displaced: None, newest: None };
        assert(j@ =~= no_jobs());
        j
    }
}

impl JobTrack {
    /// Takes in a job that the server has sent.
    pub fn notify(&mut self, job_id: u32, hex: &str, clean: bool, now: u64)
        ensures
            final(self)@ == notified(old(self)@, (Job { id: job_id, hex: hex@ }), clean, now),
    {
        let ghost before = self@;
        let ghost job = Job { id: job_id, hex: hex@ };
        if clean {
            self.displaced = match self.live.pop() {
                Some(j) => Some((j, now)),
                None => None,
            };
            self.live = Vec::new();
        }
        let ghost kept = jobs_view(self.live@);
        self.live.push(JobId { id: job_id, hex: hex.to_owned() });
        assert(jobs_view(self.live@) =~= kept.push(job));
        while self.live.len() > JOB_SLOTS
            invariant
                jobs_view(self.live@) == last_n(kept.push(job), self.live@.len() as int),
                self.live@.len() <= kept.len() + 1,
                self.live@.len() >= JOB_SLOTS || self.live@.len() == kept.len() + 1,
                self.displaced == (*old(self)).displaced || clean,
                clean ==> before.live.len() == 0 && self.displaced is None || before.live.len() > 0
                    && self.displaced is Some && self.displaced->Some_0.0@ == before.live.last()
                    && self.displaced->Some_0.1 == now,
            decreases self.live@.len(),
        {
            let ghost was = self.live@;
            self.live.remove(0);
            assert(self.live@ =~= was.skip(1));
            assert(jobs_view(was) =~= kept.push(job).skip(kept.len() + 1 - was.len()));
            assert forall|k: int| 0 <= k < self.live@.len() implies jobs_view(self.live@)[k]
                == kept.push(job)[kept.len() + 1 - self.live@.len() + k] by {
                assert(jobs_view(self.live@)[k] == jobs_view(was)[k + 1]);
            }
            assert(jobs_view(self.live@) =~= last_n(kept.push(job), self.live@.len() as int));
        }
        self.newest = Some(job_id);
        assert(self@ =~= notified(before, job, clean, now));
    }

    /// Whether a share for this job still earns credit.
    pub fn submittable(&self, job_id: u32, now: u64) -> (r: bool)
        ensures
            r == earns(self@, job_id, now),
    {
        let mut i: usize = 0;
        while i < self.live.len()
            invariant
                i <= self.live.len(),
                forall|k: int| 0 <= k < i ==> self@.live[k].id != job_id,
            decreases self.live.len() - i,
        {
            assert(self@.live[i as int].id == self.live@[i as int].id);
            if self.live[i].id == job_id {
                return true;
            }
            i += 1;
        }
        match &self.displaced {
            Some((j, at)) => j.id == job_id && (now < *at || now - *at < STALE_CREDIT_GRACE),
            None => false,
        }
    }

    /// The server's own spelling of this job id, for a submit to echo.
    pub fn hex_of(&self, job_id: u32) -> (r: Option<&str>)
        ensures
            r is Some <==> spelled(self@, job_id) is Some,
            r matches Some(h) ==> spelled(self@, job_id) == Some(h@),
    {
        let mut i: usize = 0;
        assert(self@.live.skip(0) =~= self@.live);
        while i < self.live.len()
            invariant
                i <= self.live.len(),
                spelling(self@.live, job_id) == spelling(self@.live.skip(i as int), job_id),
            decreases self.live.len() - i,
        {
            assert(self@.live.skip(i as int)[0] == self.live@[i as int]@);
            assert(self@.live.skip(i as int).skip(1) =~= self@.live.skip(i + 1));
            if self.live[i].id == job_id {
                return Some(self.live[i].hex.as_str());
            }
            i += 1;
        }
        match &self.displaced {
            Some((j, _)) => if j.id == job_id {
                Some(j.hex.as_str())
            } else {
                None
            },
            None => None,
        }
    }

    /// The job that came last.
    pub fn newest(&self) -> (r: Option<u32>)
        ensures
            r == self@.newest,
    {
        self.newest
    }
}

proof fn lemma_spelling_of_last(s: Seq<Job>)
    requires
        s.len() > 0,
        !holds(s.drop_last(), s.last().id),
    ensures
        spelling(s, s.last().id) == Some(s.last().hex),
    decreases s.len(),
{
    if s.len() > 1 {
        assert(s.drop_last()[0].id != s.last().id);
        let t = s.skip(1);
        assert forall|i: int| 0 <= i < t.drop_last().len() implies (#[trigger] t.drop_last()[i]).id
            != t.last().id by {
            assert(s.drop_last()[i + 1].id != s.last().id);
        }
        lemma_spelling_of_last(t);
    }
}

/// A job that has just come earns credit, and is submitted under the spelling
/// that it came with, unless a live job has its number under another spelling.
pub proof fn law_a_new_job_is_echoed(j: Jobs, job: Job, clean: bool, now: u64, later: u64)
    ensures
        earns(notified(j, job, clean, now), job.id, later),
        clean || !holds(j.live, job.id) ==> spelled(notified(j, job, clean, now), job.id) == Some(
            job.hex,
        ),
{
    let n = notified(j, job, clean, now);
    assert(n.live.last() == job);
    assert(n.live[n.live.len() - 1].id == job.id);
    if clean {
        assert(n.live[0] == job);
    } else if !holds(j.live, job.id) {
        let cut = j.live.len() + 1 - n.live.len();
        assert forall|i: int| 0 <= i < n.live.drop_last().len() implies (
        #[trigger] n.live.drop_last()[i]).id != job.id by {
            assert(j.live[i + cut].id != job.id);
        }
        lemma_spelling_of_last(n.live);
    }
}

/// A clean job retires every job before it but the newest, and that one keeps
/// its credit and its spelling through the grace.
pub proof fn law_clean_leaves_one_in_grace(j: Jobs, job: Job, now: u64, id: u32, later: u64)
    requires
        id != job.id,
        now <= later,
    ensures
        earns(notified(j, job, true, now), id, later) <==> j.live.len() > 0 && j.live.last().id
            == id && later < now + STALE_CREDIT_GRACE,
        j.live.len() > 0 && j.live.last().id == id ==> spelled(notified(j, job, true, now), id)
            == Some(j.live.last().hex),
{
    let n = notified(j, job, true, now);
    assert(n.live[0] == job);
    assert(!holds(n.live, id));
    assert(spelling(n.live, id) == spelling(n.live.skip(1), id));
}

/// At most `JOB_SLOTS` jobs are live, whatever comes.
pub proof fn law_slots_are_bounded(j: Jobs, job: Job, clean: bool, now: u64)
    ensures
        1 <= notified(j, job, clean, now).live.len() <= JOB_SLOTS,
{
}

/// A job that retires nothing leaves what was live in its order, and of a full
/// set only the oldest gives way. The one that a clean job displaced keeps its
/// grace.
pub proof fn law_a_job_pushes_out_only_the_oldest(j: Jobs, job: Job, now: u64, k: int)
    requires
        j.live.len() <= 4,
    ensures
        ({
            let n = notified(j, job, false, now);
            &&& n.live.len() > 0 && n.live.last() == job
            &&& n.displaced == j.displaced
            &&& n.newest == Some(job.id)
            &&& j.live.len() < 4 ==> n.live.len() == j.live.len() + 1
            &&& j.live.len() < 4 && 0 <= k < j.live.len() ==> n.live[k] == j.live[k]
            &&& j.live.len() == 4 ==> n.live.len() == j.live.len()
            &&& j.live.len() == 4 && 1 <= k < j.live.len() ==> n.live[k - 1] == j.live[k]
        }),
{
}

/// A share for a live job earns credit at any time, and so does one for the job
/// that was displaced, up to the end of its grace and not beyond; no other does.
pub proof fn law_credit_is_for_live_jobs_and_grace(j: Jobs, id: u32, now: u64, i: int)
    ensures
        0 <= i < j.live.len() && j.live[i].id == id ==> earns(j, id, now),
        (forall|k: int| 0 <= k < j.live.len() ==> (#[trigger] j.live[k]).id != id) ==> (earns(
            j,
            id,
            now,
        ) <==> j.displaced is Some && j.displaced->Some_0.0.id == id && now
            < j.displaced->Some_0.1 + 5_000),
{
}

/// A job is spelled as the first live one with its number is, else as the
/// displaced one; a number that neither has is not spelled.
pub proof fn law_a_spelling_is_the_servers(j: Jobs, id: u32, i: int)
    ensures
        0 <= i < j.live.len() && j.live[i].id == id && (forall|k: int|
            0 <= k < i ==> (#[trigger] j.live[k]).id != id) ==> spelled(j, id) == Some(
            j.live[i].hex,
        ),
        (forall|k: int| 0 <= k < j.live.len() ==> (#[trigger] j.live[k]).id != id) ==> spelled(
            j,
            id,
        ) == (if j.displaced is Some && j.displaced->Some_0.0.id == id {
            Some(j.displaced->Some_0.0.hex)
        } else {
            None
        }),
{
    if 0 <= i < j.live.len() && j.live[i].id == id && (forall|k: int|
        0 <= k < i ==> (#[trigger] j.live[k]).id != id) {
        lemma_spelling_first(j.live, id, i);
    }
    if forall|k: int| 0 <= k < j.live.len() ==> (#[trigger] j.live[k]).id != id {
        lemma_spelling_none(j.live, id);
    }
}

proof fn lemma_spelling_first(s: Seq<Job>, id: u32, i: int)
    requires
        0 <= i < s.len(),
        s[i].id == id,
        forall|k: int| 0 <= k < i ==> (#[trigger] s[k]).id != id,
    ensures
        spelling(s, id) == Some(s[i].hex),
    decreases i,
{
    if i > 0 {
        assert(s[0].id != id);
        assert forall|k: int| 0 <= k < i - 1 implies (#[trigger] s.skip(1)[k]).id != id by {
            assert(s[k + 1].id != id);
        }
        lemma_spelling_first(s.skip(1), id, i - 1);
    }
}

proof fn lemma_spelling_none(s: Seq<Job>, id: u32)
    requires
        forall|k: int| 0 <= k < s.len() ==> (#[trigger] s[k]).id != id,
    ensures
        spelling(s, id) is None,
    decreases s.len(),
{
    if s.len() > 0 {
        assert(s[0].id != id);
        assert forall|k: int| 0 <= k < s.len() - 1 implies (#[trigger] s.skip(1)[k]).id != id by {
            assert(s[k + 1].id != id);
        }
        lemma_spelling_none(s.skip(1), id);
    }
}

} // verus!
