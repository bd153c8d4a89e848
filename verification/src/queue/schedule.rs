//! Driving a batch of jobs through a queue, chunk by chunk.
//!
//! The jobs are numbered from 0. Chunk `k` holds the jobs from
//! `k * chunk_size` up to, not including, `(k + 1) * chunk_size`, and the
//! last chunk ends with the last job. A [`Scheduler`] submits the chunks
//! in order while fewer than `job_limit` jobs are active, and waits for
//! the queue's status otherwise. It does not touch the queue itself: it
//! says what to do next, and is told what came of it.

use crate::queue::{ConfigError, JobIds, QueueConfig};
use vstd::prelude::*;

verus! {

/// The number of chunks of `size` jobs that `n` jobs fill: `n / size`,
/// rounded up.
pub open spec fn chunk_count(n: nat, size: nat) -> nat {
    if size == 0 {
        0
    } else {
        ((n + size - 1) as nat / size) as nat
    }
}

/// The first job of chunk `k`.
pub open spec fn chunk_first(size: nat, k: nat) -> nat {
    k * size
}

/// One past the last job of chunk `k`, among `n` jobs.
pub open spec fn chunk_end(n: nat, size: nat, k: nat) -> nat {
    if (k + 1) * size <= n {
        (k + 1) * size
    } else {
        n
    }
}

/// Whether job `j` is in chunk `k`.
pub open spec fn in_chunk(n: nat, size: nat, k: nat, j: nat) -> bool {
    chunk_first(size, k) <= j < chunk_end(n, size, k)
}

/// The chunk that holds job `j`.
pub open spec fn chunk_of(size: nat, j: nat) -> nat {
    j / size
}

/// `count` is `n / size`, rounded up, exactly when `count` chunks reach
/// the last job and `count - 1` do not.
pub proof fn lemma_chunk_count(n: nat, size: nat, count: nat)
    requires
        size >= 1,
    ensures
        count == chunk_count(n, size) <==> (count * size >= n && (count > 0 ==> (count - 1) * size
            < n)),
{
    let q = (n + size - 1) as nat / size;
    assert(q * size <= n + size - 1 < q * size + size) by (nonlinear_arith)
        requires
            q == (n + size - 1) as nat / size,
            size >= 1,
    ;
    assert(q * size >= n);
    assert(q > 0 ==> (q - 1) * size < n) by (nonlinear_arith)
        requires
            q * size <= n + size - 1,
            size >= 1,
    ;
    if count * size >= n && (count > 0 ==> (count - 1) * size < n) {
        assert(count == q) by (nonlinear_arith)
            requires
                count * size >= n,
                count > 0 ==> (count - 1) * size < n,
                q * size >= n,
                q > 0 ==> (q - 1) * size < n,
                size >= 1,
                count >= 0,
                q >= 0,
        ;
    }
}

/// The chunks part the jobs: with `n` jobs in chunks of `size`, the
/// `chunk_count(n, size)` chunks have room for all of them, none of these
/// chunks is empty and none holds more than `size` jobs, each chunk
/// starts where the one before it ends, the last one ends with the last
/// job, and every job `j` is in the chunk `chunk_of(size, j)` and in no
/// other.
pub proof fn lemma_chunks_part_the_jobs(n: nat, size: nat)
    requires
        size >= 1,
    ensures
        size * chunk_count(n, size) >= n,
        forall|k: nat|
            k < chunk_count(n, size) ==> chunk_first(size, k) < #[trigger] chunk_end(n, size, k)
                <= chunk_first(size, k) + size,
        forall|k: nat|
            k + 1 < chunk_count(n, size) ==> #[trigger] chunk_end(n, size, k) == chunk_first(
                size,
                k + 1,
            ),
        chunk_count(n, size) > 0 ==> chunk_end(n, size, (chunk_count(n, size) - 1) as nat) == n,
        forall|j: nat, k: nat|
            j < n ==> (#[trigger] in_chunk(n, size, k, j) <==> k == chunk_of(size, j)),
        forall|j: nat| j < n ==> #[trigger] chunk_of(size, j) < chunk_count(n, size),
{
    let count = chunk_count(n, size);
    lemma_chunk_count(n, size, count);
    assert(size * count == count * size) by (nonlinear_arith);
    assert forall|k: nat| k < count implies chunk_first(size, k) < #[trigger] chunk_end(
        n,
        size,
        k,
    ) <= chunk_first(size, k) + size by {
        assert(k * size <= (count - 1) * size) by (nonlinear_arith)
            requires
                k <= count - 1,
                size >= 1,
        ;
        assert((k + 1) * size == k * size + size) by (nonlinear_arith);
    }
    assert forall|k: nat| k + 1 < count implies #[trigger] chunk_end(n, size, k) == chunk_first(
        size,
        k + 1,
    ) by {
        assert((k + 1) * size <= (count - 1) * size) by (nonlinear_arith)
            requires
                k + 1 <= count - 1,
                size >= 1,
        ;
    }
    if count > 0 {
        assert((count - 1 + 1) * size == count * size);
    }
    assert forall|j: nat, k: nat| j < n implies (#[trigger] in_chunk(n, size, k, j) <==> k
        == chunk_of(size, j)) by {
        let q = j / size;
        assert(q * size <= j < q * size + size && (q + 1) * size == q * size + size)
            by (nonlinear_arith)
            requires
                q == j / size,
                size >= 1,
        ;
        assert((k + 1) * size == k * size + size) by (nonlinear_arith);
        if in_chunk(n, size, k, j) {
            assert(k == q) by (nonlinear_arith)
                requires
                    k * size <= j < (k + 1) * size,
                    q * size <= j < (q + 1) * size,
                    size >= 1,
                    k >= 0,
                    q >= 0,
            ;
        }
    }
    assert forall|j: nat| j < n implies #[trigger] chunk_of(size, j) < count by {
        let q = j / size;
        assert(q * size <= j) by (nonlinear_arith)
            requires
                q == j / size,
                size >= 1,
        ;
        assert(q < count) by (nonlinear_arith)
            requires
                q * size <= j,
                j < n,
                count * size >= n,
                size >= 1,
                q >= 0,
                count >= 0,
        ;
    }
}

/// The names of the jobs of chunk `k`, where `names` are the names of
/// all jobs.
pub open spec fn chunk_names(names: Seq<Seq<char>>, size: nat, k: nat) -> Seq<Seq<char>> {
    names.subrange(chunk_first(size, k) as int, chunk_end(names.len(), size, k) as int)
}

/// Where no two jobs have the same name, no name stands twice in a
/// chunk, and no name stands in two chunks.
pub proof fn lemma_chunks_share_no_name(names: Seq<Seq<char>>, size: nat, k: nat, other: nat)
    requires
        size >= 1,
        names.no_duplicates(),
        k < chunk_count(names.len(), size),
        other < chunk_count(names.len(), size),
    ensures
        chunk_names(names, size, k).no_duplicates(),
        k != other ==> forall|i: int, j: int|
            0 <= i < chunk_names(names, size, k).len() && 0 <= j < chunk_names(
                names,
                size,
                other,
            ).len() ==> #[trigger] chunk_names(names, size, k)[i] != #[trigger] chunk_names(
                names,
                size,
                other,
            )[j],
{
    let n = names.len();
    lemma_chunks_part_the_jobs(n, size);
    assert(chunk_first(size, k) < chunk_end(n, size, k) <= chunk_first(size, k) + size);
    assert(chunk_first(size, other) < chunk_end(n, size, other) <= chunk_first(size, other) + size);
    lemma_chunk_count(n, size, chunk_count(n, size));
    assert(chunk_end(n, size, k) <= n);
    assert(chunk_end(n, size, other) <= n);
    if k != other {
        assert forall|i: int, j: int|
            0 <= i < chunk_names(names, size, k).len() && 0 <= j < chunk_names(
                names,
                size,
                other,
            ).len() implies #[trigger] chunk_names(names, size, k)[i] != #[trigger] chunk_names(
            names,
            size,
            other,
        )[j] by {
            let a = (chunk_first(size, k) + i) as nat;
            let b = (chunk_first(size, other) + j) as nat;
            assert(in_chunk(n, size, k, a));
            assert(in_chunk(n, size, other, b));
            assert(a != b);
            assert(names[a as int] != names[b as int]);
        }
    }
}

/// A chunk of jobs that has been submitted.
#[derive(Debug)]
pub struct Chunk {
    /// The number of the chunk.
    pub index: usize,
    /// The first of its jobs.
    pub first: usize,
    /// One past the last of its jobs.
    pub end: usize,
    /// The path of the script that it was submitted with.
    pub script: String,
    /// The identifier that the queue gave it.
    pub job_id: String,
    /// How often the queue's status had been read when it was submitted.
    pub polls_before: usize,
}

impl Chunk {
    /// The number of jobs in the chunk.
    pub open spec fn size(&self) -> int {
        self.end - self.first
    }

    /// Whether job `job` is in the chunk.
    pub open spec fn holds(&self, job: usize) -> bool {
        self.first <= job < self.end
    }

    /// A copy of the chunk.
    pub fn copy(&self) -> (c: Chunk)
        ensures
            c == *self,
    {
        Chunk {
            index: self.index,
            first: self.first,
            end: self.end,
            script: self.script.clone(),
            job_id: self.job_id.clone(),
            polls_before: self.polls_before,
        }
    }
}

/// The number of jobs in the chunks `cs`.
pub open spec fn jobs_in(cs: Seq<Chunk>) -> int
    decreases cs.len(),
{
    if cs.len() == 0 {
        0
    } else {
        jobs_in(cs.drop_last()) + cs.last().size()
    }
}

/// One more chunk adds its jobs.
pub proof fn lemma_jobs_in_push(cs: Seq<Chunk>, c: Chunk)
    ensures
        jobs_in(cs.push(c)) == jobs_in(cs) + c.size(),
{
    assert(cs.push(c).drop_last() == cs);
}

/// Chunks of `size` jobs each hold `size` times their number of jobs.
pub proof fn lemma_jobs_in_full_chunks(cs: Seq<Chunk>, size: int)
    requires
        forall|i: int| 0 <= i < cs.len() ==> (#[trigger] cs[i]).size() == size,
    ensures
        jobs_in(cs) == cs.len() * size,
    decreases cs.len(),
{
    if cs.len() > 0 {
        lemma_jobs_in_full_chunks(cs.drop_last(), size);
        assert(cs.len() * size == (cs.len() - 1) * size + size) by (nonlinear_arith);
    } else {
        assert(0 * size == 0);
    }
}

/// The first `i` of the chunks `cs` hold no more jobs than all of them.
pub proof fn lemma_jobs_in_take(cs: Seq<Chunk>, i: int)
    requires
        0 <= i <= cs.len(),
        forall|k: int| 0 <= k < cs.len() ==> (#[trigger] cs[k]).size() >= 0,
    ensures
        0 <= jobs_in(cs.take(i)) <= jobs_in(cs),
    decreases cs.len(),
{
    if i == cs.len() {
        assert(cs.take(i) == cs);
        if cs.len() > 0 {
            lemma_jobs_in_take(cs.drop_last(), i - 1);
            assert(cs.drop_last().take(i - 1) == cs.drop_last());
        }
    } else {
        lemma_jobs_in_take(cs.drop_last(), i);
        assert(cs.drop_last().take(i) == cs.take(i));
    }
}

/// Whether the chunk `c` is still in the status `listed`.
pub open spec fn in_status(listed: Set<Seq<char>>) -> spec_fn(Chunk) -> bool {
    |c: Chunk| listed.contains(c.job_id@)
}

/// Whether the chunk `c` has left the status `listed`.
pub open spec fn left_status(listed: Set<Seq<char>>) -> spec_fn(Chunk) -> bool {
    |c: Chunk| !listed.contains(c.job_id@)
}

/// A job is in one of these states. A job that is `Pending` has not been
/// submitted. One that is `Submitted` waits in the queue under the given
/// identifier and has not shown in a status yet; one that is `Running`
/// has. A job is `Finished` once its identifier has left the queue's
/// status.
#[derive(Debug)]
pub enum JobState {
    Pending,
    Submitted { job_id: String },
    Running,
    Finished,
}

/// What the caller is to do next.
#[derive(Clone, Copy, Debug, PartialEq, Eq, Structural)]
pub enum Action {
    /// Write the inputs of the jobs from `first` up to, not including,
    /// `end`, write and submit the script of chunk `chunk`, and report
    /// the job identifier with [`Scheduler::submitted`].
    Submit { chunk: usize, first: usize, end: usize },
    /// Sleep for `wait_secs` seconds, read the queue's status, and
    /// report it with [`Scheduler::polled`].
    Poll { wait_secs: usize },
    /// Every job has finished.
    Done,
}

/// The state of a batch of jobs on its way through a queue.
pub struct Scheduler {
    config: QueueConfig,
    jobs: Vec<String>,
    next_job: usize,
    next_chunk: usize,
    active: Vec<Chunk>,
    active_jobs: usize,
    finished_jobs: usize,
    polls: usize,
}

impl Scheduler {
    /// The configuration of the queue.
    pub closed spec fn spec_config(&self) -> QueueConfig {
        self.config
    }

    /// The names of the jobs.
    pub closed spec fn names(&self) -> Seq<Seq<char>> {
        self.jobs.deep_view()
    }

    /// The number of jobs in the batch.
    pub closed spec fn spec_total(&self) -> usize {
        self.jobs.len()
    }

    /// The first job that has not been submitted: the jobs from here on
    /// are pending.
    pub closed spec fn spec_pending_from(&self) -> usize {
        self.next_job
    }

    /// The number of chunks that have been submitted.
    pub closed spec fn spec_chunks_made(&self) -> usize {
        self.next_chunk
    }

    /// The chunks that are active: submitted and not known to have
    /// finished.
    pub closed spec fn active(&self) -> Seq<Chunk> {
        self.active@
    }

    /// The number of jobs that are active.
    pub closed spec fn spec_active_jobs(&self) -> usize {
        self.active_jobs
    }

    /// The number of jobs that have finished.
    pub closed spec fn spec_finished_jobs(&self) -> usize {
        self.finished_jobs
    }

    /// How often the queue's status has been read.
    pub closed spec fn spec_polls(&self) -> usize {
        self.polls
    }

    /// Whether `c` is an active chunk as this scheduler makes them.
    pub closed spec fn chunk_ok(&self, c: Chunk) -> bool {
        &&& c.index < self.next_chunk
        &&& c.first == chunk_first(self.config.chunk_size as nat, c.index as nat)
        &&& c.end == chunk_end(
            self.jobs.len() as nat,
            self.config.chunk_size as nat,
            c.index as nat,
        )
        &&& c.first < c.end <= self.next_job
        &&& c.polls_before <= self.polls
    }

    /// The invariant of a scheduler.
    pub closed spec fn wf(&self) -> bool {
        let size = self.config.chunk_size as int;
        let n = self.jobs.len() as int;
        &&& self.config.valid()
        &&& self.next_chunk <= self.next_job <= n
        &&& self.next_job < n ==> self.next_job == self.next_chunk * size
        &&& self.next_job == n ==> self.next_chunk * size >= n
        &&& self.next_chunk > 0 ==> (self.next_chunk - 1) * size < n
        &&& self.active_jobs == jobs_in(self.active@)
        &&& self.active_jobs + self.finished_jobs == self.next_job
        &&& forall|i: int| 0 <= i < self.active@.len() ==> self.chunk_ok(#[trigger] self.active@[i])
        &&& forall|i: int, j: int|
            0 <= i < j < self.active@.len() ==> (#[trigger] self.active@[i]).index < (
            #[trigger] self.active@[j]).index
        &&& self.config.synchronous ==> self.active@.len() == 0
        &&& self.active_jobs < self.config.job_limit + size
        &&& (self.config.job_limit as int % size == 0 || n <= self.config.job_limit)
            ==> self.active_jobs <= self.config.job_limit
    }

    /// Whether a chunk can be submitted now: fewer jobs than the limit
    /// are active, and jobs are pending.
    pub open spec fn can_submit(&self) -> bool {
        self.active_jobs() < self.config().job_limit && self.pending_from() < self.total()
    }

    /// What is to be done next. While a chunk can be submitted, that
    /// comes first; else the status is polled, after the sleep that the
    /// configuration asks for, while chunks are active.
    pub open spec fn spec_next_action(&self) -> Action {
        if self.can_submit() {
            Action::Submit {
                chunk: self.chunks_made(),
                first: self.pending_from(),
                end: chunk_end(
                    self.total() as nat,
                    self.config().chunk_size as nat,
                    self.chunks_made() as nat,
                ) as usize,
            }
        } else if self.active().len() > 0 {
            Action::Poll { wait_secs: self.config().sleep_int }
        } else {
            Action::Done
        }
    }

    /// Starts a batch of the jobs named `jobs`. Nothing is submitted yet.
    /// Fails when the configuration is not valid.
    pub fn new(config: QueueConfig, jobs: Vec<String>) -> (r: Result<Scheduler, ConfigError>)
        ensures
            r is Ok <==> config.valid(),
            r matches Err(e) ==> Err::<(), ConfigError>(e) == config.check_result(),
            r matches Ok(s) ==> {
                &&& s.wf()
                &&& s.config() == config
                &&& s.names() == jobs.deep_view()
                &&& s.total() == jobs.len()
                &&& s.pending_from() == 0
                &&& s.chunks_made() == 0
                &&& s.active() == Seq::<Chunk>::empty()
                &&& s.active_jobs() == 0
                &&& s.finished_jobs() == 0
                &&& s.polls() == 0
            },
    {
        match config.check() {
            Err(e) => Err(e),
            Ok(_) => {
                let s = Scheduler {
                    config,
                    jobs,
                    next_job: 0,
                    next_chunk: 0,
                    active: Vec::new(),
                    active_jobs: 0,
                    finished_jobs: 0,
                    polls: 0,
                };
                assert(s.active@.len() == 0);
                Ok(s)
            },
        }
    }

    /// The configuration of the queue.
    #[verifier::when_used_as_spec(spec_config)]
    pub fn config(&self) -> (c: QueueConfig)
        ensures
            c == self.config(),
    {
        self.config
    }

    /// The number of jobs in the batch.
    #[verifier::when_used_as_spec(spec_total)]
    pub fn total(&self) -> (n: usize)
        ensures
            n == self.total(),
    {
        self.jobs.len()
    }

    /// The first job that has not been submitted.
    #[verifier::when_used_as_spec(spec_pending_from)]
    pub fn pending_from(&self) -> (n: usize)
        ensures
            n == self.pending_from(),
    {
        self.next_job
    }

    /// The number of chunks that have been submitted.
    #[verifier::when_used_as_spec(spec_chunks_made)]
    pub fn chunks_made(&self) -> (n: usize)
        ensures
            n == self.chunks_made(),
    {
        self.next_chunk
    }

    /// The number of jobs that are active.
    #[verifier::when_used_as_spec(spec_active_jobs)]
    pub fn active_jobs(&self) -> (n: usize)
        ensures
            n == self.active_jobs(),
    {
        self.active_jobs
    }

    /// The number of jobs that have finished.
    #[verifier::when_used_as_spec(spec_finished_jobs)]
    pub fn finished_jobs(&self) -> (n: usize)
        ensures
            n == self.finished_jobs(),
    {
        self.finished_jobs
    }

    /// How often the queue's status has been read.
    #[verifier::when_used_as_spec(spec_polls)]
    pub fn polls(&self) -> (n: usize)
        ensures
            n == self.polls(),
    {
        self.polls
    }

    /// The number of jobs that are pending.
    pub fn pending_jobs(&self) -> (n: usize)
        requires
            self.wf(),
        ensures
            n == self.total() - self.pending_from(),
    {
        self.jobs.len() - self.next_job
    }

    /// The chunks that are active, in the order of their submission.
    pub fn active_chunks(&self) -> (cs: Vec<Chunk>)
        ensures
            cs@ == self.active(),
    {
        let mut cs: Vec<Chunk> = Vec::new();
        let mut i: usize = 0;
        while i < self.active.len()
            invariant
                i <= self.active.len(),
                cs@ == self.active@.take(i as int),
            decreases self.active.len() - i,
        {
            cs.push(self.active[i].copy());
            i += 1;
        }
        cs
    }

    /// Says what to do next.
    #[verifier::when_used_as_spec(spec_next_action)]
    pub fn next_action(&self) -> (a: Action)
        requires
            self.wf(),
        ensures
            a == self.next_action(),
    {
        if self.active_jobs < self.config.job_limit && self.next_job < self.jobs.len() {
            let size = self.config.chunk_size;
            let end = if self.jobs.len() - self.next_job <= size {
                self.jobs.len()
            } else {
                self.next_job + size
            };
            proof {
                assert((self.next_chunk + 1) * size == self.next_chunk * size + size)
                    by (nonlinear_arith);
            }
            Action::Submit { chunk: self.next_chunk, first: self.next_job, end }
        } else if self.active.len() > 0 {
            Action::Poll { wait_secs: self.config.sleep_int }
        } else {
            Action::Done
        }
    }

    /// Whether every job has finished.
    pub fn is_done(&self) -> (done: bool)
        requires
            self.wf(),
        ensures
            done == (self.next_action() == Action::Done),
            done ==> self.finished_jobs() == self.total(),
    {
        proof {
            if self.next_action() == Action::Done {
                lemma_done_is_complete(*self);
            }
        }
        match self.next_action() {
            Action::Done => true,
            _ => false,
        }
    }

    /// The names of the jobs from `first` up to, not including, `end`.
    pub fn job_names(&self, first: usize, end: usize) -> (names: Vec<String>)
        requires
            first <= end <= self.total(),
        ensures
            names.deep_view() == self.names().subrange(first as int, end as int),
    {
        let mut names: Vec<String> = Vec::new();
        let mut i: usize = first;
        while i < end
            invariant
                first <= i <= end <= self.jobs.len(),
                names.deep_view() == self.jobs.deep_view().subrange(first as int, i as int),
            decreases end - i,
        {
            let ghost before = names.deep_view();
            names.push(self.jobs[i].clone());
            assert(names.deep_view() =~= before.push(self.jobs@[i as int]@));
            assert(self.jobs.deep_view().subrange(first as int, i + 1)
                =~= self.jobs.deep_view().subrange(first as int, i as int).push(
                self.jobs@[i as int]@,
            ));
            i += 1;
        }
        names
    }

    /// The state of job `job`.
    pub fn job_state(&self, job: usize) -> (state: JobState)
        requires
            self.wf(),
            job < self.total(),
        ensures
            state is Pending <==> job >= self.pending_from(),
            state is Finished <==> job < self.pending_from() && forall|i: int|
                0 <= i < self.active().len() ==> !(#[trigger] self.active()[i]).holds(job),
            state matches JobState::Submitted { job_id } ==> exists|i: int|
                0 <= i < self.active().len() && (#[trigger] self.active()[i]).holds(job)
                    && self.active()[i].polls_before == self.polls() && self.active()[i].job_id
                    == job_id,
            state is Running ==> exists|i: int|
                0 <= i < self.active().len() && (#[trigger] self.active()[i]).holds(job)
                    && self.active()[i].polls_before < self.polls(),
    {
        if job >= self.next_job {
            return JobState::Pending;
        }
        let mut i: usize = 0;
        while i < self.active.len()
            invariant
                i <= self.active.len(),
                self.wf(),
                job < self.next_job,
                forall|k: int| 0 <= k < i ==> !(#[trigger] self.active()[k]).holds(job),
            decreases self.active.len() - i,
        {
            let c = &self.active[i];
            if c.first <= job && job < c.end {
                assert(self.active()[i as int].holds(job));
                assert(self.chunk_ok(self.active()[i as int]));
                if c.polls_before == self.polls {
                    return JobState::Submitted { job_id: c.job_id.clone() };
                } else {
                    return JobState::Running;
                }
            }
            i += 1;
        }
        JobState::Finished
    }

    /// The files to delete among `files`, the files of finished jobs:
    /// all of them, or none if the queue keeps the files of its jobs.
    pub fn to_delete(&self, files: Vec<String>) -> (doomed: Vec<String>)
        ensures
            doomed@ == if self.config().no_del {
                Seq::<String>::empty()
            } else {
                files@
            },
    {
        if self.config.no_del {
            Vec::new()
        } else {
            files
        }
    }

    /// Takes note that the chunk that [`Scheduler::next_action`] asked
    /// for was submitted with the script `script` and got the identifier
    /// `job_id`. On a synchronous queue the chunk has finished by then
    /// and is handed back; on any other it is active from now on.
    pub fn submitted(&mut self, script: String, job_id: String) -> (done: Option<Chunk>)
        requires
            old(self).wf(),
            old(self).can_submit(),
        ensures
            final(self).wf(),
            final(self).config() == old(self).config(),
            final(self).names() == old(self).names(),
            final(self).total() == old(self).total(),
            final(self).polls() == old(self).polls(),
            final(self).chunks_made() == old(self).chunks_made() + 1,
            final(self).pending_from() == chunk_end(
                old(self).total() as nat,
                old(self).config().chunk_size as nat,
                old(self).chunks_made() as nat,
            ),
            ({
                let c = Chunk {
                    index: old(self).chunks_made(),
                    first: old(self).pending_from(),
                    end: final(self).pending_from(),
                    script,
                    job_id,
                    polls_before: old(self).polls(),
                };
                if old(self).config().synchronous {
                    &&& done == Some(c)
                    &&& final(self).active() == old(self).active()
                    &&& final(self).active_jobs() == old(self).active_jobs()
                    &&& final(self).finished_jobs() == old(self).finished_jobs() + c.size()
                } else {
                    &&& done is None
                    &&& final(self).active() == old(self).active().push(c)
                    &&& final(self).active_jobs() == old(self).active_jobs() + c.size()
                    &&& final(self).finished_jobs() == old(self).finished_jobs()
                }
            }),
    {
        let size = self.config.chunk_size;
        let n = self.jobs.len();
        let end = if n - self.next_job <= size {
            n
        } else {
            self.next_job + size
        };
        let ghost k = self.next_chunk as int;
        proof {
            assert((k + 1) * size == k * size + size) by (nonlinear_arith);
            assert((k + 1 - 1) * size == k * size);
        }
        let c = Chunk {
            index: self.next_chunk,
            first: self.next_job,
            end,
            script,
            job_id,
            polls_before: self.polls,
        };
        let ghost before = self.active@;
        proof {
            assert forall|i: int| 0 <= i < before.len() implies (#[trigger] before[i]).size()
                == size by {
                assert(self.chunk_ok(before[i]));
                assert((before[i].index + 1) * size == before[i].index * size + size)
                    by (nonlinear_arith);
            }
            lemma_jobs_in_full_chunks(before, size as int);
            lemma_jobs_in_push(before, c);
            let limit = self.config.job_limit as int;
            if limit % (size as int) == 0 {
                let q = limit / (size as int);
                assert(limit == q * size) by (nonlinear_arith)
                    requires
                        limit % (size as int) == 0,
                        q == limit / (size as int),
                        size >= 1,
                ;
                assert(before.len() * size + size <= q * size) by (nonlinear_arith)
                    requires
                        before.len() * size < q * size,
                        size >= 1,
                ;
            }
        }
        self.next_chunk = self.next_chunk + 1;
        self.next_job = end;
        if self.config.synchronous {
            self.finished_jobs = self.finished_jobs + (c.end - c.first);
            proof {
                assert forall|i: int| 0 <= i < self.active@.len() implies self.chunk_ok(
                    #[trigger] self.active@[i],
                ) by {
                    assert(old(self).chunk_ok(self.active@[i]));
                }
            }
            Some(c)
        } else {
            self.active_jobs = self.active_jobs + (c.end - c.first);
            self.active.push(c);
            proof {
                assert forall|i: int| 0 <= i < self.active@.len() implies self.chunk_ok(
                    #[trigger] self.active@[i],
                ) by {
                    if i < before.len() {
                        assert(old(self).chunk_ok(before[i]));
                    }
                }
                assert forall|i: int, j: int| 0 <= i < j < self.active@.len() implies (
                #[trigger] self.active@[i]).index < (#[trigger] self.active@[j]).index by {
                    assert(old(self).chunk_ok(before[i]));
                }
            }
            None
        }
    }

    /// Takes note of the status of the queue: `listed` holds the
    /// identifiers of the jobs that the queue still knows. The active
    /// chunks whose identifier is not among them have finished and are
    /// handed back, in the order of their submission; the others stay
    /// active.
    pub fn polled(&mut self, listed: &JobIds) -> (done: Vec<Chunk>)
        requires
            old(self).wf(),
        ensures
            final(self).wf(),
            final(self).config() == old(self).config(),
            final(self).names() == old(self).names(),
            final(self).total() == old(self).total(),
            final(self).chunks_made() == old(self).chunks_made(),
            final(self).pending_from() == old(self).pending_from(),
            final(self).polls() == if old(self).polls() < usize::MAX {
                old(self).polls() + 1
            } else {
                old(self).polls() as int
            },
            final(self).active() == old(self).active().filter(in_status(listed@)),
            done@ == old(self).active().filter(left_status(listed@)),
            forall|i: int|
                0 <= i < final(self).active().len() ==> listed@.contains(
                    (#[trigger] final(self).active()[i]).job_id@,
                ),
            final(self).active_jobs() == old(self).active_jobs() - jobs_in(done@),
            final(self).finished_jobs() == old(self).finished_jobs() + jobs_in(done@),
    {
        broadcast use vstd::seq_lib::group_filter_ensures;

        let ghost before = self.active@;
        let mut kept: Vec<Chunk> = Vec::new();
        let mut done: Vec<Chunk> = Vec::new();
        let mut kept_jobs: usize = 0;
        let mut done_jobs: usize = 0;
        let mut i: usize = 0;
        proof {
            assert forall|k: int| 0 <= k < before.len() implies (#[trigger] before[k]).size()
                >= 0 by {
                assert(self.chunk_ok(before[k]));
            }
            assert(before.take(0) == Seq::<Chunk>::empty());
        }
        while i < self.active.len()
            invariant
                i <= self.active.len(),
                self.active@ == before,
                self.active_jobs == jobs_in(before),
                forall|k: int| 0 <= k < before.len() ==> (#[trigger] before[k]).size() >= 0,
                forall|a: int, b: int|
                    0 <= a < b < before.len() ==> (#[trigger] before[a]).index < (
                    #[trigger] before[b]).index,
                kept@ == before.take(i as int).filter(in_status(listed@)),
                done@ == before.take(i as int).filter(left_status(listed@)),
                kept_jobs == jobs_in(kept@),
                done_jobs == jobs_in(done@),
                kept_jobs + done_jobs == jobs_in(before.take(i as int)),
                forall|a: int| 0 <= a < kept@.len() ==> exists|k: int|
                    0 <= k < i && #[trigger] kept@[a] == before[k],
                forall|a: int, k: int|
                    0 <= a < kept@.len() && i <= k < before.len() ==> (#[trigger] kept@[a]).index
                        < (#[trigger] before[k]).index,
                forall|a: int, b: int|
                    0 <= a < b < kept@.len() ==> (#[trigger] kept@[a]).index < (
                    #[trigger] kept@[b]).index,
            decreases self.active.len() - i,
        {
            let c = self.active[i].copy();
            proof {
                lemma_jobs_in_take(before, i as int + 1);
                assert(before.take(i as int + 1) == before.take(i as int).push(c));
                lemma_jobs_in_push(before.take(i as int), c);
                lemma_jobs_in_push(kept@, c);
                lemma_jobs_in_push(done@, c);
                assert(c.size() >= 0);
                before.take(i as int).lemma_filter_push(c, in_status(listed@));
                before.take(i as int).lemma_filter_push(c, left_status(listed@));
            }
            if listed.contains(c.job_id.as_str()) {
                kept_jobs = kept_jobs + (c.end - c.first);
                kept.push(c);
            } else {
                done_jobs = done_jobs + (c.end - c.first);
                done.push(c);
            }
            i += 1;
        }
        proof {
            assert(before.take(before.len() as int) == before);
            assert forall|a: int| 0 <= a < kept@.len() implies self.chunk_ok(
                #[trigger] kept@[a],
            ) by {
                let k = choose|k: int| 0 <= k < before.len() && kept@[a] == before[k];
                assert(self.chunk_ok(before[k]));
            }
        }
        self.active = kept;
        self.active_jobs = kept_jobs;
        self.finished_jobs = self.finished_jobs + done_jobs;
        if self.polls < usize::MAX {
            self.polls = self.polls + 1;
        }
        done
    }
}

/// At no time are more jobs active than the limit allows, whatever the
/// queue reports, if the limit is a multiple of the chunk size or the
/// batch has no more jobs than the limit. In any case fewer are active
/// than the limit and the size of one chunk together.
pub proof fn lemma_active_jobs_within_limit(s: Scheduler)
    requires
        s.wf(),
    ensures
        s.active_jobs() < s.config().job_limit + s.config().chunk_size,
        s.config().job_limit as int % s.config().chunk_size as int == 0 || s.total()
            <= s.config().job_limit ==> s.active_jobs() <= s.config().job_limit,
{
}

/// Every job has a name, and is pending, active or finished, and only
/// one of these; the active jobs are those of the active chunks.
pub proof fn lemma_jobs_accounted_for(s: Scheduler)
    requires
        s.wf(),
    ensures
        s.config().valid(),
        s.names().len() == s.total(),
        s.pending_from() <= s.total(),
        s.active_jobs() + s.finished_jobs() == s.pending_from(),
        s.active_jobs() == jobs_in(s.active()),
{
}

/// The chunks are submitted in the order of their numbers: the jobs
/// that are no longer pending are those of the chunks that have been
/// submitted, and while jobs are pending the next chunk starts with the
/// first of them. Once no job is pending, as many chunks have been
/// submitted as part the jobs.
pub proof fn lemma_chunks_go_out_in_order(s: Scheduler)
    requires
        s.wf(),
    ensures
        s.chunks_made() <= chunk_count(s.total() as nat, s.config().chunk_size as nat),
        s.pending_from() == if s.chunks_made() == 0 {
            0
        } else {
            chunk_end(
                s.total() as nat,
                s.config().chunk_size as nat,
                (s.chunks_made() - 1) as nat,
            )
        },
        s.pending_from() < s.total() ==> s.pending_from() == chunk_first(
            s.config().chunk_size as nat,
            s.chunks_made() as nat,
        ),
        s.pending_from() == s.total() ==> s.chunks_made() == chunk_count(
            s.total() as nat,
            s.config().chunk_size as nat,
        ),
{
    let n = s.total() as nat;
    let size = s.config().chunk_size as nat;
    let made = s.chunks_made() as nat;
    let count = chunk_count(n, size);
    lemma_chunk_count(n, size, count);
    lemma_chunk_count(n, size, made);
    assert(0 * size == 0);
    if made > 0 {
        let k = (made - 1) as nat;
        assert((k + 1) * size == made * size);
        assert(made <= count) by (nonlinear_arith)
            requires
                (made - 1) * size < n,
                count * size >= n,
                size >= 1,
                made > 0,
                count >= 0,
        ;
    }
}

/// While jobs are pending, the jobs that the next script is to run are
/// those of the next of the chunks that part the jobs: the names that
/// [`Scheduler::job_names`] gives for them are the names of that chunk.
pub proof fn lemma_next_script_runs_the_next_chunk(s: Scheduler)
    requires
        s.wf(),
        s.pending_from() < s.total(),
    ensures
        s.chunks_made() < chunk_count(s.names().len(), s.config().chunk_size as nat),
        s.names().subrange(
            s.pending_from() as int,
            chunk_end(s.total() as nat, s.config().chunk_size as nat, s.chunks_made() as nat) as int,
        ) == chunk_names(s.names(), s.config().chunk_size as nat, s.chunks_made() as nat),
{
    let n = s.total() as nat;
    let size = s.config().chunk_size as nat;
    let made = s.chunks_made() as nat;
    let count = chunk_count(n, size);
    lemma_jobs_accounted_for(s);
    lemma_chunks_go_out_in_order(s);
    lemma_chunk_count(n, size, count);
    assert(made < count) by (nonlinear_arith)
        requires
            made * size < n,
            count * size >= n,
            size >= 1,
            made >= 0,
            count >= 0,
    ;
}

/// Each active chunk is one of the chunks that part the jobs, its jobs
/// have been submitted, and the active chunks stand in the order of
/// their numbers: no job is in two of them.
pub proof fn lemma_active_chunks(s: Scheduler)
    requires
        s.wf(),
    ensures
        forall|i: int|
            0 <= i < s.active().len() ==> {
                let c = #[trigger] s.active()[i];
                &&& c.index < s.chunks_made()
                &&& c.first == chunk_first(s.config().chunk_size as nat, c.index as nat)
                &&& c.end == chunk_end(
                    s.total() as nat,
                    s.config().chunk_size as nat,
                    c.index as nat,
                )
                &&& c.first < c.end <= s.pending_from()
                &&& c.polls_before <= s.polls()
            },
        forall|i: int, j: int|
            0 <= i < j < s.active().len() ==> (#[trigger] s.active()[i]).end <= (
            #[trigger] s.active()[j]).first,
        s.config().synchronous ==> s.active().len() == 0,
{
    let size = s.config().chunk_size as int;
    assert forall|i: int| 0 <= i < s.active().len() implies {
        let c = #[trigger] s.active()[i];
        &&& c.index < s.chunks_made()
        &&& c.first == chunk_first(s.config().chunk_size as nat, c.index as nat)
        &&& c.end == chunk_end(s.total() as nat, s.config().chunk_size as nat, c.index as nat)
        &&& c.first < c.end <= s.pending_from()
        &&& c.polls_before <= s.polls()
    } by {
        assert(s.chunk_ok(s.active()[i]));
    }
    assert forall|i: int, j: int| 0 <= i < j < s.active().len() implies (
    #[trigger] s.active()[i]).end <= (#[trigger] s.active()[j]).first by {
        let a = s.active()[i];
        let b = s.active()[j];
        assert(s.chunk_ok(a) && s.chunk_ok(b));
        assert((a.index + 1) * size <= b.index * size) by (nonlinear_arith)
            requires
                a.index + 1 <= b.index,
                size >= 1,
        ;
    }
}

/// When nothing is left to do, every job has finished, and as many
/// chunks have been submitted as part the jobs.
pub proof fn lemma_done_is_complete(s: Scheduler)
    requires
        s.wf(),
        s.next_action() == Action::Done,
    ensures
        s.finished_jobs() == s.total(),
        s.active_jobs() == 0,
        s.chunks_made() == chunk_count(s.total() as nat, s.config().chunk_size as nat),
{
    assert(s.active() =~= Seq::<Chunk>::empty());
    lemma_chunk_count(s.total() as nat, s.config().chunk_size as nat, s.chunks_made() as nat);
}

} // verus!
