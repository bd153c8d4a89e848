//! Dispatching batches of jobs to a queue: the configuration of a queue,
//! the identifiers it hands out, and the commands it is driven with.

use vstd::prelude::*;

pub mod drain;
pub mod local;
pub mod pbs;
pub mod schedule;
pub mod status;
pub mod submit;

verus! {

/// A set of job identifiers, as a queue reports them.
pub struct JobIds {
    ids: Vec<String>,
}

impl View for JobIds {
    type V = Set<Seq<char>>;

    closed spec fn view(&self) -> Set<Seq<char>> {
        self.ids.deep_view().to_set()
    }
}

impl JobIds {
    /// No identifier is held twice.
    pub closed spec fn wf(&self) -> bool {
        self.ids.deep_view().no_duplicates()
    }

    /// The empty set.
    pub fn new() -> (s: JobIds)
        ensures
            s.wf(),
            s@ == Set::<Seq<char>>::empty(),
    {
        let s = JobIds { ids: Vec::new() };
        assert(s.ids.deep_view() =~= Seq::<Seq<char>>::empty());
        assert(s@ =~= Set::<Seq<char>>::empty());
        s
    }

    /// Whether `id` is in the set.
    pub fn contains(&self, id: &str) -> (b: bool)
        ensures
            b == self@.contains(id@),
    {
        let wanted = id.to_owned();
        let mut i: usize = 0;
        while i < self.ids.len()
            invariant
                i <= self.ids.len(),
                wanted@ == id@,
                forall|k: int| 0 <= k < i ==> self.ids.deep_view()[k] != id@,
            decreases self.ids.len() - i,
        {
            if self.ids[i] == wanted {
                assert(self.ids.deep_view()[i as int] == id@);
                return true;
            }
            i += 1;
        }
        false
    }

    /// Adds `id` to the set. Tells whether it was new.
    pub fn insert(&mut self, id: String) -> (fresh: bool)
        requires
            old(self).wf(),
        ensures
            final(self).wf(),
            final(self)@ == old(self)@.insert(id@),
            fresh == !old(self)@.contains(id@),
    {
        if self.contains(id.as_str()) {
            assert(self@.insert(id@) =~= self@);
            return false;
        }
        let ghost before = self.ids.deep_view();
        self.ids.push(id);
        assert(self.ids.deep_view() =~= before.push(id@));
        proof {
            before.lemma_push_to_set_commute(id@);
        }
        true
    }

    /// The number of identifiers in the set.
    pub fn len(&self) -> (n: usize)
        requires
            self.wf(),
        ensures
            self@.finite(),
            n == self@.len(),
    {
        proof {
            self.ids.deep_view().unique_seq_to_set();
            vstd::seq_lib::seq_to_set_is_finite(self.ids.deep_view());
        }
        self.ids.len()
    }

    /// Whether the set is empty.
    pub fn is_empty(&self) -> (b: bool)
        ensures
            b == (self@ == Set::<Seq<char>>::empty()),
    {
        proof {
            if self.ids.len() > 0 {
                assert(self.ids.deep_view().contains(self.ids.deep_view()[0]));
                assert(self@.contains(self.ids.deep_view()[0]));
            } else {
                assert(self@ =~= Set::<Seq<char>>::empty());
            }
        }
        self.ids.len() == 0
    }

    /// The identifiers, each once, in the order in which they were added.
    pub fn to_vec(&self) -> (v: Vec<String>)
        requires
            self.wf(),
        ensures
            v.deep_view().to_set() == self@,
            v.deep_view().no_duplicates(),
    {
        self.ids.clone()
    }
}

/// The programs whose jobs a queue can run.
#[derive(Clone, Copy, Debug, PartialEq, Eq, Structural)]
pub enum Program {
    Molpro,
    Mopac,
}

/// A command for the caller to run: the program, its arguments, and the
/// directory to run it in, if that is not the caller's own.
#[derive(Debug)]
pub struct Invocation {
    pub program: String,
    pub args: Vec<String>,
    pub dir: Option<String>,
}

/// Why a configuration cannot drive a batch of jobs.
#[derive(Clone, Copy, Debug, PartialEq, Eq, Structural)]
pub enum ConfigError {
    /// Chunks of no jobs never get through a batch.
    EmptyChunks,
    /// Fewer jobs may be active than one chunk holds.
    LimitBelowChunk,
}

/// What a scheduler needs to know of a queue.
#[derive(Clone, Copy, Debug, PartialEq, Eq, Structural)]
pub struct QueueConfig {
    /// The number of jobs that go into one submission script.
    pub chunk_size: usize,
    /// While this many jobs are active, no further chunk is submitted.
    pub job_limit: usize,
    /// The seconds to sleep before the queue is asked for its status.
    pub sleep_int: usize,
    /// Whether the files of finished jobs are kept.
    pub no_del: bool,
    /// Whether a submission returns only when its jobs have finished.
    pub synchronous: bool,
}

impl QueueConfig {
    /// A chunk holds at least one job, and the limit admits at least one
    /// chunk.
    pub open spec fn valid(&self) -> bool {
        self.chunk_size >= 1 && self.job_limit >= self.chunk_size
    }

    /// What [`QueueConfig::check`] finds.
    pub open spec fn check_result(&self) -> Result<(), ConfigError> {
        if self.chunk_size == 0 {
            Err(ConfigError::EmptyChunks)
        } else if self.job_limit < self.chunk_size {
            Err(ConfigError::LimitBelowChunk)
        } else {
            Ok(())
        }
    }

    /// Checks that the configuration is valid.
    pub fn check(&self) -> (r: Result<(), ConfigError>)
        ensures
            r == self.check_result(),
            r is Ok <==> self.valid(),
    {
        if self.chunk_size == 0 {
            Err(ConfigError::EmptyChunks)
        } else if self.job_limit < self.chunk_size {
            Err(ConfigError::LimitBelowChunk)
        } else {
            Ok(())
        }
    }
}

} // verus!
