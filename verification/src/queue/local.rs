//! Running jobs on the local machine: a script is handed to `bash`, which
//! returns when its jobs have run. There is no queue to ask for a status.

use crate::queue::pbs::{make_script_path, script_path_text};
use crate::queue::status::StatusError;
use crate::queue::{Invocation, JobIds, QueueConfig};
use crate::text::{chars_of, push_str, string_of};
use vstd::prelude::*;

verus! {

/// The command that takes a script.
pub const SUBMIT_COMMAND: &'static str = "bash";

/// The extension of a submission script.
pub const SCRIPT_EXT: &'static str = "slurm";

/// The number of active jobs at which no further chunk is submitted,
/// unless another is given.
pub const DEFAULT_JOB_LIMIT: usize = 1600;

/// The seconds to sleep before a retry, unless others are given.
pub const DEFAULT_SLEEP_INT: usize = 1;

/// The directory to work in unless another is given.
pub const DEFAULT_DIR: &'static str = ".";

/// The number of jobs in one script unless another is given.
pub const DEFAULT_CHUNK_SIZE: usize = 128;

/// Where the Mopac binary lies.
pub const MOPAC: &'static str = "/opt/mopac/mopac";

/// The first line of every script.
pub const SCRIPT_HEAD: &'static str = "export LD_LIBRARY_PATH=/opt/mopac/\n";

/// The lines of a script for the job whose input is `infile`: they run
/// `mopac` on it, add its input and output to the log of the script
/// `filename`, and close that with a separator.
pub open spec fn job_lines_of(mopac: Seq<char>, infile: Seq<char>, filename: Seq<char>) -> Seq<
    char,
> {
    mopac + " "@ + infile + ".mop &> "@ + filename + ".out\n"@ + "cat "@ + infile + ".mop "@
        + infile + ".out >> "@ + filename + ".out\n"@ + "echo \"================\" >> "@
        + filename + ".out\n"@
}

/// The lines of a script for the jobs whose inputs are `infiles`.
pub open spec fn job_lines(mopac: Seq<char>, infiles: Seq<Seq<char>>, filename: Seq<char>) -> Seq<
    char,
>
    decreases infiles.len(),
{
    if infiles.len() == 0 {
        Seq::empty()
    } else {
        job_lines(mopac, infiles.drop_last(), filename) + job_lines_of(
            mopac,
            infiles.last(),
            filename,
        )
    }
}

/// The script that runs the jobs whose inputs are `infiles` and that
/// will stand in the file `filename`. Its last line adds the time to the
/// log.
pub open spec fn script_text(mopac: Seq<char>, infiles: Seq<Seq<char>>, filename: Seq<char>) -> Seq<
    char,
> {
    SCRIPT_HEAD@ + job_lines(mopac, infiles, filename) + "date +%s >> "@ + filename + ".out\n"@
}

/// The local machine, for trying Mopac out.
#[derive(Debug)]
pub struct Local {
    /// The directory in which the scripts are written.
    pub dir: String,
    /// The number of jobs in one submission script.
    pub chunk_size: usize,
    /// Where the Mopac binary lies.
    pub mopac: String,
    /// The number of active jobs at which no further chunk is submitted.
    pub job_limit: usize,
    /// The seconds to sleep before a retry.
    pub sleep_int: usize,
    /// Whether the files of finished jobs are kept.
    pub no_del: bool,
}

impl Default for Local {
    fn default() -> (q: Self)
        ensures
            q.dir@ == DEFAULT_DIR@,
            q.chunk_size == DEFAULT_CHUNK_SIZE,
            q.mopac@ == MOPAC@,
            q.job_limit == DEFAULT_JOB_LIMIT,
            q.sleep_int == DEFAULT_SLEEP_INT,
            !q.no_del,
    {
        Self {
            dir: DEFAULT_DIR.to_owned(),
            chunk_size: DEFAULT_CHUNK_SIZE,
            mopac: MOPAC.to_owned(),
            job_limit: DEFAULT_JOB_LIMIT,
            sleep_int: DEFAULT_SLEEP_INT,
            no_del: false,
        }
    }
}

impl Local {
    /// A local queue that submits chunks of `chunk_size` jobs while
    /// fewer than `job_limit` jobs are active, sleeps `sleep_int` seconds
    /// before it tries a failed submission again, writes its scripts
    /// into `dir`, and keeps the files of finished jobs if `no_del` is
    /// set. Its scripts are made without a template.
    pub fn new(
        chunk_size: usize,
        job_limit: usize,
        sleep_int: usize,
        dir: &'static str,
        no_del: bool,
        _template: Option<String>,
    ) -> (q: Self)
        ensures
            q.dir@ == dir@,
            q.chunk_size == chunk_size,
            q.mopac@ == MOPAC@,
            q.job_limit == job_limit,
            q.sleep_int == sleep_int,
            q.no_del == no_del,
    {
        Self { dir: dir.to_owned(), chunk_size, mopac: MOPAC.to_owned(), job_limit, sleep_int, no_del }
    }

    /// The command that takes a script: [`SUBMIT_COMMAND`].
    pub fn submit_command(&self) -> (c: &'static str)
        ensures
            c == SUBMIT_COMMAND,
    {
        SUBMIT_COMMAND
    }

    /// The number of jobs in one submission script.
    pub fn chunk_size(&self) -> (n: usize)
        ensures
            n == self.chunk_size,
    {
        self.chunk_size
    }

    /// The number of active jobs at which no further chunk is submitted.
    pub fn job_limit(&self) -> (n: usize)
        ensures
            n == self.job_limit,
    {
        self.job_limit
    }

    /// The seconds to sleep before a retry.
    pub fn sleep_int(&self) -> (n: usize)
        ensures
            n == self.sleep_int,
    {
        self.sleep_int
    }

    /// The directory in which the scripts are written.
    pub fn dir(&self) -> (d: &str)
        ensures
            d@ == self.dir@,
    {
        self.dir.as_str()
    }

    /// Whether the files of finished jobs are kept.
    pub fn no_del(&self) -> (b: bool)
        ensures
            b == self.no_del,
    {
        self.no_del
    }

    /// What a scheduler needs to know of this queue. A submission
    /// returns when the jobs have run.
    pub fn config(&self) -> (c: QueueConfig)
        ensures
            c == (QueueConfig {
                chunk_size: self.chunk_size,
                job_limit: self.job_limit,
                sleep_int: self.sleep_int,
                no_del: self.no_del,
                synchronous: true,
            }),
    {
        QueueConfig {
            chunk_size: self.chunk_size,
            job_limit: self.job_limit,
            sleep_int: self.sleep_int,
            no_del: self.no_del,
            synchronous: true,
        }
    }

    /// The path of the script of chunk `chunk`.
    pub fn script_path(&self, chunk: usize) -> (path: String)
        ensures
            path@ == script_path_text(self.dir@, chunk as nat, SCRIPT_EXT@),
    {
        make_script_path(self.dir.as_str(), chunk, SCRIPT_EXT)
    }

    /// Renders the script that runs the jobs whose inputs are `infiles`
    /// and that will stand in the file `filename`.
    pub fn write_submit_script(&self, infiles: &[String], filename: &str) -> (script: String)
        ensures
            script@ == script_text(self.mopac@, infiles.deep_view(), filename@),
    {
        let mut body = chars_of(SCRIPT_HEAD);
        let ghost all = infiles.deep_view();
        let mut i: usize = 0;
        while i < infiles.len()
            invariant
                i <= infiles.len(),
                all == infiles.deep_view(),
                body@ == SCRIPT_HEAD@ + job_lines(self.mopac@, all.take(i as int), filename@),
            decreases infiles.len() - i,
        {
            let ghost before = body@;
            let infile = infiles[i].as_str();
            push_str(&mut body, self.mopac.as_str());
            push_str(&mut body, " ");
            push_str(&mut body, infile);
            push_str(&mut body, ".mop &> ");
            push_str(&mut body, filename);
            push_str(&mut body, ".out\n");
            push_str(&mut body, "cat ");
            push_str(&mut body, infile);
            push_str(&mut body, ".mop ");
            push_str(&mut body, infile);
            push_str(&mut body, ".out >> ");
            push_str(&mut body, filename);
            push_str(&mut body, ".out\n");
            push_str(&mut body, "echo \"================\" >> ");
            push_str(&mut body, filename);
            push_str(&mut body, ".out\n");
            proof {
                assert(all.take(i + 1).drop_last() == all.take(i as int));
                assert(all.take(i + 1).last() == infiles[i as int]@);
                assert(body@ == before + job_lines_of(self.mopac@, infiles[i as int]@, filename@));
            }
            i += 1;
        }
        proof {
            assert(all.take(infiles.len() as int) == all);
        }
        push_str(&mut body, "date +%s >> ");
        push_str(&mut body, filename);
        push_str(&mut body, ".out\n");
        string_of(body.as_slice())
    }

    /// The command that runs the script `filename`: [`SUBMIT_COMMAND`]
    /// with the path of the script.
    pub fn submit(&self, filename: &str) -> (run: Invocation)
        ensures
            run.program@ == SUBMIT_COMMAND@,
            run.args.deep_view() == seq![filename@],
            run.dir is None,
    {
        let mut args: Vec<String> = Vec::new();
        args.push(filename.to_owned());
        assert(args.deep_view() =~= seq![filename@]);
        Invocation { program: SUBMIT_COMMAND.to_owned(), args, dir: None }
    }

    /// The local machine keeps no status: this always fails.
    pub fn status(&self) -> (r: Result<JobIds, StatusError>)
        ensures
            r matches Err(e) && e == StatusError::Unsupported,
    {
        Err(StatusError::Unsupported)
    }
}

} // verus!
