//! The PBS batch queue: scripts are handed to `qsub`, and `qstat` tells
//! which jobs the queue still knows.

use crate::queue::status::{parse_status, reading, well_formed, StatusError};
use crate::queue::{Invocation, JobIds, Program, QueueConfig};
use crate::text::{
    base_name, chars_of, decimal, dir_name, names_file, push_decimal, push_str, replace_all,
    replaced, split_path, string_of, text_of,
};
use crate::trusted::{debug_quoted, quote};
use vstd::prelude::*;

verus! {

/// The command that takes a script.
pub const SUBMIT_COMMAND: &'static str = "qsub";

/// The command that prints the status table.
pub const STATUS_COMMAND: &'static str = "qstat";

/// The extension of a submission script.
pub const SCRIPT_EXT: &'static str = "pbs";

/// The number of fields in each row of the status table.
pub const STATUS_COLUMNS: usize = 11;

/// Stands in a template for the name of the script without its directory.
pub const BASENAME_TOKEN: &'static str = "{{.basename}}";

/// Stands in a template for the path of the script.
pub const FILENAME_TOKEN: &'static str = "{{.filename}}";

/// The template of a script of Molpro jobs, unless the queue has its own.
pub const MOLPRO_TEMPLATE: &'static str = "#!/bin/sh
#PBS -N {{.basename}}
#PBS -S /bin/bash
#PBS -j oe
#PBS -o {{.basename}}.out
#PBS -W umask=022
#PBS -l walltime=1000:00:00
#PBS -l ncpus=1
#PBS -l mem=8gb
#PBS -q workq

module load openpbs molpro

export WORKDIR=$PBS_O_WORKDIR
export TMPDIR=/tmp/$USER/$PBS_JOBID
cd $WORKDIR
mkdir -p $TMPDIR
";

/// The template of a script of Mopac jobs, unless the queue has its own.
pub const MOPAC_TEMPLATE: &'static str = "#!/bin/sh
#PBS -N {{.basename}}
#PBS -S /bin/bash
#PBS -j oe
#PBS -o {{.filename}}.out
#PBS -W umask=022
#PBS -l walltime=1000:00:00
#PBS -l ncpus=1
#PBS -l mem=1gb
#PBS -q workq

module load openpbs

export WORKDIR=$PBS_O_WORKDIR
cd $WORKDIR

";

/// What runs one Molpro job, up to the name of its input.
pub const MOLPRO_RUN: &'static str = "molpro -t $NCPUS --no-xml-output ";

/// What runs one Mopac job, up to the name of its input.
pub const MOPAC_RUN: &'static str = "/ddn/home1/r2518/Packages/mopac/build/mopac ";

/// The last line of a script of Molpro jobs.
pub const MOLPRO_CLEANUP: &'static str = "rm -rf $TMPDIR\n";

/// Why a script could not be rendered or submitted.
#[derive(Clone, Copy, Debug, PartialEq, Eq, Structural)]
pub enum ScriptError {
    /// The path of the script names no file.
    ScriptName,
    /// The path of the input with this index names no file.
    InputName { index: usize },
}

/// The template that a script for `program` is made from when the queue
/// has none of its own.
pub open spec fn default_template(program: Program) -> Seq<char> {
    match program {
        Program::Molpro => MOLPRO_TEMPLATE@,
        Program::Mopac => MOPAC_TEMPLATE@,
    }
}

/// The head of a script: `template` with the name of the script in place
/// of every [`BASENAME_TOKEN`], and then its path in place of every
/// [`FILENAME_TOKEN`].
pub open spec fn script_head(template: Seq<char>, filename: Seq<char>) -> Seq<char> {
    replaced(replaced(template, BASENAME_TOKEN@, base_name(filename)), FILENAME_TOKEN@, filename)
}

/// The line of a script that runs the job whose input is `infile`.
/// Molpro is given the name of the input without its directory, quoted
/// as a path is; Mopac is given the path as it stands.
pub open spec fn job_line(program: Program, infile: Seq<char>) -> Seq<char> {
    match program {
        Program::Molpro => MOLPRO_RUN@ + debug_quoted(base_name(infile)) + ".inp\n"@,
        Program::Mopac => MOPAC_RUN@ + infile + ".mop\n"@,
    }
}

/// The lines of a script that run the jobs whose inputs are `infiles`.
pub open spec fn job_lines(program: Program, infiles: Seq<Seq<char>>) -> Seq<char>
    decreases infiles.len(),
{
    if infiles.len() == 0 {
        Seq::empty()
    } else {
        job_lines(program, infiles.drop_last()) + job_line(program, infiles.last())
    }
}

/// What follows the jobs in a script.
pub open spec fn script_tail(program: Program) -> Seq<char> {
    match program {
        Program::Molpro => MOLPRO_CLEANUP@,
        Program::Mopac => Seq::empty(),
    }
}

/// The script made from `template` that runs the jobs whose inputs are
/// `infiles` and that will stand in the file `filename`.
pub open spec fn script_text(
    program: Program,
    template: Seq<char>,
    infiles: Seq<Seq<char>>,
    filename: Seq<char>,
) -> Seq<char> {
    script_head(template, filename) + job_lines(program, infiles) + script_tail(program)
}

/// Whether the script of `program` needs the input `infile` to name a
/// file.
pub open spec fn input_ok(program: Program, infile: Seq<char>) -> bool {
    program == Program::Mopac || names_file(infile)
}

/// The path of the script of chunk `chunk` in the directory `dir`, with
/// the extension `ext`: `dir/main<chunk>.ext`.
pub open spec fn script_path_text(dir: Seq<char>, chunk: nat, ext: Seq<char>) -> Seq<char> {
    dir + "/main"@ + decimal(chunk as int) + seq!['.'] + ext
}

/// Renders the path of the script of chunk `chunk`.
pub fn make_script_path(dir: &str, chunk: usize, ext: &str) -> (path: String)
    ensures
        path@ == script_path_text(dir@, chunk as nat, ext@),
{
    let mut out = chars_of(dir);
    push_str(&mut out, "/main");
    push_decimal(&mut out, chunk as i128);
    out.push('.');
    push_str(&mut out, ext);
    string_of(out.as_slice())
}

/// Appends to `out` the line that runs the Molpro job whose input has the
/// quoted name `quoted`.
pub fn push_molpro_line(out: &mut Vec<char>, quoted: &str)
    ensures
        final(out)@ == old(out)@ + (MOLPRO_RUN@ + quoted@ + ".inp\n"@),
{
    push_str(out, MOLPRO_RUN);
    push_str(out, quoted);
    push_str(out, ".inp\n");
}

/// Appends to `out` the line that runs the Mopac job whose input is
/// `infile`.
pub fn push_mopac_line(out: &mut Vec<char>, infile: &str)
    ensures
        final(out)@ == old(out)@ + job_line(Program::Mopac, infile@),
{
    push_str(out, MOPAC_RUN);
    push_str(out, infile);
    push_str(out, ".mop\n");
}

/// A PBS queue and how it is to be used.
#[derive(Debug)]
pub struct Pbs {
    chunk_size: usize,
    job_limit: usize,
    sleep_int: usize,
    dir: &'static str,
    no_del: bool,
    template: Option<String>,
}

impl Pbs {
    /// The number of jobs in one submission script.
    pub closed spec fn spec_chunk_size(&self) -> usize {
        self.chunk_size
    }

    /// The number of active jobs at which no further chunk is submitted.
    pub closed spec fn spec_job_limit(&self) -> usize {
        self.job_limit
    }

    /// The seconds to sleep before a retry and before a poll.
    pub closed spec fn spec_sleep_int(&self) -> usize {
        self.sleep_int
    }

    /// The directory in which the scripts are written.
    pub closed spec fn spec_dir(&self) -> &'static str {
        self.dir
    }

    /// Whether the files of finished jobs are kept.
    pub closed spec fn spec_no_del(&self) -> bool {
        self.no_del
    }

    /// The queue's own template for its scripts, if it has one.
    pub closed spec fn template(&self) -> Option<String> {
        self.template
    }

    /// The template that this queue makes a script for `program` from.
    pub open spec fn template_text(&self, program: Program) -> Seq<char> {
        match self.template() {
            Some(t) => t@,
            None => default_template(program),
        }
    }

    /// A queue that submits chunks of `chunk_size` jobs while fewer than
    /// `job_limit` jobs are active, sleeps `sleep_int` seconds between
    /// two looks at the queue, writes its scripts into `dir`, keeps the
    /// files of finished jobs if `no_del` is set, and makes its scripts
    /// from `template` if there is one.
    pub fn new(
        chunk_size: usize,
        job_limit: usize,
        sleep_int: usize,
        dir: &'static str,
        no_del: bool,
        template: Option<String>,
    ) -> (q: Self)
        ensures
            q.chunk_size() == chunk_size,
            q.job_limit() == job_limit,
            q.sleep_int() == sleep_int,
            q.dir() == dir,
            q.no_del() == no_del,
            q.template() == template,
    {
        Self { chunk_size, job_limit, sleep_int, dir, no_del, template }
    }

    /// The command that takes a script: [`SUBMIT_COMMAND`].
    pub fn submit_command(&self) -> (c: &'static str)
        ensures
            c == SUBMIT_COMMAND,
    {
        SUBMIT_COMMAND
    }

    /// The number of jobs in one submission script.
    #[verifier::when_used_as_spec(spec_chunk_size)]
    pub fn chunk_size(&self) -> (n: usize)
        ensures
            n == self.chunk_size(),
    {
        self.chunk_size
    }

    /// The number of active jobs at which no further chunk is submitted.
    #[verifier::when_used_as_spec(spec_job_limit)]
    pub fn job_limit(&self) -> (n: usize)
        ensures
            n == self.job_limit(),
    {
        self.job_limit
    }

    /// The seconds to sleep before a retry and before a poll.
    #[verifier::when_used_as_spec(spec_sleep_int)]
    pub fn sleep_int(&self) -> (n: usize)
        ensures
            n == self.sleep_int(),
    {
        self.sleep_int
    }

    /// The directory in which the scripts are written.
    #[verifier::when_used_as_spec(spec_dir)]
    pub fn dir(&self) -> (d: &'static str)
        ensures
            d == self.dir(),
    {
        self.dir
    }

    /// Whether the files of finished jobs are kept.
    #[verifier::when_used_as_spec(spec_no_del)]
    pub fn no_del(&self) -> (b: bool)
        ensures
            b == self.no_del(),
    {
        self.no_del
    }

    /// What a scheduler needs to know of this queue. A submission to PBS
    /// returns before the jobs have run.
    pub fn config(&self) -> (c: QueueConfig)
        ensures
            c == (QueueConfig {
                chunk_size: self.chunk_size(),
                job_limit: self.job_limit(),
                sleep_int: self.sleep_int(),
                no_del: self.no_del(),
                synchronous: false,
            }),
    {
        QueueConfig {
            chunk_size: self.chunk_size,
            job_limit: self.job_limit,
            sleep_int: self.sleep_int,
            no_del: self.no_del,
            synchronous: false,
        }
    }

    /// The template that scripts for `program` are made from when the
    /// queue has none of its own.
    pub fn default_submit_script(&self, program: Program) -> (t: String)
        ensures
            t@ == default_template(program),
    {
        match program {
            Program::Molpro => MOLPRO_TEMPLATE.to_owned(),
            Program::Mopac => MOPAC_TEMPLATE.to_owned(),
        }
    }

    /// The path of the script of chunk `chunk`.
    pub fn script_path(&self, chunk: usize) -> (path: String)
        ensures
            path@ == script_path_text(self.dir()@, chunk as nat, SCRIPT_EXT@),
    {
        make_script_path(self.dir, chunk, SCRIPT_EXT)
    }

    /// Renders the script that runs the jobs of `program` whose inputs
    /// are `infiles` and that will stand in the file `filename`. Fails
    /// when `filename` names no file, and for Molpro when one of
    /// `infiles` names none: the first such input is reported.
    pub fn write_submit_script(&self, program: Program, infiles: &[String], filename: &str) -> (r:
        Result<String, ScriptError>)
        ensures
            r is Ok <==> names_file(filename@) && forall|i: int|
                0 <= i < infiles.len() ==> input_ok(program, #[trigger] infiles[i]@),
            r matches Ok(script) ==> script@ == script_text(
                program,
                self.template_text(program),
                infiles.deep_view(),
                filename@,
            ),
            r == Err::<String, ScriptError>(ScriptError::ScriptName) <==> !names_file(filename@),
            r matches Err(ScriptError::InputName { index }) ==> names_file(filename@) && index
                < infiles.len() && !input_ok(program, infiles[index as int]@) && forall|i: int|
                0 <= i < index ==> input_ok(program, #[trigger] infiles[i]@),
    {
        let path = chars_of(filename);
        let name = match split_path(path.as_slice()) {
            Some((_, name)) => name,
            None => {
                return Err(ScriptError::ScriptName);
            },
        };
        let template = match &self.template {
            Some(t) => chars_of(t.as_str()),
            None => chars_of(self.default_submit_script(program).as_str()),
        };
        let basename_token = chars_of(BASENAME_TOKEN);
        let filename_token = chars_of(FILENAME_TOKEN);
        let named = replace_all(template.as_slice(), basename_token.as_slice(), name.as_slice());
        let mut body = replace_all(named.as_slice(), filename_token.as_slice(), path.as_slice());
        let ghost head = body@;
        let ghost all = infiles.deep_view();
        let mut i: usize = 0;
        while i < infiles.len()
            invariant
                i <= infiles.len(),
                names_file(filename@),
                all == infiles.deep_view(),
                body@ == head + job_lines(program, all.take(i as int)),
                forall|k: int| 0 <= k < i ==> input_ok(program, #[trigger] infiles[k]@),
            decreases infiles.len() - i,
        {
            let ghost before = body@;
            match program {
                Program::Molpro => {
                    let infile = chars_of(infiles[i].as_str());
                    match split_path(infile.as_slice()) {
                        Some((_, base)) => {
                            let quoted = quote(string_of(base.as_slice()).as_str());
                            push_molpro_line(&mut body, quoted.as_str());
                        },
                        None => {
                            return Err(ScriptError::InputName { index: i });
                        },
                    }
                },
                Program::Mopac => {
                    push_mopac_line(&mut body, infiles[i].as_str());
                },
            }
            proof {
                assert(all.take(i + 1).drop_last() == all.take(i as int));
                assert(all.take(i + 1).last() == infiles[i as int]@);
                assert(body@ == before + job_line(program, infiles[i as int]@));
            }
            i += 1;
        }
        proof {
            assert(all.take(infiles.len() as int) == all);
        }
        if let Program::Molpro = program {
            push_str(&mut body, MOLPRO_CLEANUP);
        }
        Ok(string_of(body.as_slice()))
    }

    /// The command that submits the script `filename` of jobs of
    /// `program`. Mopac's script is handed to [`SUBMIT_COMMAND`] by its
    /// path, after `-f`. Molpro's must be submitted from the directory
    /// that holds it, by its name alone; that fails when `filename` names
    /// no file.
    pub fn submit(&self, program: Program, filename: &str) -> (r: Result<Invocation, ScriptError>)
        ensures
            r is Ok <==> program == Program::Mopac || names_file(filename@),
            r matches Err(e) ==> e == ScriptError::ScriptName,
            r matches Ok(run) ==> {
                &&& run.program@ == SUBMIT_COMMAND@
                &&& program == Program::Mopac ==> run.args.deep_view() == seq!["-f"@, filename@]
                    && run.dir is None
                &&& program == Program::Molpro ==> run.args.deep_view() == seq![
                    base_name(filename@),
                ] && text_of(run.dir) == Some(dir_name(filename@))
            },
    {
        match program {
            Program::Mopac => {
                let mut args: Vec<String> = Vec::new();
                args.push("-f".to_owned());
                args.push(filename.to_owned());
                assert(args.deep_view() =~= seq!["-f"@, filename@]);
                Ok(Invocation { program: SUBMIT_COMMAND.to_owned(), args, dir: None })
            },
            Program::Molpro => {
                let path = chars_of(filename);
                match split_path(path.as_slice()) {
                    Some((dir, name)) => {
                        let mut args: Vec<String> = Vec::new();
                        args.push(string_of(name.as_slice()));
                        assert(args.deep_view() =~= seq![base_name(filename@)]);
                        Ok(
                            Invocation {
                                program: SUBMIT_COMMAND.to_owned(),
                                args,
                                dir: Some(string_of(dir.as_slice())),
                            },
                        )
                    },
                    None => Err(ScriptError::ScriptName),
                }
            },
        }
    }

    /// The command that prints the status of the jobs of `user`:
    /// [`STATUS_COMMAND`] with `-u` and the user's name.
    pub fn stat_cmd(&self, user: &str) -> (run: Invocation)
        ensures
            run.program@ == STATUS_COMMAND@,
            run.args.deep_view() == seq!["-u"@, user@],
            run.dir is None,
    {
        let mut args: Vec<String> = Vec::new();
        args.push("-u".to_owned());
        args.push(user.to_owned());
        assert(args.deep_view() =~= seq!["-u"@, user@]);
        Invocation { program: STATUS_COMMAND.to_owned(), args, dir: None }
    }

    /// Reads the identifiers of the jobs that the queue still knows off
    /// `table`, which is what the command of [`Pbs::stat_cmd`] printed. A
    /// row below the divider that has not [`STATUS_COLUMNS`] fields is an
    /// error.
    pub fn status(&self, table: &str) -> (r: Result<JobIds, StatusError>)
        ensures
            reading(table@, STATUS_COLUMNS as nat, r),
            r is Ok <==> well_formed(table@, STATUS_COLUMNS as nat),
    {
        parse_status(table, STATUS_COLUMNS)
    }
}

} // verus!
