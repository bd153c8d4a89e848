use jobqueue::queue::local::Local;
use jobqueue::queue::pbs::{
    make_script_path, push_molpro_line, push_mopac_line, Pbs, ScriptError, MOLPRO_TEMPLATE,
    MOPAC_TEMPLATE,
};
use jobqueue::queue::{Program, QueueConfig};

fn pbs() -> Pbs {
    Pbs::new(128, 1024, 5, "opt", false, None)
}

fn infiles(list: &[&str]) -> Vec<String> {
    list.iter().map(|s| String::from(*s)).collect()
}

#[test]
fn a_pbs_queue_keeps_what_it_was_made_with() {
    let q = Pbs::new(128, 1024, 5, "opt", true, Some(String::from("t")));
    assert_eq!(q.chunk_size(), 128);
    assert_eq!(q.job_limit(), 1024);
    assert_eq!(q.sleep_int(), 5);
    assert_eq!(q.dir(), "opt");
    assert!(q.no_del());
    assert_eq!(q.submit_command(), "qsub");
    assert_eq!(
        q.config(),
        QueueConfig { chunk_size: 128, job_limit: 1024, sleep_int: 5, no_del: true, synchronous: false }
    );
    assert!(!pbs().no_del());
}

#[test]
fn the_default_templates_are_those_of_pbs() {
    let q = pbs();
    assert_eq!(q.default_submit_script(Program::Molpro), MOLPRO_TEMPLATE);
    assert_eq!(q.default_submit_script(Program::Mopac), MOPAC_TEMPLATE);
    assert!(MOLPRO_TEMPLATE.starts_with("#!/bin/sh\n#PBS -N {{.basename}}\n#PBS -S /bin/bash\n"));
    assert!(MOLPRO_TEMPLATE.ends_with("cd $WORKDIR\nmkdir -p $TMPDIR\n"));
    assert!(MOLPRO_TEMPLATE.contains("#PBS -l mem=8gb\n"));
    assert!(MOLPRO_TEMPLATE.contains("\nmodule load openpbs molpro\n"));
    assert!(MOPAC_TEMPLATE.contains("#PBS -o {{.filename}}.out\n"));
    assert!(MOPAC_TEMPLATE.contains("#PBS -l mem=1gb\n"));
    assert!(MOPAC_TEMPLATE.ends_with("module load openpbs\n\nexport WORKDIR=$PBS_O_WORKDIR\ncd $WORKDIR\n\n"));
}

#[test]
fn a_molpro_script_runs_each_job_by_its_quoted_name() {
    let script = pbs()
        .write_submit_script(
            Program::Molpro,
            &infiles(&["opt/job.00000", "opt/job.00001"]),
            "opt/main0.pbs",
        )
        .unwrap();
    let expected = "#!/bin/sh
#PBS -N main0.pbs
#PBS -S /bin/bash
#PBS -j oe
#PBS -o main0.pbs.out
#PBS -W umask=022
#PBS -l walltime=1000:00:00
#PBS -l ncpus=1
#PBS -l mem=8gb
#PBS -q workq

module load openpbs molpro

export WORKDIR=$PBS_O_WORKDIR
export TMPDIR=/tmp/$USER/$PBS_JOBID
cd $WORKDIR
mkdir -p $TMPDIR
molpro -t $NCPUS --no-xml-output \"job.00000\".inp
molpro -t $NCPUS --no-xml-output \"job.00001\".inp
rm -rf $TMPDIR
";
    assert_eq!(script, expected);
}

#[test]
fn a_mopac_script_runs_each_job_by_its_path() {
    let script = pbs()
        .write_submit_script(Program::Mopac, &infiles(&["opt/job.00000", "job.00001"]), "opt/main7.pbs")
        .unwrap();
    let expected = "#!/bin/sh
#PBS -N main7.pbs
#PBS -S /bin/bash
#PBS -j oe
#PBS -o opt/main7.pbs.out
#PBS -W umask=022
#PBS -l walltime=1000:00:00
#PBS -l ncpus=1
#PBS -l mem=1gb
#PBS -q workq

module load openpbs

export WORKDIR=$PBS_O_WORKDIR
cd $WORKDIR

/ddn/home1/r2518/Packages/mopac/build/mopac opt/job.00000.mop
/ddn/home1/r2518/Packages/mopac/build/mopac job.00001.mop
";
    assert_eq!(script, expected);
}

#[test]
fn a_queue_with_its_own_template_uses_it() {
    let q = Pbs::new(1, 1, 1, ".", false, Some(String::from("#PBS -N {{.basename}}\n#PBS -o {{.filename}}.out\n")));
    assert_eq!(
        q.write_submit_script(Program::Mopac, &infiles(&["a"]), "dir/s.pbs").unwrap(),
        "#PBS -N s.pbs\n#PBS -o dir/s.pbs.out\n/ddn/home1/r2518/Packages/mopac/build/mopac a.mop\n"
    );
    assert_eq!(
        q.write_submit_script(Program::Molpro, &infiles(&["x/a"]), "dir/s.pbs").unwrap(),
        "#PBS -N s.pbs\n#PBS -o dir/s.pbs.out\nmolpro -t $NCPUS --no-xml-output \"a\".inp\nrm -rf $TMPDIR\n"
    );
}

#[test]
fn the_path_of_the_script_is_filled_in_for_every_program() {
    let q = Pbs::new(1, 1, 0, ".", false, Some(String::from("#PBS -o {{.filename}}.out\n")));
    assert_eq!(
        q.write_submit_script(Program::Molpro, &[], "opt/main.pbs").unwrap(),
        "#PBS -o opt/main.pbs.out\nrm -rf $TMPDIR\n"
    );
    assert_eq!(
        q.write_submit_script(Program::Mopac, &[], "opt/main.pbs").unwrap(),
        "#PBS -o opt/main.pbs.out\n"
    );
}

#[test]
fn the_name_is_filled_in_before_the_path() {
    let q = Pbs::new(1, 1, 0, ".", false, Some(String::from("{{.basename}}|{{.filename}}\n")));
    assert_eq!(
        q.write_submit_script(Program::Mopac, &[], "a/{{.filename}}").unwrap(),
        "a/{{.filename}}|a/{{.filename}}\n"
    );
}

#[test]
fn a_script_without_jobs_has_head_and_tail() {
    let q = Pbs::new(1, 1, 1, ".", false, Some(String::from("head\n")));
    assert_eq!(q.write_submit_script(Program::Molpro, &[], "s").unwrap(), "head\nrm -rf $TMPDIR\n");
    assert_eq!(q.write_submit_script(Program::Mopac, &[], "s").unwrap(), "head\n");
}

#[test]
fn a_name_is_quoted_as_rust_prints_paths() {
    let q = Pbs::new(1, 1, 1, ".", false, Some(String::new()));
    assert_eq!(
        q.write_submit_script(Program::Molpro, &infiles(&["d/a\"b", "c\\d", "e\tf"]), "s").unwrap(),
        "molpro -t $NCPUS --no-xml-output \"a\\\"b\".inp\n\
         molpro -t $NCPUS --no-xml-output \"c\\\\d\".inp\n\
         molpro -t $NCPUS --no-xml-output \"e\\tf\".inp\n\
         rm -rf $TMPDIR\n"
    );
}

#[test]
fn a_script_needs_a_file_name() {
    let q = pbs();
    for program in [Program::Molpro, Program::Mopac] {
        for bad in ["", "..", "opt/..", ".", "/", "./"] {
            assert_eq!(
                q.write_submit_script(program, &infiles(&["a"]), bad),
                Err(ScriptError::ScriptName)
            );
        }
    }
}

#[test]
fn a_molpro_input_needs_a_file_name() {
    let q = pbs();
    assert_eq!(
        q.write_submit_script(Program::Molpro, &infiles(&["a", "opt/", "..", "b"]), "s.pbs"),
        Err(ScriptError::InputName { index: 2 })
    );
    assert_eq!(
        q.write_submit_script(Program::Molpro, &infiles(&[""]), ".."),
        Err(ScriptError::ScriptName)
    );
    assert!(q.write_submit_script(Program::Mopac, &infiles(&["a", "opt/", ".."]), "s.pbs").is_ok());
}

#[test]
fn a_path_that_ends_in_a_slash_or_a_dot_names_its_last_component() {
    let q = Pbs::new(1, 1, 0, ".", false, Some(String::from("{{.basename}}\n")));
    assert_eq!(
        q.write_submit_script(Program::Molpro, &infiles(&["pts/job/", "pts/job/."]), "opt/").unwrap(),
        "opt\nmolpro -t $NCPUS --no-xml-output \"job\".inp\n\
         molpro -t $NCPUS --no-xml-output \"job\".inp\nrm -rf $TMPDIR\n"
    );
    assert_eq!(q.write_submit_script(Program::Mopac, &[], "opt/s.pbs/.//").unwrap(), "s.pbs\n");
}

#[test]
fn an_apostrophe_in_a_name_is_quoted_as_in_a_path() {
    let q = Pbs::new(1, 1, 1, ".", false, Some(String::new()));
    assert_eq!(
        q.write_submit_script(Program::Molpro, &infiles(&["d/it's"]), "s").unwrap(),
        "molpro -t $NCPUS --no-xml-output \"it's\".inp\nrm -rf $TMPDIR\n"
    );
}

#[test]
fn lines_that_run_a_job() {
    let mut out = vec!['x'];
    push_molpro_line(&mut out, "\"job\"");
    push_mopac_line(&mut out, "opt/job");
    let text: String = out.iter().collect();
    assert_eq!(
        text,
        "xmolpro -t $NCPUS --no-xml-output \"job\".inp\n/ddn/home1/r2518/Packages/mopac/build/mopac opt/job.mop\n"
    );
}

#[test]
fn mopac_is_submitted_by_the_path_of_its_script() {
    let run = pbs().submit(Program::Mopac, "opt/main0.pbs").unwrap();
    assert_eq!(run.program, "qsub");
    assert_eq!(run.args, vec!["-f", "opt/main0.pbs"]);
    assert_eq!(run.dir, None);
    assert!(pbs().submit(Program::Mopac, "opt/").is_ok());
}

#[test]
fn molpro_is_submitted_from_the_directory_of_its_script() {
    let run = pbs().submit(Program::Molpro, "opt/sub/main0.pbs").unwrap();
    assert_eq!(run.program, "qsub");
    assert_eq!(run.args, vec!["main0.pbs"]);
    assert_eq!(run.dir, Some(String::from("opt/sub")));
    let run = pbs().submit(Program::Molpro, "main0.pbs").unwrap();
    assert_eq!(run.args, vec!["main0.pbs"]);
    assert_eq!(run.dir, Some(String::new()));
    let run = pbs().submit(Program::Molpro, "/main0.pbs").unwrap();
    assert_eq!(run.dir, Some(String::from("/")));
    let run = pbs().submit(Program::Molpro, "opt//sub/./main0.pbs/").unwrap();
    assert_eq!(run.args, vec!["main0.pbs"]);
    assert_eq!(run.dir, Some(String::from("opt//sub")));
    assert_eq!(pbs().submit(Program::Molpro, "opt/..").err(), Some(ScriptError::ScriptName));
    assert_eq!(pbs().submit(Program::Molpro, "..").err(), Some(ScriptError::ScriptName));
    assert_eq!(pbs().submit(Program::Molpro, "/").err(), Some(ScriptError::ScriptName));
}

#[test]
fn the_status_of_a_user_is_asked_of_qstat() {
    let run = pbs().stat_cmd("brent");
    assert_eq!(run.program, "qstat");
    assert_eq!(run.args, vec!["-u", "brent"]);
    assert_eq!(run.dir, None);
}

#[test]
fn scripts_are_numbered_in_the_working_directory() {
    assert_eq!(pbs().script_path(0), "opt/main0.pbs");
    assert_eq!(pbs().script_path(12), "opt/main12.pbs");
    assert_eq!(make_script_path("a/b", 305, "slurm"), "a/b/main305.slurm");
    assert_eq!(make_script_path("", 0, ""), "/main0.");
    assert_eq!(Local::new(8, 0, 0, "pts", false, None).script_path(3), "pts/main3.slurm");
}
