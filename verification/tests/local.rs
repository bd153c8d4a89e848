use jobqueue::queue::local::Local;
use jobqueue::queue::schedule::Scheduler;
use jobqueue::queue::QueueConfig;

#[test]
fn the_default_local_queue() {
    let q = Local::default();
    assert_eq!(q.dir, ".");
    assert_eq!(q.chunk_size, 128);
    assert_eq!(q.mopac, "/opt/mopac/mopac");
    assert_eq!(q.job_limit(), 1600);
    assert_eq!(q.sleep_int(), 1);
    assert!(!q.no_del());
}

#[test]
fn a_local_queue_keeps_what_it_was_made_with() {
    let q = Local::new(10, 20, 1, ".", false, None);
    assert_eq!(q.chunk_size(), 10);
    assert_eq!(q.job_limit(), 20);
    assert_eq!(q.sleep_int(), 1);
    assert!(!q.no_del());
    let q = Local::new(16, 7, 99, "pts", true, Some(String::from("template")));
    assert_eq!(q.dir, "pts");
    assert_eq!(q.dir(), "pts");
    assert_eq!(q.chunk_size, 16);
    assert_eq!(q.chunk_size(), 16);
    assert_eq!(q.mopac, "/opt/mopac/mopac");
    assert_eq!(q.job_limit(), 7);
    assert_eq!(q.sleep_int(), 99);
    assert!(q.no_del());
    assert_eq!(q.submit_command(), "bash");
    assert_eq!(
        q.config(),
        QueueConfig { chunk_size: 16, job_limit: 7, sleep_int: 99, no_del: true, synchronous: true }
    );
}

#[test]
fn a_local_queue_that_keeps_files_has_none_deleted() {
    let files = vec![String::from("job.mop"), String::from("job.out")];
    let keep = Local::new(10, 20, 1, ".", true, None);
    let s = Scheduler::new(keep.config(), vec![String::from("job")]).unwrap();
    assert_eq!(s.to_delete(files.clone()), Vec::<String>::new());
    let delete = Local::new(10, 20, 1, ".", false, None);
    let s = Scheduler::new(delete.config(), vec![String::from("job")]).unwrap();
    assert_eq!(s.to_delete(files.clone()), files);
}

#[test]
fn a_local_script_runs_and_logs_each_job() {
    let q = Local::new(16, 0, 0, "pts", false, None);
    let infiles = vec![String::from("pts/job.0"), String::from("pts/job.1")];
    let expected = "export LD_LIBRARY_PATH=/opt/mopac/
/opt/mopac/mopac pts/job.0.mop &> pts/main0.slurm.out
cat pts/job.0.mop pts/job.0.out >> pts/main0.slurm.out
echo \"================\" >> pts/main0.slurm.out
/opt/mopac/mopac pts/job.1.mop &> pts/main0.slurm.out
cat pts/job.1.mop pts/job.1.out >> pts/main0.slurm.out
echo \"================\" >> pts/main0.slurm.out
date +%s >> pts/main0.slurm.out
";
    assert_eq!(q.write_submit_script(&infiles, "pts/main0.slurm"), expected);
}

#[test]
fn a_local_script_without_jobs_logs_the_time() {
    let q = Local::default();
    assert_eq!(
        q.write_submit_script(&[], "s"),
        "export LD_LIBRARY_PATH=/opt/mopac/\ndate +%s >> s.out\n"
    );
}

#[test]
fn a_local_script_uses_the_binary_of_the_queue() {
    let q = Local {
        dir: String::from("."),
        chunk_size: 1,
        mopac: String::from("/usr/bin/mopac"),
        job_limit: 1,
        sleep_int: 1,
        no_del: false,
    };
    assert_eq!(
        q.write_submit_script(&[String::from("j")], "s"),
        "export LD_LIBRARY_PATH=/opt/mopac/\n/usr/bin/mopac j.mop &> s.out\ncat j.mop j.out >> s.out\necho \"================\" >> s.out\ndate +%s >> s.out\n"
    );
}

#[test]
fn a_local_script_is_handed_to_bash() {
    let run = Local::default().submit("pts/main0.slurm");
    assert_eq!(run.program, "bash");
    assert_eq!(run.args, vec!["pts/main0.slurm"]);
    assert_eq!(run.dir, None);
}
