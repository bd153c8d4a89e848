use jobqueue::queue::submit::{
    extract_job_id, Attempt, SubmitStep, Submitter, NO_JOB_ID, SUBMIT_RETRIES,
};

fn failure() -> Attempt {
    Attempt::Exited {
        success: false,
        stdout: String::from("out"),
        stderr: String::from("qsub: queue is down"),
    }
}

fn success(stdout: &str) -> Attempt {
    Attempt::Exited { success: true, stdout: String::from(stdout), stderr: String::new() }
}

#[test]
fn job_id_is_the_last_field() {
    assert_eq!(extract_job_id("your job 12345"), "12345");
    assert_eq!(extract_job_id("12345.maple\n"), "12345.maple");
    assert_eq!(extract_job_id("  Submitted batch job\t819446  \r\n"), "819446");
}

#[test]
fn job_id_of_a_line_that_goes_on_after_the_number() {
    assert_eq!(extract_job_id("your job 12345 submitted"), "submitted");
}

#[test]
fn job_id_of_empty_output_is_the_sentinel() {
    assert_eq!(NO_JOB_ID, "no jobid");
    assert_eq!(extract_job_id(""), "no jobid");
    assert_eq!(extract_job_id(" \n\t "), "no jobid");
}

#[test]
fn job_id_splits_at_unicode_white_space() {
    assert_eq!(extract_job_id("job\u{a0}77\u{2003}"), "77");
    assert_eq!(extract_job_id("job\u{3000}78"), "78");
    assert_eq!(extract_job_id("job\u{200b}79"), "job\u{200b}79");
}

#[test]
fn submitter_retries_five_times_then_rejects() {
    assert_eq!(SUBMIT_RETRIES, 5);
    let mut s = Submitter::new(3);
    for left in (0..5).rev() {
        match s.observe(failure()) {
            SubmitStep::Retry { wait_secs } => assert_eq!(wait_secs, 3),
            other => panic!("expected a retry, got {:?}", other),
        }
        assert_eq!(s.remaining(), left);
    }
    match s.observe(failure()) {
        SubmitStep::Rejected { error } => {
            assert_eq!(error.stdout, "out");
            assert_eq!(error.stderr, "qsub: queue is down");
        }
        other => panic!("expected a rejection, got {:?}", other),
    }
    assert_eq!(s.remaining(), 0);
}

#[test]
fn submitter_with_no_retries_rejects_at_once() {
    let mut s = Submitter::with_retries(0, 1);
    assert!(matches!(s.observe(failure()), SubmitStep::Rejected { .. }));
}

#[test]
fn success_on_a_retry_gives_the_same_job_id() {
    let mut first = Submitter::new(1);
    let at_once = first.observe(success("your job 12345"));
    let mut later = Submitter::new(1);
    for _ in 0..4 {
        assert!(matches!(later.observe(failure()), SubmitStep::Retry { .. }));
    }
    let on_retry = later.observe(success("your job 12345"));
    match (at_once, on_retry) {
        (SubmitStep::Accepted { job_id: a }, SubmitStep::Accepted { job_id: b }) => {
            assert_eq!(a, "12345");
            assert_eq!(a, b);
        }
        other => panic!("expected two acceptances, got {:?}", other),
    }
    assert_eq!(first.remaining(), 5);
    assert_eq!(later.remaining(), 1);
}

#[test]
fn a_command_that_does_not_start_is_not_tried_again() {
    let mut s = Submitter::new(1);
    match s.observe(Attempt::NotStarted { reason: String::from("No such file or directory") }) {
        SubmitStep::Rejected { error } => {
            assert_eq!(error.stdout, "");
            assert_eq!(error.stderr, "No such file or directory");
        }
        other => panic!("expected a rejection, got {:?}", other),
    }
    assert_eq!(s.remaining(), 5);
}
