use ariel_ml::jobs::{finish_job, jobs_remaining, poll_jobs_done, set_job_num, wait_step, JobCounter, WaitStep};

#[test]
fn wait_step_yields_while_jobs_remain() {
    assert!(matches!(wait_step(0), WaitStep::Done));
    assert!(matches!(wait_step(1), WaitStep::Yield));
    assert!(matches!(wait_step(usize::MAX), WaitStep::Yield));
}

#[test]
fn new_counter_has_no_job() {
    let jobs = JobCounter::new();
    assert_eq!(jobs_remaining(&jobs), 0);
    assert!(matches!(poll_jobs_done(&jobs), (0, WaitStep::Done)));
}

#[test]
fn set_then_finish_each_job_drains_counter() {
    let jobs = JobCounter::new();
    set_job_num(&jobs, 3);
    assert_eq!(jobs_remaining(&jobs), 3);
    assert!(matches!(poll_jobs_done(&jobs), (3, WaitStep::Yield)));
    assert_eq!(finish_job(&jobs), 3);
    assert_eq!(finish_job(&jobs), 2);
    assert!(matches!(poll_jobs_done(&jobs), (1, WaitStep::Yield)));
    assert_eq!(finish_job(&jobs), 1);
    assert!(matches!(poll_jobs_done(&jobs), (0, WaitStep::Done)));
}

#[test]
fn finishing_more_jobs_than_set_wraps_around() {
    let jobs = JobCounter::new();
    set_job_num(&jobs, 1);
    assert_eq!(finish_job(&jobs), 1);
    assert_eq!(finish_job(&jobs), 0);
    assert_eq!(jobs_remaining(&jobs), usize::MAX);
    assert!(matches!(poll_jobs_done(&jobs), (usize::MAX, WaitStep::Yield)));
}

#[test]
fn set_job_num_overwrites_count() {
    let jobs = JobCounter::new();
    set_job_num(&jobs, 5);
    finish_job(&jobs);
    set_job_num(&jobs, 2);
    assert_eq!(jobs_remaining(&jobs), 2);
}
