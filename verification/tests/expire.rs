//! Expiration policies: removal after a result fetch and removal on a
//! timeout, driven by explicit instants handed to the sweep.

use jobq::job::{ExpirePolicy, Job, ResultStatus, Status};
use jobq::job_queue::{Dispatch, JobQueue, State};

#[derive(Clone, Debug, PartialEq)]
pub enum Routines {
    Nop,
}

fn run_all(jq: &mut JobQueue<Routines>, now: u64) {
    loop {
        let (dispatch, _notes) = jq.process_next(now);
        match dispatch {
            Dispatch::Empty | Dispatch::Stop => return,
            Dispatch::Run(id) => {
                jq.begin_job(id);
                jq.finish_job(id, Ok(vec![]));
            }
            Dispatch::Applied => {}
        }
    }
}

#[test]
fn expire_on_fetch() {
    let mut jq: JobQueue<Routines> = JobQueue::new(4).unwrap();

    jq.start().unwrap();
    assert_eq!(jq.state(), State::Running);

    let timeout_ms = 1000;

    let job = Job::new_with_expire(Routines::Nop, ExpirePolicy::OnResultFetch(timeout_ms));
    let job_id = job.id();

    jq.enqueue(job).unwrap();
    run_all(&mut jq, 10);

    let status = jq.job_status(job_id).unwrap();
    assert_eq!(status, Status::Finished(ResultStatus::Success));

    // Fetch the result; once the policy's delay has elapsed, a sweep
    // removes the record and the job is no longer known.
    let _ = jq.job_result(job_id, 20).unwrap();
    jq.sweep(20 + timeout_ms);
    assert!(jq.job_status(job_id).is_err());

    jq.stop().unwrap();
    run_all(&mut jq, 20 + timeout_ms);
    jq.join().unwrap();
}

#[test]
fn expire_on_timeout() {
    let mut jq: JobQueue<Routines> = JobQueue::new(4).unwrap();

    jq.start().unwrap();
    assert_eq!(jq.state(), State::Running);

    let seconds_ms = 1000;

    let job = Job::new_with_expire(Routines::Nop, ExpirePolicy::Timeout(seconds_ms));
    let job_id = job.id();

    jq.enqueue(job).unwrap();
    run_all(&mut jq, 0);

    // At half the timeout the record is still present.
    jq.sweep(seconds_ms / 2);
    assert!(jq.job_status(job_id).is_ok());

    // Past the timeout it is gone, finished or not.
    jq.sweep(seconds_ms * 2);
    assert!(jq.job_status(job_id).is_err());

    jq.stop().unwrap();
    run_all(&mut jq, seconds_ms * 2);
    jq.join().unwrap();
}

#[test]
fn expire_on_fetch_immediate() {
    // A zero delay means the record is removable right at the fetch
    // instant; until the result is fetched it stays, however long.
    let mut jq: JobQueue<Routines> = JobQueue::new(1).unwrap();
    jq.start().unwrap();

    let job = Job::new_with_expire(Routines::Nop, ExpirePolicy::OnResultFetch(0));
    let job_id = job.id();
    jq.enqueue(job).unwrap();
    run_all(&mut jq, 0);

    jq.sweep(1_000_000);
    assert!(jq.job_status(job_id).is_ok());

    let _ = jq.job_result(job_id, 1_000_000).unwrap();
    jq.sweep(1_000_000);
    assert!(jq.job_status(job_id).is_err());
}

#[test]
fn never_expires() {
    let mut jq: JobQueue<Routines> = JobQueue::new(1).unwrap();
    jq.start().unwrap();

    let job = Job::new(Routines::Nop);
    let job_id = job.id();
    jq.enqueue(job).unwrap();
    run_all(&mut jq, 0);

    let _ = jq.job_result(job_id, 5).unwrap();
    jq.sweep(u64::MAX);
    assert!(jq.job_status(job_id).is_ok());
}
