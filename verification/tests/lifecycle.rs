//! End-to-end drives of the queue core: the test harness plays the part
//! of the dispatcher thread and of the worker pool, exactly as the
//! embedding program would.

use jobq::error::Error;
use jobq::job::{Job, JobId, ResultStatus, Status};
use jobq::job_queue::{Cmd, Dispatch, JobQueue, State};

#[derive(Clone, Debug, PartialEq)]
pub struct SetFlagArgs {
    value: bool,
}

#[derive(Clone, Debug, PartialEq)]
pub struct SleepArgs {
    duration_ms: u64,
}

#[derive(Clone, Debug, PartialEq)]
pub enum Routines {
    CheckContext,
    CheckPrivateData { value: u8, expect_no_data: bool },
    Nop,
    RaiseError,
    SetFlag(SetFlagArgs),
    Sleep(SleepArgs),
}

struct Context {
    name: String,
}

/// Runs one job's routine against the queue, as a worker slot does:
/// marks it running, interprets the routine, and reports the outcome.
/// Returns the flag value the routine set, if any.
fn run_routine(jq: &mut JobQueue<Routines>, id: JobId, context: Option<&Context>) -> Option<bool> {
    jq.begin_job(id);
    let routine = jq.job_routine(id).unwrap().clone();
    let mut flag: Option<bool> = None;
    let outcome: Result<Vec<u8>, Error> = match routine {
        Routines::CheckContext => {
            assert!(context.is_some());
            assert_eq!(context.unwrap().name, "UNIT_TESTING");
            Ok(vec![])
        }
        Routines::CheckPrivateData {
            value,
            expect_no_data,
        } => {
            let data = jq.job_private_data(id).unwrap();
            if expect_no_data {
                assert!(data.is_none());
            } else {
                let bytes = data.unwrap();
                assert_eq!(bytes.len(), 1);
                assert_eq!(bytes[0], value);
            }
            Ok(vec![])
        }
        Routines::Nop => Ok(vec![]),
        Routines::RaiseError => Err(Error::Custom("This is a failure".to_string())),
        Routines::SetFlag(args) => {
            flag = Some(args.value);
            jq.send_command(Cmd::SetSteps(id, 2));
            jq.send_command(Cmd::SetStep(id, 1));
            let bytes = b"{\"result\":\"SET_FLAG_OK\"}".to_vec();
            jq.send_command(Cmd::SetStep(id, 2));
            Ok(bytes)
        }
        Routines::Sleep(_args) => Ok(vec![]),
    };
    jq.finish_job(id, outcome);
    flag
}

/// Drains the inbox at instant `now`, running each admitted job to
/// completion, until the inbox is empty or the stop marker is consumed.
fn drain(jq: &mut JobQueue<Routines>, now: u64, context: Option<&Context>) -> Option<bool> {
    let mut flag: Option<bool> = None;
    loop {
        let (dispatch, _notes) = jq.process_next(now);
        match dispatch {
            Dispatch::Empty | Dispatch::Stop => return flag,
            Dispatch::Run(id) => {
                if let Some(v) = run_routine(jq, id, context) {
                    flag = Some(v);
                }
            }
            Dispatch::Applied => {}
        }
    }
}

#[test]
fn nominal() {
    let context = Context {
        name: "UNIT_TESTING".to_string(),
    };
    let mut jq: JobQueue<Routines> = JobQueue::new(4).unwrap();
    let mut flag = false;

    jq.start().unwrap();
    assert_eq!(jq.state(), State::Running);

    let routine = Routines::SetFlag(SetFlagArgs { value: true });
    let job = Job::new(routine);
    let job_id = job.id();

    jq.enqueue(job).unwrap();
    assert!(jq.remove_job(job_id).is_err());

    if let Some(v) = drain(&mut jq, 10, Some(&context)) {
        flag = v;
    }

    assert!(flag);
    let routine = jq.job_routine(job_id).unwrap();
    let expected_routine = Routines::SetFlag(SetFlagArgs { value: true });
    assert_eq!(routine, &expected_routine);
    let bytes = jq.job_result(job_id, 10).unwrap();
    assert_eq!(bytes, b"{\"result\":\"SET_FLAG_OK\"}".to_vec());
    let status = jq.job_status(job_id).unwrap();
    assert_eq!(status, Status::Finished(ResultStatus::Success));
    let progression = jq.job_progression(job_id).unwrap();
    assert_eq!(progression.step, 2);
    assert_eq!(progression.steps, 2);

    assert!(jq.remove_job(job_id).is_ok());
    assert!(jq.job_status(job_id).is_err());

    jq.stop().unwrap();
    drain(&mut jq, 10, None);
    jq.join().unwrap();
}

#[test]
fn with_thread_pool_size() {
    let mut jq: JobQueue<Routines> = JobQueue::new(1).unwrap();

    jq.start().unwrap();
    assert_eq!(jq.state(), State::Running);

    let job = Job::new(Routines::Nop);
    let job_id = job.id();

    jq.enqueue(job).unwrap();
    drain(&mut jq, 10, None);

    let status = jq.job_status(job_id).unwrap();
    assert_eq!(status, Status::Finished(ResultStatus::Success));

    jq.stop().unwrap();
    drain(&mut jq, 10, None);
    jq.join().unwrap();
}

#[test]
fn no_locking() {
    let mut jq: JobQueue<Routines> = JobQueue::new(1).unwrap();

    jq.start().unwrap();
    assert_eq!(jq.state(), State::Running);

    let job = Job::new(Routines::Sleep(SleepArgs { duration_ms: 100 }));
    let job_id = job.id();

    jq.enqueue(job).unwrap();

    // The dispatcher admits the job and the pool starts its routine,
    // which is still asleep when the caller asks for the status.
    let (dispatch, _notes) = jq.process_next(0);
    assert_eq!(dispatch, Dispatch::Run(job_id));
    jq.begin_job(job_id);

    let status = jq.job_status(job_id).unwrap();
    assert_eq!(status, Status::Running);

    jq.finish_job(job_id, Ok(vec![]));
    jq.stop().unwrap();
    drain(&mut jq, 10, None);
    jq.join().unwrap();
}

#[test]
fn check_context() {
    let context = Context {
        name: "UNIT_TESTING".to_string(),
    };
    let mut jq: JobQueue<Routines> = JobQueue::new(4).unwrap();

    jq.start().unwrap();
    assert_eq!(jq.state(), State::Running);

    let job = Job::new(Routines::CheckContext);
    let job_id = job.id();

    jq.enqueue(job).unwrap();
    drain(&mut jq, 10, Some(&context));

    let status = jq.job_status(job_id).unwrap();
    assert_eq!(status, Status::Finished(ResultStatus::Success));

    jq.stop().unwrap();
    drain(&mut jq, 10, None);
    jq.join().unwrap();
}

#[test]
fn check_private_data() {
    let mut jq: JobQueue<Routines> = JobQueue::new(4).unwrap();

    jq.start().unwrap();
    assert_eq!(jq.state(), State::Running);

    let value = 13;

    let mut job = Job::new(Routines::CheckPrivateData {
        value,
        expect_no_data: false,
    });
    job.set_private_data(vec![value]);
    let job_id = job.id();

    jq.enqueue(job).unwrap();
    drain(&mut jq, 10, None);

    let status = jq.job_status(job_id).unwrap();
    assert_eq!(status, Status::Finished(ResultStatus::Success));

    jq.stop().unwrap();
    drain(&mut jq, 10, None);
    jq.join().unwrap();
}

#[test]
fn check_no_private_data() {
    let mut jq: JobQueue<Routines> = JobQueue::new(4).unwrap();

    jq.start().unwrap();
    assert_eq!(jq.state(), State::Running);

    let job = Job::new(Routines::CheckPrivateData {
        value: 0,
        expect_no_data: true,
    });
    let job_id = job.id();

    jq.enqueue(job).unwrap();
    drain(&mut jq, 10, None);

    let status = jq.job_status(job_id).unwrap();
    assert_eq!(status, Status::Finished(ResultStatus::Success));

    jq.stop().unwrap();
    drain(&mut jq, 10, None);
    jq.join().unwrap();
}

#[test]
fn can_access() {
    let mut jq: JobQueue<Routines> = JobQueue::new(4).unwrap();

    jq.start().unwrap();
    assert_eq!(jq.state(), State::Running);

    let slow = Job::new(Routines::Sleep(SleepArgs { duration_ms: 1000 }));
    let slow_id = slow.id();
    jq.enqueue(slow).unwrap();

    let job = Job::new(Routines::Nop);
    let job_id = job.id();
    jq.enqueue(job).unwrap();

    // The slow routine is admitted first and is still running when the
    // fast one is admitted, run, and queried.
    let (dispatch, _notes) = jq.process_next(0);
    assert_eq!(dispatch, Dispatch::Run(slow_id));
    jq.begin_job(slow_id);

    let (dispatch, _notes) = jq.process_next(0);
    assert_eq!(dispatch, Dispatch::Run(job_id));
    jq.begin_job(job_id);
    jq.finish_job(job_id, Ok(vec![]));

    let status = jq.job_status(job_id).unwrap();
    assert_eq!(status, Status::Finished(ResultStatus::Success));
    assert_eq!(jq.job_status(slow_id).unwrap(), Status::Running);

    jq.finish_job(slow_id, Ok(vec![]));
    jq.stop().unwrap();
    drain(&mut jq, 10, None);
    jq.join().unwrap();
}

#[test]
fn status() {
    let mut jq: JobQueue<Routines> = JobQueue::new(4).unwrap();

    jq.start().unwrap();
    assert_eq!(jq.state(), State::Running);

    let job = Job::new(Routines::RaiseError);
    let job_id = job.id();

    jq.enqueue(job).unwrap();
    drain(&mut jq, 10, None);

    let status = jq.job_status(job_id).unwrap();
    assert_eq!(status, Status::Finished(ResultStatus::Error));

    jq.stop().unwrap();
    drain(&mut jq, 10, None);
    jq.join().unwrap();
}
