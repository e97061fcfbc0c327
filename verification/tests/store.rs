//! The store's own rules: admission, lifecycle legality, progression
//! clamping, removal, and the notifications the queue emits.

use jobq::error::Error;
use jobq::job::{ExpirePolicy, Job, JobId, Progression, ResultStatus, Status};
use jobq::job_queue::{Cmd, Dispatch, JobQueue, Notification};
use jobq::memory_backend::MemoryBackend;

fn job_with_id(id: u128) -> Job<u8> {
    Job {
        id: JobId(id),
        routine: 0,
        private_data: None,
        expire_policy: ExpirePolicy::Never,
    }
}

#[test]
fn duplicate_id_rejected() {
    let mut store: MemoryBackend<u8> = MemoryBackend::new();
    assert!(store.schedule(job_with_id(1), 0).is_ok());
    assert!(matches!(
        store.schedule(job_with_id(1), 5),
        Err(Error::AlreadyExists)
    ));
    // The first record is untouched: still Pending, created at 0.
    assert_eq!(store.status(JobId(1)).unwrap(), Status::Pending);
}

#[test]
fn pending_record_defaults() {
    let mut store: MemoryBackend<u8> = MemoryBackend::new();
    store.schedule(job_with_id(1), 0).unwrap();
    assert_eq!(store.status(JobId(1)).unwrap(), Status::Pending);
    let p = store.progression(JobId(1)).unwrap();
    assert_eq!(p, Progression { step: 0, steps: 0 });
    assert!(matches!(
        store.result(JobId(1), 0),
        Err(Error::NotFinished)
    ));
}

#[test]
fn lifecycle_transitions_enforced() {
    let mut store: MemoryBackend<u8> = MemoryBackend::new();
    store.schedule(job_with_id(1), 0).unwrap();

    // Pending cannot jump straight to Running.
    assert!(matches!(
        store.set_status(JobId(1), Status::Running),
        Err(Error::IllegalTransition)
    ));
    // Pending may fail at admission time.
    store.schedule(job_with_id(2), 0).unwrap();
    assert!(store
        .set_status(JobId(2), Status::Finished(ResultStatus::Error))
        .is_ok());

    // The forward chain is legal; going back is not.
    store.set_status(JobId(1), Status::Ready).unwrap();
    store.set_status(JobId(1), Status::Running).unwrap();
    assert!(matches!(
        store.set_status(JobId(1), Status::Pending),
        Err(Error::IllegalTransition)
    ));
    store
        .set_status(JobId(1), Status::Finished(ResultStatus::Success))
        .unwrap();
    // A finished record accepts no further transition.
    assert!(matches!(
        store.set_status(JobId(1), Status::Running),
        Err(Error::IllegalTransition)
    ));

    // Unknown ids are reported as such.
    assert!(matches!(
        store.set_status(JobId(9), Status::Ready),
        Err(Error::UnknownJob)
    ));
}

#[test]
fn progression_clamped() {
    let mut store: MemoryBackend<u8> = MemoryBackend::new();
    store.schedule(job_with_id(1), 0).unwrap();

    // With steps still 0, any step is clamped to 0.
    let p = store.set_step(JobId(1), 7).unwrap();
    assert_eq!(p, Progression { step: 0, steps: 0 });

    store.set_steps(JobId(1), 5).unwrap();
    let p = store.set_step(JobId(1), 3).unwrap();
    assert_eq!(p, Progression { step: 3, steps: 5 });

    // A step beyond the count is clamped to the count.
    let p = store.set_step(JobId(1), 9).unwrap();
    assert_eq!(p, Progression { step: 5, steps: 5 });

    // Shrinking the count clamps the current step down with it.
    let p = store.set_steps(JobId(1), 2).unwrap();
    assert_eq!(p, Progression { step: 2, steps: 2 });

    assert!(matches!(
        store.set_step(JobId(9), 1),
        Err(Error::UnknownJob)
    ));
    assert!(matches!(
        store.set_steps(JobId(9), 1),
        Err(Error::UnknownJob)
    ));
}

#[test]
fn set_step_idempotent() {
    let mut store: MemoryBackend<u8> = MemoryBackend::new();
    store.schedule(job_with_id(1), 0).unwrap();
    store.set_steps(JobId(1), 4).unwrap();

    let first = store.set_step(JobId(1), 3).unwrap();
    let second = store.set_step(JobId(1), 3).unwrap();
    assert_eq!(first, second);
    assert_eq!(store.progression(JobId(1)).unwrap(), first);
}

#[test]
fn remove_rules() {
    let mut store: MemoryBackend<u8> = MemoryBackend::new();

    // A Pending record can be removed, exactly once.
    store.schedule(job_with_id(1), 0).unwrap();
    assert!(store.remove(JobId(1)).is_ok());
    assert!(matches!(store.remove(JobId(1)), Err(Error::UnknownJob)));

    // Ready and Running records are busy.
    store.schedule(job_with_id(2), 0).unwrap();
    store.set_status(JobId(2), Status::Ready).unwrap();
    assert!(matches!(store.remove(JobId(2)), Err(Error::Busy)));
    store.set_status(JobId(2), Status::Running).unwrap();
    assert!(matches!(store.remove(JobId(2)), Err(Error::Busy)));

    // A finished record can be removed.
    store
        .set_status(JobId(2), Status::Finished(ResultStatus::Success))
        .unwrap();
    assert!(store.remove(JobId(2)).is_ok());
    assert!(matches!(store.status(JobId(2)), Err(Error::UnknownJob)));
}

#[test]
fn result_rules() {
    let mut store: MemoryBackend<u8> = MemoryBackend::new();

    assert!(matches!(
        store.result(JobId(1), 0),
        Err(Error::UnknownJob)
    ));

    store.schedule(job_with_id(1), 0).unwrap();
    store.set_status(JobId(1), Status::Ready).unwrap();
    store.set_status(JobId(1), Status::Running).unwrap();
    assert!(matches!(
        store.result(JobId(1), 0),
        Err(Error::NotFinished)
    ));

    store
        .finish(JobId(1), ResultStatus::Success, vec![1, 2, 3])
        .unwrap();
    assert_eq!(store.result(JobId(1), 0).unwrap(), vec![1, 2, 3]);
    // A second fetch still returns the same payload.
    assert_eq!(store.result(JobId(1), 9).unwrap(), vec![1, 2, 3]);

    // A failed routine leaves no payload to fetch.
    store.schedule(job_with_id(2), 0).unwrap();
    store.set_status(JobId(2), Status::Ready).unwrap();
    store.set_status(JobId(2), Status::Running).unwrap();
    store
        .finish(JobId(2), ResultStatus::Error, vec![])
        .unwrap();
    assert!(matches!(
        store.result(JobId(2), 0),
        Err(Error::NotFinished)
    ));
}

#[test]
fn notifications_reported() {
    let mut jq: JobQueue<u8> = JobQueue::new(1).unwrap();
    jq.start().unwrap();

    let job = job_with_id(7);
    jq.enqueue(job).unwrap();

    let (dispatch, notes) = jq.process_next(0);
    assert_eq!(dispatch, Dispatch::Run(JobId(7)));
    assert_eq!(
        notes,
        vec![
            Notification::Status(JobId(7), Status::Pending),
            Notification::Status(JobId(7), Status::Ready),
        ]
    );

    let notes = jq.begin_job(JobId(7));
    assert_eq!(notes, vec![Notification::Status(JobId(7), Status::Running)]);

    // A progression command reports the accepted (clamped) value.
    jq.send_command(Cmd::SetSteps(JobId(7), 3));
    let (dispatch, notes) = jq.process_next(0);
    assert_eq!(dispatch, Dispatch::Applied);
    assert_eq!(
        notes,
        vec![Notification::Progression(
            JobId(7),
            Progression { step: 0, steps: 3 }
        )]
    );

    // A routine failure is surfaced to the sink before the transition.
    let notes = jq.finish_job(JobId(7), Err(Error::Custom("boom".to_string())));
    assert_eq!(
        notes,
        vec![
            Notification::Error(Error::Custom("boom".to_string())),
            Notification::Status(JobId(7), Status::Finished(ResultStatus::Error)),
        ]
    );

    // A command about an unknown job becomes an error notification and
    // does not abort the dispatcher.
    jq.send_command(Cmd::SetStep(JobId(9), 1));
    let (dispatch, notes) = jq.process_next(0);
    assert_eq!(dispatch, Dispatch::Applied);
    assert_eq!(notes, vec![Notification::Error(Error::UnknownJob)]);

    // A duplicate admission is reported the same way.
    jq.enqueue(job_with_id(7)).unwrap();
    let (dispatch, notes) = jq.process_next(0);
    assert_eq!(dispatch, Dispatch::Applied);
    assert_eq!(notes, vec![Notification::Error(Error::AlreadyExists)]);
}

#[test]
fn routine_round_trip() {
    let mut jq: JobQueue<String> = JobQueue::new(1).unwrap();
    jq.start().unwrap();

    let job = Job::new("transcode".to_string());
    let job_id = job.id();
    jq.enqueue(job).unwrap();
    let (dispatch, _notes) = jq.process_next(0);
    assert_eq!(dispatch, Dispatch::Run(job_id));

    assert_eq!(jq.job_routine(job_id).unwrap(), "transcode");
}
