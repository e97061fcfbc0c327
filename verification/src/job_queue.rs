//! The queue facade, its state machine, and the dispatcher step.
//!
//! A [`JobQueue`] owns the queue-level state machine (`Idle`, `Running`,
//! `Stopping`), the store, and the inbox: the first-in-first-out message
//! stream the dispatcher consumes. `enqueue` and `stop` append to the
//! inbox; [`JobQueue::process_next`] takes one dispatcher step, telling
//! the embedding program what to carry out (run a job, or exit), and
//! which notifications to deliver to its sink. The worker-side effects
//! of running a routine enter through [`JobQueue::begin_job`] and
//! [`JobQueue::finish_job`], so every store change — whoever performs
//! it — goes through a verified operation.

use vstd::prelude::*;

use crate::error::Error;
use crate::job::{legal_transition, Job, JobId, Progression, ResultStatus, Status};
use crate::memory_backend::{
    fetch_model, finish_model, pending_record, remove_model, set_status_model,
    set_step_model, set_steps_model, sweep_model, MemoryBackend,
};
use crate::memory_backend::blob_opt_view;
use crate::records::RecordModel;

verus! {

/// Commands carried by the message stream.
#[derive(Clone, Copy, PartialEq, Eq, Structural, Debug)]
pub enum Cmd {
    /// Set the current step of a job.
    SetStep(JobId, u64),
    /// Set the step count of a job.
    SetSteps(JobId, u64),
    /// Make the dispatcher exit.
    Stop,
}

/// One message of the stream the dispatcher consumes.
pub enum Message<R> {
    /// A command that changes the state of the queue or of a record.
    Command(Cmd),
    /// A job to admit and run.
    Job(Job<R>),
}

/// What the queue reports to the user-supplied notification sink.
#[derive(PartialEq, Debug)]
pub enum Notification {
    /// A recoverable error in the dispatcher, a worker, or the store.
    Error(Error),
    /// A status transition completed.
    Status(JobId, Status),
    /// A progression update was accepted.
    Progression(JobId, Progression),
}

/// States of the queue-level state machine.
#[derive(Clone, Copy, PartialEq, Eq, Structural, Debug, Default)]
pub enum State {
    /// Waiting to be started.
    #[default]
    Idle,
    /// Processing messages.
    Running,
    /// A stop was requested; the dispatcher is draining.
    Stopping,
}

/// What one dispatcher step asks the embedding program to do.
#[derive(Clone, Copy, PartialEq, Eq, Structural, Debug)]
pub enum Dispatch {
    /// The inbox held no message; wait for one.
    Empty,
    /// The stop marker was consumed; the dispatcher must exit.
    Stop,
    /// A job was admitted and made `Ready`; hand it to the worker pool.
    Run(JobId),
    /// A command was applied.
    Applied,
}

/// The record an admitted job holds once handed to the pool.
pub open spec fn ready_record<R>(job: Job<R>, now: u64) -> RecordModel<R> {
    RecordModel { status: Status::Ready, ..pending_record(job, now) }
}

/// The queue facade: state machine, message inbox, and job store.
pub struct JobQueue<R> {
    state: State,
    pool_size: usize,
    inbox: Vec<Message<R>>,
    store: MemoryBackend<R>,
}

impl<R> JobQueue<R> {
    /// The state of the queue-level state machine.
    pub closed spec fn spec_state(self) -> State {
        self.state
    }

    /// The configured number of workers.
    pub closed spec fn spec_pool_size(self) -> usize {
        self.pool_size
    }

    /// The messages submitted and not yet consumed, oldest first.
    pub closed spec fn inbox_model(self) -> Seq<Message<R>> {
        self.inbox@
    }

    /// The stored records, as a map from id to record model.
    pub closed spec fn store_model(self) -> Map<u128, RecordModel<R>> {
        self.store@
    }

    /// The queue's invariant: a well-formed store and at least one
    /// worker.
    pub closed spec fn wf(self) -> bool {
        &&& self.store.wf()
        &&& self.pool_size >= 1
    }

    /// Law: every stored record is internally consistent; in particular
    /// `step <= steps` holds at every observable moment.
    pub proof fn lemma_all_records_wf(&self)
        requires
            self.wf(),
        ensures
            forall|k: u128| #[trigger] self.store_model().contains_key(k)
                ==> crate::records::record_wf(self.store_model()[k]),
    {
        self.store.lemma_wf_all_records();
    }

    /// Builds a queue in `Idle` with an empty store and inbox; a pool of
    /// zero workers is rejected.
    pub fn new(pool_size: usize) -> (r: Result<JobQueue<R>, Error>)
        ensures
            match r {
                Ok(q) => {
                    &&& pool_size >= 1
                    &&& q.wf()
                    &&& q.spec_state() == State::Idle
                    &&& q.spec_pool_size() == pool_size
                    &&& q.inbox_model() == Seq::<Message<R>>::empty()
                    &&& q.store_model() == Map::<u128, RecordModel<R>>::empty()
                },
                Err(e) => pool_size == 0 && e == Error::InvalidThreadPoolSize,
            },
    {
        if pool_size == 0 {
            Err(Error::InvalidThreadPoolSize)
        } else {
            Ok(
                JobQueue {
                    state: State::Idle,
                    pool_size,
                    inbox: Vec::new(),
                    store: MemoryBackend::new(),
                },
            )
        }
    }

    /// The state of the queue.
    pub fn state(&self) -> (r: State)
        ensures
            r == self.spec_state(),
    {
        self.state
    }

    /// The configured number of workers.
    pub fn pool_size(&self) -> (r: usize)
        ensures
            r == self.spec_pool_size(),
    {
        self.pool_size
    }

    /// Replaces the store; only allowed before the queue is started.
    pub fn set_backend(&mut self, backend: MemoryBackend<R>)
        requires
            old(self).wf(),
            old(self).spec_state() == State::Idle,
            backend.wf(),
        ensures
            final(self).wf(),
            final(self).spec_state() == old(self).spec_state(),
            final(self).spec_pool_size() == old(self).spec_pool_size(),
            final(self).inbox_model() == old(self).inbox_model(),
            final(self).store_model() == backend@,
    {
        self.store = backend;
    }

    /// Whether the current state allows starting the queue.
    pub fn try_starting(&self) -> (r: Result<(), Error>)
        ensures
            self.spec_state() == State::Idle ==> r is Ok,
            self.spec_state() == State::Running ==> r == Err::<(), Error>(Error::AlreadyRunning),
            self.spec_state() == State::Stopping ==> r == Err::<(), Error>(Error::Stopped),
    {
        match self.state {
            State::Idle => Ok(()),
            State::Running => Err(Error::AlreadyRunning),
            State::Stopping => Err(Error::Stopped),
        }
    }

    /// Whether the current state allows stopping the queue.
    pub fn try_stopping(&self) -> (r: Result<(), Error>)
        ensures
            self.spec_state() == State::Running ==> r is Ok,
            self.spec_state() == State::Idle ==> r == Err::<(), Error>(Error::NotStarted),
            self.spec_state() == State::Stopping ==> r == Err::<(), Error>(Error::Stopped),
    {
        match self.state {
            State::Idle => Err(Error::NotStarted),
            State::Running => Ok(()),
            State::Stopping => Err(Error::Stopped),
        }
    }

    /// Whether the current state allows joining the queue.
    pub fn try_joining(&self) -> (r: Result<(), Error>)
        ensures
            self.spec_state() == State::Stopping ==> r is Ok,
            self.spec_state() == State::Idle ==> r == Err::<(), Error>(Error::NotStarted),
            self.spec_state() == State::Running ==> r == Err::<(), Error>(Error::NotStopping),
    {
        match self.state {
            State::Idle => Err(Error::NotStarted),
            State::Running => Err(Error::NotStopping),
            State::Stopping => Ok(()),
        }
    }

    /// Starts the queue: only legal in `Idle`, which becomes `Running`.
    pub fn start(&mut self) -> (r: Result<(), Error>)
        requires
            old(self).wf(),
        ensures
            final(self).wf(),
            final(self).spec_pool_size() == old(self).spec_pool_size(),
            final(self).inbox_model() == old(self).inbox_model(),
            final(self).store_model() == old(self).store_model(),
            old(self).spec_state() == State::Idle ==> r is Ok && final(self).spec_state()
                == State::Running,
            old(self).spec_state() == State::Running ==> r == Err::<(), Error>(
                Error::AlreadyRunning,
            ) && final(self).spec_state() == old(self).spec_state(),
            old(self).spec_state() == State::Stopping ==> r == Err::<(), Error>(Error::Stopped)
                && final(self).spec_state() == old(self).spec_state(),
    {
        match self.try_starting() {
            Err(e) => Err(e),
            Ok(_) => {
                self.state = State::Running;
                Ok(())
            },
        }
    }

    /// Requests a stop: only legal in `Running`, which becomes
    /// `Stopping`; the stop marker joins the inbox.
    pub fn stop(&mut self) -> (r: Result<(), Error>)
        requires
            old(self).wf(),
        ensures
            final(self).wf(),
            final(self).spec_pool_size() == old(self).spec_pool_size(),
            final(self).store_model() == old(self).store_model(),
            old(self).spec_state() == State::Running ==> r is Ok && final(self).spec_state()
                == State::Stopping && final(self).inbox_model() == old(self).inbox_model().push(
                Message::<R>::Command(Cmd::Stop),
            ),
            old(self).spec_state() == State::Idle ==> r == Err::<(), Error>(Error::NotStarted)
                && final(self).spec_state() == old(self).spec_state() && final(self).inbox_model()
                == old(self).inbox_model(),
            old(self).spec_state() == State::Stopping ==> r == Err::<(), Error>(Error::Stopped)
                && final(self).spec_state() == old(self).spec_state() && final(self).inbox_model()
                == old(self).inbox_model(),
    {
        match self.try_stopping() {
            Err(e) => Err(e),
            Ok(_) => {
                self.state = State::Stopping;
                self.inbox.push(Message::Command(Cmd::Stop));
                Ok(())
            },
        }
    }

    /// Consumes the queue once the dispatcher has drained: only legal in
    /// `Stopping`.
    pub fn join(self) -> (r: Result<(), Error>)
        ensures
            self.spec_state() == State::Stopping ==> r is Ok,
            self.spec_state() == State::Idle ==> r == Err::<(), Error>(Error::NotStarted),
            self.spec_state() == State::Running ==> r == Err::<(), Error>(Error::NotStopping),
    {
        self.try_joining()
    }

    /// Submits a job: only legal in `Running`. The job joins the inbox;
    /// it is admitted to the store when the dispatcher consumes it.
    pub fn enqueue(&mut self, job: Job<R>) -> (r: Result<JobId, Error>)
        requires
            old(self).wf(),
        ensures
            final(self).wf(),
            final(self).spec_state() == old(self).spec_state(),
            final(self).spec_pool_size() == old(self).spec_pool_size(),
            final(self).store_model() == old(self).store_model(),
            old(self).spec_state() == State::Running ==> r == Ok::<JobId, Error>(job.id) && final(self).inbox_model() == old(self).inbox_model().push(Message::Job(job)),
            old(self).spec_state() == State::Idle ==> r == Err::<JobId, Error>(Error::NotStarted)
                && final(self).inbox_model() == old(self).inbox_model(),
            old(self).spec_state() == State::Stopping ==> r == Err::<JobId, Error>(Error::Stopped)
                && final(self).inbox_model() == old(self).inbox_model(),
    {
        match self.state {
            State::Idle => Err(Error::NotStarted),
            State::Stopping => Err(Error::Stopped),
            State::Running => {
                let id = job.id();
                self.inbox.push(Message::Job(job));
                Ok(id)
            },
        }
    }

    /// Submits a command, as a running routine does through its channel
    /// handle when it reports progression.
    pub fn send_command(&mut self, cmd: Cmd)
        requires
            old(self).wf(),
        ensures
            final(self).wf(),
            final(self).spec_state() == old(self).spec_state(),
            final(self).spec_pool_size() == old(self).spec_pool_size(),
            final(self).store_model() == old(self).store_model(),
            final(self).inbox_model() == old(self).inbox_model().push(
                Message::<R>::Command(cmd),
            ),
    {
        self.inbox.push(Message::Command(cmd));
    }

    /// Takes one dispatcher step at instant `now`: consumes the oldest
    /// message, applies it to the store, and returns what the embedding
    /// program must do next together with the notifications to deliver.
    ///
    /// A job message admits the job (`Pending`), hands it to the pool
    /// (`Ready`), and asks for its routine to be run; a duplicate id is
    /// reported to the sink and the store is left unchanged. Progression
    /// commands update the record and report the accepted value. Errors
    /// never abort the dispatcher: they become notifications.
    pub fn process_next(&mut self, now: u64) -> (r: (Dispatch, Vec<Notification>))
        requires
            old(self).wf(),
        ensures
            final(self).wf(),
            final(self).spec_state() == old(self).spec_state(),
            final(self).spec_pool_size() == old(self).spec_pool_size(),
            old(self).inbox_model().len() == 0 ==> r.0 == Dispatch::Empty && final(self).inbox_model() == old(self).inbox_model() && final(self).store_model() == old(self).store_model() && r.1@ == Seq::<Notification>::empty(),
            old(self).inbox_model().len() > 0 ==> final(self).inbox_model() == old(self).inbox_model().remove(0),
            old(self).inbox_model().len() > 0 && old(self).inbox_model()[0] == Message::<
                R,
            >::Command(Cmd::Stop) ==> r.0 == Dispatch::Stop && final(self).store_model() == old(self).store_model() && r.1@ == Seq::<Notification>::empty(),
            old(self).inbox_model().len() > 0 ==> (old(self).inbox_model()[0] matches Message::<
                R,
            >::Command(Cmd::SetStep(id, n)) ==> {
                &&& r.0 == Dispatch::Applied
                &&& final(self).store_model() == set_step_model(old(self).store_model(), id.0, n)
                &&& old(self).store_model().contains_key(id.0) ==> r.1@ == seq![
                    Notification::Progression(id, final(self).store_model()[id.0].progression),
                ]
                &&& !old(self).store_model().contains_key(id.0) ==> r.1@ == seq![
                    Notification::Error(Error::UnknownJob),
                ]
            }),
            old(self).inbox_model().len() > 0 ==> (old(self).inbox_model()[0] matches Message::<
                R,
            >::Command(Cmd::SetSteps(id, n)) ==> {
                &&& r.0 == Dispatch::Applied
                &&& final(self).store_model() == set_steps_model(old(self).store_model(), id.0, n)
                &&& old(self).store_model().contains_key(id.0) ==> r.1@ == seq![
                    Notification::Progression(id, final(self).store_model()[id.0].progression),
                ]
                &&& !old(self).store_model().contains_key(id.0) ==> r.1@ == seq![
                    Notification::Error(Error::UnknownJob),
                ]
            }),
            old(self).inbox_model().len() > 0 ==> (old(self).inbox_model()[0] matches Message::Job(
                job,
            ) ==> {
                &&& !old(self).store_model().contains_key(job.id.0) ==> {
                    &&& r.0 == Dispatch::Run(job.id)
                    &&& final(self).store_model() == old(self).store_model().insert(
                        job.id.0,
                        ready_record(job, now),
                    )
                    &&& r.1@ == seq![
                        Notification::Status(job.id, Status::Pending),
                        Notification::Status(job.id, Status::Ready),
                    ]
                }
                &&& old(self).store_model().contains_key(job.id.0) ==> {
                    &&& r.0 == Dispatch::Applied
                    &&& final(self).store_model() == old(self).store_model()
                    &&& r.1@ == seq![Notification::Error(Error::AlreadyExists)]
                }
            }),
    {
        if self.inbox.len() == 0 {
            return (Dispatch::Empty, Vec::new());
        }
        let msg = self.inbox.remove(0);
        let mut notes: Vec<Notification> = Vec::new();
        match msg {
            Message::Command(Cmd::Stop) => (Dispatch::Stop, notes),
            Message::Command(Cmd::SetStep(id, n)) => {
                match self.store.set_step(id, n) {
                    Ok(p) => notes.push(Notification::Progression(id, p)),
                    Err(e) => notes.push(Notification::Error(e)),
                }
                proof {
                    assert(notes@ =~= seq![notes@[0]]);
                }
                (Dispatch::Applied, notes)
            },
            Message::Command(Cmd::SetSteps(id, n)) => {
                match self.store.set_steps(id, n) {
                    Ok(p) => notes.push(Notification::Progression(id, p)),
                    Err(e) => notes.push(Notification::Error(e)),
                }
                proof {
                    assert(notes@ =~= seq![notes@[0]]);
                }
                (Dispatch::Applied, notes)
            },
            Message::Job(job) => {
                let id = job.id();
                let ghost job0 = job;
                let ghost m0 = self.store@;
                match self.store.schedule(job, now) {
                    Err(e) => {
                        notes.push(Notification::Error(e));
                        proof {
                            assert(notes@ =~= seq![Notification::Error(Error::AlreadyExists)]);
                        }
                        (Dispatch::Applied, notes)
                    },
                    Ok(_) => {
                        notes.push(Notification::Status(id, Status::Pending));
                        let moved = self.store.set_status(id, Status::Ready);
                        match moved {
                            Ok(_) => {},
                            Err(_) => {
                                proof {
                                    assert(false);
                                }
                            },
                        }
                        notes.push(Notification::Status(id, Status::Ready));
                        proof {
                            assert(self.store@ =~= m0.insert(id.0, ready_record(job0, now)));
                            assert(notes@ =~= seq![
                                Notification::Status(id, Status::Pending),
                                Notification::Status(id, Status::Ready),
                            ]);
                        }
                        (Dispatch::Run(id), notes)
                    },
                }
            },
        }
    }

    /// Marks a job `Running`, as the pool does just before invoking its
    /// routine, and returns the notifications to deliver.
    pub fn begin_job(&mut self, id: JobId) -> (r: Vec<Notification>)
        requires
            old(self).wf(),
        ensures
            final(self).wf(),
            final(self).spec_state() == old(self).spec_state(),
            final(self).spec_pool_size() == old(self).spec_pool_size(),
            final(self).inbox_model() == old(self).inbox_model(),
            final(self).store_model() == set_status_model(
                old(self).store_model(),
                id.0,
                Status::Running,
            ),
            !old(self).store_model().contains_key(id.0) ==> r@ == seq![
                Notification::Error(Error::UnknownJob),
            ],
            old(self).store_model().contains_key(id.0) && !legal_transition(
                old(self).store_model()[id.0].status,
                Status::Running,
            ) ==> r@ == seq![Notification::Error(Error::IllegalTransition)],
            old(self).store_model().contains_key(id.0) && legal_transition(
                old(self).store_model()[id.0].status,
                Status::Running,
            ) ==> r@ == seq![Notification::Status(id, Status::Running)],
    {
        let mut notes: Vec<Notification> = Vec::new();
        match self.store.set_status(id, Status::Running) {
            Ok(_) => notes.push(Notification::Status(id, Status::Running)),
            Err(e) => notes.push(Notification::Error(e)),
        }
        proof {
            assert(notes@ =~= seq![notes@[0]]);
        }
        notes
    }

    /// Records a routine's outcome, as the pool does when the routine
    /// returns: the payload and `Finished(Success)` on success, or
    /// `Finished(Error)` and an error notification on failure.
    pub fn finish_job(&mut self, id: JobId, outcome: Result<Vec<u8>, Error>) -> (r: Vec<
        Notification,
    >)
        requires
            old(self).wf(),
        ensures
            final(self).wf(),
            final(self).spec_state() == old(self).spec_state(),
            final(self).spec_pool_size() == old(self).spec_pool_size(),
            final(self).inbox_model() == old(self).inbox_model(),
            outcome matches Ok(bytes) ==> {
                &&& final(self).store_model() == finish_model(
                    old(self).store_model(),
                    id.0,
                    ResultStatus::Success,
                    bytes@,
                )
                &&& old(self).store_model().contains_key(id.0) && legal_transition(
                    old(self).store_model()[id.0].status,
                    Status::Finished(ResultStatus::Success),
                ) ==> r@ == seq![
                    Notification::Status(id, Status::Finished(ResultStatus::Success)),
                ]
                &&& !old(self).store_model().contains_key(id.0) ==> r@ == seq![
                    Notification::Error(Error::UnknownJob),
                ]
                &&& old(self).store_model().contains_key(id.0) && !legal_transition(
                    old(self).store_model()[id.0].status,
                    Status::Finished(ResultStatus::Success),
                ) ==> r@ == seq![Notification::Error(Error::IllegalTransition)]
            },
            outcome matches Err(re) ==> {
                &&& final(self).store_model() == finish_model(
                    old(self).store_model(),
                    id.0,
                    ResultStatus::Error,
                    Seq::<u8>::empty(),
                )
                &&& old(self).store_model().contains_key(id.0) && legal_transition(
                    old(self).store_model()[id.0].status,
                    Status::Finished(ResultStatus::Error),
                ) ==> r@ == seq![
                    Notification::Error(re),
                    Notification::Status(id, Status::Finished(ResultStatus::Error)),
                ]
                &&& !old(self).store_model().contains_key(id.0) ==> r@ == seq![
                    Notification::Error(re),
                    Notification::Error(Error::UnknownJob),
                ]
                &&& old(self).store_model().contains_key(id.0) && !legal_transition(
                    old(self).store_model()[id.0].status,
                    Status::Finished(ResultStatus::Error),
                ) ==> r@ == seq![Notification::Error(re), Notification::Error(
                    Error::IllegalTransition,
                )]
            },
    {
        let mut notes: Vec<Notification> = Vec::new();
        match outcome {
            Ok(bytes) => {
                match self.store.finish(id, ResultStatus::Success, bytes) {
                    Ok(_) => notes.push(
                        Notification::Status(id, Status::Finished(ResultStatus::Success)),
                    ),
                    Err(e) => notes.push(Notification::Error(e)),
                }
                proof {
                    assert(notes@ =~= seq![notes@[0]]);
                }
            },
            Err(re) => {
                notes.push(Notification::Error(re));
                match self.store.finish(id, ResultStatus::Error, Vec::new()) {
                    Ok(_) => notes.push(
                        Notification::Status(id, Status::Finished(ResultStatus::Error)),
                    ),
                    Err(e) => notes.push(Notification::Error(e)),
                }
                proof {
                    assert(notes@ =~= seq![notes@[0], notes@[1]]);
                }
            },
        }
        notes
    }

    /// The status of a stored job.
    pub fn job_status(&self, id: JobId) -> (r: Result<Status, Error>)
        requires
            self.wf(),
        ensures
            match r {
                Ok(s) => self.store_model().contains_key(id.0) && s == self.store_model()[
                    id.0
                ].status,
                Err(e) => !self.store_model().contains_key(id.0) && e == Error::UnknownJob,
            },
    {
        self.store.status(id)
    }

    /// The progression of a stored job; its step never exceeds its step
    /// count.
    pub fn job_progression(&self, id: JobId) -> (r: Result<Progression, Error>)
        requires
            self.wf(),
        ensures
            match r {
                Ok(p) => self.store_model().contains_key(id.0) && p == self.store_model()[
                    id.0
                ].progression && p.step <= p.steps,
                Err(e) => !self.store_model().contains_key(id.0) && e == Error::UnknownJob,
            },
    {
        self.store.progression(id)
    }

    /// The routine value of a stored job, as it was enqueued.
    pub fn job_routine(&self, id: JobId) -> (r: Result<&R, Error>)
        requires
            self.wf(),
        ensures
            match r {
                Ok(rt) => self.store_model().contains_key(id.0) && rt == self.store_model()[
                    id.0
                ].routine,
                Err(e) => !self.store_model().contains_key(id.0) && e == Error::UnknownJob,
            },
    {
        self.store.routine(id)
    }

    /// The private-data blob of a stored job, if the job carries one.
    pub fn job_private_data(&self, id: JobId) -> (r: Result<Option<&Vec<u8>>, Error>)
        requires
            self.wf(),
        ensures
            match r {
                Ok(b) => self.store_model().contains_key(id.0) && blob_opt_view(b)
                    == self.store_model()[id.0].private_data,
                Err(e) => !self.store_model().contains_key(id.0) && e == Error::UnknownJob,
            },
    {
        self.store.private_data(id)
    }

    /// The result payload of a successfully finished job; the first
    /// fetch may arm the record's `OnResultFetch` removal deadline.
    pub fn job_result(&mut self, id: JobId, now: u64) -> (r: Result<Vec<u8>, Error>)
        requires
            old(self).wf(),
        ensures
            final(self).wf(),
            final(self).spec_state() == old(self).spec_state(),
            final(self).spec_pool_size() == old(self).spec_pool_size(),
            final(self).inbox_model() == old(self).inbox_model(),
            final(self).store_model() == fetch_model(old(self).store_model(), id.0, now),
            !old(self).store_model().contains_key(id.0) ==> r == Err::<Vec<u8>, Error>(
                Error::UnknownJob,
            ),
            old(self).store_model().contains_key(id.0) && old(self).store_model()[id.0].status
                != Status::Finished(ResultStatus::Success) ==> r == Err::<Vec<u8>, Error>(
                Error::NotFinished,
            ),
            old(self).store_model().contains_key(id.0) && old(self).store_model()[id.0].status
                == Status::Finished(ResultStatus::Success) ==> (r matches Ok(b) && b@ == old(self).store_model()[id.0].result),
    {
        self.store.result(id, now)
    }

    /// A snapshot of the ids of all stored records, without duplicates.
    pub fn jobs(&self) -> (r: Vec<JobId>)
        requires
            self.wf(),
        ensures
            forall|k: u128|
                #[trigger] self.store_model().contains_key(k) <==> exists|i: int|
                    0 <= i < r@.len() && (#[trigger] r@[i]).0 == k,
            forall|i: int, j: int| 0 <= i < j < r@.len() ==> r@[i].0 != r@[j].0,
    {
        self.store.jobs()
    }

    /// Removes a stored record; a `Ready` or `Running` record stays and
    /// the call reports `Busy`.
    pub fn remove_job(&mut self, id: JobId) -> (r: Result<(), Error>)
        requires
            old(self).wf(),
        ensures
            final(self).wf(),
            final(self).spec_state() == old(self).spec_state(),
            final(self).spec_pool_size() == old(self).spec_pool_size(),
            final(self).inbox_model() == old(self).inbox_model(),
            final(self).store_model() == remove_model(old(self).store_model(), id.0),
            !old(self).store_model().contains_key(id.0) ==> r == Err::<(), Error>(
                Error::UnknownJob,
            ),
            old(self).store_model().contains_key(id.0) && (old(self).store_model()[id.0].status
                is Ready || old(self).store_model()[id.0].status is Running) ==> r == Err::<
                (),
                Error,
            >(Error::Busy),
            old(self).store_model().contains_key(id.0) && !(old(self).store_model()[id.0].status
                is Ready) && !(old(self).store_model()[id.0].status is Running) ==> r is Ok && !final(self).store_model().contains_key(id.0),
    {
        self.store.remove(id)
    }

    /// Removes every record whose deadline has passed at `now`, as the
    /// periodic sweeper does.
    pub fn sweep(&mut self, now: u64)
        requires
            old(self).wf(),
        ensures
            final(self).wf(),
            final(self).spec_state() == old(self).spec_state(),
            final(self).spec_pool_size() == old(self).spec_pool_size(),
            final(self).inbox_model() == old(self).inbox_model(),
            final(self).store_model() == sweep_model(old(self).store_model(), now),
    {
        self.store.sweep(now)
    }
}

} // verus!
