//! The pipeline as a mathematical state machine: what each operation does to
//! the queue, the running table, the permits and the notices it emits.
use vstd::prelude::*;

use crate::job::{identity_value, request_job, JobRequest, JobView};

verus! {

/// A running job's entry: its identity and whether its cancellation signal
/// has fired.
#[derive(Debug, Clone, Copy)]
pub struct RunningJob {
    pub id: u128,
    pub signalled: bool,
}

/// What the execution of a job reported.
pub enum OutcomeView {
    Succeeded,
    Failed(Seq<char>),
    Cancelled,
}

/// A notice or an action that the pipeline hands to its host, in the order
/// in which the host must perform them.
pub enum EffectView {
    /// The job was appended to the queue.
    Queued(u128),
    /// The job left the queue and holds a permit: run it.
    Started(JobView),
    /// Fire the cancellation signal of this running job.
    Signal(u128),
    Cancelled(u128),
    Completed(u128),
    Failed(u128, Seq<char>),
    /// The queue was cleared of these jobs, and every running job signalled.
    AllCancelled(Seq<u128>),
    /// A dispatch found a free permit, an empty queue and nothing running.
    AllCompleted,
}

pub struct PipelineModel {
    /// Jobs waiting for a permit, in submission order.
    pub queue: Seq<JobView>,
    /// Jobs holding a permit, in the order they started.
    pub running: Seq<RunningJob>,
    /// The concurrency limit asked for last.
    pub limit: nat,
    /// Permits that no job holds.
    pub available: nat,
    /// Permits still to be taken out of circulation when running jobs end,
    /// after the limit was lowered below the number of running jobs.
    pub retiring: nat,
    /// Effects not yet taken by the host.
    pub outbox: Seq<EffectView>,
    /// Every effect ever emitted.
    pub history: Seq<EffectView>,
}

/// How an effect bears on the life of one job.
pub enum Mark {
    Submitted,
    Started,
    Ended,
}

/// A job's terminal notices are `Cancelled`, `Completed` and `Failed` for
/// it, and an `AllCancelled` that took it out of the queue.
pub open spec fn mark_of(e: EffectView, id: u128) -> Option<Mark> {
    match e {
        EffectView::Queued(i) => if i == id { Some(Mark::Submitted) } else { None },
        EffectView::Started(j) => if j.id == id { Some(Mark::Started) } else { None },
        EffectView::Cancelled(i) => if i == id { Some(Mark::Ended) } else { None },
        EffectView::Completed(i) => if i == id { Some(Mark::Ended) } else { None },
        EffectView::Failed(i, _) => if i == id { Some(Mark::Ended) } else { None },
        EffectView::AllCancelled(ids) => if ids.contains(id) { Some(Mark::Ended) } else { None },
        _ => None,
    }
}

/// The marks of `id` in `h` since its last submission.
pub open spec fn life(h: Seq<EffectView>, id: u128) -> Seq<Mark>
    decreases h.len(),
{
    if h.len() == 0 {
        seq![]
    } else {
        let prev = life(h.drop_last(), id);
        match mark_of(h.last(), id) {
            Some(Mark::Submitted) => seq![],
            Some(m) => prev.push(m),
            None => prev,
        }
    }
}

/// Whether `id` was ever submitted in `h`.
pub open spec fn submitted(h: Seq<EffectView>, id: u128) -> bool
    decreases h.len(),
{
    if h.len() == 0 {
        false
    } else {
        mark_of(h.last(), id) == Some(Mark::Submitted) || submitted(h.drop_last(), id)
    }
}

impl PipelineModel {
    pub open spec fn is_queued(self, id: u128) -> bool {
        exists|i: int| 0 <= i < self.queue.len() && (#[trigger] self.queue[i]).id == id
    }

    pub open spec fn is_running(self, id: u128) -> bool {
        exists|i: int| 0 <= i < self.running.len() && (#[trigger] self.running[i]).id == id
    }

    pub open spec fn is_live(self, id: u128) -> bool {
        self.is_queued(id) || self.is_running(id)
    }

    /// A queued job has had no start and no terminal notice since it was
    /// submitted; a running one exactly one start and no terminal notice; one
    /// that has left the pipeline exactly one terminal notice, after one start
    /// if it ran and after none if it was cancelled while queued.
    pub open spec fn lifecycle_ok(self, id: u128) -> bool {
        if self.is_queued(id) {
            submitted(self.history, id) && life(self.history, id) == Seq::<Mark>::empty()
        } else if self.is_running(id) {
            submitted(self.history, id) && life(self.history, id) == seq![Mark::Started]
        } else {
            submitted(self.history, id) ==> (life(self.history, id) == seq![Mark::Ended]
                || life(self.history, id) == seq![Mark::Started, Mark::Ended])
        }
    }

    pub open spec fn wf(self) -> bool {
        &&& self.running.len() + self.available == self.limit + self.retiring
        &&& (self.available == 0 || self.retiring == 0)
        &&& forall|i: int, j: int|
            0 <= i < j < self.queue.len() ==> (#[trigger] self.queue[i]).id
                != (#[trigger] self.queue[j]).id
        &&& forall|i: int, j: int|
            0 <= i < j < self.running.len() ==> (#[trigger] self.running[i]).id
                != (#[trigger] self.running[j]).id
        &&& forall|i: int, j: int|
            0 <= i < self.queue.len() && 0 <= j < self.running.len() ==> (#[trigger] self.queue[i]).id
                != (#[trigger] self.running[j]).id
        &&& self.outbox.len() <= self.history.len()
        &&& self.history.subrange(
            self.history.len() - self.outbox.len(),
            self.history.len() as int,
        ) == self.outbox
        &&& forall|id: u128| #[trigger] self.lifecycle_ok(id)
    }

    pub open spec fn emit(self, e: EffectView) -> PipelineModel {
        PipelineModel { outbox: self.outbox.push(e), history: self.history.push(e), ..self }
    }
}

/// A pipeline with no job and `limit` free permits.
pub open spec fn initial(limit: nat) -> PipelineModel {
    PipelineModel {
        queue: seq![],
        running: seq![],
        limit,
        available: limit,
        retiring: 0,
        outbox: seq![],
        history: seq![],
    }
}

/// Takes a permit and moves the head of the queue to the running table.
pub open spec fn start_head(m: PipelineModel) -> PipelineModel {
    let job = m.queue[0];
    PipelineModel {
        queue: m.queue.drop_first(),
        running: m.running.push(RunningJob { id: job.id, signalled: false }),
        available: (m.available - 1) as nat,
        ..m
    }.emit(EffectView::Started(job))
}

/// Starts queued jobs in order while permits are free; where a permit is
/// free and nothing is queued or running, reports that all is done.
pub open spec fn dispatch(m: PipelineModel) -> PipelineModel
    decreases m.queue.len(),
{
    if m.available > 0 && m.queue.len() > 0 {
        dispatch(start_head(m))
    } else if m.available > 0 && m.running.len() == 0 {
        m.emit(EffectView::AllCompleted)
    } else {
        m
    }
}

/// Whether a request can enter the queue: its identity reads as a UUID that
/// no queued or running job has.
pub open spec fn admits(m: PipelineModel, req: JobRequest) -> bool {
    match identity_value(req.id@) {
        Some(id) => !m.is_live(id),
        None => false,
    }
}

/// Appends the job to the queue.
pub open spec fn submit(m: PipelineModel, job: JobView) -> PipelineModel {
    PipelineModel { queue: m.queue.push(job), ..m }.emit(EffectView::Queued(job.id))
}

/// Submits a request where it is admitted, and leaves the pipeline as it is
/// otherwise.
pub open spec fn accept(m: PipelineModel, req: JobRequest) -> PipelineModel {
    if admits(m, req) {
        submit(m, request_job(req, identity_value(req.id@)->Some_0))
    } else {
        m
    }
}

/// Accepts the requests one after the other.
pub open spec fn accept_all(m: PipelineModel, reqs: Seq<JobRequest>) -> PipelineModel
    decreases reqs.len(),
{
    if reqs.len() == 0 {
        m
    } else {
        accept(accept_all(m, reqs.drop_last()), reqs.last())
    }
}

/// Index of the queued job with identity `id`.
pub open spec fn queue_index(m: PipelineModel, id: u128) -> int {
    choose|i: int| 0 <= i < m.queue.len() && m.queue[i].id == id
}

/// Index of the running job with identity `id`.
pub open spec fn running_index(m: PipelineModel, id: u128) -> int {
    choose|i: int| 0 <= i < m.running.len() && m.running[i].id == id
}

/// The running table with the signal of `id` fired.
pub open spec fn signal_one(running: Seq<RunningJob>, id: u128) -> Seq<RunningJob> {
    running.map_values(
        |r: RunningJob| if r.id == id { RunningJob { id: r.id, signalled: true } } else { r },
    )
}

/// Cancels one job: a running job has its signal fired and keeps its permit
/// until its execution ends; a queued job leaves the queue, the others keep
/// their order; an unknown identity changes nothing.
pub open spec fn cancel(m: PipelineModel, id: u128) -> PipelineModel {
    if m.is_running(id) {
        PipelineModel { running: signal_one(m.running, id), ..m }.emit(EffectView::Signal(id))
    } else if m.is_queued(id) {
        PipelineModel { queue: m.queue.remove(queue_index(m, id)), ..m }.emit(
            EffectView::Cancelled(id),
        )
    } else {
        m
    }
}

/// Identities of the queued jobs, in order.
pub open spec fn queue_ids(queue: Seq<JobView>) -> Seq<u128> {
    queue.map_values(|j: JobView| j.id)
}

pub open spec fn signal_all(running: Seq<RunningJob>) -> Seq<RunningJob> {
    running.map_values(|r: RunningJob| RunningJob { id: r.id, signalled: true })
}

pub open spec fn signal_effects(running: Seq<RunningJob>) -> Seq<EffectView> {
    running.map_values(|r: RunningJob| EffectView::Signal(r.id))
}

/// Empties the queue and fires the signal of every running job, then emits
/// one notice that names the jobs taken out of the queue.
pub open spec fn cancel_all(m: PipelineModel) -> PipelineModel {
    let tail = signal_effects(m.running).push(EffectView::AllCancelled(queue_ids(m.queue)));
    PipelineModel {
        queue: seq![],
        running: signal_all(m.running),
        outbox: m.outbox + tail,
        history: m.history + tail,
        ..m
    }
}

/// The terminal notice of a job whose execution ended: `Cancelled` whenever
/// its signal fired, whatever the execution reported.
pub open spec fn terminal_notice(id: u128, signalled: bool, outcome: OutcomeView) -> EffectView {
    if signalled {
        EffectView::Cancelled(id)
    } else {
        match outcome {
            OutcomeView::Succeeded => EffectView::Completed(id),
            OutcomeView::Failed(detail) => EffectView::Failed(id, detail),
            OutcomeView::Cancelled => EffectView::Cancelled(id),
        }
    }
}

/// Gives a permit back: to the retirement still owed, if any, else to the
/// free ones.
pub open spec fn release(m: PipelineModel) -> PipelineModel {
    if m.retiring > 0 {
        PipelineModel { retiring: (m.retiring - 1) as nat, ..m }
    } else {
        PipelineModel { available: m.available + 1, ..m }
    }
}

/// A running job's entry leaves the running table, its terminal notice is
/// emitted and its permit released.
pub open spec fn retire_entry(m: PipelineModel, id: u128, outcome: OutcomeView) -> PipelineModel {
    let i = running_index(m, id);
    release(
        PipelineModel { running: m.running.remove(i), ..m }.emit(
            terminal_notice(id, m.running[i].signalled, outcome),
        ),
    )
}

/// The execution of a running job ended: its entry leaves the running table,
/// its terminal notice is emitted, its permit is released and the queue is
/// dispatched again.
pub open spec fn finish(m: PipelineModel, id: u128, outcome: OutcomeView) -> PipelineModel {
    if m.is_running(id) {
        dispatch(retire_entry(m, id, outcome))
    } else {
        m
    }
}

pub open spec fn min(a: nat, b: nat) -> nat {
    if a <= b {
        a
    } else {
        b
    }
}

/// The permits after the limit becomes `n`. Raising it first cancels
/// retirements still owed, then frees the remaining new permits; lowering it
/// takes free permits out of circulation and owes the rest, to be retired as
/// running jobs end.
pub open spec fn rescale(m: PipelineModel, n: nat) -> PipelineModel {
    if n > m.limit {
        let d = (n - m.limit) as nat;
        let k = min(m.retiring, d);
        PipelineModel {
            limit: n,
            retiring: (m.retiring - k) as nat,
            available: (m.available + d - k) as nat,
            ..m
        }
    } else if n < m.limit {
        let d = (m.limit - n) as nat;
        let k = min(m.available, d);
        PipelineModel {
            limit: n,
            available: (m.available - k) as nat,
            retiring: (m.retiring + d - k) as nat,
            ..m
        }
    } else {
        m
    }
}

/// Changes the concurrency limit, and dispatches where it rose. No running
/// job is interrupted.
pub open spec fn resize(m: PipelineModel, n: nat) -> PipelineModel {
    if n > m.limit {
        dispatch(rescale(m, n))
    } else {
        rescale(m, n)
    }
}

} // verus!
