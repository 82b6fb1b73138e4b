//! The dispatcher: a FIFO queue of jobs, a running table, and the permits
//! that bound how many jobs run at once. It performs no I/O: every notice and
//! every action it decides on goes to an outbox that its host drains with
//! `take_effects` and carries out in order.
use vstd::prelude::*;

use crate::error::Error;
use crate::job::{
    identity_value, job_id_text, parse_job_id, request_job, uuid_text, JobRequest, PipelineJob,
};
use crate::model::{
    accept, accept_all, admits, cancel, cancel_all, dispatch, finish, initial, queue_ids,
    queue_index, release, rescale, resize, retire_entry, running_index, signal_all,
    signal_effects, signal_one, start_head, submit, terminal_notice, EffectView, OutcomeView,
    PipelineModel, RunningJob,
};
use crate::wellformed::{
    lemma_cancel, lemma_cancel_all, lemma_emit_unmarked, lemma_finish, lemma_initial,
    lemma_resize, lemma_start_head, lemma_submit,
};

verus! {

/// What the execution of a job reported.
#[derive(Debug)]
pub enum Outcome {
    Succeeded,
    Failed(String),
    Cancelled,
}

impl View for Outcome {
    type V = OutcomeView;

    open spec fn view(&self) -> OutcomeView {
        match self {
            Outcome::Succeeded => OutcomeView::Succeeded,
            Outcome::Failed(d) => OutcomeView::Failed(d@),
            Outcome::Cancelled => OutcomeView::Cancelled,
        }
    }
}

/// A notice to deliver or an action to perform; see `EffectView`.
#[derive(Debug)]
pub enum Effect {
    Queued(u128),
    Started(PipelineJob),
    Signal(u128),
    Cancelled(u128),
    Completed(u128),
    Failed(u128, String),
    AllCancelled(Vec<u128>),
    AllCompleted,
}

impl View for Effect {
    type V = EffectView;

    open spec fn view(&self) -> EffectView {
        match self {
            Effect::Queued(i) => EffectView::Queued(*i),
            Effect::Started(j) => EffectView::Started(j@),
            Effect::Signal(i) => EffectView::Signal(*i),
            Effect::Cancelled(i) => EffectView::Cancelled(*i),
            Effect::Completed(i) => EffectView::Completed(*i),
            Effect::Failed(i, d) => EffectView::Failed(*i, d@),
            Effect::AllCancelled(ids) => EffectView::AllCancelled(ids@),
            Effect::AllCompleted => EffectView::AllCompleted,
        }
    }
}

pub struct PipelineManager {
    queue: Vec<PipelineJob>,
    running: Vec<RunningJob>,
    current_limit: usize,
    available: usize,
    retiring: usize,
    effects: Vec<Effect>,
    history: Ghost<Seq<EffectView>>,
}

impl View for PipelineManager {
    type V = PipelineModel;

    closed spec fn view(&self) -> PipelineModel {
        PipelineModel {
            queue: self.queue@.map_values(|j: PipelineJob| j@),
            running: self.running@,
            limit: self.current_limit as nat,
            available: self.available as nat,
            retiring: self.retiring as nat,
            outbox: self.effects@.map_values(|e: Effect| e@),
            history: self.history@,
        }
    }
}

impl PipelineManager {
    pub open spec fn wf(&self) -> bool {
        self@.wf()
    }

    /// A pipeline with no job and `max_concurrency` free permits.
    pub fn new(max_concurrency: usize) -> (r: Self)
        ensures
            r.wf(),
            r@ == initial(max_concurrency as nat),
    {
        let r = PipelineManager {
            queue: Vec::new(),
            running: Vec::new(),
            current_limit: max_concurrency,
            available: max_concurrency,
            retiring: 0,
            effects: Vec::new(),
            history: Ghost(Seq::empty()),
        };
        proof {
            assert(r@.queue =~= Seq::empty());
            assert(r@.outbox =~= Seq::empty());
            assert(r@ == initial(max_concurrency as nat));
            lemma_initial(max_concurrency as nat);
        }
        r
    }

    fn push_effect(&mut self, e: Effect)
        ensures
            final(self)@ == old(self)@.emit(e@),
    {
        let ghost ev = e@;
        self.history = Ghost(self.history@.push(ev));
        self.effects.push(e);
        proof {
            assert(self@.outbox =~= old(self)@.outbox.push(ev));
        }
    }

    fn find_queued(&self, id: u128) -> (r: Option<usize>)
        ensures
            match r {
                Some(i) => i < self@.queue.len() && self@.queue[i as int].id == id,
                None => !self@.is_queued(id),
            },
    {
        let mut i: usize = 0;
        while i < self.queue.len()
            invariant
                i <= self.queue.len(),
                forall|k: int| 0 <= k < i ==> (#[trigger] self@.queue[k]).id != id,
            decreases self.queue.len() - i,
        {
            if self.queue[i].id == id {
                return Some(i);
            }
            i = i + 1;
        }
        None
    }

    fn find_running(&self, id: u128) -> (r: Option<usize>)
        ensures
            match r {
                Some(i) => i < self@.running.len() && self@.running[i as int].id == id,
                None => !self@.is_running(id),
            },
    {
        let mut i: usize = 0;
        while i < self.running.len()
            invariant
                i <= self.running.len(),
                forall|k: int| 0 <= k < i ==> (#[trigger] self@.running[k]).id != id,
            decreases self.running.len() - i,
        {
            if self.running[i].id == id {
                return Some(i);
            }
            i = i + 1;
        }
        None
    }

    /// Starts queued jobs in submission order while permits are free. Where a
    /// permit is free and neither a queued nor a running job is left, emits
    /// `AllCompleted`.
    pub fn try_dispatch(&mut self)
        requires
            old(self).wf(),
        ensures
            final(self).wf(),
            final(self)@ == dispatch(old(self)@),
    {
        let ghost m0 = self@;
        loop
            invariant_except_break
                self.wf(),
                dispatch(self@) == dispatch(m0),
            ensures
                self.wf(),
                self@ == dispatch(m0),
            decreases self.queue.len(),
        {
            if self.available == 0 {
                break;
            }
            if self.queue.len() == 0 {
                if self.running.len() == 0 {
                    proof {
                        lemma_emit_unmarked(self@, EffectView::AllCompleted);
                    }
                    self.push_effect(Effect::AllCompleted);
                }
                break;
            }
            let ghost before = self@;
            proof {
                lemma_start_head(before);
            }
            let job = self.queue.remove(0);
            self.available = self.available - 1;
            self.running.push(RunningJob { id: job.id, signalled: false });
            self.push_effect(Effect::Started(job));
            proof {
                assert(self@.queue =~= before.queue.drop_first());
                assert(self@ == start_head(before));
            }
        }
    }

    /// Appends a job to the tail of the queue and emits `Queued`, without
    /// dispatching; refused with `InvalidIdentity` where a queued or running
    /// job has its identity.
    pub fn submit_job(&mut self, job: PipelineJob) -> (r: Result<(), Error>)
        requires
            old(self).wf(),
        ensures
            final(self).wf(),
            r is Ok <==> !old(self)@.is_live(job.id),
            r is Ok ==> final(self)@ == submit(old(self)@, job@),
            r is Err ==> final(self)@ == old(self)@ && r == Err::<(), Error>(Error::InvalidIdentity),
    {
        if self.find_queued(job.id).is_some() || self.find_running(job.id).is_some() {
            return Err(Error::InvalidIdentity);
        }
        let ghost m0 = self@;
        let ghost jv = job@;
        proof {
            lemma_submit(m0, jv);
        }
        let id = job.id;
        self.queue.push(job);
        self.push_effect(Effect::Queued(id));
        proof {
            assert(self@.queue =~= m0.queue.push(jv));
        }
        Ok(())
    }

    /// Appends a job to the tail of the queue and emits `Queued`, without
    /// dispatching. The job is refused with `InvalidIdentity` where its
    /// identity is not a UUID or is that of a queued or running job. On
    /// success returns the canonical text of the identity.
    pub fn add_job(&mut self, job: JobRequest) -> (r: Result<String, Error>)
        requires
            old(self).wf(),
        ensures
            final(self).wf(),
            final(self)@ == accept(old(self)@, job),
            match r {
                Ok(s) => admits(old(self)@, job) && s@ == uuid_text(identity_value(job.id@)->Some_0),
                Err(e) => !admits(old(self)@, job) && e == Error::InvalidIdentity,
            },
    {
        let id = match parse_job_id(job.id.as_str()) {
            Some(v) => v,
            None => {
                return Err(Error::InvalidIdentity);
            },
        };
        let ghost req = job;
        let JobRequest { id: _, path, extension, category } = job;
        let entry = PipelineJob { id, path, extension, category };
        proof {
            assert(entry@ == request_job(req, id));
        }
        match self.submit_job(entry) {
            Ok(()) => Ok(job_id_text(id)),
            Err(e) => Err(e),
        }
    }

    /// Submits a batch: each job in input order as `add_job` does, then one
    /// dispatch. The result holds, for each job in order, what `add_job`
    /// returned for it.
    pub fn add_jobs(&mut self, jobs: Vec<JobRequest>) -> (r: Vec<Result<String, Error>>)
        requires
            old(self).wf(),
        ensures
            final(self).wf(),
            final(self)@ == dispatch(accept_all(old(self)@, jobs@)),
            r.len() == jobs.len(),
            forall|i: int|
                0 <= i < jobs.len() ==> match #[trigger] r@[i] {
                    Ok(s) => admits(accept_all(old(self)@, jobs@.take(i)), jobs@[i]) && s@
                        == uuid_text(identity_value(jobs@[i].id@)->Some_0),
                    Err(e) => !admits(accept_all(old(self)@, jobs@.take(i)), jobs@[i]) && e
                        == Error::InvalidIdentity,
                },
    {
        let ghost m0 = self@;
        let ghost reqs = jobs@;
        let total = jobs.len();
        let mut rest = jobs;
        let mut results: Vec<Result<String, Error>> = Vec::new();
        let mut i: usize = 0;
        proof {
            assert(reqs.take(0) =~= Seq::<JobRequest>::empty());
            assert(rest@ =~= reqs.skip(0));
        }
        while rest.len() > 0
            invariant
                self.wf(),
                i + rest.len() == reqs.len(),
                reqs.len() == total,
                rest@ =~= reqs.skip(i as int),
                self@ == accept_all(m0, reqs.take(i as int)),
                results.len() == i,
                forall|k: int|
                    0 <= k < i ==> match #[trigger] results@[k] {
                        Ok(s) => admits(accept_all(m0, reqs.take(k)), reqs[k]) && s@ == uuid_text(
                            identity_value(reqs[k].id@)->Some_0,
                        ),
                        Err(e) => !admits(accept_all(m0, reqs.take(k)), reqs[k]) && e
                            == Error::InvalidIdentity,
                    },
            decreases rest.len(),
        {
            let job = rest.remove(0);
            proof {
                assert(job == reqs[i as int]);
                assert(reqs.take(i + 1).drop_last() =~= reqs.take(i as int));
                assert(reqs.take(i + 1).last() == reqs[i as int]);
            }
            let res = self.add_job(job);
            results.push(res);
            i = i + 1;
            proof {
                assert(rest@ =~= reqs.skip(i as int));
            }
        }
        proof {
            assert(reqs.take(i as int) =~= reqs);
        }
        self.try_dispatch();
        results
    }

    /// Cancels the job with this identity. A running job has its
    /// cancellation signal fired (a `Signal` effect) and keeps running until
    /// its execution reports back; a queued job leaves the queue, the others
    /// keeping their order, and `Cancelled` is emitted. `JobNotFound` where no
    /// queued or running job has it.
    pub fn cancel_id(&mut self, v: u128) -> (r: Result<(), Error>)
        requires
            old(self).wf(),
        ensures
            final(self).wf(),
            final(self)@ == cancel(old(self)@, v),
            r is Ok <==> old(self)@.is_live(v),
            r is Err ==> r == Err::<(), Error>(Error::JobNotFound),
    {
        let ghost m0 = self@;
        proof {
            lemma_cancel(m0, v);
        }
        match self.find_running(v) {
            Some(i) => {
                self.running.set(i, RunningJob { id: v, signalled: true });
                proof {
                    assert forall|k: int| 0 <= k < self.running@.len() implies self.running@[k]
                        == signal_one(m0.running, v)[k] by {
                        if k != i {
                            assert(m0.running[k].id != m0.running[i as int].id);
                        }
                    }
                    assert(self.running@ =~= signal_one(m0.running, v));
                }
                self.push_effect(Effect::Signal(v));
                return Ok(());
            },
            None => {},
        }
        match self.find_queued(v) {
            Some(i) => {
                let _job = self.queue.remove(i);
                proof {
                    let q = queue_index(m0, v);
                    assert(0 <= q < m0.queue.len() && m0.queue[q].id == v);
                    if q != i {
                        if q < i {
                            assert(m0.queue[q].id != m0.queue[i as int].id);
                        } else {
                            assert(m0.queue[i as int].id != m0.queue[q].id);
                        }
                    }
                    assert(self@.queue =~= m0.queue.remove(q));
                }
                self.push_effect(Effect::Cancelled(v));
                Ok(())
            },
            None => Err(Error::JobNotFound),
        }
    }

    /// Cancels the job whose identity the text gives, as `cancel_id` does;
    /// `JobNotFound` where the text is no UUID.
    pub fn cancel_job(&mut self, id: String) -> (r: Result<(), Error>)
        requires
            old(self).wf(),
        ensures
            final(self).wf(),
            match identity_value(id@) {
                None => final(self)@ == old(self)@ && r == Err::<(), Error>(Error::JobNotFound),
                Some(v) => {
                    &&& final(self)@ == cancel(old(self)@, v)
                    &&& r is Ok <==> old(self)@.is_live(v)
                    &&& r is Err ==> r == Err::<(), Error>(Error::JobNotFound)
                },
            },
    {
        match parse_job_id(id.as_str()) {
            Some(v) => self.cancel_id(v),
            None => Err(Error::JobNotFound),
        }
    }

    /// Empties the queue and fires the cancellation signal of every running
    /// job, then emits one `AllCancelled` naming the jobs taken out of the
    /// queue. Running jobs keep their permits until their executions report
    /// back.
    pub fn cancel_all(&mut self)
        requires
            old(self).wf(),
        ensures
            final(self).wf(),
            final(self)@ == cancel_all(old(self)@),
    {
        let ghost m0 = self@;
        proof {
            lemma_cancel_all(m0);
        }
        let mut cleared: Vec<u128> = Vec::new();
        let mut i: usize = 0;
        while i < self.queue.len()
            invariant
                self@ == m0,
                i <= self.queue.len(),
                cleared@ =~= queue_ids(m0.queue).take(i as int),
            decreases self.queue.len() - i,
        {
            cleared.push(self.queue[i].id);
            i = i + 1;
            proof {
                assert(cleared@ =~= queue_ids(m0.queue).take(i as int));
            }
        }
        proof {
            assert(cleared@ =~= queue_ids(m0.queue));
        }
        self.queue.clear();
        let mut j: usize = 0;
        while j < self.running.len()
            invariant
                j <= self.running.len(),
                self.running@.len() == m0.running.len(),
                self@.queue == Seq::<crate::job::JobView>::empty(),
                self@.limit == m0.limit,
                self@.available == m0.available,
                self@.retiring == m0.retiring,
                forall|k: int| 0 <= k < j ==> self.running@[k] == signal_all(m0.running)[k],
                forall|k: int| j <= k < self.running@.len() ==> self.running@[k] == m0.running[k],
                self@.outbox == m0.outbox + signal_effects(m0.running).take(j as int),
                self@.history == m0.history + signal_effects(m0.running).take(j as int),
            decreases self.running.len() - j,
        {
            let id = self.running[j].id;
            self.running.set(j, RunningJob { id, signalled: true });
            self.push_effect(Effect::Signal(id));
            j = j + 1;
            proof {
                assert(signal_effects(m0.running).take(j as int) =~= signal_effects(
                    m0.running,
                ).take(j - 1).push(EffectView::Signal(id)));
                assert(m0.outbox + signal_effects(m0.running).take(j as int) =~= (m0.outbox
                    + signal_effects(m0.running).take(j - 1)).push(EffectView::Signal(id)));
                assert(m0.history + signal_effects(m0.running).take(j as int) =~= (m0.history
                    + signal_effects(m0.running).take(j - 1)).push(EffectView::Signal(id)));
            }
        }
        let ghost ids = cleared@;
        self.push_effect(Effect::AllCancelled(cleared));
        proof {
            assert(self.running@ =~= signal_all(m0.running));
            assert(signal_effects(m0.running).take(j as int) =~= signal_effects(m0.running));
            let tail = signal_effects(m0.running).push(EffectView::AllCancelled(ids));
            assert(self@.outbox =~= m0.outbox + tail);
            assert(self@.history =~= m0.history + tail);
            assert(self@ == cancel_all(m0));
        }
    }

    /// The execution of a running job reports back: its entry leaves the
    /// running table, its terminal notice is emitted (`Cancelled` whenever its
    /// signal fired, else what the execution reported), its permit is
    /// released and the queue dispatched. `JobNotFound` where no running job
    /// has this identity.
    pub fn finish_job(&mut self, id: u128, outcome: Outcome) -> (r: Result<(), Error>)
        requires
            old(self).wf(),
        ensures
            final(self).wf(),
            final(self)@ == finish(old(self)@, id, outcome@),
            r is Ok <==> old(self)@.is_running(id),
            r is Err ==> r == Err::<(), Error>(Error::JobNotFound),
    {
        let i = match self.find_running(id) {
            Some(i) => i,
            None => {
                return Err(Error::JobNotFound);
            },
        };
        let ghost m0 = self@;
        proof {
            lemma_finish(m0, id, outcome@);
            let q = running_index(m0, id);
            assert(0 <= q < m0.running.len() && m0.running[q].id == id);
            if q != i {
                if q < i {
                    assert(m0.running[q].id != m0.running[i as int].id);
                } else {
                    assert(m0.running[i as int].id != m0.running[q].id);
                }
            }
        }
        let entry = self.running.remove(i);
        let notice = if entry.signalled {
            Effect::Cancelled(id)
        } else {
            match outcome {
                Outcome::Succeeded => Effect::Completed(id),
                Outcome::Failed(detail) => Effect::Failed(id, detail),
                Outcome::Cancelled => Effect::Cancelled(id),
            }
        };
        proof {
            assert(notice@ == terminal_notice(id, m0.running[i as int].signalled, outcome@));
        }
        self.push_effect(notice);
        if self.retiring > 0 {
            self.retiring = self.retiring - 1;
        } else {
            self.available = self.available + 1;
        }
        proof {
            let s = PipelineModel { running: m0.running.remove(i as int), ..m0 };
            assert(self@ == release(s.emit(notice@)));
            assert(self@ == retire_entry(m0, id, outcome@));
        }
        self.try_dispatch();
        Ok(())
    }

    /// Changes the concurrency limit at once. Raising it first cancels
    /// retirements still owed, frees the rest of the new permits and
    /// dispatches; lowering it takes free permits out of circulation and owes
    /// the others, which running jobs give up as they end. No running job is
    /// interrupted.
    pub fn set_concurrency(&mut self, new_limit: usize)
        requires
            old(self).wf(),
        ensures
            final(self).wf(),
            final(self)@ == resize(old(self)@, new_limit as nat),
    {
        let ghost m0 = self@;
        proof {
            lemma_resize(m0, new_limit as nat);
        }
        if new_limit > self.current_limit {
            let d = new_limit - self.current_limit;
            let k = if self.retiring <= d { self.retiring } else { d };
            self.retiring = self.retiring - k;
            self.available = self.available + (d - k);
            self.current_limit = new_limit;
            proof {
                assert(self@ == rescale(m0, new_limit as nat));
            }
            self.try_dispatch();
        } else if new_limit < self.current_limit {
            let d = self.current_limit - new_limit;
            let k = if self.available <= d { self.available } else { d };
            let running = self.running.len();
            proof {
                // what stays owed is at most what runs
                assert(self.retiring + (d - k) <= running);
            }
            self.available = self.available - k;
            self.retiring = self.retiring + (d - k);
            self.current_limit = new_limit;
        }
    }

    /// Hands over the effects emitted since the last call, oldest first.
    pub fn take_effects(&mut self) -> (r: Vec<Effect>)
        requires
            old(self).wf(),
        ensures
            final(self).wf(),
            r@.map_values(|e: Effect| e@) == old(self)@.outbox,
            final(self)@ == (PipelineModel { outbox: Seq::empty(), ..old(self)@ }),
    {
        let ghost m0 = self@;
        let mut r: Vec<Effect> = Vec::new();
        core::mem::swap(&mut r, &mut self.effects);
        proof {
            assert(self@.outbox =~= Seq::<EffectView>::empty());
            assert(self@ == (PipelineModel { outbox: Seq::empty(), ..m0 }));
            let n = self@;
            assert(n.queue == m0.queue && n.running == m0.running);
            assert(n.history.subrange(n.history.len() - 0, n.history.len() as int) =~= n.outbox);
            assert forall|x: u128| #[trigger] n.lifecycle_ok(x) by {
                assert(m0.lifecycle_ok(x));
                assert(n.is_queued(x) == m0.is_queued(x));
                assert(n.is_running(x) == m0.is_running(x));
            }
        }
        r
    }

    /// The concurrency limit asked for last.
    pub fn limit(&self) -> (r: usize)
        ensures
            r == self@.limit,
    {
        self.current_limit
    }

    /// How many jobs wait in the queue.
    pub fn queued_count(&self) -> (r: usize)
        ensures
            r == self@.queue.len(),
    {
        self.queue.len()
    }

    /// How many jobs hold a permit.
    pub fn running_count(&self) -> (r: usize)
        ensures
            r == self@.running.len(),
    {
        self.running.len()
    }

    /// Whether a job with this identity waits in the queue.
    pub fn is_queued(&self, id: u128) -> (r: bool)
        ensures
            r == self@.is_queued(id),
    {
        self.find_queued(id).is_some()
    }

    /// Whether a job with this identity holds a permit.
    pub fn is_running(&self, id: u128) -> (r: bool)
        ensures
            r == self@.is_running(id),
    {
        self.find_running(id).is_some()
    }
}

} // verus!
