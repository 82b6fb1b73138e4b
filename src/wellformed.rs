//! Every operation of the model keeps it well formed.
use vstd::prelude::*;

use crate::job::JobView;
use crate::model::{
    cancel, cancel_all, dispatch, finish, initial, life, mark_of, queue_ids, queue_index, release,
    rescale, resize, retire_entry, running_index, signal_effects, signal_one, start_head, submit,
    submitted, terminal_notice, EffectView, Mark, OutcomeView, PipelineModel, RunningJob,
};

verus! {

pub open spec fn outbox_ok(m: PipelineModel) -> bool {
    &&& m.outbox.len() <= m.history.len()
    &&& m.history.subrange(m.history.len() - m.outbox.len(), m.history.len() as int) == m.outbox
}

pub open spec fn life_after(prev: Seq<Mark>, e: EffectView, id: u128) -> Seq<Mark> {
    match mark_of(e, id) {
        Some(Mark::Submitted) => Seq::<Mark>::empty(),
        Some(m) => prev.push(m),
        None => prev,
    }
}

proof fn lemma_life_push(h: Seq<EffectView>, e: EffectView, id: u128)
    ensures
        life(h.push(e), id) == life_after(life(h, id), e, id),
        submitted(h.push(e), id) == (mark_of(e, id) == Some(Mark::Submitted) || submitted(h, id)),
{
    assert(h.push(e).drop_last() =~= h);
}

proof fn lemma_emit_outbox(m: PipelineModel, e: EffectView)
    requires
        outbox_ok(m),
    ensures
        outbox_ok(m.emit(e)),
{
    let n = m.emit(e);
    assert(n.history.subrange(n.history.len() - n.outbox.len(), n.history.len() as int)
        =~= n.outbox);
}

/// Emitting an effect that marks no job keeps a well-formed model well formed.
pub proof fn lemma_emit_unmarked(m: PipelineModel, e: EffectView)
    requires
        m.wf(),
        forall|id: u128| #[trigger] mark_of(e, id) is None,
    ensures
        m.emit(e).wf(),
{
    let n = m.emit(e);
    lemma_emit_outbox(m, e);
    assert(n.queue == m.queue && n.running == m.running);
    assert forall|id: u128| #[trigger] n.lifecycle_ok(id) by {
        lemma_life_push(m.history, e, id);
        assert(m.lifecycle_ok(id));
        assert(mark_of(e, id) is None);
        assert(n.is_queued(id) == m.is_queued(id));
        assert(n.is_running(id) == m.is_running(id));
    }
}

/// Starting the head of the queue keeps the model well formed.
pub proof fn lemma_start_head(m: PipelineModel)
    requires
        m.wf(),
        m.available > 0,
        m.queue.len() > 0,
    ensures
        start_head(m).wf(),
        start_head(m).queue.len() == m.queue.len() - 1,
{
    let job = m.queue[0];
    let e = EffectView::Started(job);
    let s = PipelineModel {
        queue: m.queue.drop_first(),
        running: m.running.push(RunningJob { id: job.id, signalled: false }),
        available: (m.available - 1) as nat,
        ..m
    };
    let n = start_head(m);
    assert(n == s.emit(e));
    lemma_emit_outbox(s, e);
    assert(m.is_queued(job.id));
    assert(!m.is_running(job.id));
    assert forall|id: u128| id != job.id implies (n.is_queued(id) == m.is_queued(id)
        && n.is_running(id) == m.is_running(id)) by {
        if m.is_queued(id) {
            let i = choose|i: int| 0 <= i < m.queue.len() && m.queue[i].id == id;
            assert(i != 0);
            assert(n.queue[i - 1] == m.queue[i]);
        }
        if n.is_queued(id) {
            let i = choose|i: int| 0 <= i < n.queue.len() && n.queue[i].id == id;
            assert(n.queue[i] == m.queue[i + 1]);
        }
        if m.is_running(id) {
            let i = choose|i: int| 0 <= i < m.running.len() && m.running[i].id == id;
            assert(n.running[i] == m.running[i]);
        }
        if n.is_running(id) {
            let i = choose|i: int| 0 <= i < n.running.len() && n.running[i].id == id;
            if i < m.running.len() {
                assert(n.running[i] == m.running[i]);
            }
        }
    }
    assert(!n.is_queued(job.id)) by {
        if n.is_queued(job.id) {
            let i = choose|i: int| 0 <= i < n.queue.len() && n.queue[i].id == job.id;
            assert(n.queue[i] == m.queue[i + 1]);
        }
    }
    assert(n.running[m.running.len() as int].id == job.id);
    assert(n.is_running(job.id));
    assert forall|i: int, j: int|
        0 <= i < j < n.queue.len() implies (#[trigger] n.queue[i]).id
            != (#[trigger] n.queue[j]).id by {
        assert(n.queue[i] == m.queue[i + 1]);
        assert(n.queue[j] == m.queue[j + 1]);
    }
    assert forall|i: int, j: int|
        0 <= i < j < n.running.len() implies (#[trigger] n.running[i]).id
            != (#[trigger] n.running[j]).id by {
        if j == m.running.len() {
            assert(n.running[i] == m.running[i]);
            assert(m.is_running(m.running[i].id));
        }
    }
    assert forall|id: u128| #[trigger] n.lifecycle_ok(id) by {
        lemma_life_push(m.history, e, id);
        assert(m.lifecycle_ok(id));
        if id == job.id {
            assert(life(n.history, id) =~= seq![Mark::Started]);
        }
    }
}

/// A model with the jobs and the effects of a well-formed one, and a sound
/// count of permits, is well formed.
proof fn lemma_same_jobs(m: PipelineModel, n: PipelineModel)
    requires
        m.wf(),
        n.queue == m.queue,
        n.running == m.running,
        n.outbox == m.outbox,
        n.history == m.history,
        n.running.len() + n.available == n.limit + n.retiring,
        n.available == 0 || n.retiring == 0,
    ensures
        n.wf(),
{
    assert forall|id: u128| #[trigger] n.lifecycle_ok(id) by {
        assert(m.lifecycle_ok(id));
        assert(n.is_queued(id) == m.is_queued(id));
        assert(n.is_running(id) == m.is_running(id));
    }
}

/// Dispatching keeps the model well formed.
pub proof fn lemma_dispatch(m: PipelineModel)
    requires
        m.wf(),
    ensures
        dispatch(m).wf(),
    decreases m.queue.len(),
{
    if m.available > 0 && m.queue.len() > 0 {
        lemma_start_head(m);
        lemma_dispatch(start_head(m));
    } else if m.available > 0 && m.running.len() == 0 {
        lemma_emit_unmarked(m, EffectView::AllCompleted);
    }
}

/// Submitting a job whose identity is not live keeps the model well formed.
pub proof fn lemma_submit(m: PipelineModel, job: JobView)
    requires
        m.wf(),
        !m.is_live(job.id),
    ensures
        submit(m, job).wf(),
{
    let e = EffectView::Queued(job.id);
    let s = PipelineModel { queue: m.queue.push(job), ..m };
    let n = submit(m, job);
    assert(n == s.emit(e));
    lemma_emit_outbox(s, e);
    assert(n.queue[m.queue.len() as int] == job);
    assert forall|id: u128| id != job.id implies (n.is_queued(id) == m.is_queued(id)
        && n.is_running(id) == m.is_running(id)) by {
        if m.is_queued(id) {
            let i = choose|i: int| 0 <= i < m.queue.len() && m.queue[i].id == id;
            assert(n.queue[i] == m.queue[i]);
        }
        if n.is_queued(id) {
            let i = choose|i: int| 0 <= i < n.queue.len() && n.queue[i].id == id;
            assert(i < m.queue.len());
            assert(n.queue[i] == m.queue[i]);
        }
        assert(n.running == m.running);
    }
    assert(n.is_queued(job.id));
    assert(n.running == m.running);
    assert forall|i: int, j: int|
        0 <= i < j < n.queue.len() implies (#[trigger] n.queue[i]).id
            != (#[trigger] n.queue[j]).id by {
        if j == m.queue.len() {
            assert(n.queue[i] == m.queue[i]);
            assert(m.is_queued(m.queue[i].id));
        }
    }
    assert forall|i: int, j: int|
        0 <= i < n.queue.len() && 0 <= j < n.running.len() implies (#[trigger] n.queue[i]).id
            != (#[trigger] n.running[j]).id by {
        if i == m.queue.len() {
            assert(m.is_running(m.running[j].id));
        } else {
            assert(n.queue[i] == m.queue[i]);
        }
    }
    assert forall|id: u128| #[trigger] n.lifecycle_ok(id) by {
        lemma_life_push(m.history, e, id);
        assert(m.lifecycle_ok(id));
        if id == job.id {
            assert(!n.is_running(id));
        }
    }
}

/// Changing the limit keeps the model well formed.
pub proof fn lemma_resize(m: PipelineModel, n: nat)
    requires
        m.wf(),
    ensures
        rescale(m, n).wf(),
        resize(m, n).wf(),
{
    if n != m.limit {
        lemma_same_jobs(m, rescale(m, n));
    }
    if n > m.limit {
        lemma_dispatch(rescale(m, n));
    }
}

/// Cancelling one job keeps the model well formed.
pub proof fn lemma_cancel(m: PipelineModel, id: u128)
    requires
        m.wf(),
    ensures
        cancel(m, id).wf(),
{
    if m.is_running(id) {
        let s = PipelineModel { running: signal_one(m.running, id), ..m };
        assert forall|j: int| 0 <= j < s.running.len() implies (#[trigger] s.running[j]).id
            == m.running[j].id by {}
        assert forall|x: u128| (#[trigger] s.is_running(x)) == m.is_running(x) by {
            if m.is_running(x) {
                let j = choose|j: int| 0 <= j < m.running.len() && m.running[j].id == x;
                assert(s.running[j].id == x);
            }
        }
        assert(s.queue == m.queue);
        assert forall|x: u128| #[trigger] s.lifecycle_ok(x) by {
            assert(m.lifecycle_ok(x));
            assert(s.is_queued(x) == m.is_queued(x));
        }
        assert(s.wf());
        lemma_emit_unmarked(s, EffectView::Signal(id));
    } else if m.is_queued(id) {
        let i = queue_index(m, id);
        let e = EffectView::Cancelled(id);
        let s = PipelineModel { queue: m.queue.remove(i), ..m };
        let n = cancel(m, id);
        assert(n == s.emit(e));
        lemma_emit_outbox(s, e);
        assert forall|k: int| 0 <= k < s.queue.len() implies (#[trigger] s.queue[k]) == (if k < i {
            m.queue[k]
        } else {
            m.queue[k + 1]
        }) by {}
        assert forall|x: u128| x != id implies (n.is_queued(x) == m.is_queued(x)
            && n.is_running(x) == m.is_running(x)) by {
            if m.is_queued(x) {
                let k = choose|k: int| 0 <= k < m.queue.len() && m.queue[k].id == x;
                if k < i {
                    assert(n.queue[k] == m.queue[k]);
                } else {
                    assert(k != i);
                    assert(n.queue[k - 1] == m.queue[k]);
                }
            }
            if n.is_queued(x) {
                let k = choose|k: int| 0 <= k < n.queue.len() && n.queue[k].id == x;
                if k < i {
                    assert(n.queue[k] == m.queue[k]);
                } else {
                    assert(n.queue[k] == m.queue[k + 1]);
                }
            }
            assert(n.running == m.running);
        }
        assert(!n.is_queued(id)) by {
            if n.is_queued(id) {
                let k = choose|k: int| 0 <= k < n.queue.len() && n.queue[k].id == id;
                if k < i {
                    assert(n.queue[k] == m.queue[k]);
                } else {
                    assert(n.queue[k] == m.queue[k + 1]);
                }
            }
        }
        assert(!m.is_running(id));
        assert(n.running == m.running);
        assert forall|a: int, b: int|
            0 <= a < b < n.queue.len() implies (#[trigger] n.queue[a]).id
                != (#[trigger] n.queue[b]).id by {
            let a2 = if a < i { a } else { a + 1 };
            let b2 = if b < i { b } else { b + 1 };
            assert(n.queue[a] == m.queue[a2]);
            assert(n.queue[b] == m.queue[b2]);
        }
        assert forall|a: int, b: int|
            0 <= a < n.queue.len() && 0 <= b < n.running.len() implies (#[trigger] n.queue[a]).id
                != (#[trigger] n.running[b]).id by {
            let a2 = if a < i { a } else { a + 1 };
            assert(n.queue[a] == m.queue[a2]);
        }
        assert forall|x: u128| #[trigger] n.lifecycle_ok(x) by {
            lemma_life_push(m.history, e, x);
            assert(m.lifecycle_ok(x));
            if x == id {
                assert(life(n.history, x) =~= seq![Mark::Ended]);
            }
        }
    }
}

proof fn lemma_append_unmarked(h: Seq<EffectView>, t: Seq<EffectView>, id: u128)
    requires
        forall|k: int| 0 <= k < t.len() ==> mark_of(#[trigger] t[k], id) is None,
    ensures
        life(h + t, id) == life(h, id),
        submitted(h + t, id) == submitted(h, id),
    decreases t.len(),
{
    if t.len() == 0 {
        assert(h + t =~= h);
    } else {
        lemma_append_unmarked(h, t.drop_last(), id);
        assert((h + t).drop_last() =~= h + t.drop_last());
        assert(mark_of(t[t.len() - 1], id) is None);
    }
}

/// Cancelling everything keeps the model well formed.
pub proof fn lemma_cancel_all(m: PipelineModel)
    requires
        m.wf(),
    ensures
        cancel_all(m).wf(),
{
    let sig = signal_effects(m.running);
    let e = EffectView::AllCancelled(queue_ids(m.queue));
    let tail = sig.push(e);
    let n = cancel_all(m);
    assert(n.history == m.history + tail);
    assert(m.history + tail =~= (m.history + sig).push(e));
    assert(n.history.subrange(n.history.len() - n.outbox.len(), n.history.len() as int)
        =~= n.outbox);
    assert forall|j: int| 0 <= j < n.running.len() implies (#[trigger] n.running[j]).id
        == m.running[j].id by {}
    assert forall|x: u128| #[trigger] n.lifecycle_ok(x) by {
        assert(m.lifecycle_ok(x));
        assert forall|k: int| 0 <= k < sig.len() implies mark_of(#[trigger] sig[k], x) is None by {}
        lemma_append_unmarked(m.history, sig, x);
        lemma_life_push(m.history + sig, e, x);
        assert(!n.is_queued(x));
        assert(n.is_running(x) == m.is_running(x)) by {
            if m.is_running(x) {
                let j = choose|j: int| 0 <= j < m.running.len() && m.running[j].id == x;
                assert(n.running[j].id == x);
            }
        }
        if m.is_queued(x) {
            let k = choose|k: int| 0 <= k < m.queue.len() && m.queue[k].id == x;
            assert(queue_ids(m.queue)[k] == x);
            assert(queue_ids(m.queue).contains(x));
            assert(life(n.history, x) =~= seq![Mark::Ended]);
        } else {
            assert(!queue_ids(m.queue).contains(x)) by {
                if queue_ids(m.queue).contains(x) {
                    let k = choose|k: int| 0 <= k < queue_ids(m.queue).len() && queue_ids(m.queue)[k] == x;
                    assert(m.queue[k].id == x);
                }
            }
        }
    }
}

/// The end of a running job's execution keeps the model well formed.
pub proof fn lemma_finish(m: PipelineModel, id: u128, outcome: OutcomeView)
    requires
        m.wf(),
    ensures
        m.is_running(id) ==> retire_entry(m, id, outcome).wf(),
        finish(m, id, outcome).wf(),
{
    if m.is_running(id) {
        let i = running_index(m, id);
        let e = terminal_notice(id, m.running[i].signalled, outcome);
        let s = PipelineModel { running: m.running.remove(i), ..m };
        let r = release(s.emit(e));
        lemma_emit_outbox(s, e);
        assert(r.queue == m.queue);
        assert(r.history == m.history.push(e));
        assert(r.outbox == m.outbox.push(e));
        assert forall|k: int| 0 <= k < r.running.len() implies (#[trigger] r.running[k]) == (if k < i {
            m.running[k]
        } else {
            m.running[k + 1]
        }) by {}
        assert forall|x: u128| x != id implies (r.is_queued(x) == m.is_queued(x)
            && r.is_running(x) == m.is_running(x)) by {
            if m.is_running(x) {
                let k = choose|k: int| 0 <= k < m.running.len() && m.running[k].id == x;
                if k < i {
                    assert(r.running[k] == m.running[k]);
                } else {
                    assert(k != i);
                    assert(r.running[k - 1] == m.running[k]);
                }
            }
            if r.is_running(x) {
                let k = choose|k: int| 0 <= k < r.running.len() && r.running[k].id == x;
                if k < i {
                    assert(r.running[k] == m.running[k]);
                } else {
                    assert(r.running[k] == m.running[k + 1]);
                }
            }
        }
        assert(!r.is_running(id)) by {
            if r.is_running(id) {
                let k = choose|k: int| 0 <= k < r.running.len() && r.running[k].id == id;
                if k < i {
                    assert(r.running[k] == m.running[k]);
                } else {
                    assert(r.running[k] == m.running[k + 1]);
                }
            }
        }
        assert(!m.is_queued(id)) by {
            if m.is_queued(id) {
                let k = choose|k: int| 0 <= k < m.queue.len() && m.queue[k].id == id;
                assert(m.queue[k].id != m.running[i].id);
            }
        }
        assert forall|a: int, b: int|
            0 <= a < b < r.running.len() implies (#[trigger] r.running[a]).id
                != (#[trigger] r.running[b]).id by {
            let a2 = if a < i { a } else { a + 1 };
            let b2 = if b < i { b } else { b + 1 };
            assert(r.running[a] == m.running[a2]);
            assert(r.running[b] == m.running[b2]);
        }
        assert forall|a: int, b: int|
            0 <= a < r.queue.len() && 0 <= b < r.running.len() implies (#[trigger] r.queue[a]).id
                != (#[trigger] r.running[b]).id by {
            let b2 = if b < i { b } else { b + 1 };
            assert(r.running[b] == m.running[b2]);
        }
        assert(mark_of(e, id) == Some(Mark::Ended));
        assert forall|x: u128| #[trigger] r.lifecycle_ok(x) by {
            lemma_life_push(m.history, e, x);
            assert(m.lifecycle_ok(x));
            if x == id {
                assert(life(r.history, x) =~= seq![Mark::Started, Mark::Ended]);
            } else {
                assert(mark_of(e, x) is None);
            }
        }
        assert(r.wf());
        lemma_dispatch(r);
    }
}

/// A new pipeline is well formed.
pub proof fn lemma_initial(limit: nat)
    ensures
        initial(limit).wf(),
{
    let m = initial(limit);
    assert(m.history.subrange(0, 0) =~= m.outbox);
    assert forall|id: u128| #[trigger] m.lifecycle_ok(id) by {
        assert(!submitted(m.history, id));
    }
}

} // verus!
