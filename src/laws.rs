//! What holds of the pipeline across operations.
use vstd::prelude::*;

use crate::model::{
    cancel, dispatch, finish, life, min, rescale, resize, retire_entry, running_index,
    start_head, submitted, EffectView, Mark, OutcomeView, PipelineModel,
};
use crate::wellformed::{lemma_cancel, lemma_finish, lemma_resize, lemma_start_head};

verus! {

/// No more jobs run than the limit, except while permits are still owed after
/// the limit was lowered below the number of running jobs; and while more jobs
/// run than the limit allows, no permit is free, so none starts.
pub proof fn lemma_running_within_limit(m: PipelineModel)
    requires
        m.wf(),
    ensures
        m.running.len() <= m.limit + m.retiring,
        m.retiring == 0 ==> m.running.len() <= m.limit,
        m.running.len() >= m.limit ==> m.available == 0,
{
}

/// A dispatch starts jobs only below the limit: it never lifts the number of
/// running jobs above the limit, nor above what ran before it.
pub proof fn lemma_dispatch_within_limit(m: PipelineModel)
    requires
        m.wf(),
    ensures
        dispatch(m).running.len() <= m.limit || dispatch(m).running.len() == m.running.len(),
    decreases m.queue.len(),
{
    if m.available > 0 && m.queue.len() > 0 {
        lemma_start_head(m);
        lemma_dispatch_within_limit(start_head(m));
    }
}

/// A dispatch starts the first `min(available, queued)` jobs of the queue in
/// order, appending them to the running table, and only adds to the history.
pub proof fn lemma_dispatch_starts_in_order(m: PipelineModel)
    requires
        m.wf(),
    ensures
        ({
            let k = min(m.available, m.queue.len());
            let d = dispatch(m);
            &&& d.queue == m.queue.skip(k as int)
            &&& d.running.len() == m.running.len() + k
            &&& d.running.subrange(0, m.running.len() as int) == m.running
            &&& forall|j: int|
                0 <= j < k ==> (#[trigger] d.running[m.running.len() + j]).id == m.queue[j].id
            &&& d.available == m.available - k
            &&& d.limit == m.limit
            &&& d.retiring == m.retiring
            &&& d.history.len() >= m.history.len()
            &&& d.history.subrange(0, m.history.len() as int) == m.history
        }),
    decreases m.queue.len(),
{
    let k = min(m.available, m.queue.len());
    let d = dispatch(m);
    if m.available > 0 && m.queue.len() > 0 {
        let s = start_head(m);
        lemma_start_head(m);
        lemma_dispatch_starts_in_order(s);
        assert(s.queue =~= m.queue.skip(1));
        assert(d.queue =~= m.queue.skip(k as int));
        assert(d.running.subrange(0, s.running.len() as int) == s.running);
        assert(d.running.subrange(0, m.running.len() as int) =~= s.running.subrange(
            0,
            m.running.len() as int,
        ));
        assert(s.running.subrange(0, m.running.len() as int) =~= m.running);
        assert forall|j: int| 0 <= j < k implies (#[trigger] d.running[m.running.len() + j]).id
            == m.queue[j].id by {
            if j == 0 {
                assert(d.running[m.running.len() as int] == d.running.subrange(
                    0,
                    s.running.len() as int,
                )[m.running.len() as int]);
            } else {
                assert(d.running[s.running.len() + (j - 1)].id == s.queue[j - 1].id);
            }
        }
        assert(d.history.subrange(0, m.history.len() as int) =~= d.history.subrange(
            0,
            s.history.len() as int,
        ).subrange(0, m.history.len() as int));
        assert(s.history.subrange(0, m.history.len() as int) =~= m.history);
    } else if m.available > 0 && m.running.len() == 0 {
        assert(d.history.subrange(0, m.history.len() as int) =~= m.history);
        assert(m.queue.skip(0) =~= m.queue);
        assert(d.running.subrange(0, m.running.len() as int) =~= m.running);
    } else {
        assert(m.queue.skip(0) =~= m.queue);
        assert(d.running.subrange(0, m.running.len() as int) =~= m.running);
        assert(d.history.subrange(0, m.history.len() as int) =~= m.history);
    }
}

/// Every job that entered the pipeline gets exactly one terminal notice:
/// while queued it has had no start and no terminal notice, while running
/// exactly one start and no terminal notice, and once it has left exactly one
/// terminal notice, after one start if it ran and after none if it was
/// cancelled while queued. The outbox handed to the host is the tail of that
/// history.
pub proof fn lemma_one_terminal_notice(m: PipelineModel, id: u128)
    requires
        m.wf(),
    ensures
        m.is_queued(id) ==> life(m.history, id) == Seq::<Mark>::empty(),
        m.is_running(id) ==> life(m.history, id) == seq![Mark::Started],
        !m.is_live(id) && submitted(m.history, id) ==> (life(m.history, id) == seq![Mark::Ended]
            || life(m.history, id) == seq![Mark::Started, Mark::Ended]),
        m.history.subrange(m.history.len() - m.outbox.len(), m.history.len() as int) == m.outbox,
{
    assert(m.lifecycle_ok(id));
}

/// Cancelling a running job returns at once with the job still running and
/// holding its permit; when its execution then reports back, whatever it
/// reports, its terminal notice is `Cancelled`.
pub proof fn lemma_cancelled_run_ends_cancelled(m: PipelineModel, id: u128, outcome: OutcomeView)
    requires
        m.wf(),
        m.is_running(id),
    ensures
        cancel(m, id).is_running(id),
        cancel(m, id).running.len() == m.running.len(),
        cancel(m, id).queue == m.queue,
        cancel(m, id).history == m.history.push(EffectView::Signal(id)),
        finish(cancel(m, id), id, outcome).history[m.history.len() + 1int] == EffectView::Cancelled(id),
{
    let c = cancel(m, id);
    lemma_cancel(m, id);
    let i = choose|i: int| 0 <= i < m.running.len() && m.running[i].id == id;
    assert(c.running[i].id == id);
    assert(c.is_running(id));
    let q = running_index(c, id);
    assert(c.running[q].signalled);
    lemma_finish(c, id, outcome);
    let r = retire_entry(c, id, outcome);
    lemma_dispatch_starts_in_order(r);
    assert(r.history[c.history.len() as int] == EffectView::Cancelled(id));
    assert(dispatch(r).history.subrange(0, r.history.len() as int)[c.history.len() as int]
        == r.history[c.history.len() as int]);
}

/// Raising the limit from N to M while N jobs run and jobs wait starts up to
/// M - N of them at once, the oldest first, with no new submission.
pub proof fn lemma_raise_starts_waiting(m: PipelineModel, n: nat)
    requires
        m.wf(),
        m.running.len() == m.limit,
        m.retiring == 0,
        n > m.limit,
    ensures
        ({
            let k = min((n - m.limit) as nat, m.queue.len());
            let r = resize(m, n);
            &&& r.limit == n
            &&& r.running.len() == m.running.len() + k
            &&& r.queue == m.queue.skip(k as int)
            &&& forall|j: int|
                0 <= j < k ==> (#[trigger] r.running[m.running.len() + j]).id == m.queue[j].id
        }),
{
    lemma_resize(m, n);
    lemma_dispatch_starts_in_order(rescale(m, n));
}

/// Lowering the limit from N to M interrupts no running job and emits
/// nothing; the permits of the running jobs above M are owed, and none is
/// free while they are.
pub proof fn lemma_lower_interrupts_nothing(m: PipelineModel, n: nat)
    requires
        m.wf(),
        n < m.limit,
    ensures
        resize(m, n).running == m.running,
        resize(m, n).queue == m.queue,
        resize(m, n).history == m.history,
        resize(m, n).limit == n,
        m.running.len() >= n ==> resize(m, n).retiring == m.running.len() - n && resize(
            m,
            n,
        ).available == 0,
        m.running.len() < n ==> resize(m, n).retiring == 0,
{
    lemma_resize(m, n);
}

/// While permits are owed, a job that ends gives its permit up for good: one
/// job fewer runs, one permit less is owed, and no job starts. Once nothing is
/// owed, at most M jobs run.
pub proof fn lemma_end_settles_lowered_limit(m: PipelineModel, id: u128, outcome: OutcomeView)
    requires
        m.wf(),
        m.is_running(id),
        m.retiring > 0,
    ensures
        finish(m, id, outcome).running.len() == m.running.len() - 1,
        finish(m, id, outcome).retiring == m.retiring - 1,
        finish(m, id, outcome).queue == m.queue,
        finish(m, id, outcome).retiring == 0 ==> finish(m, id, outcome).running.len()
            <= m.limit,
{
    lemma_finish(m, id, outcome);
    let r = retire_entry(m, id, outcome);
    assert(r.available == 0);
    assert(dispatch(r) == r);
}

} // verus!
