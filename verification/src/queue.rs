//! The job queue of a worker pool: first in, first out, with an explicit
//! open or closed state. The queue itself is sequential; a pool shares it
//! behind a lock, so that each claim is one step.

use std::collections::VecDeque;
use vstd::prelude::*;

verus! {

/// Jobs that wait for a worker, oldest first, and whether more may come.
pub struct JobQueue<T> {
    pending: VecDeque<T>,
    open: bool,
}

/// The mathematical content of a [`JobQueue`].
pub struct QueueView<T> {
    pub pending: Seq<T>,
    pub open: bool,
}

/// What a worker gets when it asks for work.
pub enum Claim<T> {
    /// The oldest waiting job, now the worker's alone.
    Job(T),
    /// Nothing waits, but more may come: ask again later.
    Idle,
    /// Nothing waits and nothing will come: the worker is done.
    Closed,
}

/// One step on a queue: a producer submits a job, or a worker claims one.
pub enum Step<T> {
    Submit(T),
    Claim,
}

/// The queue after `job` was submitted: it joins the end of an open
/// queue, and a closed queue does not take it.
pub open spec fn after_submit<T>(q: QueueView<T>, job: T) -> QueueView<T> {
    if q.open {
        QueueView { pending: q.pending.push(job), open: true }
    } else {
        q
    }
}

/// What a claim answers.
pub open spec fn claim_of<T>(q: QueueView<T>) -> Claim<T> {
    if q.pending.len() > 0 {
        Claim::Job(q.pending[0])
    } else if q.open {
        Claim::Idle
    } else {
        Claim::Closed
    }
}

/// The queue after a claim: the oldest job, if there is one, has left.
pub open spec fn after_claim<T>(q: QueueView<T>) -> QueueView<T> {
    if q.pending.len() > 0 {
        QueueView { pending: q.pending.skip(1), open: q.open }
    } else {
        q
    }
}

/// The queue after `steps`, taken in order.
pub open spec fn after_steps<T>(q: QueueView<T>, steps: Seq<Step<T>>) -> QueueView<T>
    decreases steps.len(),
{
    if steps.len() == 0 {
        q
    } else {
        let before = after_steps(q, steps.drop_last());
        match steps.last() {
            Step::Submit(job) => after_submit(before, job),
            Step::Claim => after_claim(before),
        }
    }
}

/// The jobs that the claims among `steps` handed to workers, in order.
pub open spec fn handed_out<T>(q: QueueView<T>, steps: Seq<Step<T>>) -> Seq<T>
    decreases steps.len(),
{
    if steps.len() == 0 {
        Seq::empty()
    } else {
        let before = after_steps(q, steps.drop_last());
        let earlier = handed_out(q, steps.drop_last());
        match (steps.last(), claim_of(before)) {
            (Step::Claim, Claim::Job(job)) => earlier.push(job),
            _ => earlier,
        }
    }
}

/// The jobs that `steps` submitted, in order.
pub open spec fn submitted<T>(steps: Seq<Step<T>>) -> Seq<T>
    decreases steps.len(),
{
    if steps.len() == 0 {
        Seq::empty()
    } else {
        match steps.last() {
            Step::Submit(job) => submitted(steps.drop_last()).push(job),
            Step::Claim => submitted(steps.drop_last()),
        }
    }
}

/// `n` claims in a row.
pub open spec fn claims<T>(n: nat) -> Seq<Step<T>> {
    Seq::new(n, |i: int| Step::Claim)
}

/// However submissions and claims interleave on an open queue, every job
/// submitted so far has either been handed to exactly one claim or still
/// waits, and both in the order of submission: none is lost, none is
/// handed out twice.
pub proof fn lemma_every_job_is_handed_out_once<T>(q: QueueView<T>, steps: Seq<Step<T>>)
    requires
        q.open,
    ensures
        after_steps(q, steps).open,
        handed_out(q, steps) + after_steps(q, steps).pending == q.pending + submitted(steps),
    decreases steps.len(),
{
    if steps.len() == 0 {
        assert(handed_out(q, steps) + after_steps(q, steps).pending =~= q.pending + submitted(
            steps,
        ));
    } else {
        let earlier = steps.drop_last();
        lemma_every_job_is_handed_out_once(q, earlier);
        let before = after_steps(q, earlier);
        assert(handed_out(q, earlier) + before.pending == q.pending + submitted(earlier));
        match steps.last() {
            Step::Submit(job) => {
                assert(handed_out(q, steps) + after_steps(q, steps).pending =~= (handed_out(
                    q,
                    earlier,
                ) + before.pending).push(job));
                assert(q.pending + submitted(steps) =~= (q.pending + submitted(earlier)).push(job));
            },
            Step::Claim => {
                if before.pending.len() > 0 {
                    assert(handed_out(q, steps) + after_steps(q, steps).pending =~= handed_out(
                        q,
                        earlier,
                    ) + before.pending);
                }
            },
        }
    }
}

/// Closing loses nothing: the workers' next claims hand out all the jobs
/// that still wait, oldest first, and only then is a claim answered with
/// `Closed`.
pub proof fn lemma_closed_queue_drains<T>(q: QueueView<T>, n: nat)
    requires
        !q.open,
        n <= q.pending.len(),
    ensures
        handed_out(q, claims(n)) == q.pending.take(n as int),
        after_steps(q, claims(n)) == (QueueView { pending: q.pending.skip(n as int), open: false }),
        n < q.pending.len() ==> claim_of(after_steps(q, claims(n))) == Claim::Job(
            q.pending[n as int],
        ),
        n == q.pending.len() ==> claim_of(after_steps(q, claims::<T>(n))) == Claim::<T>::Closed,
    decreases n,
{
    if n == 0 {
        assert(q.pending.skip(0) =~= q.pending);
        assert(q.pending.take(0) =~= Seq::<T>::empty());
    } else {
        let m = (n - 1) as nat;
        lemma_closed_queue_drains(q, m);
        assert(claims::<T>(n).drop_last() =~= claims::<T>(m));
        assert(claims::<T>(n).last() == Step::<T>::Claim);
        let before = after_steps(q, claims(m));
        assert(before.pending.skip(1) =~= q.pending.skip(n as int));
        assert(before.pending[0] == q.pending[m as int]);
        assert(q.pending.take(m as int).push(q.pending[m as int]) =~= q.pending.take(n as int));
    }
}

impl<T> View for JobQueue<T> {
    type V = QueueView<T>;

    closed spec fn view(&self) -> QueueView<T> {
        QueueView { pending: self.pending@, open: self.open }
    }
}

impl<T> JobQueue<T> {
    /// An open queue with nothing in it.
    pub fn new() -> (q: Self)
        ensures
            q@ == (QueueView { pending: Seq::<T>::empty(), open: true }),
    {
        JobQueue { pending: VecDeque::new(), open: true }
    }

    /// Puts `job` at the end of the queue. A closed queue takes nothing
    /// and hands the job back.
    pub fn submit(&mut self, job: T) -> (r: Result<(), T>)
        ensures
            final(self)@ == after_submit(old(self)@, job),
            old(self)@.open ==> r is Ok,
            !old(self)@.open ==> r == Err::<(), T>(job),
    {
        if self.open {
            self.pending.push_back(job);
            Ok(())
        } else {
            Err(job)
        }
    }

    /// Takes the oldest waiting job, if there is one.
    pub fn claim(&mut self) -> (r: Claim<T>)
        ensures
            r == claim_of(old(self)@),
            final(self)@ == after_claim(old(self)@),
    {
        match self.pending.pop_front() {
            Some(job) => Claim::Job(job),
            None => if self.open {
                Claim::Idle
            } else {
                Claim::Closed
            },
        }
    }

    /// Closes the queue to new jobs. Those that wait stay.
    pub fn close(&mut self)
        ensures
            final(self)@ == (QueueView { pending: old(self)@.pending, open: false }),
    {
        self.open = false;
    }
}

} // verus!
