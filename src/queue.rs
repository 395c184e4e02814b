//! The work queue between job producers and the pool's workers: first in,
//! first out, with a ghost ledger of every job ever submitted and every job
//! handed out.

use std::collections::VecDeque;
use vstd::prelude::*;

verus! {

/// An unbounded FIFO queue of jobs.
pub struct WorkQueue<T> {
    pending: VecDeque<T>,
    submitted: Ghost<Seq<T>>,
    delivered: Ghost<Seq<T>>,
}

impl<T> View for WorkQueue<T> {
    type V = Seq<T>;

    /// The jobs waiting, oldest first.
    closed spec fn view(&self) -> Seq<T> {
        self.pending@
    }
}

impl<T> WorkQueue<T> {
    /// Every job submitted so far, in submission order.
    pub closed spec fn submitted(&self) -> Seq<T> {
        self.submitted@
    }

    /// Every job handed out so far, in the order it was handed out.
    pub closed spec fn delivered(&self) -> Seq<T> {
        self.delivered@
    }

    /// The jobs handed out, followed by the jobs waiting, are exactly the
    /// jobs submitted.
    pub closed spec fn wf(&self) -> bool {
        self.submitted@ == self.delivered@ + self.pending@
    }

    /// An empty queue that has seen no job.
    pub fn new() -> (r: WorkQueue<T>)
        ensures
            r.wf(),
            r@ == Seq::<T>::empty(),
            r.submitted() == Seq::<T>::empty(),
            r.delivered() == Seq::<T>::empty(),
    {
        let r = WorkQueue {
            pending: VecDeque::new(),
            submitted: Ghost(Seq::empty()),
            delivered: Ghost(Seq::empty()),
        };
        assert(r.submitted@ =~= r.delivered@ + r.pending@);
        r
    }

    /// Appends `job` behind every job already waiting.
    pub fn submit(&mut self, job: T)
        requires
            old(self).wf(),
        ensures
            final(self).wf(),
            final(self)@ == old(self)@.push(job),
            final(self).submitted() == old(self).submitted().push(job),
            final(self).delivered() == old(self).delivered(),
    {
        let ghost j = job;
        self.pending.push_back(job);
        self.submitted = Ghost(self.submitted@.push(j));
        assert(self.submitted@ =~= self.delivered@ + self.pending@);
    }

    /// Hands out the oldest waiting job, or `None` when no job waits.
    pub fn take(&mut self) -> (r: Option<T>)
        requires
            old(self).wf(),
        ensures
            final(self).wf(),
            final(self).submitted() == old(self).submitted(),
            old(self)@.len() == 0 ==> {
                &&& r is None
                &&& final(self)@ == old(self)@
                &&& final(self).delivered() == old(self).delivered()
            },
            old(self)@.len() > 0 ==> {
                &&& r == Some(old(self)@[0])
                &&& final(self)@ == old(self)@.drop_first()
                &&& final(self).delivered() == old(self).delivered().push(old(self)@[0])
            },
    {
        let r = self.pending.pop_front();
        match r {
            Some(job) => {
                proof {
                    self.delivered = Ghost(self.delivered@.push(job));
                    assert(self.submitted@ =~= self.delivered@ + self.pending@);
                }
                Some(job)
            },
            None => None,
        }
    }

    /// The number of waiting jobs.
    pub fn len(&self) -> (r: usize)
        ensures
            r == self@.len(),
    {
        self.pending.len()
    }

    /// Whether no job waits.
    pub fn is_empty(&self) -> (r: bool)
        ensures
            r == (self@.len() == 0),
    {
        self.pending.len() == 0
    }
}

/// Each submitted job is accounted for exactly once: the jobs handed out are
/// the oldest submissions, in submission order, and the waiting jobs are the
/// rest, in submission order.
pub proof fn each_job_delivered_once<T>(q: WorkQueue<T>)
    requires
        q.wf(),
    ensures
        q.submitted().len() == q.delivered().len() + q@.len(),
        forall|i: int|
            0 <= i < q.delivered().len() ==> #[trigger] q.delivered()[i] == q.submitted()[i],
        forall|i: int|
            0 <= i < q@.len() ==> #[trigger] q@[i] == q.submitted()[q.delivered().len() + i],
{
}

/// Once the queue has drained, every job submitted has been handed out,
/// exactly once and in submission order, whatever the interleaving of
/// submissions and takes that led there.
pub proof fn drained_queue_delivered_all<T>(q: WorkQueue<T>)
    requires
        q.wf(),
        q@.len() == 0,
    ensures
        q.delivered() == q.submitted(),
{
    assert(q.submitted() =~= q.delivered());
}

} // verus!
