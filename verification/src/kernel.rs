//! The kernel orchestration state machine.
//!
//! The kernel coordinates a bounded FIFO of execution requests.  An ingress
//! step admits Execute requests under a capacity bound and raises the two
//! cancellation flags on Interrupt; a watcher step samples how many admitted
//! requests a cancellation must drain; dispatcher steps either drain that
//! many queued requests as `Cancelled` or hand the queue head to the REPL and
//! label it with the REPL's outcome.  The asynchronous runtime around the
//! crate performs the channel and REPL I/O and calls one of these step
//! functions whenever the corresponding select branch fires.
//!
//! Every step keeps the well-formedness invariant [`Kernel::wf`], whose heart
//! is the bookkeeping identity: the ids accepted so far are exactly the ids
//! already responded to, followed by the id in flight (if any), followed by
//! the ids still queued, in submission order.  The ordering and the
//! exactly-one-response laws are corollaries, proved below.

use vstd::prelude::*;

use crate::message_queue::MessageQueue;
use crate::repl::ReplError;
use crate::{KernelRequest, KernelResponse, MessageId};

verus! {

/// An admitted execution request waiting to be dispatched.  Its place in the
/// kernel state stands for its admission permit: the permit is held from
/// admission until the response for the request is emitted.
pub struct Exec {
    pub message_id: MessageId,
    pub code: String,
}

/// The ids carried by a sequence of responses, in order.
pub open spec fn resp_ids(rs: Seq<KernelResponse>) -> Seq<MessageId> {
    rs.map_values(|r: KernelResponse| r.spec_id())
}

/// The ids of queued work items, in queue order.
pub open spec fn queue_ids(q: Seq<Exec>) -> Seq<MessageId> {
    q.map_values(|e: Exec| e.message_id)
}

/// Zero or one id, for the request currently handed to the REPL.
pub open spec fn running_ids(r: Option<MessageId>) -> Seq<MessageId> {
    match r {
        Some(id) => seq![id],
        None => Seq::empty(),
    }
}

/// `Cancelled` responses for the given ids, in order.
pub open spec fn cancelled_of(ids: Seq<MessageId>) -> Seq<KernelResponse> {
    ids.map_values(|id: MessageId| KernelResponse::Cancelled(id))
}

/// The response label for a finished execution: the REPL's outcome decides
/// the variant, and the request's id is echoed back.
pub open spec fn response_for(id: MessageId, outcome: Result<(), ReplError>) -> KernelResponse {
    match outcome {
        Ok(_) => KernelResponse::Success(id),
        Err(ReplError::Failed) => KernelResponse::Failed(id),
        Err(ReplError::Interrupted) => KernelResponse::Cancelled(id),
    }
}

/// The orchestration state shared by the ingress, watcher and dispatcher
/// steps.  The runtime owns one value of this type and feeds it the events
/// its channels deliver.
pub struct Kernel {
    /// Admission bound: at most this many requests are admitted and not yet
    /// responded to.  Always at least 1.
    pub capacity: usize,
    /// Admitted requests not yet pulled by the dispatcher, oldest first.
    pub queue: MessageQueue<Exec>,
    /// The id of the request currently handed to the REPL, if any.
    pub running: Option<MessageId>,
    /// Queue-wide cancellation: raised by Interrupt and by a REPL failure,
    /// never cleared.  While it is raised the dispatcher only drains.
    pub queue_cancelled: bool,
    /// The process-wide interrupt signal observed by the in-flight request.
    /// Raised by Interrupt only, never cleared.
    pub sigint: bool,
    /// The drain count the watcher has published and the dispatcher has not
    /// yet consumed, if any (a single-slot notification).
    pub drain_pending: Option<usize>,
    /// Every response emitted so far, in emission order.
    pub responses: Vec<KernelResponse>,
    /// The ids of all requests accepted so far, in submission order.
    pub history: Ghost<Seq<MessageId>>,
}

impl Kernel {
    /// Admitted requests that have not been responded to yet: they hold the
    /// admission permits.
    pub open spec fn live(self) -> int {
        self.queue@.len() as int + running_ids(self.running).len() as int
    }

    /// Well-formedness: the capacity is positive and respected, the flags are
    /// ordered (sigint implies queue cancellation, a published drain count
    /// implies queue cancellation), and the accepted ids decompose into
    /// responded, in-flight and queued ids, in submission order.
    pub open spec fn wf(self) -> bool {
        &&& self.capacity >= 1
        &&& self.queue.spec_capacity() == self.capacity
        &&& self.live() <= self.capacity
        &&& self.history@ == resp_ids(self.responses@) + running_ids(self.running)
            + queue_ids(self.queue@)
        &&& (self.sigint ==> self.queue_cancelled)
        &&& (self.drain_pending is Some ==> self.queue_cancelled)
    }

    /// The dispatcher may hand the queue head to the REPL only when nothing
    /// is in flight, no drain is pending, and no cancellation has been
    /// observed: the drain branch of its biased select comes first.
    pub open spec fn dispatch_enabled(self) -> bool {
        &&& !self.queue_cancelled
        &&& self.drain_pending is None
        &&& self.running is None
    }
}

/// Ingress admits an Execute request: the work item joins the queue, the id
/// joins the history, and nothing else moves.
pub open spec fn admit_rel(pre: Kernel, post: Kernel, id: MessageId, code: Seq<char>) -> bool {
    &&& post.capacity == pre.capacity
    &&& post.queue.spec_capacity() == pre.queue.spec_capacity()
    &&& post.queue@.len() == pre.queue@.len() + 1
    &&& post.queue@.take(pre.queue@.len() as int) == pre.queue@
    &&& post.queue@.last().message_id == id
    &&& post.queue@.last().code@ == code
    &&& post.running == pre.running
    &&& post.queue_cancelled == pre.queue_cancelled
    &&& post.sigint == pre.sigint
    &&& post.drain_pending == pre.drain_pending
    &&& post.responses@ == pre.responses@
    &&& post.history@ == pre.history@.push(id)
}

/// Ingress observes Interrupt: both cancellation flags are raised, and
/// nothing else moves.
pub open spec fn interrupt_rel(pre: Kernel, post: Kernel) -> bool {
    &&& post.capacity == pre.capacity
    &&& post.queue.spec_capacity() == pre.queue.spec_capacity()
    &&& post.queue@ == pre.queue@
    &&& post.running == pre.running
    &&& post.queue_cancelled
    &&& post.sigint
    &&& post.drain_pending == pre.drain_pending
    &&& post.responses@ == pre.responses@
    &&& post.history@ == pre.history@
}

/// The watcher samples the number of live admissions and publishes it as the
/// drain count, exactly when cancellation is raised and the single
/// notification slot is free; otherwise it leaves the state alone.
pub open spec fn watch_rel(pre: Kernel, post: Kernel, info: Option<usize>) -> bool {
    if pre.queue_cancelled && pre.drain_pending is None {
        &&& info == Some(pre.live() as usize)
        &&& post.capacity == pre.capacity
        &&& post.queue.spec_capacity() == pre.queue.spec_capacity()
        &&& post.queue@ == pre.queue@
        &&& post.running == pre.running
        &&& post.queue_cancelled == pre.queue_cancelled
        &&& post.sigint == pre.sigint
        &&& post.drain_pending == Some(pre.live() as usize)
        &&& post.responses@ == pre.responses@
        &&& post.history@ == pre.history@
    } else {
        &&& info is None
        &&& post == pre
    }
}

/// The dispatcher consumes a published drain count `n` and cancels up to `n`
/// queued requests, oldest first: each receives a `Cancelled` response and
/// releases its admission.
pub open spec fn drain_rel(pre: Kernel, post: Kernel) -> bool {
    let n = match pre.drain_pending {
        Some(n) => n as int,
        None => 0,
    };
    let k = vstd::math::min(n, pre.queue@.len() as int);
    &&& pre.drain_pending is Some
    &&& post.capacity == pre.capacity
    &&& post.queue.spec_capacity() == pre.queue.spec_capacity()
    &&& post.queue@ == pre.queue@.skip(k)
    &&& post.running == pre.running
    &&& post.queue_cancelled == pre.queue_cancelled
    &&& post.sigint == pre.sigint
    &&& post.drain_pending is None
    &&& post.responses@ == pre.responses@ + cancelled_of(queue_ids(pre.queue@).take(k))
    &&& post.history@ == pre.history@
}

/// No observable change: every component of the state reads the same.
pub open spec fn stutter_rel(pre: Kernel, post: Kernel) -> bool {
    &&& post.capacity == pre.capacity
    &&& post.queue.spec_capacity() == pre.queue.spec_capacity()
    &&& post.queue@ == pre.queue@
    &&& post.running == pre.running
    &&& post.queue_cancelled == pre.queue_cancelled
    &&& post.sigint == pre.sigint
    &&& post.drain_pending == pre.drain_pending
    &&& post.responses@ == pre.responses@
    &&& post.history@ == pre.history@
}

/// The dispatcher pulls the queue head and hands it to the REPL: the head
/// becomes the in-flight request and nothing else moves.
pub open spec fn begin_rel(pre: Kernel, post: Kernel) -> bool {
    &&& pre.queue@.len() > 0
    &&& post.capacity == pre.capacity
    &&& post.queue.spec_capacity() == pre.queue.spec_capacity()
    &&& post.queue@ == pre.queue@.drop_first()
    &&& post.running == Some(pre.queue@[0].message_id)
    &&& post.queue_cancelled == pre.queue_cancelled
    &&& post.sigint == pre.sigint
    &&& post.drain_pending == pre.drain_pending
    &&& post.responses@ == pre.responses@
    &&& post.history@ == pre.history@
}

/// The REPL resolved the in-flight request: its response is emitted, its
/// admission is released, and any unsuccessful outcome raises queue
/// cancellation so that everything still queued is drained.
pub open spec fn finish_rel(pre: Kernel, post: Kernel, outcome: Result<(), ReplError>) -> bool {
    let id = match pre.running {
        Some(id) => id,
        None => 0,
    };
    &&& pre.running is Some
    &&& post.capacity == pre.capacity
    &&& post.queue.spec_capacity() == pre.queue.spec_capacity()
    &&& post.queue@ == pre.queue@
    &&& post.running is None
    &&& post.queue_cancelled == (pre.queue_cancelled || outcome is Err)
    &&& post.sigint == pre.sigint
    &&& post.drain_pending == pre.drain_pending
    &&& post.responses@ == pre.responses@.push(response_for(id, outcome))
    &&& post.history@ == pre.history@
}

/// Creates the kernel state for a fresh run.  A capacity of zero would admit
/// nothing and is a caller error.
pub fn launch(capacity: usize) -> (k: Kernel)
    requires
        capacity >= 1,
    ensures
        k.wf(),
        k.capacity == capacity,
        k.queue@ == Seq::<Exec>::empty(),
        k.running is None,
        !k.queue_cancelled,
        !k.sigint,
        k.drain_pending is None,
        k.responses@ == Seq::<KernelResponse>::empty(),
        k.history@ == Seq::<MessageId>::empty(),
{
    let k = Kernel {
        capacity,
        queue: MessageQueue::with_capacity(capacity),
        running: None,
        queue_cancelled: false,
        sigint: false,
        drain_pending: None,
        responses: Vec::new(),
        history: Ghost(Seq::empty()),
    };
    proof {
        assert(resp_ids(k.responses@) =~= Seq::<MessageId>::empty());
        assert(queue_ids(k.queue@) =~= Seq::<MessageId>::empty());
        assert(k.history@ =~= resp_ids(k.responses@) + running_ids(k.running) + queue_ids(
            k.queue@,
        ));
    }
    k
}

impl Kernel {
    /// The ingress step.  An Execute request is admitted: the caller must
    /// first hold an admission permit, i.e. fewer than `capacity` requests
    /// may be live.  Interrupt raises both cancellation flags and admits
    /// nothing.
    pub fn process_request(&mut self, req: KernelRequest)
        requires
            old(self).wf(),
            req is Execute ==> old(self).live() < old(self).capacity,
        ensures
            final(self).wf(),
            (req matches KernelRequest::Execute { message_id, code } ==> admit_rel(
                *old(self),
                *final(self),
                message_id,
                code@,
            )),
            (req is Interrupt ==> interrupt_rel(*old(self), *final(self))),
    {
        match req {
            KernelRequest::Execute { message_id, code } => {
                self.queue.push(Exec { message_id, code });
                proof {
                    self.history@ = self.history@.push(message_id);
                    assert(self.queue@.take(self.queue@.len() - 1) =~= old(self).queue@);
                    assert(queue_ids(self.queue@) =~= queue_ids(old(self).queue@).push(
                        message_id,
                    ));
                    assert(self.history@ =~= resp_ids(self.responses@) + running_ids(self.running)
                        + queue_ids(self.queue@));
                }
            }
            KernelRequest::Interrupt => {
                self.queue_cancelled = true;
                self.sigint = true;
            }
        }
    }

    /// The number of admitted requests whose response is still outstanding.
    pub fn live_count(&self) -> (n: usize)
        requires
            self.wf(),
        ensures
            n as int == self.live(),
    {
        let mut n = self.queue.size();
        if self.running.is_some() {
            n = n + 1;
        }
        n
    }

    /// Whether one more Execute request may be admitted right now.
    pub fn can_admit(&self) -> (r: bool)
        requires
            self.wf(),
        ensures
            r == (self.live() < self.capacity),
    {
        self.live_count() < self.capacity
    }

    /// The watcher step: when cancellation is raised and the notification
    /// slot is free, publish the number of live admissions as the drain
    /// count.  Returns what was published, if anything.
    pub fn watch_cancellation(&mut self) -> (info: Option<usize>)
        requires
            old(self).wf(),
        ensures
            final(self).wf(),
            watch_rel(*old(self), *final(self), info),
    {
        if self.queue_cancelled && self.drain_pending.is_none() {
            let mut n = self.queue.size();
            if self.running.is_some() {
                n = n + 1;
            }
            self.drain_pending = Some(n);
            Some(n)
        } else {
            None
        }
    }

    /// The dispatcher's drain branch: consume the published drain count and
    /// cancel up to that many queued requests, oldest first.  Returns how
    /// many were cancelled.
    pub fn drain_cancelled(&mut self) -> (n: usize)
        requires
            old(self).wf(),
            old(self).drain_pending is Some,
            old(self).running is None,
        ensures
            final(self).wf(),
            drain_rel(*old(self), *final(self)),
            n == vstd::math::min(
                match old(self).drain_pending {
                    Some(m) => m as int,
                    None => 0,
                },
                old(self).queue@.len() as int,
            ),
    {
        let limit = match self.drain_pending {
            Some(m) => m,
            None => 0,
        };
        self.drain_pending = None;
        let qlen = self.queue.size();
        let bound = if limit < qlen {
            limit
        } else {
            qlen
        };
        let mut count: usize = 0;
        while count < bound
            invariant
                count <= bound,
                bound == vstd::math::min(limit as int, old(self).queue@.len() as int),
                self.capacity == old(self).capacity,
                self.queue.spec_capacity() == old(self).queue.spec_capacity(),
                self.queue@ == old(self).queue@.skip(count as int),
                self.running == old(self).running,
                self.queue_cancelled == old(self).queue_cancelled,
                self.sigint == old(self).sigint,
                self.drain_pending is None,
                self.responses@ == old(self).responses@ + cancelled_of(
                    queue_ids(old(self).queue@).take(count as int),
                ),
                self.history@ == old(self).history@,
            decreases bound - count,
        {
            let item = self.queue.pop();
            match item {
                Some(e) => {
                    self.responses.push(KernelResponse::Cancelled(e.message_id));
                    proof {
                        assert(old(self).queue@.skip(count as int).drop_first() =~= old(
                            self,
                        ).queue@.skip(count + 1));
                        assert(queue_ids(old(self).queue@).take(count + 1) =~= queue_ids(
                            old(self).queue@,
                        ).take(count as int).push(e.message_id));
                        assert(cancelled_of(queue_ids(old(self).queue@).take(count + 1)) =~=
                            cancelled_of(queue_ids(old(self).queue@).take(count as int)).push(
                            KernelResponse::Cancelled(e.message_id),
                        ));
                    }
                }
                None => {
                    proof {
                        assert(false);
                    }
                }
            }
            count = count + 1;
        }
        proof {
            assert(self.history@ =~= resp_ids(self.responses@) + running_ids(self.running)
                + queue_ids(self.queue@)) by {
                assert(resp_ids(old(self).responses@ + cancelled_of(
                    queue_ids(old(self).queue@).take(count as int),
                )) =~= resp_ids(old(self).responses@) + queue_ids(old(self).queue@).take(
                    count as int,
                ));
                assert(queue_ids(old(self).queue@.skip(count as int)) =~= queue_ids(
                    old(self).queue@,
                ).skip(count as int));
                assert(queue_ids(old(self).queue@).take(count as int) + queue_ids(
                    old(self).queue@,
                ).skip(count as int) =~= queue_ids(old(self).queue@));
            }
        }
        count
    }

    /// The dispatcher's execute branch: pull the queue head and hand it to
    /// the REPL.  Only legal while dispatching is enabled — in particular the
    /// biased select has found no pending drain and no observed cancellation.
    /// Returns the work item to execute, or `None` when the queue is empty.
    pub fn begin_exec(&mut self) -> (item: Option<Exec>)
        requires
            old(self).wf(),
            old(self).dispatch_enabled(),
        ensures
            final(self).wf(),
            old(self).queue@.len() == 0 ==> item is None && stutter_rel(*old(self), *final(self)),
            old(self).queue@.len() > 0 ==> begin_rel(*old(self), *final(self)) && (match item {
                Some(e) => e == old(self).queue@[0],
                None => false,
            }),
    {
        let item = self.queue.pop();
        match &item {
            Some(e) => {
                self.running = Some(e.message_id);
                proof {
                    assert(self.history@ =~= resp_ids(self.responses@) + running_ids(self.running)
                        + queue_ids(self.queue@)) by {
                        assert(queue_ids(old(self).queue@) =~= seq![
                            old(self).queue@[0].message_id,
                        ] + queue_ids(old(self).queue@.drop_first()));
                    }
                }
            }
            None => {}
        }
        item
    }

    /// The dispatcher labels the in-flight request with the REPL's outcome:
    /// `Ok` yields `Success`, a reported failure yields `Failed`, an
    /// interrupted execution yields `Cancelled`.  Either error raises queue
    /// cancellation, so everything still queued will be drained.
    pub fn finish_exec(&mut self, outcome: Result<(), ReplError>) -> (resp: KernelResponse)
        requires
            old(self).wf(),
            old(self).running is Some,
        ensures
            final(self).wf(),
            finish_rel(*old(self), *final(self), outcome),
            resp == response_for(
                match old(self).running {
                    Some(id) => id,
                    None => 0,
                },
                outcome,
            ),
    {
        let id = match self.running {
            Some(id) => id,
            None => 0,
        };
        self.running = None;
        let resp = match outcome {
            Ok(_) => KernelResponse::Success(id),
            Err(ReplError::Failed) => {
                self.queue_cancelled = true;
                KernelResponse::Failed(id)
            }
            Err(ReplError::Interrupted) => {
                self.queue_cancelled = true;
                KernelResponse::Cancelled(id)
            }
        };
        self.responses.push(resp);
        proof {
            assert(self.history@ =~= resp_ids(self.responses@) + running_ids(self.running)
                + queue_ids(self.queue@)) by {
                assert(resp_ids(self.responses@) =~= resp_ids(old(self).responses@).push(
                    resp.spec_id(),
                ));
                assert(running_ids(old(self).running) =~= seq![resp.spec_id()]);
            }
        }
        resp
    }
}

/// Law: every accepted request is answered by exactly one response carrying
/// its id.  In a quiescent kernel — nothing queued, nothing in flight — the
/// response ids are exactly the accepted ids, in order, so the response at
/// each position answers the request accepted at that position and no other.
pub proof fn lemma_every_accepted_request_resolved(s: Kernel)
    requires
        s.wf(),
        s.queue@.len() == 0,
        s.running is None,
    ensures
        resp_ids(s.responses@) == s.history@,
{
    assert(resp_ids(s.responses@) =~= s.history@);
}

/// Law: responses appear in submission order.  At any instant the response
/// ids are exactly the first emitted-count accepted ids, so of two accepted
/// requests the earlier one is answered first.
pub proof fn lemma_responses_follow_submission_order(s: Kernel)
    requires
        s.wf(),
    ensures
        s.responses@.len() <= s.history@.len(),
        resp_ids(s.responses@) == s.history@.take(s.responses@.len() as int),
{
    assert(resp_ids(s.responses@) =~= s.history@.take(s.responses@.len() as int));
}

/// Law: at every instant, admitted minus responded is at most the capacity.
pub proof fn lemma_admission_bounded(s: Kernel)
    requires
        s.wf(),
    ensures
        s.history@.len() - s.responses@.len() <= s.capacity,
{
}

/// Law: once the interrupt (or a failure) has been observed, the dispatcher
/// cannot start anything: the queue is only ever drained, and draining after
/// the watcher's notice cancels the whole backlog.  Concretely, one watcher
/// pass and one drain pass empty the queue and append exactly a `Cancelled`
/// response for every queued request, oldest first — none of them is
/// `Success`.
pub proof fn lemma_interrupt_halts_queue(pre: Kernel, mid: Kernel, post: Kernel, info: Option<
    usize,
>)
    requires
        pre.wf(),
        mid.wf(),
        post.wf(),
        pre.queue_cancelled,
        pre.running is None,
        pre.drain_pending is None,
        watch_rel(pre, mid, info),
        drain_rel(mid, post),
    ensures
        post.queue@.len() == 0,
        post.responses@ == pre.responses@ + cancelled_of(queue_ids(pre.queue@)),
        forall|i: int|
            pre.responses@.len() <= i < post.responses@.len() ==> post.responses@[i] is Cancelled,
        !post.dispatch_enabled(),
{
    assert(queue_ids(pre.queue@).take(pre.queue@.len() as int) =~= queue_ids(pre.queue@));
    assert(post.queue@ =~= Seq::<Exec>::empty());
    assert(post.responses@ == pre.responses@ + cancelled_of(queue_ids(pre.queue@)));
}

/// Law: once the request in flight resolves, its response is `Success`
/// exactly when the REPL completed it normally.  A request the interrupt
/// reached first resolves as `Cancelled`, never as `Success`.
pub proof fn lemma_inflight_success_means_completed(
    pre: Kernel,
    post: Kernel,
    outcome: Result<(), ReplError>,
)
    requires
        finish_rel(pre, post, outcome),
    ensures
        post.responses@.len() > 0,
        post.responses@.last() is Success <==> outcome is Ok,
{
}

/// Law: a failure halts the queue.  When the in-flight request resolves as
/// `Failed`, every request admitted after it and not yet answered — that is,
/// everything still queued — is answered `Cancelled` by the following
/// watcher and drain passes, and the queue is left empty.
pub proof fn lemma_failure_halts_queue(
    pre: Kernel,
    s1: Kernel,
    s2: Kernel,
    post: Kernel,
    info: Option<usize>,
)
    requires
        pre.wf(),
        s1.wf(),
        s2.wf(),
        post.wf(),
        pre.running is Some,
        pre.drain_pending is None,
        finish_rel(pre, s1, Err(ReplError::Failed)),
        watch_rel(s1, s2, info),
        drain_rel(s2, post),
    ensures
        s1.responses@.last() == KernelResponse::Failed(
            match pre.running {
                Some(id) => id,
                None => 0,
            },
        ),
        post.queue@.len() == 0,
        post.responses@ == s1.responses@ + cancelled_of(queue_ids(pre.queue@)),
        forall|i: int|
            s1.responses@.len() <= i < post.responses@.len() ==> post.responses@[i] is Cancelled,
        !post.dispatch_enabled(),
{
    assert(queue_ids(s2.queue@).take(s2.queue@.len() as int) =~= queue_ids(s2.queue@));
    assert(post.queue@ =~= Seq::<Exec>::empty());
}

/// One step of the kernel, with the data the environment supplies to it.
/// Used to state laws that quantify over whole executions.
pub enum KStep {
    /// Ingress admits an Execute request with this id and code.
    Admit(MessageId, Seq<char>),
    /// Ingress observes Interrupt.
    Interrupt,
    /// The watcher runs, publishing what the second component reports.
    Watch(Option<usize>),
    /// The dispatcher consumes the published drain count.
    Drain,
    /// The dispatcher pulls the queue head for the REPL.
    Begin,
    /// The REPL resolved the in-flight request with this outcome.
    Finish(Result<(), ReplError>),
}

/// The transition each step performs, together with the condition under
/// which the step can run at all: admission needs a free permit, draining
/// needs a published count and an idle REPL, dispatching needs the biased
/// select to have found nothing better to do, and finishing needs a request
/// in flight.
pub open spec fn kernel_step(pre: Kernel, post: Kernel, step: KStep) -> bool {
    match step {
        KStep::Admit(id, code) => pre.live() < pre.capacity && admit_rel(pre, post, id, code),
        KStep::Interrupt => interrupt_rel(pre, post),
        KStep::Watch(info) => watch_rel(pre, post, info),
        KStep::Drain => pre.drain_pending is Some && pre.running is None && drain_rel(pre, post),
        KStep::Begin => pre.dispatch_enabled() && (begin_rel(pre, post) || (pre.queue@.len() == 0
            && stutter_rel(pre, post))),
        KStep::Finish(outcome) => pre.running is Some && finish_rel(pre, post, outcome),
    }
}

/// The kernel can run from `s0` to `s1` by taking `steps` in order.
pub open spec fn runs_to(s0: Kernel, steps: Seq<KStep>, s1: Kernel) -> bool
    decreases steps.len(),
{
    if steps.len() == 0 {
        stutter_rel(s0, s1)
    } else {
        exists|mid: Kernel|
            #[trigger] kernel_step(s0, mid, steps[0]) && runs_to(mid, steps.drop_first(), s1)
    }
}

/// `post` extends `pre` and everything appended is a `Cancelled` response.
pub open spec fn appended_all_cancelled(pre: Seq<KernelResponse>, post: Seq<KernelResponse>) -> bool {
    &&& post.len() >= pre.len()
    &&& post.take(pre.len() as int) == pre
    &&& forall|i: int| pre.len() <= i < post.len() ==> (#[trigger] post[i]) is Cancelled
}

/// Law: cancellation is forever.  From any state where the queue
/// cancellation has been observed and nothing is in flight, no execution of
/// any length can dispatch anything again: every response appended from that
/// point on, including those of requests admitted only afterwards, is
/// `Cancelled` — never `Success`, never `Failed`.
pub proof fn lemma_cancelled_forever(s0: Kernel, trace: Seq<KStep>, s1: Kernel)
    requires
        s0.queue_cancelled,
        (s0.running is None),
        runs_to(s0, trace, s1),
    ensures
        s1.queue_cancelled,
        (s1.running is None),
        appended_all_cancelled(s0.responses@, s1.responses@),
    decreases trace.len(),
{
    if trace.len() == 0 {
        assert(s1.responses@.take(s0.responses@.len() as int) =~= s0.responses@);
    } else {
        let mid = choose|mid: Kernel|
            #[trigger] kernel_step(s0, mid, trace[0]) && runs_to(mid, trace.drop_first(), s1);
        match trace[0] {
            KStep::Admit(id, code) => {
                assert(mid.responses@.take(s0.responses@.len() as int) =~= s0.responses@);
            }
            KStep::Interrupt => {
                assert(mid.responses@.take(s0.responses@.len() as int) =~= s0.responses@);
            }
            KStep::Watch(info) => {
                assert(mid.responses@.take(s0.responses@.len() as int) =~= s0.responses@);
            }
            KStep::Drain => {
                assert(mid.responses@.take(s0.responses@.len() as int) =~= s0.responses@);
                assert(forall|i: int|
                    s0.responses@.len() <= i < mid.responses@.len() ==> (#[trigger] mid.responses@[i]) is Cancelled);
            }
            KStep::Begin => {
                // The biased select never reaches the execute branch while
                // the cancellation is observed.
                assert(!s0.dispatch_enabled());
                assert(false);
            }
            KStep::Finish(outcome) => {
                assert(false);
            }
        }
        lemma_cancelled_forever(mid, trace.drop_first(), s1);
        assert(s1.responses@.take(s0.responses@.len() as int) =~= s1.responses@.take(
            mid.responses@.len() as int,
        ).take(s0.responses@.len() as int));
        assert forall|i: int|
            s0.responses@.len() <= i < s1.responses@.len() implies (#[trigger] s1.responses@[i]) is Cancelled by {
            if i < mid.responses@.len() {
                assert(s1.responses@.take(mid.responses@.len() as int)[i] == s1.responses@[i]);
                assert(mid.responses@[i] is Cancelled);
            }
        }
    }
}

} // verus!
