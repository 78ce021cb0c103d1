//! The pool machine: one shared queue, a fixed set of workers, the
//! reference-counted shutdown protocol, and the registry of cancelable
//! background tasks.
//!
//! Everything here is the pool's logic in deterministic form. A driver —
//! an async shell, or a test — plays the environment: it picks which worker
//! dequeues next (`step`), when a delayed timer elapses (`fire_delayed`),
//! when an interval ticks (`fire_tick`), and when a worker's receive loop
//! ends (`worker_exit`). The contracts pin down the exact effect of every
//! such event, so every schedule the environment can choose stays inside
//! the stated invariants.

use vstd::prelude::*;

use crate::actor::Handler;
use crate::builder::Config;
use crate::context::Envelope;
use crate::context::Worker;
use crate::context::should_deliver_delayed;
use crate::context::should_restart;
use crate::error::ActixSendError;
use crate::object::ErasedResult;

verus! {

/// Counters and configuration shared by every worker and every handle of a
/// pool.
pub struct PoolState {
    /// The configuration snapshot taken when the pool started.
    pub config: Config,
    /// How many worker loops are currently alive.
    pub active: usize,
    /// Whether the pool has been marked fully shut down (the queue's send
    /// side is closed).
    pub shut_down: bool,
}

impl PoolState {
    /// A fresh state: no worker has started yet, the pool is open.
    pub fn new(config: Config) -> (s: Self)
        ensures
            s.config == config,
            s.active == 0,
            !s.shut_down,
    {
        PoolState { config, active: 0, shut_down: false }
    }

    /// A worker loop has come alive.
    pub fn inc_active(&mut self)
        requires
            old(self).active < old(self).config.num,
        ensures
            final(self).active == old(self).active + 1,
            final(self).config == old(self).config,
            final(self).shut_down == old(self).shut_down,
    {
        self.active = self.active + 1;
    }

    /// A worker loop has ended. Returns whether the pool was still open,
    /// which is what the restart decision feeds on.
    pub fn dec_active(&mut self) -> (still_open: bool)
        requires
            old(self).active >= 1,
        ensures
            final(self).active == old(self).active - 1,
            final(self).config == old(self).config,
            final(self).shut_down == old(self).shut_down,
            still_open == !old(self).shut_down,
    {
        self.active = self.active - 1;
        !self.shut_down
    }

    /// Marks the pool fully shut down.
    pub fn shutdown(&mut self)
        ensures
            final(self).shut_down,
            final(self).config == old(self).config,
            final(self).active == old(self).active,
    {
        self.shut_down = true;
    }

    /// The number of currently live workers.
    pub fn current_active(&self) -> (n: usize)
        ensures
            n == self.active,
    {
        self.active
    }

    /// The restart policy of the pool.
    pub fn restart_on_err(&self) -> (r: bool)
        ensures
            r == self.config.restart_on_err,
    {
        self.config.restart_on_err
    }

    /// Whether pending delayed work is still delivered once shutdown begins.
    pub fn handle_delay_on_shutdown(&self) -> (r: bool)
        ensures
            r == self.config.handle_delayed_on_shutdown,
    {
        self.config.handle_delayed_on_shutdown
    }
}

/// A cancelable background task registered in the pool.
pub enum Task<M, O> {
    /// A one-shot delayed delivery. `pending` holds the envelope to deliver
    /// until the task fires or the payload is discarded.
    Delayed { alive: bool, pending: Option<Envelope<M, O>> },
    /// The tick loop of a registered interval operation; `index` is the
    /// registration slot of the stored operation.
    Interval { alive: bool, index: usize },
}

impl<M, O> Task<M, O> {
    /// Whether the task is still scheduled.
    pub open spec fn alive(self) -> bool {
        match self {
            Task::Delayed { alive, .. } => alive,
            Task::Interval { alive, .. } => alive,
        }
    }
}

/// What a worker hands back to the driver after dequeuing one envelope: the
/// reply owed to the single-use reply channel of that envelope, if any.
#[allow(inconsistent_fields)]
pub enum StepOutcome<A: Handler> {
    /// No reply is owed.
    Idle,
    /// The dispatch result of an instant message whose caller awaits it.
    Reply { value: A::Result },
    /// The erased result of an ad-hoc operation whose caller awaits it.
    DynReply { value: ErasedResult<A::OpResult> },
    /// The cancellation handle of a freshly registered interval.
    RegisterReply { handler: usize },
    /// The acknowledgement of a manual shutdown request.
    ShutDownAck,
}

/// How many workers of `ws` have a live receive loop.
pub open spec fn count_running<A: Handler>(ws: Seq<Worker<A>>) -> int
    decreases ws.len(),
{
    if ws.len() == 0 {
        0
    } else {
        count_running(ws.drop_last()) + if ws.last().running {
            1int
        } else {
            0int
        }
    }
}

/// `count_running` lies between zero and the number of workers.
pub proof fn lemma_count_running_bounds<A: Handler>(ws: Seq<Worker<A>>)
    ensures
        0 <= count_running(ws) <= ws.len(),
    decreases ws.len(),
{
    if ws.len() > 0 {
        lemma_count_running_bounds(ws.drop_last());
    }
}

/// Replacing one worker changes the running count by exactly the difference
/// the replacement makes.
pub proof fn lemma_count_running_update<A: Handler>(ws: Seq<Worker<A>>, i: int, w: Worker<A>)
    requires
        0 <= i < ws.len(),
    ensures
        count_running(ws.update(i, w)) == count_running(ws) + (if w.running {
            1int
        } else {
            0int
        }) - (if ws[i].running {
            1int
        } else {
            0int
        }),
    decreases ws.len(),
{
    let ws2 = ws.update(i, w);
    if i == ws.len() - 1 {
        assert(ws2.drop_last() =~= ws.drop_last());
    } else {
        assert(ws2.drop_last() =~= ws.drop_last().update(i, w));
        lemma_count_running_update(ws.drop_last(), i, w);
    }
}

/// Appending one worker adds one to the count exactly when it is running.
pub proof fn lemma_count_running_push<A: Handler>(ws: Seq<Worker<A>>, w: Worker<A>)
    ensures
        count_running(ws.push(w)) == count_running(ws) + (if w.running {
            1int
        } else {
            0int
        }),
{
    assert(ws.push(w).drop_last() =~= ws);
}

/// A pool with no running worker has a running count of zero.
pub proof fn lemma_count_running_none<A: Handler>(ws: Seq<Worker<A>>)
    requires
        forall|j: int| 0 <= j < ws.len() ==> !(#[trigger] ws[j]).running,
    ensures
        count_running(ws) == 0,
    decreases ws.len(),
{
    if ws.len() > 0 {
        lemma_count_running_none(ws.drop_last());
    }
}

/// A running worker makes the running count at least one.
pub proof fn lemma_count_running_pos<A: Handler>(ws: Seq<Worker<A>>, i: int)
    requires
        0 <= i < ws.len(),
        ws[i].running,
    ensures
        count_running(ws) >= 1,
    decreases ws.len(),
{
    if i == ws.len() - 1 {
        lemma_count_running_bounds(ws.drop_last());
    } else {
        lemma_count_running_pos(ws.drop_last(), i);
        assert(count_running(ws) >= count_running(ws.drop_last()));
    }
}

/// The envelopes that the cancellation of all background tasks still
/// delivers when draining is on: the pending payload of every alive delayed
/// task, in task order.
pub open spec fn flush_delayed<M, O>(ts: Seq<Task<M, O>>) -> Seq<Envelope<M, O>>
    decreases ts.len(),
{
    if ts.len() == 0 {
        Seq::empty()
    } else {
        flush_delayed(ts.drop_last()) + match ts.last() {
            Task::Delayed { alive: true, pending: Some(env) } => seq![env],
            _ => Seq::empty(),
        }
    }
}

/// Appending one task appends exactly that task's contribution to the flush.
pub proof fn lemma_flush_delayed_push<M, O>(ts: Seq<Task<M, O>>, x: Task<M, O>)
    ensures
        flush_delayed(ts.push(x)) == flush_delayed(ts) + match x {
            Task::Delayed { alive: true, pending: Some(env) } => seq![env],
            _ => Seq::empty(),
        },
{
    assert(ts.push(x).drop_last() =~= ts);
}

/// The pending payload of every alive delayed task is among the envelopes
/// the flush delivers. So with draining on, a delayed message whose task was
/// registered before the last strong handle dropped is still pushed onto
/// the queue at shutdown rather than discarded.
pub proof fn lemma_flush_delayed_contains<M, O>(ts: Seq<Task<M, O>>, t: int, env: Envelope<M, O>)
    requires
        0 <= t < ts.len(),
        ts[t] == (Task::Delayed { alive: true, pending: Some(env) }),
    ensures
        flush_delayed(ts).contains(env),
    decreases ts.len(),
{
    if t == ts.len() - 1 {
        let f = flush_delayed(ts);
        assert(f == flush_delayed(ts.drop_last()) + seq![env]);
        assert(f[f.len() - 1] == env);
    } else {
        assert(ts.drop_last()[t] == ts[t]);
        lemma_flush_delayed_contains(ts.drop_last(), t, env);
        let fa = flush_delayed(ts.drop_last());
        let w = choose|w: int| 0 <= w < fa.len() && fa[w] == env;
        assert(flush_delayed(ts)[w] == env);
    }
}

/// The fold of a message sequence through one actor's dispatch: the state
/// after handling every message in order, and the results in input order.
pub open spec fn handle_all<A: Handler>(a: A, ms: Seq<A::Message>) -> (A, Seq<A::Result>)
    decreases ms.len(),
{
    if ms.len() == 0 {
        (a, Seq::empty())
    } else {
        let (a1, r1) = a.handle_spec(ms[0]);
        let (a2, rs) = handle_all(a1, ms.drop_first());
        (a2, seq![r1] + rs)
    }
}

/// The lowest index of a worker with a live receive loop, or the length of
/// `ws` when none is left.
pub open spec fn lowest_running<A: Handler>(ws: Seq<Worker<A>>) -> int
    decreases ws.len(),
{
    if ws.len() == 0 {
        0
    } else if ws.first().running {
        0
    } else {
        1 + lowest_running(ws.drop_first())
    }
}

/// `lowest_running` is exactly the first index whose worker runs (the length
/// when none does).
pub proof fn lemma_lowest_running_at<A: Handler>(ws: Seq<Worker<A>>, j: int)
    requires
        0 <= j <= ws.len(),
        forall|k: int| 0 <= k < j ==> !(#[trigger] ws[k]).running,
        j < ws.len() ==> ws[j].running,
    ensures
        lowest_running(ws) == j,
    decreases ws.len(),
{
    if ws.len() > 0 {
        if j == 0 {
        } else {
            assert(!ws[0].running);
            lemma_lowest_running_at(ws.drop_first(), j - 1);
        }
    }
}

/// One envelope of the post-shutdown drain, dispatched to worker `i`: the
/// same table as `step`, specialised to a pool already shut down (a delayed
/// envelope is discarded, a freshly registered interval task is born
/// cancelled).
pub open spec fn drain_step<A: Handler>(
    ws: Seq<Worker<A>>,
    ivs: Seq<Option<A::Op>>,
    ts: Seq<Task<A::Message, A::Op>>,
    i: int,
    e: Envelope<A::Message, A::Op>,
) -> (Seq<Worker<A>>, Seq<Option<A::Op>>, Seq<Task<A::Message, A::Op>>) {
    match e {
        Envelope::ManualShutDown { listening } => {
            if listening {
                (
                    ws.update(
                        i,
                        Worker {
                            actor: ws[i].actor.on_stop_spec(),
                            running: false,
                            manual_shutdown: true,
                        },
                    ),
                    ivs,
                    ts,
                )
            } else {
                (ws, ivs, ts)
            }
        },
        Envelope::Instant { want_reply, msg } => (
            ws.update(
                i,
                Worker {
                    actor: ws[i].actor.handle_spec(msg).0,
                    running: true,
                    manual_shutdown: false,
                },
            ),
            ivs,
            ts,
        ),
        Envelope::InstantDynamic { want_reply, tag, op } => (
            ws.update(
                i,
                Worker {
                    actor: ws[i].actor.run_op_spec(op).0,
                    running: true,
                    manual_shutdown: false,
                },
            ),
            ivs,
            ts,
        ),
        Envelope::Delayed { msg, delay_ms } => (ws, ivs, ts),
        Envelope::DelayedDynamic { op, delay_ms } => (ws, ivs, ts),
        Envelope::IntervalFutureRegister { op, period_ms } => (
            ws,
            ivs.push(Some(op)),
            ts.push(Task::Interval { alive: false, index: ivs.len() as usize }),
        ),
        Envelope::IntervalFutureRun { index } => {
            if index < ivs.len() && ivs[index as int] is Some {
                (
                    ws.update(
                        i,
                        Worker {
                            actor: ws[i].actor.run_op_spec(ivs[index as int].unwrap()).0,
                            running: true,
                            manual_shutdown: false,
                        },
                    ),
                    ivs,
                    ts,
                )
            } else {
                (ws, ivs, ts)
            }
        },
        Envelope::IntervalFutureRemove { index } => {
            if index < ivs.len() {
                (ws, ivs.update(index as int, None), ts)
            } else {
                (ws, ivs, ts)
            }
        },
    }
}

/// The canonical fold of the post-shutdown drain: each remaining envelope is
/// dispatched, in queue order, to the lowest-index worker whose loop is
/// still alive; envelopes left when no live worker remains are dropped.
pub open spec fn drain_all<A: Handler>(
    ws: Seq<Worker<A>>,
    ivs: Seq<Option<A::Op>>,
    ts: Seq<Task<A::Message, A::Op>>,
    q: Seq<Envelope<A::Message, A::Op>>,
) -> (Seq<Worker<A>>, Seq<Option<A::Op>>, Seq<Task<A::Message, A::Op>>)
    decreases q.len(),
{
    if q.len() == 0 {
        (ws, ivs, ts)
    } else if lowest_running(ws) >= ws.len() {
        (ws, ivs, ts)
    } else {
        let (w2, i2, t2) = drain_step(ws, ivs, ts, lowest_running(ws), q.first());
        drain_all(w2, i2, t2, q.drop_first())
    }
}

/// Every worker whose loop is still alive terminates: its `on_stop` hook
/// runs and it stops for good; workers already stopped are untouched.
pub open spec fn stop_all<A: Handler>(ws: Seq<Worker<A>>) -> Seq<Worker<A>> {
    Seq::new(
        ws.len(),
        |j: int|
            if ws[j].running {
                Worker { actor: ws[j].actor.on_stop_spec(), running: false, manual_shutdown: false }
            } else {
                ws[j]
            },
    )
}

/// A fixed-size pool of workers sharing one queue, with the shared state,
/// the strong-handle count, and the registries of interval operations and
/// cancelable background tasks.
pub struct Pool<A: Handler> {
    /// Counters and configuration shared by the workers.
    pub state: PoolState,
    /// How many strong handles to the pool exist; the pool shuts down when
    /// the count reaches zero.
    pub strong: usize,
    /// The workers; the vector's length is the configured worker count.
    pub workers: Vec<Worker<A>>,
    /// The shared work queue, front first.
    pub queue: Vec<Envelope<A::Message, A::Op>>,
    /// Registered interval operations; a slot goes back to `None` when its
    /// registration is removed.
    pub intervals: Vec<Option<A::Op>>,
    /// Cancelable background tasks: delayed deliveries and interval loops.
    pub tasks: Vec<Task<A::Message, A::Op>>,
    /// How many envelopes have been dequeued and handled, ever. Each
    /// envelope is consumed by exactly one worker exactly once.
    pub processed: u64,
}

impl<A: Handler> Pool<A> {
    /// The pool's invariant: the configuration is runnable, the worker vector
    /// has the configured size, the active counter equals the number of
    /// running workers, a running worker was never manually shut down, the
    /// pool is shut down exactly when no strong handle is left, after
    /// shutdown no background task is alive, and an alive delayed task still
    /// holds its payload.
    pub open spec fn wf(self) -> bool {
        &&& self.state.config.wf()
        &&& self.workers@.len() == self.state.config.num
        &&& self.state.active == count_running(self.workers@)
        &&& forall|j: int|
            0 <= j < self.workers@.len() ==> ((#[trigger] self.workers@[j]).running
                ==> !self.workers@[j].manual_shutdown)
        &&& self.state.shut_down == (self.strong == 0)
        &&& self.state.shut_down ==> forall|t: int|
            0 <= t < self.tasks@.len() ==> !(#[trigger] self.tasks@[t]).alive()
        &&& forall|t: int|
            0 <= t < self.tasks@.len() ==> ((#[trigger] self.tasks@[t]) matches Task::Delayed {
                alive: true,
                pending,
            } ==> pending is Some)
    }

    /// Everything a handle operation leaves untouched.
    pub open spec fn core_unchanged(self, o: Self) -> bool {
        &&& self.state == o.state
        &&& self.workers@ == o.workers@
        &&& self.queue@ == o.queue@
        &&& self.intervals@ == o.intervals@
        &&& self.tasks@ == o.tasks@
        &&& self.processed == o.processed
    }

    /// The registries a worker step leaves untouched unless it says so.
    pub open spec fn registries_unchanged(self, o: Self) -> bool {
        &&& self.intervals@ == o.intervals@
        &&& self.tasks@ == o.tasks@
    }

    /// Builds the pool: one worker per actor, each started (its `on_start`
    /// hook run) and counted, an empty queue, and a single strong handle.
    pub fn start(config: Config, actors: Vec<A>) -> (p: Self)
        requires
            config.wf(),
            actors@.len() == config.num,
        ensures
            p.wf(),
            p.state.config == config,
            !p.state.shut_down,
            p.strong == 1,
            p.state.active == config.num,
            p.workers@.len() == config.num,
            forall|j: int|
                0 <= j < config.num ==> #[trigger] p.workers@[j] == (Worker {
                    actor: actors@[j].on_start_spec(),
                    running: true,
                    manual_shutdown: false,
                }),
            p.queue@.len() == 0,
            p.intervals@.len() == 0,
            p.tasks@.len() == 0,
            p.processed == 0,
    {
        let ghost all = actors@;
        let mut actors = actors;
        let mut workers: Vec<Worker<A>> = Vec::new();
        let mut state = PoolState::new(config);
        while actors.len() > 0
            invariant
                config.wf(),
                all.len() == config.num,
                workers@.len() + actors@.len() == config.num,
                actors@ == all.subrange(workers@.len() as int, config.num as int),
                forall|j: int|
                    0 <= j < workers@.len() ==> #[trigger] workers@[j] == (Worker {
                        actor: all[j].on_start_spec(),
                        running: true,
                        manual_shutdown: false,
                    }),
                count_running(workers@) == workers@.len(),
                state.config == config,
                state.active == workers@.len(),
                !state.shut_down,
            decreases actors@.len(),
        {
            let ghost prev = workers@;
            let mut a = actors.remove(0);
            a.on_start();
            let w = Worker { actor: a, running: true, manual_shutdown: false };
            proof {
                lemma_count_running_push(prev, w);
            }
            workers.push(w);
            state.inc_active();
            proof {
                assert(actors@ =~= all.subrange(workers@.len() as int, config.num as int));
            }
        }
        Pool {
            state,
            strong: 1,
            workers,
            queue: Vec::new(),
            intervals: Vec::new(),
            tasks: Vec::new(),
            processed: 0,
        }
    }

    /// The number of currently live workers behind this pool.
    pub fn current_active(&self) -> (n: usize)
        ensures
            n == self.state.active,
    {
        self.state.current_active()
    }

    /// Cloning a strong handle: the strong count goes up by one.
    pub fn clone_handle(&mut self)
        requires
            old(self).wf(),
            !old(self).state.shut_down,
            old(self).strong < usize::MAX,
        ensures
            final(self).wf(),
            final(self).strong == old(self).strong + 1,
            final(self).core_unchanged(*old(self)),
    {
        self.strong = self.strong + 1;
    }

    /// What enqueuing one envelope leaves behind: the queue grows by exactly
    /// that envelope at the back, everything else stays.
    pub open spec fn enqueued(self, o: Self, e: Envelope<A::Message, A::Op>) -> bool {
        &&& self.queue@ == o.queue@.push(e)
        &&& self.state == o.state
        &&& self.strong == o.strong
        &&& self.workers@ == o.workers@
        &&& self.intervals@ == o.intervals@
        &&& self.tasks@ == o.tasks@
        &&& self.processed == o.processed
    }

    /// Enqueues an instant message whose caller awaits the dispatch result.
    /// Fails with `Closed` — and changes nothing — exactly when the pool has
    /// shut down.
    pub fn send(&mut self, msg: A::Message) -> (r: Result<(), ActixSendError>)
        requires
            old(self).wf(),
        ensures
            final(self).wf(),
            old(self).state.shut_down ==> r == Err::<(), ActixSendError>(ActixSendError::Closed)
                && *final(self) == *old(self),
            !old(self).state.shut_down ==> r == Ok::<(), ActixSendError>(()) && final(self).enqueued(
                *old(self),
                (Envelope::Instant { want_reply: true, msg }),
            ),
    {
        if self.state.shut_down {
            Err(ActixSendError::Closed)
        } else {
            self.queue.push(Envelope::Instant { want_reply: true, msg });
            Ok(())
        }
    }

    /// Enqueues an instant message and forgets it: fire and forget, no reply.
    pub fn do_send(&mut self, msg: A::Message) -> (r: Result<(), ActixSendError>)
        requires
            old(self).wf(),
        ensures
            final(self).wf(),
            old(self).state.shut_down ==> r == Err::<(), ActixSendError>(ActixSendError::Closed)
                && *final(self) == *old(self),
            !old(self).state.shut_down ==> r == Ok::<(), ActixSendError>(()) && final(self).enqueued(
                *old(self),
                (Envelope::Instant { want_reply: false, msg }),
            ),
    {
        if self.state.shut_down {
            Err(ActixSendError::Closed)
        } else {
            self.queue.push(Envelope::Instant { want_reply: false, msg });
            Ok(())
        }
    }

    /// Enqueues a message to be delivered after `delay_ms` milliseconds.
    /// Only the enqueue is confirmed, not the delivery.
    pub fn send_later(&mut self, msg: A::Message, delay_ms: u64) -> (r: Result<(), ActixSendError>)
        requires
            old(self).wf(),
        ensures
            final(self).wf(),
            old(self).state.shut_down ==> r == Err::<(), ActixSendError>(ActixSendError::Closed)
                && *final(self) == *old(self),
            !old(self).state.shut_down ==> r == Ok::<(), ActixSendError>(()) && final(self).enqueued(
                *old(self),
                (Envelope::Delayed { msg, delay_ms }),
            ),
    {
        if self.state.shut_down {
            Err(ActixSendError::Closed)
        } else {
            self.queue.push(Envelope::Delayed { msg, delay_ms });
            Ok(())
        }
    }

    /// Enqueues an ad-hoc operation whose caller awaits the erased result
    /// under `tag`.
    pub fn run(&mut self, op: A::Op, tag: u64) -> (r: Result<(), ActixSendError>)
        requires
            old(self).wf(),
        ensures
            final(self).wf(),
            old(self).state.shut_down ==> r == Err::<(), ActixSendError>(ActixSendError::Closed)
                && *final(self) == *old(self),
            !old(self).state.shut_down ==> r == Ok::<(), ActixSendError>(()) && final(self).enqueued(
                *old(self),
                (Envelope::InstantDynamic { want_reply: true, tag, op }),
            ),
    {
        if self.state.shut_down {
            Err(ActixSendError::Closed)
        } else {
            self.queue.push(Envelope::InstantDynamic { want_reply: true, tag, op });
            Ok(())
        }
    }

    /// Enqueues an ad-hoc operation and forgets it.
    pub fn do_run(&mut self, op: A::Op) -> (r: Result<(), ActixSendError>)
        requires
            old(self).wf(),
        ensures
            final(self).wf(),
            old(self).state.shut_down ==> r == Err::<(), ActixSendError>(ActixSendError::Closed)
                && *final(self) == *old(self),
            !old(self).state.shut_down ==> r == Ok::<(), ActixSendError>(()) && final(self).enqueued(
                *old(self),
                (Envelope::InstantDynamic { want_reply: false, tag: 0, op }),
            ),
    {
        if self.state.shut_down {
            Err(ActixSendError::Closed)
        } else {
            self.queue.push(Envelope::InstantDynamic { want_reply: false, tag: 0, op });
            Ok(())
        }
    }

    /// Enqueues an ad-hoc operation to be run after `delay_ms` milliseconds.
    pub fn run_later(&mut self, op: A::Op, delay_ms: u64) -> (r: Result<(), ActixSendError>)
        requires
            old(self).wf(),
        ensures
            final(self).wf(),
            old(self).state.shut_down ==> r == Err::<(), ActixSendError>(ActixSendError::Closed)
                && *final(self) == *old(self),
            !old(self).state.shut_down ==> r == Ok::<(), ActixSendError>(()) && final(self).enqueued(
                *old(self),
                (Envelope::DelayedDynamic { op, delay_ms }),
            ),
    {
        if self.state.shut_down {
            Err(ActixSendError::Closed)
        } else {
            self.queue.push(Envelope::DelayedDynamic { op, delay_ms });
            Ok(())
        }
    }

    /// Enqueues the registration of a recurring operation executed once per
    /// `period_ms` milliseconds; the caller awaits the cancellation handle.
    pub fn run_interval(&mut self, op: A::Op, period_ms: u64) -> (r: Result<(), ActixSendError>)
        requires
            old(self).wf(),
        ensures
            final(self).wf(),
            old(self).state.shut_down ==> r == Err::<(), ActixSendError>(ActixSendError::Closed)
                && *final(self) == *old(self),
            !old(self).state.shut_down ==> r == Ok::<(), ActixSendError>(()) && final(self).enqueued(
                *old(self),
                (Envelope::IntervalFutureRegister { op, period_ms }),
            ),
    {
        if self.state.shut_down {
            Err(ActixSendError::Closed)
        } else {
            self.queue.push(Envelope::IntervalFutureRegister { op, period_ms });
            Ok(())
        }
    }

    /// Dropping a strong handle. When the last one goes, the pool shuts
    /// down: the queue's send side closes, every background task is
    /// cancelled, and — only if draining is configured — the pending payload
    /// of every delayed task is still pushed onto the queue, in task order;
    /// otherwise every pending payload is discarded.
    pub fn drop_handle(&mut self)
        requires
            old(self).wf(),
            old(self).strong >= 1,
        ensures
            final(self).wf(),
            final(self).strong == old(self).strong - 1,
            old(self).strong > 1 ==> *final(self) == (Pool {
                strong: (old(self).strong - 1) as usize,
                ..*old(self)
            }),
            old(self).strong == 1 ==> {
                &&& final(self).state.shut_down
                &&& final(self).state.config == old(self).state.config
                &&& final(self).state.active == old(self).state.active
                &&& final(self).workers@ == old(self).workers@
                &&& final(self).intervals@ == old(self).intervals@
                &&& final(self).processed == old(self).processed
                &&& final(self).tasks@.len() == old(self).tasks@.len()
                &&& forall|t: int|
                    0 <= t < final(self).tasks@.len() ==> !(#[trigger] final(self).tasks@[t]).alive()
                &&& old(self).state.config.handle_delayed_on_shutdown ==> final(self).queue@
                    == old(self).queue@ + flush_delayed(old(self).tasks@)
                &&& !old(self).state.config.handle_delayed_on_shutdown ==> final(self).queue@
                    == old(self).queue@
            },
    {
        self.strong = self.strong - 1;
        if self.strong == 0 {
            self.state.shutdown();
            let deliver = self.state.handle_delay_on_shutdown();
            let ghost init = *self;
            let mut t: usize = 0;
            while t < self.tasks.len()
                invariant
                    self.state == init.state,
                    self.strong == init.strong,
                    self.workers@ == init.workers@,
                    self.intervals@ == init.intervals@,
                    self.processed == init.processed,
                    self.tasks@.len() == init.tasks@.len(),
                    t <= self.tasks@.len(),
                    deliver == init.state.config.handle_delayed_on_shutdown,
                    forall|k: int| 0 <= k < t ==> !(#[trigger] self.tasks@[k]).alive(),
                    forall|k: int|
                        t <= k < self.tasks@.len() ==> #[trigger] self.tasks@[k]
                            == init.tasks@[k],
                    forall|k: int|
                        0 <= k < self.tasks@.len() ==> ((#[trigger] self.tasks@[k])
                            matches Task::Delayed { alive: true, pending } ==> pending is Some),
                    deliver ==> self.queue@ == init.queue@ + flush_delayed(
                        init.tasks@.subrange(0, t as int),
                    ),
                    !deliver ==> self.queue@ == init.queue@,
                decreases self.tasks@.len() - t,
            {
                let mut taken: Option<Envelope<A::Message, A::Op>> = None;
                let task = &mut self.tasks[t];
                match task {
                    Task::Delayed { alive, pending } => {
                        if *alive {
                            *alive = false;
                            taken = pending.take();
                        }
                    },
                    Task::Interval { alive, .. } => {
                        *alive = false;
                    },
                }
                if deliver {
                    match taken {
                        Some(e) => self.queue.push(e),
                        None => (),
                    }
                }
                proof {
                    assert(init.tasks@.subrange(0, t + 1) =~= init.tasks@.subrange(
                        0,
                        t as int,
                    ).push(init.tasks@[t as int]));
                    lemma_flush_delayed_push(
                        init.tasks@.subrange(0, t as int),
                        init.tasks@[t as int],
                    );
                }
                t = t + 1;
            }
            proof {
                assert(init.tasks@.subrange(0, init.tasks@.len() as int) =~= init.tasks@);
            }
        }
    }

    /// Worker `i` dequeues the envelope at the front of the shared queue and
    /// handles it, exactly once, per the dispatch table:
    ///
    /// - `ManualShutDown`: if the requester still listens, acknowledge, end
    ///   this worker's loop (its `on_stop` hook runs) and decrement the
    ///   active count; otherwise ignore the request.
    /// - `Instant`: dispatch the message to this worker's actor; the reply,
    ///   if wanted, is exactly the result the dispatch produced.
    /// - `InstantDynamic`: run the operation against the actor; the reply,
    ///   if wanted, is its result erased under the envelope's tag.
    /// - `Delayed` / `DelayedDynamic`: while the pool is open, register a
    ///   cancelable delayed-delivery task holding the matching instant
    ///   envelope; after shutdown the payload is discarded.
    /// - `IntervalFutureRegister`: store the operation in the next
    ///   registration slot, register its tick-loop task (born dead once the
    ///   pool has shut down), and reply with the cancellation handle.
    /// - `IntervalFutureRun`: execute the stored operation of that
    ///   registration, if it still exists; its result is discarded.
    /// - `IntervalFutureRemove`: drop the stored operation of that
    ///   registration, if it still exists.
    pub fn step(&mut self, i: usize) -> (r: StepOutcome<A>)
        requires
            old(self).wf(),
            i < old(self).workers@.len(),
            old(self).workers@[i as int].running,
            old(self).queue@.len() > 0,
            old(self).processed < u64::MAX,
        ensures
            final(self).wf(),
            final(self).queue@ == old(self).queue@.subrange(1, old(self).queue@.len() as int),
            final(self).processed == old(self).processed + 1,
            final(self).strong == old(self).strong,
            final(self).state.shut_down == old(self).state.shut_down,
            final(self).state.config == old(self).state.config,
            final(self).workers@.len() == old(self).workers@.len(),
            match old(self).queue@[0] {
                Envelope::ManualShutDown { listening } => {
                    &&& listening ==> {
                        &&& r is ShutDownAck
                        &&& final(self).workers@ == old(self).workers@.update(
                            i as int,
                            (Worker {
                                actor: old(self).workers@[i as int].actor.on_stop_spec(),
                                running: false,
                                manual_shutdown: true,
                            }),
                        )
                        &&& final(self).state.active == old(self).state.active - 1
                        &&& final(self).registries_unchanged(*old(self))
                    }
                    &&& !listening ==> {
                        &&& r is Idle
                        &&& final(self).workers@ == old(self).workers@
                        &&& final(self).state.active == old(self).state.active
                        &&& final(self).registries_unchanged(*old(self))
                    }
                },
                Envelope::Instant { want_reply, msg } => {
                    &&& final(self).workers@ == old(self).workers@.update(
                        i as int,
                        (Worker {
                            actor: old(self).workers@[i as int].actor.handle_spec(msg).0,
                            running: true,
                            manual_shutdown: false,
                        }),
                    )
                    &&& want_reply ==> r == (StepOutcome::<A>::Reply {
                        value: old(self).workers@[i as int].actor.handle_spec(msg).1,
                    })
                    &&& !want_reply ==> r is Idle
                    &&& final(self).state.active == old(self).state.active
                    &&& final(self).registries_unchanged(*old(self))
                },
                Envelope::InstantDynamic { want_reply, tag, op } => {
                    &&& final(self).workers@ == old(self).workers@.update(
                        i as int,
                        (Worker {
                            actor: old(self).workers@[i as int].actor.run_op_spec(op).0,
                            running: true,
                            manual_shutdown: false,
                        }),
                    )
                    &&& want_reply ==> (r matches StepOutcome::DynReply { value }
                        && value.tag_spec() == tag && value.value_spec() == old(
                        self,
                    ).workers@[i as int].actor.run_op_spec(op).1)
                    &&& !want_reply ==> r is Idle
                    &&& final(self).state.active == old(self).state.active
                    &&& final(self).registries_unchanged(*old(self))
                },
                Envelope::Delayed { msg, delay_ms } => {
                    &&& !old(self).state.shut_down ==> final(self).tasks@ == old(
                        self,
                    ).tasks@.push(
                        Task::Delayed {
                            alive: true,
                            pending: Some(Envelope::Instant { want_reply: false, msg }),
                        },
                    ) && final(self).intervals@ == old(self).intervals@
                    &&& old(self).state.shut_down ==> final(self).registries_unchanged(*old(self))
                    &&& final(self).workers@ == old(self).workers@
                    &&& final(self).state.active == old(self).state.active
                    &&& r is Idle
                },
                Envelope::DelayedDynamic { op, delay_ms } => {
                    &&& !old(self).state.shut_down ==> final(self).tasks@ == old(
                        self,
                    ).tasks@.push(
                        Task::Delayed {
                            alive: true,
                            pending: Some(
                                Envelope::InstantDynamic { want_reply: false, tag: 0, op },
                            ),
                        },
                    ) && final(self).intervals@ == old(self).intervals@
                    &&& old(self).state.shut_down ==> final(self).registries_unchanged(*old(self))
                    &&& final(self).workers@ == old(self).workers@
                    &&& final(self).state.active == old(self).state.active
                    &&& r is Idle
                },
                Envelope::IntervalFutureRegister { op, period_ms } => {
                    &&& final(self).intervals@ == old(self).intervals@.push(Some(op))
                    &&& final(self).tasks@ == old(self).tasks@.push(
                        Task::Interval {
                            alive: !old(self).state.shut_down,
                            index: old(self).intervals@.len() as usize,
                        },
                    )
                    &&& r == (StepOutcome::<A>::RegisterReply {
                        handler: old(self).tasks@.len() as usize,
                    })
                    &&& final(self).workers@ == old(self).workers@
                    &&& final(self).state.active == old(self).state.active
                },
                Envelope::IntervalFutureRun { index } => {
                    &&& (index < old(self).intervals@.len() && old(self).intervals@[index as int]
                        is Some) ==> final(self).workers@ == old(self).workers@.update(
                        i as int,
                        (Worker {
                            actor: old(self).workers@[i as int].actor.run_op_spec(
                                old(self).intervals@[index as int].unwrap(),
                            ).0,
                            running: true,
                            manual_shutdown: false,
                        }),
                    )
                    &&& !(index < old(self).intervals@.len() && old(self).intervals@[index as int]
                        is Some) ==> final(self).workers@ == old(self).workers@
                    &&& final(self).registries_unchanged(*old(self))
                    &&& final(self).state.active == old(self).state.active
                    &&& r is Idle
                },
                Envelope::IntervalFutureRemove { index } => {
                    &&& index < old(self).intervals@.len() ==> final(self).intervals@ == old(
                        self,
                    ).intervals@.update(index as int, None)
                    &&& index >= old(self).intervals@.len() ==> final(self).intervals@ == old(
                        self,
                    ).intervals@
                    &&& final(self).tasks@ == old(self).tasks@
                    &&& final(self).workers@ == old(self).workers@
                    &&& final(self).state.active == old(self).state.active
                    &&& r is Idle
                },
            },
    {
        let ghost init = *self;
        let env = self.queue.remove(0);
        proof {
            assert(self.queue@ =~= init.queue@.subrange(1, init.queue@.len() as int));
        }
        self.processed = self.processed + 1;
        match env {
            Envelope::ManualShutDown { listening } => {
                if listening {
                    proof {
                        lemma_count_running_pos(init.workers@, i as int);
                    }
                    let w = &mut self.workers[i];
                    w.running = false;
                    w.manual_shutdown = true;
                    w.actor.on_stop();
                    proof {
                        lemma_count_running_update(
                            init.workers@,
                            i as int,
                            final(self).workers@[i as int],
                        );
                    }
                    let _ = self.state.dec_active();
                    StepOutcome::ShutDownAck
                } else {
                    StepOutcome::Idle
                }
            },
            Envelope::Instant { want_reply, msg } => {
                let w = &mut self.workers[i];
                let value = w.actor.handle(msg);
                proof {
                    lemma_count_running_update(
                        init.workers@,
                        i as int,
                        final(self).workers@[i as int],
                    );
                }
                if want_reply {
                    StepOutcome::Reply { value }
                } else {
                    StepOutcome::Idle
                }
            },
            Envelope::InstantDynamic { want_reply, tag, op } => {
                let w = &mut self.workers[i];
                let value = w.actor.run_op(&op);
                proof {
                    lemma_count_running_update(
                        init.workers@,
                        i as int,
                        final(self).workers@[i as int],
                    );
                }
                if want_reply {
                    StepOutcome::DynReply { value: ErasedResult::pack(tag, value) }
                } else {
                    StepOutcome::Idle
                }
            },
            Envelope::Delayed { msg, delay_ms } => {
                if !self.state.shut_down {
                    let inst = (Envelope::Delayed { msg, delay_ms }).into_instant();
                    self.tasks.push(Task::Delayed { alive: true, pending: Some(inst) });
                }
                StepOutcome::Idle
            },
            Envelope::DelayedDynamic { op, delay_ms } => {
                if !self.state.shut_down {
                    let inst = (Envelope::DelayedDynamic { op, delay_ms }).into_instant();
                    self.tasks.push(Task::Delayed { alive: true, pending: Some(inst) });
                }
                StepOutcome::Idle
            },
            Envelope::IntervalFutureRegister { op, period_ms } => {
                let index = self.intervals.len();
                self.intervals.push(Some(op));
                let handler = self.tasks.len();
                let alive = !self.state.shut_down;
                self.tasks.push(Task::Interval { alive, index });
                StepOutcome::RegisterReply { handler }
            },
            Envelope::IntervalFutureRun { index } => {
                if index < self.intervals.len() {
                    let slot = self.intervals.remove(index);
                    match &slot {
                        Some(op) => {
                            let w = &mut self.workers[i];
                            let _ = w.actor.run_op(op);
                        },
                        None => (),
                    }
                    self.intervals.insert(index, slot);
                    proof {
                        assert(self.intervals@ =~= init.intervals@);
                        lemma_count_running_update(
                            init.workers@,
                            i as int,
                            final(self).workers@[i as int],
                        );
                    }
                }
                StepOutcome::Idle
            },
            Envelope::IntervalFutureRemove { index } => {
                if index < self.intervals.len() {
                    let _slot = self.intervals.remove(index);
                    self.intervals.insert(index, None);
                    proof {
                        assert(self.intervals@ =~= init.intervals@.update(index as int, None));
                    }
                }
                StepOutcome::Idle
            },
        }
    }

    /// A worker whose receive loop has ended (its side of the queue closed,
    /// or its loop fell over) decides between restart and termination: it
    /// restarts — re-entering its loop with the same actor instance, whose
    /// `on_start` hook runs again — exactly when the pool was still open and
    /// the restart policy is on; otherwise the actor's `on_stop` hook runs
    /// and the worker terminates for good. Either way the active count first
    /// drops by one; a restart brings it right back.
    pub fn worker_exit(&mut self, i: usize) -> (restarted: bool)
        requires
            old(self).wf(),
            i < old(self).workers@.len(),
            old(self).workers@[i as int].running,
        ensures
            final(self).wf(),
            restarted == (!old(self).state.shut_down && old(self).state.config.restart_on_err),
            restarted ==> final(self).workers@ == old(self).workers@.update(
                i as int,
                (Worker {
                    actor: old(self).workers@[i as int].actor.on_start_spec(),
                    running: true,
                    manual_shutdown: false,
                }),
            ) && final(self).state.active == old(self).state.active,
            !restarted ==> final(self).workers@ == old(self).workers@.update(
                i as int,
                (Worker {
                    actor: old(self).workers@[i as int].actor.on_stop_spec(),
                    running: false,
                    manual_shutdown: false,
                }),
            ) && final(self).state.active == old(self).state.active - 1,
            final(self).queue@ == old(self).queue@,
            final(self).registries_unchanged(*old(self)),
            final(self).strong == old(self).strong,
            final(self).state.shut_down == old(self).state.shut_down,
            final(self).state.config == old(self).state.config,
            final(self).processed == old(self).processed,
    {
        proof {
            lemma_count_running_pos(old(self).workers@, i as int);
            lemma_count_running_bounds(old(self).workers@);
        }
        let ghost init = *self;
        let manual = self.workers[i].manual_shutdown;
        let still_open = self.state.dec_active();
        let restart = should_restart(still_open, self.state.restart_on_err(), manual);
        if restart {
            let w = &mut self.workers[i];
            w.actor.on_start();
            proof {
                lemma_count_running_update(init.workers@, i as int, final(self).workers@[i as int]);
            }
            self.state.inc_active();
            true
        } else {
            let w = &mut self.workers[i];
            w.running = false;
            w.actor.on_stop();
            proof {
                lemma_count_running_update(init.workers@, i as int, final(self).workers@[i as int]);
            }
            false
        }
    }

    /// The lowest index of a worker whose receive loop is alive; `None`
    /// exactly when no worker is.
    pub fn first_running(&self) -> (r: Option<usize>)
        requires
            self.wf(),
        ensures
            match r {
                Some(i) => i < self.workers@.len() && self.workers@[i as int].running && forall|
                    k: int,
                |
                    0 <= k < i ==> !(#[trigger] self.workers@[k]).running,
                None => self.state.active == 0,
            },
    {
        let mut j: usize = 0;
        while j < self.workers.len()
            invariant
                self.wf(),
                j <= self.workers@.len(),
                forall|k: int| 0 <= k < j ==> !(#[trigger] self.workers@[k]).running,
            decreases self.workers@.len() - j,
        {
            if self.workers[j].running {
                return Some(j);
            }
            j = j + 1;
        }
        proof {
            lemma_count_running_none(self.workers@);
        }
        None
    }

    /// After shutdown, drives every worker loop to its end, in a fixed
    /// order: as long as envelopes remain, the front one is dispatched to
    /// the lowest-index live worker per `step`'s table; envelopes left when
    /// no live worker remains are dropped; then each still-running worker
    /// terminates in index order — none restarts, whatever the restart
    /// policy — running its `on_stop` hook. The final workers, interval
    /// registry and task registry are exactly the canonical fold
    /// `stop_all` after `drain_all` of the input, the active count reaches
    /// zero, and when at least one worker lives and no manual-shutdown
    /// request sits in the queue, every remaining envelope is consumed
    /// exactly once.
    pub fn shutdown_workers(&mut self)
        requires
            old(self).wf(),
            old(self).state.shut_down,
            old(self).processed + old(self).queue@.len() <= u64::MAX,
        ensures
            final(self).wf(),
            final(self).queue@.len() == 0,
            final(self).state.active == 0,
            forall|j: int|
                0 <= j < final(self).workers@.len() ==> !(#[trigger] final(self).workers@[j]).running,
            final(self).workers@.len() == old(self).workers@.len(),
            final(self).strong == old(self).strong,
            final(self).state.shut_down,
            final(self).state.config == old(self).state.config,
            final(self).processed <= old(self).processed + old(self).queue@.len(),
            ({
                let dr = drain_all(
                    old(self).workers@,
                    old(self).intervals@,
                    old(self).tasks@,
                    old(self).queue@,
                );
                &&& final(self).workers@ == stop_all(dr.0)
                &&& final(self).intervals@ == dr.1
                &&& final(self).tasks@ == dr.2
            }),
            old(self).state.active >= 1 && (forall|k: int|
                0 <= k < old(self).queue@.len() ==> !((#[trigger] old(self).queue@[k])
                    is ManualShutDown)) ==> final(self).processed == old(self).processed + old(
                self,
            ).queue@.len(),
    {
        let ghost drains = old(self).state.active >= 1 && (forall|k: int|
            0 <= k < old(self).queue@.len() ==> !((#[trigger] old(self).queue@[k])
                is ManualShutDown));
        while self.queue.len() > 0
            invariant
                self.wf(),
                self.state.shut_down,
                self.processed + self.queue@.len() <= u64::MAX,
                self.strong == old(self).strong,
                self.state.config == old(self).state.config,
                self.workers@.len() == old(self).workers@.len(),
                self.processed <= old(self).processed + old(self).queue@.len() - self.queue@.len(),
                old(self).processed <= self.processed,
                drain_all(
                    old(self).workers@,
                    old(self).intervals@,
                    old(self).tasks@,
                    old(self).queue@,
                ) == drain_all(self.workers@, self.intervals@, self.tasks@, self.queue@),
                drains == (old(self).state.active >= 1 && (forall|k: int|
                    0 <= k < old(self).queue@.len() ==> !((#[trigger] old(self).queue@[k])
                        is ManualShutDown))),
                drains ==> {
                    &&& self.processed - old(self).processed <= old(self).queue@.len()
                    &&& self.queue@ == old(self).queue@.skip(
                        self.processed - old(self).processed,
                    )
                    &&& self.state.active == old(self).state.active
                },
            decreases self.queue@.len(),
        {
            let ghost n = self.processed - old(self).processed;
            match self.first_running() {
                Some(i) => {
                    let ghost prev = *self;
                    let _ = self.step(i);
                    proof {
                        if drains {
                            assert(old(self).queue@.skip(n)[0] == old(self).queue@[n]);
                            assert(self.queue@ =~= old(self).queue@.skip(n + 1));
                        }
                        lemma_lowest_running_at(prev.workers@, i as int);
                        let e = prev.queue@[0];
                        let stepped = drain_step(
                            prev.workers@,
                            prev.intervals@,
                            prev.tasks@,
                            i as int,
                            e,
                        );
                        match e {
                            Envelope::ManualShutDown { listening } => {
                                assert(stepped == (self.workers@, self.intervals@, self.tasks@));
                            },
                            Envelope::Instant { want_reply, msg } => {
                                assert(stepped == (self.workers@, self.intervals@, self.tasks@));
                            },
                            Envelope::InstantDynamic { want_reply, tag, op } => {
                                assert(stepped == (self.workers@, self.intervals@, self.tasks@));
                            },
                            Envelope::Delayed { msg, delay_ms } => {
                                assert(stepped == (self.workers@, self.intervals@, self.tasks@));
                            },
                            Envelope::DelayedDynamic { op, delay_ms } => {
                                assert(stepped == (self.workers@, self.intervals@, self.tasks@));
                            },
                            Envelope::IntervalFutureRegister { op, period_ms } => {
                                assert(stepped == (self.workers@, self.intervals@, self.tasks@));
                            },
                            Envelope::IntervalFutureRun { index } => {
                                assert(stepped == (self.workers@, self.intervals@, self.tasks@));
                            },
                            Envelope::IntervalFutureRemove { index } => {
                                assert(stepped == (self.workers@, self.intervals@, self.tasks@));
                            },
                        }
                        assert(prev.queue@.first() == e);
                        assert(self.queue@ =~= prev.queue@.drop_first());
                        assert(drain_all(prev.workers@, prev.intervals@, prev.tasks@, prev.queue@)
                            == drain_all(self.workers@, self.intervals@, self.tasks@, self.queue@));
                    }
                },
                None => {
                    proof {
                        if drains {
                            assert(false);
                        }
                    }
                    let ghost prev = *self;
                    proof {
                        assert forall|w: int|
                            0 <= w < prev.workers@.len() implies !(#[trigger] prev.workers@[w]).running by {
                            if prev.workers@[w].running {
                                lemma_count_running_pos(prev.workers@, w);
                            }
                        };
                        lemma_lowest_running_at(prev.workers@, prev.workers@.len() as int);
                    }
                    self.queue.clear();
                    proof {
                        assert(drain_all(prev.workers@, prev.intervals@, prev.tasks@, prev.queue@)
                            == (prev.workers@, prev.intervals@, prev.tasks@));
                        assert(drain_all(self.workers@, self.intervals@, self.tasks@, self.queue@)
                            == (self.workers@, self.intervals@, self.tasks@));
                    }
                },
            }
        }
        let ghost mid = *self;
        proof {
            assert(drain_all(mid.workers@, mid.intervals@, mid.tasks@, mid.queue@) == (
                mid.workers@,
                mid.intervals@,
                mid.tasks@,
            ));
        }
        let mut j: usize = 0;
        while j < self.workers.len()
            invariant
                self.wf(),
                self.state.shut_down,
                self.queue@.len() == 0,
                self.strong == old(self).strong,
                self.state.config == old(self).state.config,
                self.processed == mid.processed,
                self.intervals@ == mid.intervals@,
                self.tasks@ == mid.tasks@,
                self.workers@.len() == mid.workers@.len(),
                self.workers@.len() == old(self).workers@.len(),
                j <= self.workers@.len(),
                forall|k: int| 0 <= k < j ==> #[trigger] self.workers@[k] == stop_all(
                    mid.workers@,
                )[k],
                forall|k: int|
                    j <= k < mid.workers@.len() ==> #[trigger] self.workers@[k]
                        == mid.workers@[k],
                forall|k: int| 0 <= k < j ==> !(#[trigger] self.workers@[k]).running,
            decreases self.workers@.len() - j,
        {
            if self.workers[j].running {
                let _ = self.worker_exit(j);
            }
            j = j + 1;
        }
        proof {
            lemma_count_running_none(self.workers@);
            assert(self.workers@ =~= stop_all(mid.workers@));
        }
    }

    /// The delay of a delayed-delivery task has elapsed: if the task is
    /// still alive, its pending envelope is enqueued and the task is spent.
    /// A task already cancelled or spent does nothing.
    pub fn fire_delayed(&mut self, tid: usize)
        requires
            old(self).wf(),
            tid < old(self).tasks@.len(),
            old(self).tasks@[tid as int] is Delayed,
        ensures
            final(self).wf(),
            match old(self).tasks@[tid as int] {
                Task::Delayed { alive: true, pending } => {
                    &&& final(self).tasks@ == old(self).tasks@.update(
                        tid as int,
                        Task::Delayed { alive: false, pending: None },
                    )
                    &&& final(self).queue@ == old(self).queue@.push(pending.unwrap())
                },
                _ => final(self).tasks@ == old(self).tasks@ && final(self).queue@ == old(
                    self,
                ).queue@,
            },
            final(self).workers@ == old(self).workers@,
            final(self).state == old(self).state,
            final(self).strong == old(self).strong,
            final(self).intervals@ == old(self).intervals@,
            final(self).processed == old(self).processed,
    {
        let ghost init = *self;
        let deliver = self.state.handle_delay_on_shutdown();
        let mut taken: Option<Envelope<A::Message, A::Op>> = None;
        let mut was_alive = false;
        {
            let task = &mut self.tasks[tid];
            match task {
                Task::Delayed { alive, pending } => {
                    if *alive {
                        *alive = false;
                        was_alive = true;
                        taken = pending.take();
                    }
                },
                Task::Interval { .. } => {
                    proof {
                        assert(false);
                    }
                },
            }
        }
        proof {
            if !init.tasks@[tid as int].alive() {
                assert(self.tasks@ =~= init.tasks@);
            }
        }
        if was_alive && should_deliver_delayed(false, deliver) {
            // the delay ended normally, so delivery is owed regardless of
            // the draining flag
            match taken {
                Some(e) => self.queue.push(e),
                None => proof {
                    assert(false);
                },
            }
        }
    }

    /// One tick of a registered interval's loop: while its task is alive, a
    /// run directive for its registration travels through the shared queue
    /// like any other envelope; once the task is cancelled, ticks do nothing
    /// ever again.
    pub fn fire_tick(&mut self, tid: usize)
        requires
            old(self).wf(),
            tid < old(self).tasks@.len(),
            old(self).tasks@[tid as int] is Interval,
        ensures
            final(self).wf(),
            match old(self).tasks@[tid as int] {
                Task::Interval { alive: true, index } => final(self).queue@ == old(
                    self,
                ).queue@.push(Envelope::IntervalFutureRun { index }),
                _ => *final(self) == *old(self),
            },
            final(self).tasks@ == old(self).tasks@,
            final(self).workers@ == old(self).workers@,
            final(self).state == old(self).state,
            final(self).strong == old(self).strong,
            final(self).intervals@ == old(self).intervals@,
            final(self).processed == old(self).processed,
    {
        let (alive, index) = match &self.tasks[tid] {
            Task::Interval { alive, index } => (*alive, *index),
            Task::Delayed { .. } => unreached(),
        };
        if alive {
            self.queue.push(Envelope::IntervalFutureRun { index });
        }
    }

    /// An explicit cancellation through a task's cancellation handle — the
    /// only way, besides pool shutdown, that a background task stops. A live
    /// interval task stops ticking and a directive to deregister its stored
    /// operation is enqueued. A live delayed task gives up its payload,
    /// which is still delivered only if the pool drains delayed work on
    /// shutdown. Cancelling a dead task does nothing.
    pub fn cancel_task(&mut self, tid: usize)
        requires
            old(self).wf(),
            tid < old(self).tasks@.len(),
        ensures
            final(self).wf(),
            match old(self).tasks@[tid as int] {
                Task::Interval { alive: true, index } => {
                    &&& final(self).tasks@ == old(self).tasks@.update(
                        tid as int,
                        Task::Interval { alive: false, index },
                    )
                    &&& final(self).queue@ == old(self).queue@.push(
                        Envelope::IntervalFutureRemove { index },
                    )
                },
                Task::Delayed { alive: true, pending } => {
                    &&& final(self).tasks@ == old(self).tasks@.update(
                        tid as int,
                        Task::Delayed { alive: false, pending: None },
                    )
                    &&& old(self).state.config.handle_delayed_on_shutdown ==> final(self).queue@
                        == old(self).queue@.push(pending.unwrap())
                    &&& !old(self).state.config.handle_delayed_on_shutdown ==> final(self).queue@
                        == old(self).queue@
                },
                _ => final(self).tasks@ == old(self).tasks@ && final(self).queue@ == old(
                    self,
                ).queue@,
            },
            final(self).workers@ == old(self).workers@,
            final(self).state == old(self).state,
            final(self).strong == old(self).strong,
            final(self).intervals@ == old(self).intervals@,
            final(self).processed == old(self).processed,
    {
        let ghost init = *self;
        let deliver = self.state.handle_delay_on_shutdown();
        let mut taken: Option<Envelope<A::Message, A::Op>> = None;
        let mut remove_index: Option<usize> = None;
        {
            let task = &mut self.tasks[tid];
            match task {
                Task::Delayed { alive, pending } => {
                    if *alive {
                        *alive = false;
                        taken = pending.take();
                    }
                },
                Task::Interval { alive, index } => {
                    if *alive {
                        *alive = false;
                        remove_index = Some(*index);
                    }
                },
            }
        }
        proof {
            if !init.tasks@[tid as int].alive() {
                assert(self.tasks@ =~= init.tasks@);
            }
        }
        match taken {
            Some(e) => {
                // the wait was cut short, so the draining flag decides
                if should_deliver_delayed(true, deliver) {
                    self.queue.push(e);
                }
            },
            None => (),
        }
        match remove_index {
            Some(idx) => {
                self.queue.push(Envelope::IntervalFutureRemove { index: idx });
            },
            None => (),
        }
    }

    /// Sends a sequence of messages one at a time, each awaited before the
    /// next goes out — the serialize-through-one-sender pattern — on worker
    /// `i`. The output sequence holds exactly the dispatch results of the
    /// input messages, in input order.
    pub fn send_stream(&mut self, i: usize, msgs: Vec<A::Message>) -> (outs: Vec<A::Result>)
        requires
            old(self).wf(),
            i < old(self).workers@.len(),
            old(self).workers@[i as int].running,
            !old(self).state.shut_down,
            old(self).queue@.len() == 0,
            old(self).processed + msgs@.len() <= u64::MAX,
        ensures
            final(self).wf(),
            outs@ == handle_all(old(self).workers@[i as int].actor, msgs@).1,
            final(self).workers@ == old(self).workers@.update(
                i as int,
                (Worker {
                    actor: handle_all(old(self).workers@[i as int].actor, msgs@).0,
                    running: true,
                    manual_shutdown: false,
                }),
            ),
            final(self).queue@.len() == 0,
            final(self).state == old(self).state,
            final(self).strong == old(self).strong,
            final(self).registries_unchanged(*old(self)),
            final(self).processed == old(self).processed + msgs@.len(),
    {
        let ghost init = *self;
        let ghost all = msgs@;
        let mut msgs = msgs;
        let mut outs: Vec<A::Result> = Vec::new();
        proof {
            assert(init.workers@.update(
                i as int,
                (Worker {
                    actor: init.workers@[i as int].actor,
                    running: true,
                    manual_shutdown: false,
                }),
            ) =~= init.workers@);
        }
        while msgs.len() > 0
            invariant
                self.wf(),
                i < self.workers@.len(),
                self.workers@.len() == init.workers@.len(),
                self.workers@[i as int].running,
                !self.state.shut_down,
                self.queue@.len() == 0,
                self.state == init.state,
                self.strong == init.strong,
                self.intervals@ == init.intervals@,
                self.tasks@ == init.tasks@,
                msgs@.len() + outs@.len() == all.len(),
                init.processed + all.len() <= u64::MAX,
                self.processed == init.processed + outs@.len(),
                self.workers@ == init.workers@.update(
                    i as int,
                    (Worker {
                        actor: self.workers@[i as int].actor,
                        running: true,
                        manual_shutdown: false,
                    }),
                ),
                handle_all(init.workers@[i as int].actor, all).0 == handle_all(
                    self.workers@[i as int].actor,
                    msgs@,
                ).0,
                handle_all(init.workers@[i as int].actor, all).1 == outs@ + handle_all(
                    self.workers@[i as int].actor,
                    msgs@,
                ).1,
            decreases msgs@.len(),
        {
            let ghost pre = msgs@;
            let ghost cur = self.workers@[i as int].actor;
            let m = msgs.remove(0);
            proof {
                assert(msgs@ =~= pre.drop_first());
            }
            let _ = self.send(m);
            let out = self.step(i);
            match out {
                StepOutcome::Reply { value } => {
                    proof {
                        let next = self.workers@[i as int].actor;
                        assert(self.workers@ =~= init.workers@.update(
                            i as int,
                            (Worker { actor: next, running: true, manual_shutdown: false }),
                        ));
                        assert(handle_all(cur, pre).0 == handle_all(next, msgs@).0);
                        assert(handle_all(cur, pre).1 == seq![value] + handle_all(next, msgs@).1);
                        assert(outs@.push(value) =~= outs@ + seq![value]);
                        assert(outs@ + (seq![value] + handle_all(next, msgs@).1) =~= (outs@
                            + seq![value]) + handle_all(next, msgs@).1);
                    }
                    outs.push(value);
                },
                _ => unreached(),
            }
        }
        proof {
            assert(outs@ + handle_all(self.workers@[i as int].actor, msgs@).1 =~= outs@);
        }
        outs
    }

    /// Upgrading a weak handle: succeeds exactly while at least one strong
    /// handle exists elsewhere, and then increments the strong count.
    pub fn upgrade_handle(&mut self) -> (ok: bool)
        requires
            old(self).wf(),
            old(self).strong < usize::MAX,
        ensures
            final(self).wf(),
            ok == (old(self).strong >= 1),
            ok ==> final(self).strong == old(self).strong + 1,
            !ok ==> final(self).strong == old(self).strong,
            final(self).core_unchanged(*old(self)),
    {
        if self.strong >= 1 {
            self.strong = self.strong + 1;
            true
        } else {
            false
        }
    }
}

/// The number of live workers never exceeds the configured worker count, in
/// any state the pool can reach.
pub proof fn lemma_active_bounded<A: Handler>(p: Pool<A>)
    requires
        p.wf(),
    ensures
        p.state.active <= p.state.config.num,
{
    lemma_count_running_bounds(p.workers@);
}

/// Once the pool is marked shut down — equivalently, once the last strong
/// handle is gone — every registered background task is cancelled, whatever
/// the draining flag says.
pub proof fn lemma_shutdown_cancels_tasks<A: Handler>(p: Pool<A>)
    requires
        p.wf(),
        p.state.shut_down || p.strong == 0,
    ensures
        p.state.shut_down,
        p.strong == 0,
        forall|t: int| 0 <= t < p.tasks@.len() ==> !(#[trigger] p.tasks@[t]).alive(),
{
}

} // verus!
