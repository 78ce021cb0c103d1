use actix_send::Builder;
use actix_send::Envelope;
use actix_send::Handler;
use actix_send::Pool;
use actix_send::StepOutcome;
use actix_send::Task;
use actix_send::ActixSendError;

#[derive(Debug, Clone, PartialEq, Eq)]
pub enum CounterMsg {
    Add(u64),
    Query,
}

#[derive(Debug, Clone, PartialEq, Eq)]
pub enum CounterRes {
    Total(u64),
    Current(u64),
}

#[derive(Debug, Clone, PartialEq, Eq)]
pub enum CounterOp {
    Tick,
    Reset,
}

#[derive(Debug, Clone, PartialEq, Eq)]
pub struct Counter {
    pub count: u64,
    pub started: u64,
    pub stopped: u64,
}

impl Counter {
    fn new() -> Self {
        Counter { count: 0, started: 0, stopped: 0 }
    }
}

impl Handler for Counter {
    type Message = CounterMsg;
    type Result = CounterRes;
    type Op = CounterOp;
    type OpResult = u64;

    fn handle_spec(self, msg: CounterMsg) -> (Self, CounterRes) {
        let mut a = self;
        let r = a.handle(msg);
        (a, r)
    }

    fn run_op_spec(self, op: CounterOp) -> (Self, u64) {
        let mut a = self;
        let r = a.run_op(&op);
        (a, r)
    }

    fn on_start_spec(self) -> Self {
        let mut a = self;
        a.on_start();
        a
    }

    fn on_stop_spec(self) -> Self {
        let mut a = self;
        a.on_stop();
        a
    }

    fn handle(&mut self, msg: CounterMsg) -> CounterRes {
        match msg {
            CounterMsg::Add(n) => {
                self.count += n;
                CounterRes::Total(self.count)
            }
            CounterMsg::Query => CounterRes::Current(self.count),
        }
    }

    fn run_op(&mut self, op: &CounterOp) -> u64 {
        match op {
            CounterOp::Tick => {
                self.count += 1;
                self.count
            }
            CounterOp::Reset => {
                self.count = 0;
                0
            }
        }
    }

    fn on_start(&mut self) {
        self.started += 1;
    }

    fn on_stop(&mut self) {
        self.stopped += 1;
    }
}

fn pool_of(n: usize) -> Pool<Counter> {
    let config = Builder::new().num(n).config;
    let mut actors = Vec::new();
    for _ in 0..n {
        actors.push(Counter::new());
    }
    Pool::start(config, actors)
}

#[test]
fn start_runs_hooks_and_counts() {
    let pool = pool_of(3);
    assert_eq!(pool.current_active(), 3);
    assert_eq!(pool.strong, 1);
    assert!(!pool.state.shut_down);
    for w in pool.workers.iter() {
        assert!(w.running);
        assert_eq!(w.actor.started, 1);
        assert_eq!(w.actor.stopped, 0);
    }
}

#[test]
fn send_reply_matches_dispatch() {
    let mut pool = pool_of(1);
    pool.send(CounterMsg::Add(7)).unwrap();
    match pool.step(0) {
        StepOutcome::Reply { value } => assert_eq!(value, CounterRes::Total(7)),
        _ => panic!("expected a reply"),
    }
    pool.send(CounterMsg::Query).unwrap();
    match pool.step(0) {
        StepOutcome::Reply { value } => assert_eq!(value, CounterRes::Current(7)),
        _ => panic!("expected a reply"),
    }
    pool.do_send(CounterMsg::Add(1)).unwrap();
    match pool.step(0) {
        StepOutcome::Idle => (),
        _ => panic!("fire-and-forget owes no reply"),
    }
    assert_eq!(pool.workers[0].actor.count, 8);
}

#[test]
fn run_reply_is_erased_under_tag() {
    let mut pool = pool_of(1);
    pool.run(CounterOp::Tick, 42).unwrap();
    match pool.step(0) {
        StepOutcome::DynReply { value } => {
            assert_eq!(value.recover(42), Ok(1));
        }
        _ => panic!("expected an erased reply"),
    }
    pool.run(CounterOp::Tick, 42).unwrap();
    match pool.step(0) {
        StepOutcome::DynReply { value } => {
            // presenting the wrong tag is the caller/runtime contract
            // violation surfaced as TypeCast
            assert_eq!(value.recover(7), Err(ActixSendError::TypeCast));
        }
        _ => panic!("expected an erased reply"),
    }
}

#[test]
fn three_hundred_increments_exactly_once() {
    let mut pool = pool_of(3);
    for _ in 0..300 {
        pool.do_send(CounterMsg::Add(1)).unwrap();
    }
    assert_eq!(pool.queue.len(), 300);
    let mut k = 0usize;
    while !pool.queue.is_empty() {
        pool.step(k % 3);
        k += 1;
    }
    assert_eq!(pool.processed, 300);
    let sum: u64 = pool.workers.iter().map(|w| w.actor.count).sum();
    assert_eq!(sum, 300);
}

#[test]
fn send_on_closed_pool_reports_closed() {
    let mut pool = pool_of(2);
    pool.drop_handle();
    assert!(pool.state.shut_down);
    assert_eq!(pool.send(CounterMsg::Add(1)), Err(ActixSendError::Closed));
    assert_eq!(pool.do_send(CounterMsg::Add(1)), Err(ActixSendError::Closed));
    assert_eq!(pool.send_later(CounterMsg::Add(1), 10), Err(ActixSendError::Closed));
    assert_eq!(pool.run(CounterOp::Tick, 0), Err(ActixSendError::Closed));
    assert_eq!(pool.do_run(CounterOp::Tick), Err(ActixSendError::Closed));
    assert_eq!(pool.run_later(CounterOp::Tick, 10), Err(ActixSendError::Closed));
    assert_eq!(pool.run_interval(CounterOp::Tick, 10), Err(ActixSendError::Closed));
}

#[test]
fn dropping_last_handle_shuts_everything_down() {
    let mut pool = pool_of(2);
    // a registered interval and a pending delayed message
    pool.run_interval(CounterOp::Tick, 50).unwrap();
    let handler = match pool.step(0) {
        StepOutcome::RegisterReply { handler } => handler,
        _ => panic!("expected the cancellation handle"),
    };
    pool.send_later(CounterMsg::Add(1), 100).unwrap();
    pool.step(1);
    assert!(pool.tasks.iter().all(|t| match t {
        Task::Delayed { alive, .. } => *alive,
        Task::Interval { alive, .. } => *alive,
    }));
    // clone and drop: the pool stays open until the last strong handle goes
    pool.clone_handle();
    pool.drop_handle();
    assert!(!pool.state.shut_down);
    pool.drop_handle();
    // (a) the queue is closed, (c) every background task is cancelled
    assert!(pool.state.shut_down);
    for t in pool.tasks.iter() {
        match t {
            Task::Delayed { alive, .. } => assert!(!alive),
            Task::Interval { alive, .. } => assert!(!alive),
        }
    }
    // a cancelled interval ticks no more
    pool.fire_tick(handler);
    assert_eq!(pool.queue.len(), 0);
    // (b) every worker loop exits, and each termination hook ran
    pool.shutdown_workers();
    assert_eq!(pool.current_active(), 0);
    for w in pool.workers.iter() {
        assert!(!w.running);
        assert_eq!(w.actor.stopped, 1);
    }
}

#[test]
fn queued_work_is_drained_to_closure() {
    let mut pool = pool_of(2);
    for _ in 0..5 {
        pool.do_send(CounterMsg::Add(1)).unwrap();
    }
    pool.drop_handle();
    pool.shutdown_workers();
    // everything enqueued before the close was still consumed exactly once
    assert_eq!(pool.processed, 5);
    let sum: u64 = pool.workers.iter().map(|w| w.actor.count).sum();
    assert_eq!(sum, 5);
    assert_eq!(pool.current_active(), 0);
}

#[test]
fn delayed_message_drained_on_shutdown() {
    let config = Builder::new().num(1).handle_delayed_on_shutdown().config;
    let mut pool = Pool::start(config, vec![Counter::new()]);
    pool.send_later(CounterMsg::Add(5), 100).unwrap();
    pool.step(0);
    pool.drop_handle();
    // the pending payload was flushed onto the queue despite shutdown
    assert_eq!(pool.queue.len(), 1);
    pool.shutdown_workers();
    assert_eq!(pool.workers[0].actor.count, 5);
}

#[test]
fn delayed_message_discarded_on_shutdown() {
    let mut pool = pool_of(1);
    pool.send_later(CounterMsg::Add(5), 100).unwrap();
    pool.step(0);
    pool.drop_handle();
    // draining is off: the payload is discarded, silently
    assert_eq!(pool.queue.len(), 0);
    pool.shutdown_workers();
    assert_eq!(pool.workers[0].actor.count, 0);
}

#[test]
fn delayed_envelope_after_close_is_dropped() {
    let mut pool = pool_of(1);
    pool.send_later(CounterMsg::Add(9), 10).unwrap();
    // the envelope is still queued, not yet a registered task, when the
    // last handle goes
    pool.drop_handle();
    pool.shutdown_workers();
    assert!(pool.tasks.is_empty());
    assert_eq!(pool.workers[0].actor.count, 0);
}

#[test]
fn interval_registered_after_close_never_ticks() {
    let mut pool = pool_of(1);
    pool.run_interval(CounterOp::Tick, 10).unwrap();
    pool.drop_handle();
    // the registration is consumed during the drain, but its tick loop is
    // born cancelled
    pool.shutdown_workers();
    assert!(matches!(pool.tasks[0], Task::Interval { alive: false, .. }));
    pool.fire_tick(0);
    assert_eq!(pool.queue.len(), 0);
    assert_eq!(pool.workers[0].actor.count, 0);
}

#[test]
fn delayed_message_fires_while_open() {
    let mut pool = pool_of(1);
    pool.send_later(CounterMsg::Add(2), 30).unwrap();
    pool.step(0);
    assert_eq!(pool.workers[0].actor.count, 0);
    pool.fire_delayed(0);
    pool.step(0);
    assert_eq!(pool.workers[0].actor.count, 2);
    // a delayed delivery is one-shot
    pool.fire_delayed(0);
    assert_eq!(pool.queue.len(), 0);
}

#[test]
fn restart_on_err_resumes_processing() {
    let config = Builder::new().num(2).restart_on_err().config;
    let mut pool = Pool::start(config, vec![Counter::new(), Counter::new()]);
    assert_eq!(pool.current_active(), 2);
    let restarted = pool.worker_exit(0);
    assert!(restarted);
    // the active count is back at the configured value
    assert_eq!(pool.current_active(), 2);
    assert!(pool.workers[0].running);
    // the same actor instance went around its start hook again
    assert_eq!(pool.workers[0].actor.started, 2);
    assert_eq!(pool.workers[0].actor.stopped, 0);
    // and it processes subsequent envelopes from the same queue
    pool.send(CounterMsg::Add(3)).unwrap();
    match pool.step(0) {
        StepOutcome::Reply { value } => assert_eq!(value, CounterRes::Total(3)),
        _ => panic!("expected a reply"),
    }
}

#[test]
fn no_restart_without_policy() {
    let mut pool = pool_of(2);
    let restarted = pool.worker_exit(0);
    assert!(!restarted);
    assert_eq!(pool.current_active(), 1);
    assert!(!pool.workers[0].running);
    assert_eq!(pool.workers[0].actor.stopped, 1);
}

#[test]
fn active_never_exceeds_configured_count() {
    let config = Builder::new().num(3).restart_on_err().config;
    let mut pool = Pool::start(config, vec![Counter::new(), Counter::new(), Counter::new()]);
    assert!(pool.current_active() <= 3);
    pool.worker_exit(1);
    assert!(pool.current_active() <= 3);
    assert_eq!(pool.current_active(), 3);
    pool.drop_handle();
    pool.shutdown_workers();
    assert!(pool.current_active() <= 3);
    assert_eq!(pool.current_active(), 0);
}

#[test]
fn interval_ticks_until_cancelled() {
    let mut pool = pool_of(1);
    pool.run_interval(CounterOp::Tick, 50).unwrap();
    let handler = match pool.step(0) {
        StepOutcome::RegisterReply { handler } => handler,
        _ => panic!("expected the cancellation handle"),
    };
    for _ in 0..3 {
        pool.fire_tick(handler);
        pool.step(0);
    }
    assert_eq!(pool.workers[0].actor.count, 3);
    pool.cancel_task(handler);
    // the deregistration directive travels the queue like any envelope
    assert_eq!(pool.queue.len(), 1);
    pool.step(0);
    assert!(pool.intervals[0].is_none());
    // after cancellation no further tick executes
    pool.fire_tick(handler);
    pool.fire_tick(handler);
    assert_eq!(pool.queue.len(), 0);
    assert_eq!(pool.workers[0].actor.count, 3);
}

#[test]
fn interval_survives_unrelated_work() {
    let mut pool = pool_of(1);
    pool.run_interval(CounterOp::Tick, 50).unwrap();
    let handler = match pool.step(0) {
        StepOutcome::RegisterReply { handler } => handler,
        _ => panic!("expected the cancellation handle"),
    };
    // a busy queue delays a tick but never drops it while the pool lives
    pool.fire_tick(handler);
    pool.do_send(CounterMsg::Add(10)).unwrap();
    pool.fire_tick(handler);
    assert_eq!(pool.queue.len(), 3);
    while !pool.queue.is_empty() {
        pool.step(0);
    }
    assert_eq!(pool.workers[0].actor.count, 12);
}

#[test]
fn manual_shutdown_stops_one_worker() {
    let config = Builder::new().num(2).restart_on_err().config;
    let mut pool = Pool::start(config, vec![Counter::new(), Counter::new()]);
    pool.queue.push(Envelope::ManualShutDown { listening: true });
    match pool.step(1) {
        StepOutcome::ShutDownAck => (),
        _ => panic!("expected the acknowledgement"),
    }
    assert!(!pool.workers[1].running);
    assert!(pool.workers[1].manual_shutdown);
    // an acknowledged manual shutdown never restarts, whatever the policy
    assert_eq!(pool.workers[1].actor.stopped, 1);
    assert_eq!(pool.current_active(), 1);
    // the other worker keeps processing
    pool.send(CounterMsg::Add(1)).unwrap();
    match pool.step(0) {
        StepOutcome::Reply { value } => assert_eq!(value, CounterRes::Total(1)),
        _ => panic!("expected a reply"),
    }
}

#[test]
fn unheard_manual_shutdown_is_ignored() {
    let mut pool = pool_of(1);
    pool.queue.push(Envelope::ManualShutDown { listening: false });
    match pool.step(0) {
        StepOutcome::Idle => (),
        _ => panic!("an unheard request is dropped"),
    }
    assert!(pool.workers[0].running);
    assert_eq!(pool.current_active(), 1);
}

#[test]
fn send_stream_preserves_order() {
    let mut pool = pool_of(2);
    let outs = pool.send_stream(
        0,
        vec![CounterMsg::Add(1), CounterMsg::Add(2), CounterMsg::Add(3), CounterMsg::Query],
    );
    assert_eq!(
        outs,
        vec![
            CounterRes::Total(1),
            CounterRes::Total(3),
            CounterRes::Total(6),
            CounterRes::Current(6)
        ]
    );
    assert_eq!(pool.workers[0].actor.count, 6);
    assert_eq!(pool.workers[1].actor.count, 0);
}

#[test]
fn empty_stream_yields_nothing() {
    let mut pool = pool_of(1);
    let outs = pool.send_stream(0, Vec::new());
    assert!(outs.is_empty());
    assert_eq!(pool.workers[0].actor.count, 0);
    assert_eq!(pool.processed, 0);
}

#[test]
fn smallest_pool_works() {
    let mut pool = pool_of(1);
    assert_eq!(pool.current_active(), 1);
    pool.send(CounterMsg::Add(1)).unwrap();
    match pool.step(0) {
        StepOutcome::Reply { value } => assert_eq!(value, CounterRes::Total(1)),
        _ => panic!("expected a reply"),
    }
    pool.drop_handle();
    pool.shutdown_workers();
    assert_eq!(pool.current_active(), 0);
}

#[test]
fn upgrade_needs_a_living_strong_handle() {
    let mut pool = pool_of(1);
    assert!(pool.upgrade_handle());
    assert_eq!(pool.strong, 2);
    pool.drop_handle();
    pool.drop_handle();
    assert!(pool.state.shut_down);
    assert!(!pool.upgrade_handle());
    assert_eq!(pool.strong, 0);
}

#[test]
fn run_later_becomes_dynamic_delivery() {
    let mut pool = pool_of(1);
    pool.run_later(CounterOp::Tick, 25).unwrap();
    pool.step(0);
    pool.fire_delayed(0);
    pool.step(0);
    assert_eq!(pool.workers[0].actor.count, 1);
}

#[test]
fn removed_interval_run_is_a_no_op() {
    let mut pool = pool_of(1);
    pool.run_interval(CounterOp::Tick, 10).unwrap();
    pool.step(0);
    pool.queue.push(Envelope::IntervalFutureRemove { index: 0 });
    pool.step(0);
    // a stale run directive for a removed registration does nothing
    pool.queue.push(Envelope::IntervalFutureRun { index: 0 });
    pool.step(0);
    assert_eq!(pool.workers[0].actor.count, 0);
}
