//! Pool configuration and its validation.
//!
//! A `Builder` collects the four options a pool honours — worker count,
//! restart policy, shutdown-draining policy, and the send timeout — and hands
//! a validated `Config` to whatever spawns the workers. A pool must have at
//! least one worker; `check_num` is the validation every entry point applies.

use vstd::prelude::*;

verus! {

/// Configuration shared by every worker of one pool.
#[derive(Clone, Copy, Debug)]
pub struct Config {
    /// How many workers the pool runs.
    pub num: usize,
    /// Restart a worker whose loop exits abnormally (not by manual shutdown).
    pub restart_on_err: bool,
    /// Still deliver pending delayed work once shutdown has begun.
    pub handle_delayed_on_shutdown: bool,
    /// Upper bound, in milliseconds, on how long an enqueue may take before
    /// the send reports `Blocking`.
    pub timeout_ms: u64,
}

impl Config {
    /// A configuration the pool can actually run with.
    pub open spec fn wf(self) -> bool {
        self.num >= 1
    }
}

impl Default for Config {
    /// One worker, no restart, no draining, a ten second send timeout.
    fn default() -> (c: Self)
        ensures
            c.num == 1,
            !c.restart_on_err,
            !c.handle_delayed_on_shutdown,
            c.timeout_ms == 10_000,
            c.wf(),
    {
        Config { num: 1, restart_on_err: false, handle_delayed_on_shutdown: false, timeout_ms: 10_000 }
    }
}

/// Collects pool options before the workers are spawned.
#[derive(Clone, Copy, Debug)]
pub struct Builder {
    /// The configuration collected so far.
    pub config: Config,
}

impl Builder {
    /// Starts from the default configuration.
    pub fn new() -> (b: Self)
        ensures
            b.config.num == 1,
            !b.config.restart_on_err,
            !b.config.handle_delayed_on_shutdown,
            b.config.timeout_ms == 10_000,
            b.config.wf(),
    {
        Builder { config: Config::default() }
    }

    /// Sets how many workers the pool runs; all of them steal work from one
    /// shared queue. A pool of zero workers is a configuration error, so the
    /// count must be at least one.
    pub fn num(self, num: usize) -> (b: Self)
        requires
            num >= 1,
        ensures
            b.config.num == num,
            b.config.restart_on_err == self.config.restart_on_err,
            b.config.handle_delayed_on_shutdown == self.config.handle_delayed_on_shutdown,
            b.config.timeout_ms == self.config.timeout_ms,
            b.config.wf(),
    {
        let mut b = self;
        b.config.num = num;
        b
    }

    /// Asks the workers to still handle pending delayed messages and futures
    /// once shutdown has begun.
    pub fn handle_delayed_on_shutdown(self) -> (b: Self)
        ensures
            b.config.handle_delayed_on_shutdown,
            b.config.num == self.config.num,
            b.config.restart_on_err == self.config.restart_on_err,
            b.config.timeout_ms == self.config.timeout_ms,
    {
        let mut b = self;
        b.config.handle_delayed_on_shutdown = true;
        b
    }

    /// Asks a worker whose loop exits abnormally to restart with the same
    /// actor instance.
    pub fn restart_on_err(self) -> (b: Self)
        ensures
            b.config.restart_on_err,
            b.config.num == self.config.num,
            b.config.handle_delayed_on_shutdown == self.config.handle_delayed_on_shutdown,
            b.config.timeout_ms == self.config.timeout_ms,
    {
        let mut b = self;
        b.config.restart_on_err = true;
        b
    }

    /// Sets the timeout, in milliseconds, of sending a message.
    pub fn timeout(self, ms: u64) -> (b: Self)
        ensures
            b.config.timeout_ms == ms,
            b.config.num == self.config.num,
            b.config.restart_on_err == self.config.restart_on_err,
            b.config.handle_delayed_on_shutdown == self.config.handle_delayed_on_shutdown,
    {
        let mut b = self;
        b.config.timeout_ms = ms;
        b
    }

    /// The validation behind `num`: a worker count is acceptable only when it
    /// lies strictly above the given floor.
    pub fn check_num(num: usize, target: usize) -> (ok: bool)
        ensures
            ok == (num > target),
    {
        num > target
    }
}

/// Which slot of a list of `len` executors the worker with index `i` lands
/// on when workers are spread evenly over them.
pub fn arbiter_index(i: usize, len: usize) -> (idx: usize)
    requires
        len >= 1,
    ensures
        idx == i % len,
        idx < len,
{
    i % len
}

} // verus!
