//! Scheduling decisions of the per-core executors: which core to steal
//! from, how much to take, when to halt, and how a task's outcome reaches
//! its join handle exactly once.
use vstd::prelude::*;
use rand::Rng;
use rand::SeedableRng;
use rand_xoshiro::Xoroshiro128PlusPlus;

verus! {

/// Cores that can run an executor.
pub const MAX_CORES: usize = 32;

/// Victims tried per tick before giving up on stealing.
pub const MAX_STEAL_ATTEMPTS: usize = 16;

/// Tasks taken from the injector or a victim in one tick, at most.
pub const MAX_STOLEN_PER_TICK: usize = 256;

#[verifier::external_type_specification]
#[verifier::external_body]
pub struct ExXoroshiro128PlusPlus(Xoroshiro128PlusPlus);

/// Relies on `SeedableRng::seed_from_u64` for `Xoroshiro128PlusPlus`: a
/// generator whose state is derived from one word.
#[verifier::external_body]
fn seeded(seed: u64) -> Xoroshiro128PlusPlus {
    Xoroshiro128PlusPlus::seed_from_u64(seed)
}

/// Relies on `Rng::gen_range` over `0..n`: a value below `n` (it panics
/// on an empty range, which `n > 0` rules out).
#[verifier::external_body]
fn draw_below(rng: &mut Xoroshiro128PlusPlus, n: usize) -> (r: usize)
    requires
        n > 0,
    ensures
        r < n,
{
    rng.gen_range(0..n)
}

/// How many tasks to take from a victim that holds `victim_tasks`: half of
/// them, at most `MAX_STOLEN_PER_TICK`.
pub fn steal_count(victim_tasks: usize) -> (r: usize)
    ensures
        r == (if victim_tasks / 2 < MAX_STOLEN_PER_TICK { victim_tasks / 2 } else { MAX_STOLEN_PER_TICK }),
        r <= MAX_STOLEN_PER_TICK,
        2 * r <= victim_tasks,
{
    let half = victim_tasks / 2;
    if half < MAX_STOLEN_PER_TICK { half } else { MAX_STOLEN_PER_TICK }
}

/// What the executor's loop does after a tick.
#[derive(Clone, Copy, Debug, PartialEq, Eq)]
pub enum RunStep {
    /// Work was done: tick again at once.
    Continue,
    /// Idle and asked to stop: leave the loop.
    Stop,
    /// Idle: enable interrupts and halt until the next one.
    Halt,
}

/// The loop's decision: keep going while the local queue had more or
/// tasks were stolen; otherwise stop if no longer running, else halt.
pub fn next_step(has_remaining: bool, stolen: usize, running: bool) -> (r: RunStep)
    ensures
        (has_remaining || stolen > 0) ==> r == RunStep::Continue,
        !(has_remaining || stolen > 0) && !running ==> r == RunStep::Stop,
        !(has_remaining || stolen > 0) && running ==> r == RunStep::Halt,
{
    if has_remaining || stolen > 0 {
        RunStep::Continue
    } else if !running {
        RunStep::Stop
    } else {
        RunStep::Halt
    }
}

/// The victim a draw names: none when it fell on the stealing core itself.
pub open spec fn victim_from_draw_spec(draw: usize, self_id: usize) -> Option<usize> {
    if draw == self_id { None } else { Some(draw) }
}

/// The victim a draw names: none when it fell on the stealing core itself.
pub fn victim_from_draw(draw: usize, self_id: usize) -> (r: Option<usize>)
    ensures
        r == victim_from_draw_spec(draw, self_id),
{
    if draw == self_id { None } else { Some(draw) }
}

/// One core's executor: its index and the generator that picks victims.
pub struct Executor {
    id: usize,
    rng: Xoroshiro128PlusPlus,
}

impl Executor {
    pub closed spec fn core_id(&self) -> usize {
        self.id
    }

    /// The executor of core `id`, its generator seeded with `seed`.
    pub fn new(id: usize, seed: u64) -> (r: Self)
        requires
            id < MAX_CORES,
        ensures
            r.core_id() == id,
    {
        Executor { id, rng: seeded(seed) }
    }

    /// One stealing attempt among `active_cores` cores: a core drawn at
    /// random below `active_cores`, passed through `victim_from_draw`;
    /// `None` without a draw when there is no other core.
    pub fn pick_victim(&mut self, active_cores: usize) -> (r: Option<usize>)
        ensures
            final(self).core_id() == old(self).core_id(),
            active_cores <= 1 ==> r is None,
            active_cores > 1 ==> exists|d: usize| d < active_cores && r == victim_from_draw_spec(d, old(self).core_id()),
            r matches Some(v) ==> v < active_cores && v != old(self).core_id(),
    {
        if active_cores <= 1 {
            return None;
        }
        let d = draw_below(&mut self.rng, active_cores);
        victim_from_draw(d, self.id)
    }
}

/// What the core does next while looking for work in one tick.
#[derive(Clone, Copy, Debug, PartialEq, Eq)]
pub enum StealAction {
    /// Take up to this many tasks from the shared injector.
    TakeInjected(usize),
    /// Ask how many tasks this core holds, if it can be stolen from now.
    ProbeVictim(usize),
    /// Move `count` tasks from `victim` to this core.
    StealFrom { victim: usize, count: usize },
    /// The round is over, with this many tasks gained.
    Finished(usize),
}

/// What the last action gave.
#[derive(Clone, Copy, Debug, PartialEq, Eq)]
pub enum StealEvent {
    /// Tasks taken from the injector; `None` when it was busy.
    Injected(Option<usize>),
    /// Tasks the probed victim holds; `None` when it cannot be stolen from.
    VictimTasks(Option<usize>),
    /// Tasks moved by `StealFrom`.
    Stolen(usize),
}

/// Where a round stands.
#[derive(Clone, Copy, Debug, PartialEq, Eq)]
pub enum StealPhase {
    FirstInjector,
    Probing(usize),
    Stealing,
    LastInjector,
    Done,
}

/// One tick's search for work: the injector first; then, with work
/// stealing on, up to `MAX_STEAL_ATTEMPTS` random victims, the first that
/// can be stolen from giving half its tasks; then the injector again.
pub struct StealRound {
    pub phase: StealPhase,
    pub attempts: usize,
    pub work_stealing: bool,
}

impl StealRound {
    /// A round starts at the injector.
    pub fn begin(work_stealing: bool) -> (r: (Self, StealAction))
        ensures
            r.0.phase == StealPhase::FirstInjector,
            r.0.attempts == 0,
            r.0.work_stealing == work_stealing,
            r.1 == StealAction::TakeInjected(MAX_STOLEN_PER_TICK),
    {
        (StealRound { phase: StealPhase::FirstInjector, attempts: 0, work_stealing }, StealAction::TakeInjected(MAX_STOLEN_PER_TICK))
    }

    /// Draws victims until one differs from this core, while attempts and
    /// other cores remain; otherwise moves on to the injector again.
    fn next_victim(&mut self, exec: &mut Executor, active_cores: usize) -> (r: StealAction)
        requires
            old(self).attempts <= MAX_STEAL_ATTEMPTS,
        ensures
            final(exec).core_id() == old(exec).core_id(),
            final(self).work_stealing == old(self).work_stealing,
            old(self).attempts <= final(self).attempts <= MAX_STEAL_ATTEMPTS,
            victims_post(*old(self), *final(self), old(exec).core_id(), active_cores, r),
    {
        while self.attempts < MAX_STEAL_ATTEMPTS && active_cores > 1
            invariant
                self.attempts <= MAX_STEAL_ATTEMPTS,
                old(self).attempts <= self.attempts,
                self.work_stealing == old(self).work_stealing,
                exec.core_id() == old(exec).core_id(),
            decreases MAX_STEAL_ATTEMPTS - self.attempts,
        {
            self.attempts = self.attempts + 1;
            if let Some(v) = exec.pick_victim(active_cores) {
                self.phase = StealPhase::Probing(v);
                return StealAction::ProbeVictim(v);
            }
        }
        self.phase = StealPhase::LastInjector;
        StealAction::TakeInjected(MAX_STOLEN_PER_TICK)
    }

    /// The next action after `event`, with `active_cores` executors running.
    pub fn on_event(&mut self, exec: &mut Executor, event: StealEvent, active_cores: usize) -> (r: StealAction)
        requires
            old(self).attempts <= MAX_STEAL_ATTEMPTS,
        ensures
            final(exec).core_id() == old(exec).core_id(),
            final(self).work_stealing == old(self).work_stealing,
            final(self).attempts <= MAX_STEAL_ATTEMPTS,
            match (old(self).phase, event) {
                (StealPhase::FirstInjector, StealEvent::Injected(Some(n))) => r == StealAction::Finished(n)
                    && final(self).phase == StealPhase::Done,
                (StealPhase::FirstInjector, StealEvent::Injected(None)) => if old(self).work_stealing {
                    victims_post(*old(self), *final(self), old(exec).core_id(), active_cores, r)
                } else {
                    r == StealAction::TakeInjected(MAX_STOLEN_PER_TICK) && final(self).phase == StealPhase::LastInjector
                },
                (StealPhase::Probing(v), StealEvent::VictimTasks(Some(t))) => r == (StealAction::StealFrom {
                    victim: v,
                    count: if t / 2 < MAX_STOLEN_PER_TICK { t / 2 } else { MAX_STOLEN_PER_TICK },
                }) && final(self).phase == StealPhase::Stealing,
                (StealPhase::Probing(_), StealEvent::VictimTasks(None)) =>
                    victims_post(*old(self), *final(self), old(exec).core_id(), active_cores, r),
                (StealPhase::Stealing, StealEvent::Stolen(n)) => r == StealAction::Finished(n)
                    && final(self).phase == StealPhase::Done,
                (StealPhase::LastInjector, StealEvent::Injected(t)) => r == StealAction::Finished(match t {
                    Some(n) => n,
                    None => 0,
                }) && final(self).phase == StealPhase::Done,
                _ => r == StealAction::Finished(0) && final(self).phase == StealPhase::Done,
            },
    {
        match (self.phase, event) {
            (StealPhase::FirstInjector, StealEvent::Injected(Some(n))) => {
                self.phase = StealPhase::Done;
                StealAction::Finished(n)
            },
            (StealPhase::FirstInjector, StealEvent::Injected(None)) => {
                if self.work_stealing {
                    self.next_victim(exec, active_cores)
                } else {
                    self.phase = StealPhase::LastInjector;
                    StealAction::TakeInjected(MAX_STOLEN_PER_TICK)
                }
            },
            (StealPhase::Probing(v), StealEvent::VictimTasks(Some(t))) => {
                self.phase = StealPhase::Stealing;
                StealAction::StealFrom { victim: v, count: steal_count(t) }
            },
            (StealPhase::Probing(_), StealEvent::VictimTasks(None)) => self.next_victim(exec, active_cores),
            (StealPhase::Stealing, StealEvent::Stolen(n)) => {
                self.phase = StealPhase::Done;
                StealAction::Finished(n)
            },
            (StealPhase::LastInjector, StealEvent::Injected(t)) => {
                self.phase = StealPhase::Done;
                StealAction::Finished(match t {
                    Some(n) => n,
                    None => 0,
                })
            },
            _ => {
                self.phase = StealPhase::Done;
                StealAction::Finished(0)
            },
        }
    }
}

/// What the victim search does: a victim is probed only while fewer than
/// `MAX_STEAL_ATTEMPTS` draws were made and another core runs, and it is
/// never this core; otherwise the round goes back to the injector.
pub open spec fn victims_post(s0: StealRound, s1: StealRound, self_id: usize, active_cores: usize, r: StealAction) -> bool {
    match r {
        StealAction::ProbeVictim(v) => {
            &&& v < active_cores
            &&& v != self_id
            &&& active_cores > 1
            &&& s0.attempts < s1.attempts <= MAX_STEAL_ATTEMPTS
            &&& s1.phase == StealPhase::Probing(v)
        },
        StealAction::TakeInjected(n) => {
            &&& n == MAX_STOLEN_PER_TICK
            &&& s1.phase == StealPhase::LastInjector
            &&& (active_cores <= 1 || s1.attempts == MAX_STEAL_ATTEMPTS)
        },
        _ => false,
    }
}

/// What one poll of a task's future gave.
pub enum PollOutcome<T, P> {
    Pending,
    Ready(T),
    Panicked(P),
}

/// The completion side of a task: whether it may still be polled, and its
/// result until the join handle takes it.
pub struct JoinSlot<T, P> {
    done: bool,
    result: Option<Result<T, P>>,
}

impl<T, P> JoinSlot<T, P> {
    /// The task has finished, normally or by panicking.
    pub closed spec fn is_done(&self) -> bool {
        self.done
    }

    /// The result waiting for the join handle.
    pub closed spec fn pending_result(&self) -> Option<Result<T, P>> {
        self.result
    }

    /// A slot for a task that has not run yet.
    pub fn new() -> (r: Self)
        ensures
            !r.is_done(),
            r.pending_result() is None,
    {
        JoinSlot { done: false, result: None }
    }

    /// Whether the scheduler may poll the task again.
    pub fn may_poll(&self) -> (r: bool)
        ensures
            r == !self.is_done(),
    {
        !self.done
    }

    /// Records a poll: a value or a caught panic completes the task and
    /// waits for the join handle; `Pending` changes nothing.
    pub fn on_poll(&mut self, outcome: PollOutcome<T, P>)
        requires
            !old(self).is_done(),
            old(self).pending_result() is None,
        ensures
            poll_post(*old(self), *final(self), outcome),
    {
        match outcome {
            PollOutcome::Pending => {},
            PollOutcome::Ready(v) => {
                self.done = true;
                self.result = Some(Ok(v));
            },
            PollOutcome::Panicked(p) => {
                self.done = true;
                self.result = Some(Err(p));
            },
        }
    }

    /// Hands the result to the join handle, once: later calls get `None`.
    pub fn take_result(&mut self) -> (r: Option<Result<T, P>>)
        ensures
            take_post(*old(self), *final(self), r),
    {
        self.result.take()
    }
}

/// What `on_poll` does: a value or a caught panic completes the task and
/// waits for the join handle; `Pending` changes nothing.
pub open spec fn poll_post<T, P>(s0: JoinSlot<T, P>, s1: JoinSlot<T, P>, outcome: PollOutcome<T, P>) -> bool {
    match outcome {
        PollOutcome::Pending => !s1.is_done() && s1.pending_result() is None,
        PollOutcome::Ready(v) => s1.is_done() && s1.pending_result() == Some(Ok::<T, P>(v)),
        PollOutcome::Panicked(p) => s1.is_done() && s1.pending_result() == Some(Err::<T, P>(p)),
    }
}

/// What `take_result` does: hands over what waits and leaves nothing.
pub open spec fn take_post<T, P>(s0: JoinSlot<T, P>, s1: JoinSlot<T, P>, r: Option<Result<T, P>>) -> bool {
    &&& r == s0.pending_result()
    &&& s1.pending_result() is None
    &&& s1.is_done() == s0.is_done()
}

/// A task that panics while polled is complete: it is never polled again,
/// its join handle receives `Err` with the payload, and any later take
/// receives nothing.
pub proof fn lemma_panic_delivered_once<T, P>(
    s0: JoinSlot<T, P>,
    s1: JoinSlot<T, P>,
    s2: JoinSlot<T, P>,
    s3: JoinSlot<T, P>,
    payload: P,
    first: Option<Result<T, P>>,
    second: Option<Result<T, P>>,
)
    requires
        poll_post(s0, s1, PollOutcome::Panicked(payload)),
        take_post(s1, s2, first),
        take_post(s2, s3, second),
    ensures
        first == Some(Err::<T, P>(payload)),
        second is None,
        s1.is_done() && s2.is_done() && s3.is_done(),
{
}

} // verus!
