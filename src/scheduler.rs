use vstd::prelude::*;

verus! {

/// Milliseconds between two ticks.
pub const TICK_INTERVAL_MS: i64 = 1000;

/// Milliseconds between two repeats of the start-up error once the mission has failed.
pub const ERROR_REPEAT_MS: i64 = 10000;

/// Where the mission stands.
#[derive(Debug, Clone, Copy, PartialEq, Eq, Structural)]
pub enum Phase {
    WaitingForLoad,
    Initializing,
    Running,
    /// Start-up failed; the error is shown again and again, with no retry.
    Failed,
}

/// One piece of a tick's work, in the order the tick runs them.
#[derive(Debug, Clone, Copy, PartialEq, Eq, Structural)]
pub enum TickStep {
    Repairs,
    ReturnLives,
    ForceSpectators,
    UnitPositions,
    PlayerPositions,
    SensorTracks,
    SensorReports,
    CullOrRespawn,
    RemarkObjectives,
    JtacContacts,
    SpawnQueue,
    AdviseCaptured,
    AdviseCapturable,
    JtacTargets,
    FlushMessages,
    Snapshot,
    Logistics,
    AdminCommands,
}

/// The work of the slow tick, which runs only every so often.
pub open spec fn slow_steps() -> Seq<TickStep> {
    seq![
        TickStep::UnitPositions,
        TickStep::PlayerPositions,
        TickStep::SensorTracks,
        TickStep::SensorReports,
        TickStep::CullOrRespawn,
        TickStep::RemarkObjectives,
        TickStep::JtacContacts,
    ]
}

/// The steps of one tick, with the slow work when it is due.
pub open spec fn tick_plan_spec(slow: bool) -> Seq<TickStep> {
    seq![TickStep::Repairs, TickStep::ReturnLives, TickStep::ForceSpectators] + (if slow {
        slow_steps()
    } else {
        Seq::empty()
    }) + seq![
        TickStep::SpawnQueue,
        TickStep::AdviseCaptured,
        TickStep::AdviseCapturable,
        TickStep::JtacTargets,
        TickStep::FlushMessages,
        TickStep::Snapshot,
        TickStep::Logistics,
        TickStep::AdminCommands,
    ]
}

/// The steps of one tick, in order.
pub fn tick_plan(slow: bool) -> (r: Vec<TickStep>)
    ensures
        r@ == tick_plan_spec(slow),
{
    let mut r: Vec<TickStep> = vec![TickStep::Repairs, TickStep::ReturnLives, TickStep::ForceSpectators];
    if slow {
        r.push(TickStep::UnitPositions);
        r.push(TickStep::PlayerPositions);
        r.push(TickStep::SensorTracks);
        r.push(TickStep::SensorReports);
        r.push(TickStep::CullOrRespawn);
        r.push(TickStep::RemarkObjectives);
        r.push(TickStep::JtacContacts);
    }
    r.push(TickStep::SpawnQueue);
    r.push(TickStep::AdviseCaptured);
    r.push(TickStep::AdviseCapturable);
    r.push(TickStep::JtacTargets);
    r.push(TickStep::FlushMessages);
    r.push(TickStep::Snapshot);
    r.push(TickStep::Logistics);
    r.push(TickStep::AdminCommands);
    assert(r@ =~= tick_plan_spec(slow));
    r
}

/// What the host should do when the timer fires.
#[derive(Debug, Clone, Copy, PartialEq, Eq, Structural)]
pub enum TimerAction {
    /// Nothing yet: the mission has not loaded.
    Wait,
    /// Build the index, load or initialize the state, make the menus and start ticking, then
    /// report the result to `init_finished`.
    Initialize,
    /// Run one tick.
    Tick,
    /// Show the start-up error again.
    ShowError,
}

/// `now + d`, held at the largest time.
pub open spec fn later(now: i64, d: i64) -> i64 {
    if now + d > i64::MAX {
        i64::MAX
    } else {
        (now + d) as i64
    }
}

fn later_exec(now: i64, d: i64) -> (r: i64)
    requires
        d >= 0,
    ensures
        r == later(now, d),
{
    if now > i64::MAX - d {
        i64::MAX
    } else {
        now + d
    }
}

/// The timer's state machine: waiting for the mission to load, initializing, running, or failed.
#[derive(Debug, Clone, Copy, PartialEq, Eq, Structural)]
pub struct Scheduler {
    pub phase: Phase,
    /// When the timer should fire next; always counted from the time it last fired, so a late
    /// firing does not pile up lateness.
    pub next_deadline: i64,
}

impl Scheduler {
    pub fn new(now: i64) -> (r: Scheduler)
        ensures
            r.phase == Phase::WaitingForLoad,
            r.next_deadline == later(now, TICK_INTERVAL_MS),
    {
        Scheduler { phase: Phase::WaitingForLoad, next_deadline: later_exec(now, TICK_INTERVAL_MS) }
    }

    /// The timer fired at `now`; `loaded` says whether the host has signalled that the mission
    /// finished loading.
    pub fn on_timer(&mut self, now: i64, loaded: bool) -> (r: TimerAction)
        ensures
            match old(self).phase {
                Phase::WaitingForLoad => if loaded {
                    r == TimerAction::Initialize && final(self).phase == Phase::Initializing
                        && final(self).next_deadline == old(self).next_deadline
                } else {
                    r == TimerAction::Wait && final(self).phase == Phase::WaitingForLoad
                        && final(self).next_deadline == later(now, TICK_INTERVAL_MS)
                },
                Phase::Initializing => r == TimerAction::Wait && *final(self) == *old(self),
                Phase::Running => r == TimerAction::Tick && final(self).phase == Phase::Running
                    && final(self).next_deadline == later(now, TICK_INTERVAL_MS),
                Phase::Failed => r == TimerAction::ShowError && final(self).phase == Phase::Failed
                    && final(self).next_deadline == later(now, ERROR_REPEAT_MS),
            },
    {
        match self.phase {
            Phase::WaitingForLoad => {
                if loaded {
                    self.phase = Phase::Initializing;
                    TimerAction::Initialize
                } else {
                    self.next_deadline = later_exec(now, TICK_INTERVAL_MS);
                    TimerAction::Wait
                }
            },
            Phase::Initializing => TimerAction::Wait,
            Phase::Running => {
                self.next_deadline = later_exec(now, TICK_INTERVAL_MS);
                TimerAction::Tick
            },
            Phase::Failed => {
                self.next_deadline = later_exec(now, ERROR_REPEAT_MS);
                TimerAction::ShowError
            },
        }
    }

    /// Start-up finished at `now`: on success the mission runs, on any failure it stays failed.
    /// Outside initialization nothing changes.
    pub fn init_finished(&mut self, now: i64, ok: bool)
        ensures
            old(self).phase != Phase::Initializing ==> *final(self) == *old(self),
            old(self).phase == Phase::Initializing ==> final(self).phase == (if ok {
                Phase::Running
            } else {
                Phase::Failed
            }) && final(self).next_deadline == later(now, TICK_INTERVAL_MS),
    {
        if self.phase == Phase::Initializing {
            self.phase = if ok {
                Phase::Running
            } else {
                Phase::Failed
            };
            self.next_deadline = later_exec(now, TICK_INTERVAL_MS);
        }
    }
}

/// A deferred request to spawn a group for a side.
#[derive(Debug, Clone, Copy, PartialEq, Eq, Structural)]
pub struct SpawnRequest {
    pub group: u64,
    pub side: crate::side::Side,
}

/// Spawn requests in arrival order, drained a bounded number per tick.
pub struct SpawnQueue {
    pub pending: Vec<SpawnRequest>,
}

impl SpawnQueue {
    pub fn new() -> (r: SpawnQueue)
        ensures
            r.pending@.len() == 0,
    {
        SpawnQueue { pending: Vec::new() }
    }

    pub fn push(&mut self, req: SpawnRequest)
        ensures
            final(self).pending@ == old(self).pending@.push(req),
    {
        self.pending.push(req);
    }

    /// Takes at most `budget` requests from the front; the rest wait for the next tick.
    pub fn take_batch(&mut self, budget: usize) -> (r: Vec<SpawnRequest>)
        ensures
            ({
                let k = if budget < old(self).pending@.len() {
                    budget as int
                } else {
                    old(self).pending@.len() as int
                };
                &&& r@ == old(self).pending@.take(k)
                &&& final(self).pending@ == old(self).pending@.skip(k)
            }),
    {
        let n = self.pending.len();
        let k = if budget < n {
            budget
        } else {
            n
        };
        let mut taken: Vec<SpawnRequest> = Vec::new();
        let mut rest: Vec<SpawnRequest> = Vec::new();
        for i in 0..n
            invariant
                n == self.pending@.len(),
                k <= n,
                self.pending@ == old(self).pending@,
                i <= k ==> taken@ == self.pending@.take(i as int) && rest@.len() == 0,
                i > k ==> taken@ == self.pending@.take(k as int) && rest@ == self.pending@.subrange(
                    k as int,
                    i as int,
                ),
        {
            let x = self.pending[i];
            if i < k {
                taken.push(x);
                assert(taken@ =~= self.pending@.take(i + 1));
            } else {
                rest.push(x);
                assert(rest@ =~= self.pending@.subrange(k as int, i + 1));
            }
        }
        assert(rest@ =~= self.pending@.skip(k as int));
        self.pending = rest;
        taken
    }
}

/// The players to send a contact report: those with at least one visible contact, given as
/// (player, visible contacts) pairs.
pub fn players_to_report(contacts: &Vec<(u64, usize)>) -> (r: Vec<u64>)
    ensures
        r@ == contacts@.filter(|c: (u64, usize)| c.1 > 0).map_values(|c: (u64, usize)| c.0),
{
    let mut r: Vec<u64> = Vec::new();
    let n = contacts.len();
    for i in 0..n
        invariant
            n == contacts@.len(),
            r@ == contacts@.take(i as int).filter(|c: (u64, usize)| c.1 > 0).map_values(
                |c: (u64, usize)| c.0,
            ),
    {
        let c = contacts[i];
        proof {
            assert(contacts@.take(i + 1).drop_last() =~= contacts@.take(i as int));
            reveal(Seq::filter);
        }
        if c.1 > 0 {
            r.push(c.0);
        }
        assert(r@ =~= contacts@.take(i + 1).filter(|c: (u64, usize)| c.1 > 0).map_values(
            |c: (u64, usize)| c.0,
        ));
    }
    assert(contacts@.take(n as int) =~= contacts@);
    r
}

} // verus!
