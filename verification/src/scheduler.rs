//! The epoch scheduler: what to do next, given what just happened.
//!
//! The scheduler waits for nothing itself. Its driver waits for the timer and
//! for the pool, seals and stores, and reports each outcome as an event; the
//! scheduler answers with the next action.

use vstd::prelude::*;

verus! {

/// Where the scheduler stands within an epoch.
#[derive(Clone, Copy, Debug, PartialEq, Eq, Structural)]
pub enum SchedulerState {
    /// Waiting for the timer.
    Idle,
    /// The timer fired; waiting for the pool.
    Ticking,
    /// The pool is held; the batch is being sealed.
    Sealing,
    /// A batch was sealed; it is being stored.
    Persisting,
    /// Storing failed. Nothing more is done.
    Stopped,
}

/// What the driver reports.
#[derive(Clone, Copy, Debug, PartialEq, Eq, Structural)]
pub enum SchedulerEvent {
    /// The interval has passed.
    TimerFired,
    /// The pool is held by the driver.
    PoolLocked,
    /// The pool was drained, and either held a batch or was empty.
    Sealed { batch_present: bool },
    /// The batch was stored, or storing failed.
    Persisted { succeeded: bool },
}

/// What the driver is to do next.
#[derive(Clone, Copy, Debug, PartialEq, Eq, Structural)]
pub enum SchedulerAction {
    /// Wait for the next timer tick.
    AwaitTimer,
    /// Take hold of the pool.
    LockPool,
    /// Drain the pool and seal the batch.
    Seal,
    /// Store the sealed batch.
    Persist,
    /// Give up: the chain needs an operator.
    Stop,
}

/// The scheduler: its state, and whether the first tick is still to come.
#[derive(Clone, Copy, Debug, PartialEq, Eq, Structural)]
pub struct Scheduler {
    pub state: SchedulerState,
    pub first_tick_pending: bool,
}

impl Scheduler {
    /// The action that a state waits on.
    pub open spec fn pending(state: SchedulerState) -> SchedulerAction {
        match state {
            SchedulerState::Idle => SchedulerAction::AwaitTimer,
            SchedulerState::Ticking => SchedulerAction::LockPool,
            SchedulerState::Sealing => SchedulerAction::Seal,
            SchedulerState::Persisting => SchedulerAction::Persist,
            SchedulerState::Stopped => SchedulerAction::Stop,
        }
    }

    /// The state that follows `self.state` on `event`. The first tick after
    /// the start is taken without action; an event that the state does not
    /// wait for changes nothing.
    pub open spec fn next_state(self, event: SchedulerEvent) -> SchedulerState {
        match (self.state, event) {
            (SchedulerState::Idle, SchedulerEvent::TimerFired) => if self.first_tick_pending {
                SchedulerState::Idle
            } else {
                SchedulerState::Ticking
            },
            (SchedulerState::Ticking, SchedulerEvent::PoolLocked) => SchedulerState::Sealing,
            (SchedulerState::Sealing, SchedulerEvent::Sealed { batch_present }) => {
                if batch_present {
                    SchedulerState::Persisting
                } else {
                    SchedulerState::Idle
                }
            },
            (SchedulerState::Persisting, SchedulerEvent::Persisted { succeeded }) => if succeeded {
                SchedulerState::Idle
            } else {
                SchedulerState::Stopped
            },
            (state, _) => state,
        }
    }

    /// The scheduler after `event`.
    pub open spec fn after(self, event: SchedulerEvent) -> Scheduler {
        Scheduler {
            state: self.next_state(event),
            first_tick_pending: self.first_tick_pending && !(self.state is Idle
                && event is TimerFired),
        }
    }

    /// The scheduler after each of `events` in turn.
    pub open spec fn after_all(self, events: Seq<SchedulerEvent>) -> Scheduler
        decreases events.len(),
    {
        if events.len() == 0 {
            self
        } else {
            self.after_all(events.drop_last()).after(events.last())
        }
    }

    /// A scheduler at the start: idle, with the first tick still to come.
    pub fn new() -> (scheduler: Self)
        ensures
            scheduler.state is Idle,
            scheduler.first_tick_pending,
    {
        Scheduler { state: SchedulerState::Idle, first_tick_pending: true }
    }

    /// Takes `event` and says what the driver is to do next: the action that
    /// the new state waits on.
    pub fn step(&mut self, event: SchedulerEvent) -> (action: SchedulerAction)
        ensures
            *final(self) == old(self).after(event),
            action == Self::pending(final(self).state),
    {
        let state = match (self.state, event) {
            (SchedulerState::Idle, SchedulerEvent::TimerFired) => {
                if self.first_tick_pending {
                    self.first_tick_pending = false;
                    SchedulerState::Idle
                } else {
                    SchedulerState::Ticking
                }
            },
            (SchedulerState::Ticking, SchedulerEvent::PoolLocked) => SchedulerState::Sealing,
            (SchedulerState::Sealing, SchedulerEvent::Sealed { batch_present }) => {
                if batch_present {
                    SchedulerState::Persisting
                } else {
                    SchedulerState::Idle
                }
            },
            (SchedulerState::Persisting, SchedulerEvent::Persisted { succeeded }) => {
                if succeeded {
                    SchedulerState::Idle
                } else {
                    SchedulerState::Stopped
                }
            },
            (state, _) => state,
        };
        self.state = state;
        match state {
            SchedulerState::Idle => SchedulerAction::AwaitTimer,
            SchedulerState::Ticking => SchedulerAction::LockPool,
            SchedulerState::Sealing => SchedulerAction::Seal,
            SchedulerState::Persisting => SchedulerAction::Persist,
            SchedulerState::Stopped => SchedulerAction::Stop,
        }
    }
}

/// The first tick after the start is absorbed: the scheduler stays idle and
/// the second tick opens the first epoch.
pub proof fn first_tick_is_absorbed(start: Scheduler)
    requires
        start.state is Idle,
        start.first_tick_pending,
    ensures
        start.after(SchedulerEvent::TimerFired).state is Idle,
        start.after(SchedulerEvent::TimerFired).after(SchedulerEvent::TimerFired).state is Ticking,
{
}

/// Once stopped, always stopped.
pub proof fn stopped_is_final(scheduler: Scheduler, events: Seq<SchedulerEvent>)
    requires
        scheduler.state is Stopped,
    ensures
        scheduler.after_all(events).state is Stopped,
    decreases events.len(),
{
    if events.len() > 0 {
        stopped_is_final(scheduler, events.drop_last());
    }
}

/// A batch is stored only when one was sealed, and the scheduler stops only
/// when storing failed.
pub proof fn persists_only_a_sealed_batch(scheduler: Scheduler, event: SchedulerEvent)
    ensures
        scheduler.after(event).state is Persisting && !(scheduler.state is Persisting)
            ==> scheduler.state is Sealing && event == (SchedulerEvent::Sealed {
            batch_present: true,
        }),
        scheduler.after(event).state is Stopped && !(scheduler.state is Stopped)
            ==> scheduler.state is Persisting && event == (SchedulerEvent::Persisted {
            succeeded: false,
        }),
{
}

} // verus!
