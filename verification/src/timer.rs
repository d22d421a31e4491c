//! The timer of a transfer: it reports the seconds elapsed once per period
//! while it runs, and that it stopped each time it is reset. It begins
//! stopped, and only a start makes it run.
//!
//! The task that owns the timer waits for the next command or the next
//! period, whichever comes first, and hands either to [`TimerTask::step`]
//! together with the reading of a clock that never goes back.

use vstd::prelude::*;

use crate::comms::{EventView, MessageOut};

verus! {

/// The milliseconds between two ticks.
pub const TICK_PERIOD_MS: u64 = 1000;

/// What the worker asks of the timer.
#[derive(Debug, Clone, Copy, PartialEq, Eq, Structural)]
pub enum TimerCommands {
    /// Run, counting from now.
    Start,
    /// Stop.
    Reset,
}

/// What wakes the timer task.
#[derive(Debug, Clone, Copy, PartialEq, Eq, Structural)]
pub enum TimerInput {
    /// A command arrived.
    Command(TimerCommands),
    /// A period is over.
    Tick,
}

/// An input together with the clock's reading, in milliseconds, when it is
/// handled.
#[derive(Debug, Clone, Copy, PartialEq, Eq, Structural)]
pub struct TimedInput {
    pub input: TimerInput,
    pub now: u64,
}

/// The state of the timer: whether it runs, and the clock's reading when it
/// was last started.
#[derive(Debug, Clone, Copy, PartialEq, Eq, Structural)]
pub struct TimerTask {
    pub running: bool,
    pub start: u64,
}

/// The whole seconds from `start` to `now`; none where the clock reads less
/// than at the start.
pub open spec fn elapsed_seconds(start: u64, now: u64) -> u64 {
    if now >= start {
        ((now - start) / 1000) as u64
    } else {
        0
    }
}

impl TimerTask {
    /// The state after `step` handled `input`.
    pub open spec fn next(self, step: TimedInput) -> TimerTask {
        match step.input {
            TimerInput::Command(TimerCommands::Start) => TimerTask {
                running: true,
                start: step.now,
            },
            TimerInput::Command(TimerCommands::Reset) => TimerTask {
                running: false,
                start: self.start,
            },
            TimerInput::Tick => self,
        }
    }

    /// The events that handling `step` in this state gives: that the timer
    /// stopped for a reset, the seconds elapsed for a tick while running,
    /// and nothing otherwise.
    pub open spec fn emitted(self, step: TimedInput) -> Seq<EventView> {
        match step.input {
            TimerInput::Command(TimerCommands::Start) => Seq::<EventView>::empty(),
            TimerInput::Command(TimerCommands::Reset) => seq![EventView::StopTick],
            TimerInput::Tick => if self.running {
                seq![EventView::Tick(elapsed_seconds(self.start, step.now))]
            } else {
                Seq::<EventView>::empty()
            },
        }
    }

    /// The state after the inputs were handled in turn.
    pub open spec fn run_state(self, steps: Seq<TimedInput>) -> TimerTask
        decreases steps.len(),
    {
        if steps.len() == 0 {
            self
        } else {
            self.run_state(steps.drop_last()).next(steps.last())
        }
    }

    /// The events that handling the inputs in turn gives, in order.
    pub open spec fn run_events(self, steps: Seq<TimedInput>) -> Seq<EventView>
        decreases steps.len(),
    {
        if steps.len() == 0 {
            Seq::<EventView>::empty()
        } else {
            self.run_events(steps.drop_last()) + self.run_state(steps.drop_last()).emitted(
                steps.last(),
            )
        }
    }

    /// A stopped timer: it reports nothing until it is started.
    pub fn new() -> (timer: Self)
        ensures
            timer == (TimerTask { running: false, start: 0 }),
    {
        TimerTask { running: false, start: 0 }
    }

    /// Handles one input and queues what it gives.
    pub fn step(&mut self, step: TimedInput, mess: &mut MessageOut)
        ensures
            *final(self) == old(self).next(step),
            final(mess)@ == old(mess)@ + old(self).emitted(step),
    {
        match step.input {
            TimerInput::Command(TimerCommands::Start) => {
                self.start = step.now;
                self.running = true;
            },
            TimerInput::Command(TimerCommands::Reset) => {
                self.running = false;
                mess.reset_timer();
            },
            TimerInput::Tick => {
                if self.running {
                    let since: u64 = if step.now >= self.start {
                        (step.now - self.start) / 1000
                    } else {
                        0
                    };
                    mess.tick(since);
                }
            },
        }
        assert(mess@ =~= old(mess)@ + old(self).emitted(step));
    }

    /// Handles the inputs in turn and queues what they give.
    pub fn run(&mut self, steps: &Vec<TimedInput>, mess: &mut MessageOut)
        ensures
            *final(self) == old(self).run_state(steps@),
            final(mess)@ == old(mess)@ + old(self).run_events(steps@),
    {
        let mut i: usize = 0;
        assert(steps@.take(0) =~= Seq::<TimedInput>::empty());
        assert(mess@ =~= old(mess)@ + old(self).run_events(steps@.take(0)));
        while i < steps.len()
            invariant
                i <= steps.len(),
                *self == old(self).run_state(steps@.take(i as int)),
                mess@ == old(mess)@ + old(self).run_events(steps@.take(i as int)),
            decreases steps.len() - i,
        {
            let ghost before = mess@;
            let ghost state = *self;
            self.step(steps[i], mess);
            proof {
                let upto = steps@.take(i + 1);
                assert(upto.drop_last() =~= steps@.take(i as int));
                assert(upto.last() == steps@[i as int]);
                assert(mess@ =~= old(mess)@ + old(self).run_events(upto));
            }
            i += 1;
        }
        assert(steps@.take(i as int) =~= steps@);
    }
}

/// How many of the inputs are resets.
pub open spec fn count_resets(steps: Seq<TimedInput>) -> nat
    decreases steps.len(),
{
    if steps.len() == 0 {
        0
    } else if steps.last().input == TimerInput::Command(TimerCommands::Reset) {
        count_resets(steps.drop_last()) + 1
    } else {
        count_resets(steps.drop_last())
    }
}

/// How many of the events say that the timer stopped.
pub open spec fn count_stops(events: Seq<EventView>) -> nat
    decreases events.len(),
{
    if events.len() == 0 {
        0
    } else if events.last() is StopTick {
        count_stops(events.drop_last()) + 1
    } else {
        count_stops(events.drop_last())
    }
}

/// Whatever the inputs, the timer reports that it stopped exactly once for
/// each reset among them.
pub proof fn lemma_one_stop_per_reset(timer: TimerTask, steps: Seq<TimedInput>)
    ensures
        count_stops(timer.run_events(steps)) == count_resets(steps),
    decreases steps.len(),
{
    if steps.len() > 0 {
        let front = steps.drop_last();
        lemma_one_stop_per_reset(timer, front);
        let state = timer.run_state(front);
        let given = state.emitted(steps.last());
        let events = timer.run_events(front);
        if given.len() == 0 {
            assert(events + given =~= events);
        } else {
            assert(given.len() == 1);
            assert((events + given).drop_last() =~= events);
            assert((events + given).last() == given[0]);
        }
    }
}

/// A stopped timer is silent until it is started: where the timer does not
/// run and none of the inputs before input `j` is a start, the timer still
/// does not run at input `j`, and input `j` gives no report of seconds
/// elapsed. So a timer fresh from `new` reports nothing before the first
/// transfer.
pub proof fn lemma_silent_until_started(timer: TimerTask, steps: Seq<TimedInput>, j: int)
    requires
        !timer.running,
        0 <= j < steps.len(),
        forall|k: int| 0 <= k < j ==> steps[k].input != TimerInput::Command(TimerCommands::Start),
    ensures
        !timer.run_state(steps.take(j)).running,
        forall|n: int|
            0 <= n < timer.run_state(steps.take(j)).emitted(steps[j]).len() ==> !(
            #[trigger] timer.run_state(steps.take(j)).emitted(steps[j])[n] is Tick),
    decreases j,
{
    if j > 0 {
        let upto = steps.take(j);
        assert(upto.drop_last() =~= steps.take(j - 1));
        assert(upto.last() == steps[j - 1]);
        lemma_silent_until_started(timer, steps, j - 1);
    } else {
        assert(steps.take(0).len() == 0);
    }
}

/// After a reset the timer is silent until it is started again: where input
/// `i` is a reset and none of the inputs after it and before input `j` is a
/// start, input `j` gives no report of seconds elapsed.
pub proof fn lemma_silent_after_reset(timer: TimerTask, steps: Seq<TimedInput>, i: int, j: int)
    requires
        0 <= i < j < steps.len(),
        steps[i].input == TimerInput::Command(TimerCommands::Reset),
        forall|k: int| i < k < j ==> steps[k].input != TimerInput::Command(TimerCommands::Start),
    ensures
        !timer.run_state(steps.take(j)).running,
        forall|n: int|
            0 <= n < timer.run_state(steps.take(j)).emitted(steps[j]).len() ==> !(
            #[trigger] timer.run_state(steps.take(j)).emitted(steps[j])[n] is Tick),
    decreases j - i,
{
    let upto = steps.take(j);
    assert(upto.drop_last() =~= steps.take(j - 1));
    assert(upto.last() == steps[j - 1]);
    if j - 1 > i {
        lemma_silent_after_reset(timer, steps, i, j - 1);
    }
}

} // verus!
