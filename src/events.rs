//! Scheduling between the shell's output and window events: a bounded run
//! of polls `dt` apart, then a blocking wait.
use vstd::prelude::*;

verus! {

/// Which source a wait ended on.
#[derive(PartialEq, Eq, Structural, Clone, Copy, Debug)]
pub enum Wake {
    /// The shell's output is ready to be read.
    Output,
    /// A window event arrived.
    Window,
}

/// What the waiting loop does next, after the checks of one iteration.
#[derive(PartialEq, Eq, Structural, Clone, Copy, Debug)]
pub enum Step {
    /// Return: output is ready; the next wait polls this many times.
    Output(u32),
    /// Return the window event; the next wait polls this many times.
    Window(u32),
    /// Nothing ready: sleep `dt` and go on with the next iteration.
    Sleep,
    /// The polls are used up: wait for the next window event and return it
    /// with a budget of 0.
    Block,
}

/// Budget handed on when output turns up at iteration `time`: the full
/// budget at once, else what is left counting the current iteration.
pub open spec fn output_budget(timer: u32, time: u32) -> u32 {
    if time == 0 {
        timer
    } else {
        (timer - (time - 1)) as u32
    }
}

/// The decision at iteration `time` of a wait with budget `timer`. Output
/// is checked first, so it wins over an event that is ready at once.
pub open spec fn step_of(timer: u32, time: u32, output_ready: bool, event_ready: bool) -> Step {
    if time >= timer {
        Step::Block
    } else if output_ready {
        Step::Output(output_budget(timer, time))
    } else if event_ready {
        Step::Window((timer - time) as u32)
    } else {
        Step::Sleep
    }
}

/// The decision of one iteration of the waiting loop.
pub fn step(timer: u32, time: u32, output_ready: bool, event_ready: bool) -> (r: Step)
    requires
        time <= timer,
    ensures
        r == step_of(timer, time, output_ready, event_ready),
{
    if time >= timer {
        Step::Block
    } else if output_ready {
        if time == 0 {
            Step::Output(timer)
        } else {
            Step::Output(timer - (time - 1))
        }
    } else if event_ready {
        Step::Window(timer - time)
    } else {
        Step::Sleep
    }
}

/// Where a whole wait ends, from iteration `time` on, when at iteration
/// `k` output readiness is `outs[k]` and event readiness `evs[k]`.
pub open spec fn wait_outcome(timer: u32, outs: Seq<bool>, evs: Seq<bool>, time: u32) -> (Wake, u32)
    decreases timer - time,
{
    match step_of(timer, time, outs[time as int], evs[time as int]) {
        Step::Output(t) => (Wake::Output, t),
        Step::Window(t) => (Wake::Window, t),
        Step::Sleep => if time < timer {
            wait_outcome(timer, outs, evs, (time + 1) as u32)
        } else {
            (Wake::Window, 0)
        },
        Step::Block => (Wake::Window, 0),
    }
}

/// When output becomes ready at iteration `k`, within the budget, with
/// nothing ready before, the wait ends on the output with a budget above
/// zero, even if a window event is ready at the same iteration.
pub proof fn lemma_output_wins(timer: u32, outs: Seq<bool>, evs: Seq<bool>, k: u32)
    requires
        k < timer,
        outs[k as int],
        forall|j: int| 0 <= j < k ==> !(#[trigger] outs[j]) && !evs[j],
    ensures
        wait_outcome(timer, outs, evs, 0).0 == Wake::Output,
        wait_outcome(timer, outs, evs, 0).1 > 0,
        wait_outcome(timer, outs, evs, 0).1 == output_budget(timer, k),
{
    lemma_outcome_from(timer, outs, evs, k, 0);
}

proof fn lemma_outcome_from(timer: u32, outs: Seq<bool>, evs: Seq<bool>, k: u32, time: u32)
    requires
        time <= k < timer,
        outs[k as int],
        forall|j: int| 0 <= j < k ==> !(#[trigger] outs[j]) && !evs[j],
    ensures
        wait_outcome(timer, outs, evs, time) == (Wake::Output, output_budget(timer, k)),
        output_budget(timer, k) > 0,
    decreases k - time,
{
    if time < k {
        assert(!outs[time as int] && !evs[time as int]);
        lemma_outcome_from(timer, outs, evs, k, (time + 1) as u32);
    }
}

} // verus!
