//! The decisions of the polling loop: from its state and what the last
//! action brought, the next state and action.
use vstd::prelude::*;

use crate::mapping::{duty_cycles, map_speed_to_duty_cycles};

verus! {

/// Pause between the commit of one sample and the next sample, in
/// milliseconds.
pub const POLL_INTERVAL_MS: u64 = 500;

/// The state of the loop.
#[derive(Clone, Copy, Debug, PartialEq, Eq, Structural)]
pub enum LoopState {
    /// Sampling and committing.
    Running,
    /// A read or write failed; the loop is over.
    Fatal,
}

/// What the last action brought.
#[derive(Clone, Copy, Debug, PartialEq, Eq, Structural)]
pub enum Event {
    /// The speed file was read and gave this speed.
    Sampled(u64),
    /// Opening or reading the speed file failed.
    SampleFailed,
    /// Every write of the commit was made.
    Committed,
    /// Opening or writing a file of the commit failed.
    CommitFailed,
    /// The pause between two samples is over.
    Woke,
}

/// What the loop asks to be done next.
#[derive(Clone, Copy, Debug, PartialEq, Eq, Structural)]
pub enum Action {
    /// Read a speed sample.
    Sample,
    /// Write these duty cycles of the three LEDs.
    Commit(u32, u32, u32),
    /// Pause for this many milliseconds.
    Sleep(u64),
    /// Stop and report the failure.
    Halt,
}

/// The commit that a speed sample calls for.
pub open spec fn commit_for(speed: u64) -> Action {
    let d = duty_cycles(speed as int);
    Action::Commit(d.0 as u32, d.1 as u32, d.2 as u32)
}

/// The state and first action of a loop that has just started.
pub fn start() -> (r: (LoopState, Action))
    ensures
        r == (LoopState::Running, Action::Sample),
{
    (LoopState::Running, Action::Sample)
}

/// One decision of the loop. A sample is followed by the commit of its duty
/// cycles, a commit by the pause, the pause by the next sample; a failed
/// read or write ends the loop, and an ended loop stays ended.
pub fn step(state: LoopState, event: Event) -> (r: (LoopState, Action))
    ensures
        state == LoopState::Fatal ==> r == (LoopState::Fatal, Action::Halt),
        state == LoopState::Running ==> r == match event {
            Event::Sampled(speed) => (LoopState::Running, commit_for(speed)),
            Event::Committed => (LoopState::Running, Action::Sleep(POLL_INTERVAL_MS)),
            Event::Woke => (LoopState::Running, Action::Sample),
            Event::SampleFailed | Event::CommitFailed => (LoopState::Fatal, Action::Halt),
        },
{
    match state {
        LoopState::Fatal => (LoopState::Fatal, Action::Halt),
        LoopState::Running => match event {
            Event::Sampled(speed) => {
                let (led1, led2, led3) = map_speed_to_duty_cycles(speed);
                (LoopState::Running, Action::Commit(led1, led2, led3))
            },
            Event::Committed => (LoopState::Running, Action::Sleep(POLL_INTERVAL_MS)),
            Event::Woke => (LoopState::Running, Action::Sample),
            Event::SampleFailed | Event::CommitFailed => (LoopState::Fatal, Action::Halt),
        },
    }
}

} // verus!
