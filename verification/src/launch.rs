//! The protocol of one launch of the emulator.
//!
//! The caller owns the child process. It asks the [`Launcher`] what to do,
//! does it, and reports what came of it, until the launcher has finished.

use crate::config::Profile;
use vstd::prelude::*;

verus! {

/// Why a launch gave no exit code.
#[derive(Debug, Clone, Copy, PartialEq, Eq)]
pub enum LaunchError {
    /// The emulator could not be started.
    Spawn,
    /// Waiting for the emulator failed.
    Wait,
    /// The emulator ran out of time and could not be killed.
    Kill,
    /// The emulator was killed and could not be reaped.
    Reap,
    /// A test ran out of time; the emulator was killed and reaped.
    TimedOut,
}

/// How far a launch has come.
#[derive(Debug, Clone, Copy, PartialEq, Eq)]
pub enum Stage {
    /// Nothing has been started.
    Start,
    /// The emulator runs.
    Spawned,
    /// The emulator is still running after the time a test may take.
    TimedOut,
    /// The emulator has been killed and is not reaped yet.
    Killed,
    /// The launch is over, with the exit code of the invocation or the
    /// reason why there is none.
    Finished(Result<i32, LaunchError>),
}

/// What the caller does next.
#[derive(Debug, Clone, Copy, PartialEq, Eq)]
pub enum Action {
    /// Start the emulator.
    Spawn,
    /// Wait until the emulator exits.
    Wait,
    /// Wait until the emulator exits, this many seconds at most.
    WaitFor(u64),
    /// Kill the emulator.
    Kill,
    /// Wait for the killed emulator, so that no process is left behind.
    Reap,
    /// Nothing: the launch is over, with this outcome.
    Finish(Result<i32, LaunchError>),
}

/// What came of an action.
#[derive(Debug, Clone, Copy, PartialEq, Eq)]
pub enum Event {
    /// The emulator was started, killed or reaped as asked.
    Done,
    /// The action failed.
    Failed,
    /// The emulator exited, with this code if it left one.
    Exited(Option<i32>),
    /// The emulator was still running when the time was over.
    TimedOut,
}

/// One launch of the emulator.
#[derive(Debug, Clone, Copy, PartialEq, Eq)]
pub struct Launcher {
    /// Whether this is a test run.
    pub is_test: bool,
    /// The exit code of the emulator that counts as a passed test.
    pub success_code: i64,
    /// The seconds that a test may take.
    pub timeout: u64,
    /// How far the launch has come.
    pub stage: Stage,
}

/// The exit code of the invocation, from what the emulator left: in a test
/// run the code that counts as success becomes 0; any other code is handed
/// on as it is; an emulator that left no code counts as 1. A success code
/// that no emulator can leave is matched by none.
pub open spec fn exit_code_of(is_test: bool, success_code: i64, status: Option<i32>) -> i32 {
    match status {
        Some(code) => if is_test && code == success_code {
            0
        } else {
            code
        },
        None => 1,
    }
}

impl Launcher {
    /// The action that the launch asks for at its stage.
    pub open spec fn wanted(self) -> Action {
        match self.stage {
            Stage::Start => Action::Spawn,
            Stage::Spawned => if self.is_test {
                Action::WaitFor(self.timeout)
            } else {
                Action::Wait
            },
            Stage::TimedOut => Action::Kill,
            Stage::Killed => Action::Reap,
            Stage::Finished(outcome) => Action::Finish(outcome),
        }
    }

    /// The stage that an event leads to, or `None` where the event cannot
    /// follow the action that the stage asks for.
    pub open spec fn next_stage(self, event: Event) -> Option<Stage> {
        match (self.stage, event) {
            (Stage::Start, Event::Done) => Some(Stage::Spawned),
            (Stage::Start, Event::Failed) => Some(Stage::Finished(Err(LaunchError::Spawn))),
            (Stage::Spawned, Event::Exited(status)) => Some(
                Stage::Finished(Ok(exit_code_of(self.is_test, self.success_code, status))),
            ),
            (Stage::Spawned, Event::TimedOut) => if self.is_test {
                Some(Stage::TimedOut)
            } else {
                None
            },
            (Stage::Spawned, Event::Failed) => Some(Stage::Finished(Err(LaunchError::Wait))),
            (Stage::TimedOut, Event::Done) => Some(Stage::Killed),
            (Stage::TimedOut, Event::Failed) => Some(Stage::Finished(Err(LaunchError::Kill))),
            (Stage::Killed, Event::Done) => Some(Stage::Finished(Err(LaunchError::TimedOut))),
            (Stage::Killed, Event::Failed) => Some(Stage::Finished(Err(LaunchError::Reap))),
            _ => None,
        }
    }

    /// The launch after an event, or `None` where the event cannot follow.
    pub open spec fn after(self, event: Event) -> Option<Launcher> {
        match self.next_stage(event) {
            Some(stage) => Some(Launcher { stage, ..self }),
            None => None,
        }
    }

    /// The launch after a run of events, or `None` where one of them cannot
    /// follow.
    pub open spec fn after_all(self, events: Seq<Event>) -> Option<Launcher>
        decreases events.len(),
    {
        if events.len() == 0 {
            Some(self)
        } else {
            match self.after_all(events.drop_last()) {
                Some(before) => before.after(events.last()),
                None => None,
            }
        }
    }

    /// A launch of the emulator with a profile, before anything is started.
    pub fn new(is_test: bool, profile: &Profile) -> (launcher: Launcher)
        ensures
            launcher == (Launcher {
                is_test,
                success_code: profile.test_success_exit_code,
                timeout: profile.test_timeout,
                stage: Stage::Start,
            }),
    {
        Launcher {
            is_test,
            success_code: profile.test_success_exit_code,
            timeout: profile.test_timeout,
            stage: Stage::Start,
        }
    }

    /// What the caller does next.
    pub fn action(&self) -> (action: Action)
        ensures
            action == self.wanted(),
    {
        match self.stage {
            Stage::Start => Action::Spawn,
            Stage::Spawned => if self.is_test {
                Action::WaitFor(self.timeout)
            } else {
                Action::Wait
            },
            Stage::TimedOut => Action::Kill,
            Stage::Killed => Action::Reap,
            Stage::Finished(outcome) => Action::Finish(outcome),
        }
    }

    /// Takes in what came of the last action.
    pub fn step(&self, event: Event) -> (next: Option<Launcher>)
        ensures
            next == self.after(event),
    {
        let stage = match self.stage {
            Stage::Start => match event {
                Event::Done => Stage::Spawned,
                Event::Failed => Stage::Finished(Err(LaunchError::Spawn)),
                _ => {
                    return None;
                },
            },
            Stage::Spawned => match event {
                Event::Exited(status) => Stage::Finished(
                    Ok(exit_code(self.is_test, self.success_code, status)),
                ),
                Event::TimedOut => {
                    if !self.is_test {
                        return None;
                    }
                    Stage::TimedOut
                },
                Event::Failed => Stage::Finished(Err(LaunchError::Wait)),
                Event::Done => {
                    return None;
                },
            },
            Stage::TimedOut => match event {
                Event::Done => Stage::Killed,
                Event::Failed => Stage::Finished(Err(LaunchError::Kill)),
                _ => {
                    return None;
                },
            },
            Stage::Killed => match event {
                Event::Done => Stage::Finished(Err(LaunchError::TimedOut)),
                Event::Failed => Stage::Finished(Err(LaunchError::Reap)),
                _ => {
                    return None;
                },
            },
            Stage::Finished(_) => {
                return None;
            },
        };
        Some(
            Launcher {
                is_test: self.is_test,
                success_code: self.success_code,
                timeout: self.timeout,
                stage,
            },
        )
    }
}

/// The exit code of the invocation, from what the emulator left.
pub fn exit_code(is_test: bool, success_code: i64, status: Option<i32>) -> (code: i32)
    ensures
        code == exit_code_of(is_test, success_code, status),
{
    match status {
        Some(code) => if is_test && code as i64 == success_code {
            0
        } else {
            code
        },
        None => 1,
    }
}

/// A success code outside the range of exit codes is matched by no exit:
/// every code that the emulator leaves is handed on as it is.
pub proof fn lemma_success_code_out_of_reach(is_test: bool, success_code: i64, code: i32)
    requires
        success_code < i32::MIN || success_code > i32::MAX,
    ensures
        exit_code_of(is_test, success_code, Some(code)) == code,
{
}

/// No event leads back to the start.
pub proof fn lemma_start_is_left_for_good(launcher: Launcher, events: Seq<Event>)
    requires
        launcher.after_all(events) matches Some(end) && end.stage == Stage::Start,
    ensures
        events.len() == 0,
{
}

/// The events keep the kind of run, the success code and the timeout.
pub proof fn lemma_events_keep_the_settings(launcher: Launcher, events: Seq<Event>)
    requires
        launcher.after_all(events) is Some,
    ensures
        ({
            let end = launcher.after_all(events)->Some_0;
            &&& end.is_test == launcher.is_test
            &&& end.success_code == launcher.success_code
            &&& end.timeout == launcher.timeout
        }),
    decreases events.len(),
{
    if events.len() > 0 {
        lemma_events_keep_the_settings(launcher, events.drop_last());
    }
}

/// A finished launch takes no further event.
pub proof fn lemma_finished_is_final(launcher: Launcher, event: Event)
    requires
        launcher.stage is Finished,
    ensures
        launcher.after(event) is None,
{
}

/// A launch ends as timed out in one way only: a test run was started, the
/// wait ran out, the emulator was killed, and it was reaped.
pub proof fn lemma_timed_out_means_killed_and_reaped(launcher: Launcher, events: Seq<Event>)
    requires
        launcher.stage == Stage::Start,
        launcher.after_all(events) matches Some(end) && end.stage == Stage::Finished(
            Err(LaunchError::TimedOut),
        ),
    ensures
        launcher.is_test,
        events == seq![Event::Done, Event::TimedOut, Event::Done, Event::Done],
{
    let killed = events.drop_last();
    let expired = killed.drop_last();
    let spawned = expired.drop_last();
    let start = spawned.drop_last();
    assert(events.len() > 0);
    assert(launcher.after_all(killed)->Some_0.stage == Stage::Killed);
    assert(killed.len() > 0);
    assert(launcher.after_all(expired)->Some_0.stage == Stage::TimedOut);
    assert(expired.len() > 0);
    assert(launcher.after_all(spawned)->Some_0.stage == Stage::Spawned);
    assert(spawned.len() > 0);
    assert(launcher.after_all(start)->Some_0.stage == Stage::Start);
    lemma_start_is_left_for_good(launcher, start);
    lemma_events_keep_the_settings(launcher, spawned);
    assert(events =~= seq![Event::Done, Event::TimedOut, Event::Done, Event::Done]);
}

/// A test run whose emulator exits in time with the code that counts as
/// success gives 0; with any other code it gives that code.
pub proof fn lemma_test_run_that_exits(launcher: Launcher, code: i32)
    requires
        launcher.stage == Stage::Start,
        launcher.is_test,
    ensures
        launcher.after_all(seq![Event::Done, Event::Exited(Some(code))]) == Some(
            Launcher {
                stage: Stage::Finished(
                    Ok(
                        if code == launcher.success_code {
                            0
                        } else {
                            code
                        },
                    ),
                ),
                ..launcher
            },
        ),
{
    let events = seq![Event::Done, Event::Exited(Some(code))];
    assert(events.drop_last() =~= seq![Event::Done]);
    assert(events.drop_last().drop_last() =~= Seq::<Event>::empty());
    reveal_with_fuel(Launcher::after_all, 3);
}

} // verus!
