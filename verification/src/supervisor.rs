//! Supervising one run of the build tool as a child process.
//!
//! The child is started with a timeout and then polled at a fixed pace
//! until it has ended. Starting, polling, sleeping and logging are the
//! caller's to do: a [`CargoRun`] says what comes next and is told what
//! happened. Once the child has ended the run is summed up in the log and
//! the cancellation flag is read: a run that was interrupted does not
//! count, however the child ended.

use std::time::Duration;
use vstd::prelude::*;

verus! {

/// How long to sleep between two looks at the child, in milliseconds.
pub const WAIT_POLL_INTERVAL_MS: u64 = 50;

/// How a child process ended.
#[derive(Clone, Copy, Debug, PartialEq, Eq, Structural)]
pub enum ProcessStatus {
    /// It exited with this code.
    Exited(i32),
    /// It was ended by this signal.
    Signalled(i32),
    /// It ran out of time and was ended for that.
    TimedOut,
}

/// Why a run gave no status.
#[derive(Clone, Copy, Debug, PartialEq, Eq, Structural)]
pub enum RunError {
    /// Cancellation was asked for.
    Interrupted,
    /// The child could not be started, or not be polled.
    ProcessFailure,
    /// The run was told something that it had not asked for.
    OutOfTurn,
}

/// What the caller of a run has to do next.
#[derive(Clone, Copy, Debug, PartialEq, Eq)]
pub enum RunRequest {
    /// Ask the child, without blocking, whether it has ended, and reply
    /// with [`RunEvent::Running`], [`RunEvent::Ended`] or
    /// [`RunEvent::PollFailed`].
    Poll,
    /// Let the progress indicator tick, sleep for `millis` milliseconds and
    /// reply with [`RunEvent::Waited`].
    Wait { millis: u64 },
    /// Write the summary of the run to the log (its line is made from the
    /// status and the time that the run took), read the cancellation flag
    /// and reply with [`RunEvent::Concluded`].
    Conclude { status: ProcessStatus },
    /// Nothing more: the run is over, with this result.
    Finish(Result<ProcessStatus, RunError>),
}

/// What the caller saw happen.
#[derive(Clone, Copy, Debug, PartialEq, Eq, Structural)]
pub enum RunEvent {
    /// The child was started.
    Started,
    /// The child could not be started.
    StartFailed,
    /// The child is still running.
    Running,
    /// The child has ended.
    Ended(ProcessStatus),
    /// The child could not be polled.
    PollFailed,
    /// The sleep is over; `interrupted` says whether cancellation was asked
    /// for meanwhile.
    Waited { interrupted: bool },
    /// The summary is written; `interrupted` says whether cancellation was
    /// asked for by now.
    Concluded { interrupted: bool },
}

/// How far a run has come.
#[derive(Clone, Copy, Debug, PartialEq, Eq, Structural)]
pub enum RunStage {
    /// The child is being started.
    Spawned,
    /// The child is being polled.
    Polling,
    /// The caller sleeps between two polls.
    Waiting,
    /// The child has ended with this status, and the run is being summed up.
    Terminal(ProcessStatus),
    /// The run is over.
    Finished,
}

/// What to start a child with.
#[derive(Debug)]
pub struct SpawnPlan {
    /// The command and its arguments.
    pub argv: Vec<String>,
    /// Variables to set in the child's environment, each with its value.
    pub env: Vec<(String, String)>,
    /// How long the child may run before it is ended.
    pub timeout: Duration,
}

/// One supervised run of the build tool.
#[derive(Clone, Copy, Debug)]
pub struct CargoRun {
    stage: RunStage,
}

/// The result of a run whose child ended with `status`, given whether
/// cancellation was asked for: cancellation wins over whatever the child
/// did.
pub open spec fn conclusion(status: ProcessStatus, interrupted: bool) -> Result<
    ProcessStatus,
    RunError,
> {
    if interrupted {
        Err(RunError::Interrupted)
    } else {
        Ok(status)
    }
}

/// The stage that follows on `event` in `stage`, and what the caller has to
/// do then.
pub open spec fn step_of(stage: RunStage, event: RunEvent) -> (RunStage, RunRequest) {
    match (stage, event) {
        (RunStage::Spawned, RunEvent::Started) => (RunStage::Polling, RunRequest::Poll),
        (RunStage::Spawned, RunEvent::StartFailed) => (
            RunStage::Finished,
            RunRequest::Finish(Err(RunError::ProcessFailure)),
        ),
        (RunStage::Polling, RunEvent::Running) => (
            RunStage::Waiting,
            RunRequest::Wait { millis: WAIT_POLL_INTERVAL_MS },
        ),
        (RunStage::Polling, RunEvent::Ended(status)) => (
            RunStage::Terminal(status),
            RunRequest::Conclude { status },
        ),
        (RunStage::Polling, RunEvent::PollFailed) => (
            RunStage::Finished,
            RunRequest::Finish(Err(RunError::ProcessFailure)),
        ),
        (RunStage::Waiting, RunEvent::Waited { interrupted }) => if interrupted {
            (RunStage::Finished, RunRequest::Finish(Err(RunError::Interrupted)))
        } else {
            (RunStage::Polling, RunRequest::Poll)
        },
        (RunStage::Terminal(status), RunEvent::Concluded { interrupted }) => (
            RunStage::Finished,
            RunRequest::Finish(conclusion(status, interrupted)),
        ),
        _ => (RunStage::Finished, RunRequest::Finish(Err(RunError::OutOfTurn))),
    }
}

/// The result of the run that sees `events` one after the other from
/// `stage` on: the first result that a step gives, `None` where the events
/// end before the run does.
pub open spec fn replay(stage: RunStage, events: Seq<RunEvent>) -> Option<
    Result<ProcessStatus, RunError>,
>
    decreases events.len(),
{
    if events.len() == 0 {
        None
    } else {
        match step_of(stage, events[0]) {
            (_, RunRequest::Finish(result)) => Some(result),
            (next, _) => replay(next, events.skip(1)),
        }
    }
}

/// The variables that a run sets in the child's environment: the encoded
/// compiler flags, and the word that keeps a snapshot tool in the tests
/// from writing to the tree.
pub open spec fn child_environment(rustflags: Seq<char>) -> Seq<(Seq<char>, Seq<char>)> {
    seq![("CARGO_ENCODED_RUSTFLAGS"@, rustflags), ("INSTA_UPDATE"@, "no"@)]
}

/// The variables of a plan as characters.
pub open spec fn environment_view(env: Seq<(String, String)>) -> Seq<(Seq<char>, Seq<char>)> {
    Seq::new(env.len(), |i: int| (env[i].0@, env[i].1@))
}

/// Begins one run of the build tool with `argv`, under a timeout and with
/// the encoded compiler flags `rustflags`. The child is to be started as
/// the plan says; the run then waits to hear whether that worked.
///
/// The tests may use a snapshot tool that writes what it sees into the
/// tree. It is told not to: it must not change the source, and least of all
/// change it and then let the test pass.
pub fn run_cargo(argv: &Vec<String>, timeout: Duration, rustflags: &str) -> (begun: (
    CargoRun,
    SpawnPlan,
))
    ensures
        begun.0.stage() == RunStage::Spawned,
        begun.1.argv.deep_view() == argv.deep_view(),
        begun.1.timeout == timeout,
        environment_view(begun.1.env@) == child_environment(rustflags@),
{
    let mut command: Vec<String> = Vec::new();
    let mut i: usize = 0;
    while i < argv.len()
        invariant
            i <= argv.len(),
            command.deep_view() == argv.deep_view().take(i as int),
        decreases argv.len() - i,
    {
        let ghost copied = command.deep_view();
        command.push(argv[i].clone());
        proof {
            assert(command.deep_view() =~= copied.push(argv[i as int]@));
            assert(argv.deep_view().take(i + 1) =~= argv.deep_view().take(i as int).push(
                argv[i as int]@,
            ));
        }
        i += 1;
    }
    proof {
        assert(argv.deep_view().take(argv.len() as int) =~= argv.deep_view());
    }
    let mut env: Vec<(String, String)> = Vec::new();
    env.push(("CARGO_ENCODED_RUSTFLAGS".to_owned(), rustflags.to_owned()));
    env.push(("INSTA_UPDATE".to_owned(), "no".to_owned()));
    proof {
        assert(environment_view(env@) =~= child_environment(rustflags@));
    }
    (CargoRun { stage: RunStage::Spawned }, SpawnPlan { argv: command, env, timeout })
}

impl CargoRun {
    /// How far the run has come.
    pub closed spec fn stage(&self) -> RunStage {
        self.stage
    }

    /// How far the run has come.
    pub fn current_stage(&self) -> (stage: RunStage)
        ensures
            stage == self.stage(),
    {
        self.stage
    }

    /// Takes what happened on the last request and says what to do next.
    ///
    /// While the child runs the caller is sent to wait and to poll in turn.
    /// Once the child has ended the run is summed up, and the cancellation
    /// flag decides: where cancellation was asked for the run fails as
    /// interrupted, whatever the child's status. A timeout is a status like
    /// any other, not a failure. An event that does not answer the last
    /// request ends the run.
    pub fn step(&mut self, event: RunEvent) -> (request: RunRequest)
        ensures
            (final(self).stage(), request) == step_of(old(self).stage(), event),
    {
        let (next, request) = match (self.stage, event) {
            (RunStage::Spawned, RunEvent::Started) => (RunStage::Polling, RunRequest::Poll),
            (RunStage::Spawned, RunEvent::StartFailed) => (
                RunStage::Finished,
                RunRequest::Finish(Err(RunError::ProcessFailure)),
            ),
            (RunStage::Polling, RunEvent::Running) => (
                RunStage::Waiting,
                RunRequest::Wait { millis: WAIT_POLL_INTERVAL_MS },
            ),
            (RunStage::Polling, RunEvent::Ended(status)) => (
                RunStage::Terminal(status),
                RunRequest::Conclude { status },
            ),
            (RunStage::Polling, RunEvent::PollFailed) => (
                RunStage::Finished,
                RunRequest::Finish(Err(RunError::ProcessFailure)),
            ),
            (RunStage::Waiting, RunEvent::Waited { interrupted }) => if interrupted {
                (RunStage::Finished, RunRequest::Finish(Err(RunError::Interrupted)))
            } else {
                (RunStage::Polling, RunRequest::Poll)
            },
            (RunStage::Terminal(status), RunEvent::Concluded { interrupted }) => (
                RunStage::Finished,
                RunRequest::Finish(check_interrupted(status, interrupted)),
            ),
            _ => (RunStage::Finished, RunRequest::Finish(Err(RunError::OutOfTurn))),
        };
        self.stage = next;
        request
    }
}

/// The result of a run whose child ended with `status`, given what the
/// cancellation flag held when it was read after that.
pub fn check_interrupted(status: ProcessStatus, interrupted: bool) -> (result: Result<
    ProcessStatus,
    RunError,
>)
    ensures
        result == conclusion(status, interrupted),
        interrupted ==> result == Err::<ProcessStatus, RunError>(RunError::Interrupted),
        !interrupted ==> result == Ok::<ProcessStatus, RunError>(status),
{
    if interrupted {
        Err(RunError::Interrupted)
    } else {
        Ok(status)
    }
}

/// The events of a run in which the child was found running `rounds` times
/// before it ended with `status`, and the cancellation flag then held
/// `interrupted`; no cancellation was seen while waiting.
pub open spec fn plain_run(rounds: nat, status: ProcessStatus, interrupted: bool) -> Seq<RunEvent>
    decreases rounds,
{
    if rounds == 0 {
        seq![RunEvent::Ended(status), RunEvent::Concluded { interrupted }]
    } else {
        seq![RunEvent::Running, RunEvent::Waited { interrupted: false }] + plain_run(
            (rounds - 1) as nat,
            status,
            interrupted,
        )
    }
}

/// However long the child ran and however it ended, the flag read after
/// its end decides: the run gives the child's status where no cancellation
/// was asked for, and fails as interrupted where it was.
pub proof fn lemma_cancellation_takes_precedence(
    rounds: nat,
    status: ProcessStatus,
    interrupted: bool,
)
    ensures
        replay(RunStage::Polling, plain_run(rounds, status, interrupted)) == Some(
            conclusion(status, interrupted),
        ),
        replay(RunStage::Spawned, seq![RunEvent::Started] + plain_run(rounds, status, interrupted))
            == Some(conclusion(status, interrupted)),
        interrupted ==> conclusion(status, interrupted) == Err::<ProcessStatus, RunError>(
            RunError::Interrupted,
        ),
    decreases rounds,
{
    let events = plain_run(rounds, status, interrupted);
    if rounds == 0 {
        assert(events.skip(1) =~= seq![RunEvent::Concluded { interrupted }]);
        assert(replay(RunStage::Terminal(status), events.skip(1)) == Some(
            conclusion(status, interrupted),
        ));
    } else {
        let rest = plain_run((rounds - 1) as nat, status, interrupted);
        lemma_cancellation_takes_precedence((rounds - 1) as nat, status, interrupted);
        assert(events.skip(1).skip(1) =~= rest);
        assert(events.skip(1)[0] == RunEvent::Waited { interrupted: false });
        assert(replay(RunStage::Waiting, events.skip(1)) == replay(RunStage::Polling, rest));
    }
    let whole = seq![RunEvent::Started] + events;
    assert(whole.skip(1) =~= events);
}

/// A run never gives a status after cancellation was seen: where a run
/// ends with a status, none of the events up to its end told of
/// cancellation.
pub proof fn lemma_status_means_no_cancellation(
    stage: RunStage,
    events: Seq<RunEvent>,
    status: ProcessStatus,
)
    requires
        replay(stage, events) == Some(Ok::<ProcessStatus, RunError>(status)),
    ensures
        exists|end: int|
            0 <= end < events.len() && #[trigger] events[end] == (RunEvent::Concluded {
                interrupted: false,
            }) && forall|i: int|
                0 <= i <= end ==> #[trigger] events[i] != (RunEvent::Waited { interrupted: true })
                    && events[i] != (RunEvent::Concluded { interrupted: true }),
    decreases events.len(),
{
    let (next, request) = step_of(stage, events[0]);
    match request {
        RunRequest::Finish(result) => {
            assert(events[0] == RunEvent::Concluded { interrupted: false });
        },
        _ => {
            let rest = events.skip(1);
            lemma_status_means_no_cancellation(next, rest, status);
            let end = choose|end: int|
                0 <= end < rest.len() && #[trigger] rest[end] == (RunEvent::Concluded {
                    interrupted: false,
                }) && forall|i: int|
                    0 <= i <= end ==> #[trigger] rest[i] != (RunEvent::Waited {
                        interrupted: true,
                    }) && rest[i] != (RunEvent::Concluded { interrupted: true });
            assert(events[end + 1] == rest[end]);
            assert forall|i: int| 0 <= i <= end + 1 implies #[trigger] events[i] != (
            RunEvent::Waited { interrupted: true }) && events[i] != (RunEvent::Concluded {
                interrupted: true,
            }) by {
                if i > 0 {
                    assert(events[i] == rest[i - 1]);
                }
            }
        },
    }
}

} // verus!
