use std::time::Duration;

use cargo_driver::summary::summary_line;
use cargo_driver::supervisor::{
    check_interrupted, run_cargo, ProcessStatus, RunError, RunEvent, RunRequest, RunStage,
    WAIT_POLL_INTERVAL_MS,
};

fn argv() -> Vec<String> {
    vec!["cargo".to_owned(), "test".to_owned(), "--workspace".to_owned()]
}

/// Feeds the events to a fresh run and gives the requests that came back.
fn requests(events: &[RunEvent]) -> Vec<RunRequest> {
    let (mut run, _) = run_cargo(&argv(), Duration::from_secs(20), "--cap-lints=allow");
    events.iter().map(|event| run.step(*event)).collect()
}

fn outcome(events: &[RunEvent]) -> RunRequest {
    *requests(events).last().unwrap()
}

#[test]
fn poll_interval_is_fifty_milliseconds() {
    assert_eq!(WAIT_POLL_INTERVAL_MS, 50);
}

#[test]
fn plan_carries_argv_timeout_and_environment() {
    let (run, plan) = run_cargo(&argv(), Duration::from_millis(1500), "-W\x1f--cap-lints=allow");
    assert_eq!(run.current_stage(), RunStage::Spawned);
    assert_eq!(plan.argv, ["cargo", "test", "--workspace"]);
    assert_eq!(plan.timeout, Duration::from_millis(1500));
    assert_eq!(
        plan.env,
        [
            (
                "CARGO_ENCODED_RUSTFLAGS".to_owned(),
                "-W\x1f--cap-lints=allow".to_owned()
            ),
            ("INSTA_UPDATE".to_owned(), "no".to_owned()),
        ]
    );
}

#[test]
fn child_that_ends_at_once_is_concluded() {
    assert_eq!(
        requests(&[
            RunEvent::Started,
            RunEvent::Ended(ProcessStatus::Exited(0)),
            RunEvent::Concluded { interrupted: false },
        ]),
        [
            RunRequest::Poll,
            RunRequest::Conclude {
                status: ProcessStatus::Exited(0)
            },
            RunRequest::Finish(Ok(ProcessStatus::Exited(0))),
        ]
    );
}

#[test]
fn running_child_is_polled_again_after_a_wait() {
    assert_eq!(
        requests(&[
            RunEvent::Started,
            RunEvent::Running,
            RunEvent::Waited { interrupted: false },
            RunEvent::Running,
            RunEvent::Waited { interrupted: false },
            RunEvent::Ended(ProcessStatus::Exited(101)),
            RunEvent::Concluded { interrupted: false },
        ]),
        [
            RunRequest::Poll,
            RunRequest::Wait { millis: 50 },
            RunRequest::Poll,
            RunRequest::Wait { millis: 50 },
            RunRequest::Poll,
            RunRequest::Conclude {
                status: ProcessStatus::Exited(101)
            },
            RunRequest::Finish(Ok(ProcessStatus::Exited(101))),
        ]
    );
}

#[test]
fn stages_follow_the_child() {
    let (mut run, _) = run_cargo(&argv(), Duration::from_secs(1), "");
    assert_eq!(run.current_stage(), RunStage::Spawned);
    run.step(RunEvent::Started);
    assert_eq!(run.current_stage(), RunStage::Polling);
    run.step(RunEvent::Running);
    assert_eq!(run.current_stage(), RunStage::Waiting);
    run.step(RunEvent::Waited { interrupted: false });
    assert_eq!(run.current_stage(), RunStage::Polling);
    run.step(RunEvent::Ended(ProcessStatus::TimedOut));
    assert_eq!(
        run.current_stage(),
        RunStage::Terminal(ProcessStatus::TimedOut)
    );
    run.step(RunEvent::Concluded { interrupted: false });
    assert_eq!(run.current_stage(), RunStage::Finished);
}

#[test]
fn statuses_stay_distinct() {
    for status in [
        ProcessStatus::Exited(0),
        ProcessStatus::Exited(1),
        ProcessStatus::Exited(-1),
        ProcessStatus::Signalled(9),
        ProcessStatus::Signalled(0),
        ProcessStatus::TimedOut,
    ] {
        assert_eq!(
            outcome(&[
                RunEvent::Started,
                RunEvent::Ended(status),
                RunEvent::Concluded { interrupted: false },
            ]),
            RunRequest::Finish(Ok(status))
        );
    }
    assert_ne!(ProcessStatus::Exited(9), ProcessStatus::Signalled(9));
    assert_ne!(ProcessStatus::Exited(0), ProcessStatus::TimedOut);
    assert_ne!(ProcessStatus::Signalled(0), ProcessStatus::TimedOut);
}

#[test]
fn timeout_is_a_status_and_no_error() {
    assert_eq!(
        outcome(&[
            RunEvent::Started,
            RunEvent::Running,
            RunEvent::Waited { interrupted: false },
            RunEvent::Ended(ProcessStatus::TimedOut),
            RunEvent::Concluded { interrupted: false },
        ]),
        RunRequest::Finish(Ok(ProcessStatus::TimedOut))
    );
}

#[test]
fn cancellation_after_a_successful_exit_takes_precedence() {
    assert_eq!(
        outcome(&[
            RunEvent::Started,
            RunEvent::Ended(ProcessStatus::Exited(0)),
            RunEvent::Concluded { interrupted: true },
        ]),
        RunRequest::Finish(Err(RunError::Interrupted))
    );
    assert_eq!(
        check_interrupted(ProcessStatus::Exited(0), true),
        Err(RunError::Interrupted)
    );
    assert_eq!(
        check_interrupted(ProcessStatus::Exited(0), false),
        Ok(ProcessStatus::Exited(0))
    );
    assert_eq!(
        check_interrupted(ProcessStatus::TimedOut, true),
        Err(RunError::Interrupted)
    );
}

#[test]
fn cancellation_while_waiting_ends_the_run() {
    assert_eq!(
        requests(&[
            RunEvent::Started,
            RunEvent::Running,
            RunEvent::Waited { interrupted: true },
        ]),
        [
            RunRequest::Poll,
            RunRequest::Wait { millis: 50 },
            RunRequest::Finish(Err(RunError::Interrupted)),
        ]
    );
}

#[test]
fn child_that_cannot_be_started_or_polled_fails_the_run() {
    assert_eq!(
        outcome(&[RunEvent::StartFailed]),
        RunRequest::Finish(Err(RunError::ProcessFailure))
    );
    assert_eq!(
        outcome(&[RunEvent::Started, RunEvent::PollFailed]),
        RunRequest::Finish(Err(RunError::ProcessFailure))
    );
}

#[test]
fn event_out_of_turn_ends_the_run() {
    for events in [
        vec![RunEvent::Running],
        vec![RunEvent::Started, RunEvent::Started],
        vec![RunEvent::Started, RunEvent::Waited { interrupted: false }],
        vec![RunEvent::Started, RunEvent::Concluded { interrupted: false }],
        vec![RunEvent::Started, RunEvent::Running, RunEvent::Running],
        vec![
            RunEvent::Started,
            RunEvent::Ended(ProcessStatus::Exited(0)),
            RunEvent::Running,
        ],
        vec![
            RunEvent::Started,
            RunEvent::Ended(ProcessStatus::Exited(0)),
            RunEvent::Concluded { interrupted: false },
            RunEvent::Concluded { interrupted: false },
        ],
    ] {
        assert_eq!(
            outcome(&events),
            RunRequest::Finish(Err(RunError::OutOfTurn))
        );
    }
}

#[test]
fn summary_line_tells_status_and_seconds() {
    assert_eq!(
        summary_line(ProcessStatus::Exited(0), 1234),
        "cargo result: Exited(0) in 1.234s"
    );
    assert_eq!(
        summary_line(ProcessStatus::Exited(101), 0),
        "cargo result: Exited(101) in 0.000s"
    );
    assert_eq!(
        summary_line(ProcessStatus::Exited(-1), 7),
        "cargo result: Exited(-1) in 0.007s"
    );
    assert_eq!(
        summary_line(ProcessStatus::Signalled(9), 60_050),
        "cargo result: Signalled(9) in 60.050s"
    );
    assert_eq!(
        summary_line(ProcessStatus::TimedOut, 20_000),
        "cargo result: TimedOut in 20.000s"
    );
    assert_eq!(
        summary_line(ProcessStatus::Exited(i32::MIN), u64::MAX),
        "cargo result: Exited(-2147483648) in 18446744073709551.615s"
    );
    assert_eq!(
        summary_line(ProcessStatus::Exited(i32::MAX), 999),
        "cargo result: Exited(2147483647) in 0.999s"
    );
}

#[test]
fn summary_line_writes_the_status_as_its_debug_form() {
    for status in [
        ProcessStatus::Exited(0),
        ProcessStatus::Exited(10),
        ProcessStatus::Exited(-100),
        ProcessStatus::Signalled(15),
        ProcessStatus::TimedOut,
    ] {
        for millis in [0u64, 9, 10, 99, 100, 999, 1000, 1001, 12_345, 3_600_000] {
            assert_eq!(
                summary_line(status, millis),
                format!(
                    "cargo result: {:?} in {}.{:03}s",
                    status,
                    millis / 1000,
                    millis % 1000
                )
            );
        }
    }
}
