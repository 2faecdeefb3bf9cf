use daemon_spawn::launch::Context;
use daemon_spawn::launch::Daemon;
use daemon_spawn::launch::Launch;
use daemon_spawn::launch::LaunchFailure;
use daemon_spawn::launch::Launched;
use daemon_spawn::launch::TerminateAndWait;
use daemon_spawn::launch::TerminationCall;
use daemon_spawn::parent::SpawnParent;
use daemon_spawn::procedure::Run;
use daemon_spawn::waiting::exit_code;
use daemon_spawn::waiting::ConnectionWait;
use daemon_spawn::waiting::ParentHold;
use daemon_spawn::Failure;
use daemon_spawn::Operation;
use daemon_spawn::Reply;

const NOTHING: Reply = Reply {
    status: 0,
    handle: 0,
    second: 0,
    number: 0,
    last_error: 0,
    failure: None,
};

const PARENT: SpawnParent = SpawnParent {
    process: 21,
    pipe: 22,
};

fn failing(failure: Failure) -> Reply {
    Reply {
        failure: Some(failure),
        ..NOTHING
    }
}

fn in_job(number: u64) -> Reply {
    Reply {
        status: 1,
        number,
        ..NOTHING
    }
}

fn parent() -> Reply {
    Reply {
        handle: PARENT.process,
        second: PARENT.pipe,
        ..NOTHING
    }
}

/// What a launch does when it gets these replies, and what it comes to.
fn launch(replies: &[Reply]) -> (Vec<Launch>, Launched) {
    let mut launch = Launch::new();
    let mut done = Vec::new();
    let mut given = replies.iter();
    loop {
        if let Launch::Finished(launched) = launch {
            launch.advance(NOTHING);
            assert_eq!(launch, Launch::Finished(launched));
            return (done, launched);
        }
        done.push(launch);
        launch.advance(given.next().copied().unwrap_or(NOTHING));
    }
}

#[test]
fn daemon_outside_any_job_is_kept() {
    let (done, launched) = launch(&[in_job(0)]);
    assert_eq!(launched, Ok(Daemon::Kept));
    assert_eq!(done, vec![Launch::InspectJob { job: 0 }]);
}

#[test]
fn daemon_in_a_job_is_replaced() {
    let daemon = Reply {
        handle: 30,
        ..NOTHING
    };
    let (done, launched) = launch(&[in_job(1), NOTHING, parent(), daemon]);
    assert_eq!(launched, Ok(Daemon::Created { process: 30 }));
    assert_eq!(
        done,
        vec![
            Launch::InspectJob { job: 0 },
            Launch::TerminateAndWait { inspection: None },
            Launch::CreateParent,
            Launch::SpawnDaemon { parent: PARENT },
            Launch::CloseParent {
                parent: PARENT,
                launched
            },
            Launch::CloseChild { launched },
        ]
    );
}

#[test]
fn daemon_whose_job_is_unknown_is_terminated_and_reported() {
    let refused = Reply {
        last_error: 5,
        ..NOTHING
    };
    let failure = Failure::System {
        operation: Some(Operation::InspectJob),
        code: 5,
    };
    let plain = |failure| {
        Err(LaunchFailure {
            context: None,
            failure,
        })
    };
    let (done, launched) = launch(&[refused]);
    assert_eq!(launched, plain(failure));
    assert_eq!(
        done,
        vec![
            Launch::InspectJob { job: 0 },
            Launch::TerminateAndWait {
                inspection: Some(failure)
            },
            Launch::CloseChild { launched },
        ]
    );
    let (_, launched) = launch(&[refused, failing(Failure::DaemonDidNotExit)]);
    assert_eq!(launched, plain(Failure::DaemonDidNotExit));
}

#[test]
fn no_second_daemon_while_the_first_may_run() {
    let (done, launched) = launch(&[in_job(1), failing(Failure::DaemonDidNotExit)]);
    assert_eq!(
        launched,
        Err(LaunchFailure {
            context: None,
            failure: Failure::DaemonDidNotExit
        })
    );
    assert_eq!(done.len(), 3);
}

#[test]
fn later_failures_carry_their_context() {
    let (done, launched) = launch(&[in_job(1), NOTHING, failing(Failure::PeerMismatch)]);
    let failure = LaunchFailure {
        context: Some(Context::Parent),
        failure: Failure::PeerMismatch,
    };
    assert_eq!(launched, Err(failure));
    assert_eq!(done.last(), Some(&Launch::CloseChild { launched }));
    let replies = [
        in_job(1),
        NOTHING,
        parent(),
        failing(Failure::InvalidAttributeSize),
    ];
    let (done, launched) = launch(&replies);
    let failure = LaunchFailure {
        context: Some(Context::Daemon),
        failure: Failure::InvalidAttributeSize,
    };
    assert_eq!(launched, Err(failure));
    assert!(done.contains(&Launch::CloseParent {
        parent: PARENT,
        launched
    }));
    assert_eq!(
        Context::Parent.text(),
        "cannot establish independent daemon parent"
    );
    assert_eq!(
        Context::Daemon.text(),
        "cannot create daemon with original token and independent parent"
    );
}

fn terminate(replies: [Reply; 2]) -> (Vec<TerminationCall>, Result<(), Failure>) {
    let mut run = Run::new(TerminateAndWait { process: 8 });
    let mut calls = Vec::new();
    let mut given = replies.iter();
    loop {
        if let Some(outcome) = run.outcome() {
            return (calls, outcome);
        }
        calls.push(run.action().unwrap());
        run.advance(*given.next().unwrap());
    }
}

#[test]
fn terminated_daemon_is_waited_for() {
    let expected = vec![
        TerminationCall::Terminate { process: 8 },
        TerminationCall::Wait {
            process: 8,
            millis: 5000,
        },
    ];
    let (calls, outcome) = terminate([NOTHING, NOTHING]);
    assert_eq!((calls, outcome), (expected.clone(), Ok(())));
    let late = Reply {
        number: 258,
        ..NOTHING
    };
    assert_eq!(
        terminate([NOTHING, late]),
        (expected.clone(), Err(Failure::DaemonDidNotExit))
    );
    let denied = Failure::System {
        operation: None,
        code: 5,
    };
    assert_eq!(
        terminate([failing(denied), NOTHING]),
        (expected[..1].to_vec(), Err(denied))
    );
}

fn error(last_error: i32) -> Reply {
    Reply {
        last_error,
        ..NOTHING
    }
}

fn clock(number: u64) -> Reply {
    Reply { number, ..NOTHING }
}

#[test]
fn launcher_waits_until_its_parent_connects() {
    let mut wait = ConnectionWait::new();
    let script = [
        (ConnectionWait::Connect, in_job(0)),
        (ConnectionWait::ReadClock, clock(0)),
        (ConnectionWait::Sleep { millis: 10 }, NOTHING),
        (ConnectionWait::Connect, error(536)),
        (ConnectionWait::ReadClock, clock(29_999)),
        (ConnectionWait::Sleep { millis: 10 }, NOTHING),
        (ConnectionWait::Connect, error(535)),
    ];
    for (expected, reply) in script {
        assert_eq!(wait, expected);
        wait.advance(reply);
    }
    assert_eq!(wait, ConnectionWait::Finished(Ok(())));
    wait.advance(error(5));
    assert_eq!(wait, ConnectionWait::Finished(Ok(())));
}

#[test]
fn launcher_gives_up_in_time_or_on_an_error() {
    let mut wait = ConnectionWait::new();
    wait.advance(error(536));
    wait.advance(clock(30_000));
    assert_eq!(
        wait,
        ConnectionWait::Finished(Err(Failure::ConnectionTimedOut))
    );
    let mut wait = ConnectionWait::new();
    wait.advance(error(232));
    let failure = Failure::System {
        operation: Some(Operation::AcceptParent),
        code: 232,
    };
    assert_eq!(wait, ConnectionWait::Finished(Err(failure)));
}

#[test]
fn parent_stays_until_the_launcher_closes_the_pipe() {
    let mut hold = ParentHold::new();
    let opened = Reply {
        handle: 4,
        ..NOTHING
    };
    let script = [
        (
            ParentHold::Connect {
                access: 0xC000_0000,
                share: 0,
                disposition: 3,
                flags: 0x11_0000,
            },
            opened,
        ),
        (ParentHold::ReadClock { pipe: 4 }, clock(0)),
        (ParentHold::Peek { pipe: 4 }, in_job(0)),
        (ParentHold::Sleep { pipe: 4, millis: 10 }, NOTHING),
        (ParentHold::ReadClock { pipe: 4 }, clock(29_999)),
        (ParentHold::Peek { pipe: 4 }, error(109)),
        (
            ParentHold::ClosePipe {
                pipe: 4,
                outcome: Ok(()),
            },
            NOTHING,
        ),
    ];
    for (expected, reply) in script {
        assert_eq!(hold, expected);
        hold.advance(reply);
    }
    assert_eq!(hold, ParentHold::Finished(Ok(())));
}

#[test]
fn parent_leaves_when_its_time_is_over() {
    let mut hold = ParentHold::ReadClock { pipe: 4 };
    hold.advance(clock(30_000));
    let closing = ParentHold::ClosePipe {
        pipe: 4,
        outcome: Ok(()),
    };
    assert_eq!(hold, closing);
}

#[test]
fn parent_reports_a_pipe_it_cannot_use() {
    let mut hold = ParentHold::new();
    hold.advance(Reply {
        handle: -1,
        last_error: 2,
        ..NOTHING
    });
    let failure = Failure::System {
        operation: Some(Operation::ConnectParentPipe),
        code: 2,
    };
    assert_eq!(hold, ParentHold::Finished(Err(failure)));
    let mut hold = ParentHold::Peek { pipe: 4 };
    hold.advance(error(6));
    let failure = Failure::System {
        operation: Some(Operation::WaitForRelease),
        code: 6,
    };
    let closing = ParentHold::ClosePipe {
        pipe: 4,
        outcome: Err(failure),
    };
    assert_eq!(hold, closing);
    hold.advance(NOTHING);
    assert_eq!(hold, ParentHold::Finished(Err(failure)));
}

#[test]
fn exit_code_tells_success_from_failure() {
    assert_eq!(exit_code(&Ok(())), 0);
    assert_eq!(exit_code(&Err(Failure::MissingPipe)), 1);
}
