use daemon_spawn::parent::parent_reply;
use daemon_spawn::parent::CreateParent;
use daemon_spawn::parent::ParentCall;
use daemon_spawn::parent::PinCall;
use daemon_spawn::parent::PinParent;
use daemon_spawn::parent::SpawnParent;
use daemon_spawn::procedure::Run;
use daemon_spawn::Failure;
use daemon_spawn::Operation;
use daemon_spawn::Reply;

const NOTHING: Reply = Reply {
    status: 0,
    handle: 0,
    second: 0,
    number: 0,
    last_error: 0,
    failure: None,
};

fn pin(replies: &[Reply]) -> (Vec<PinCall>, Result<isize, Failure>) {
    let mut run = Run::new(PinParent { pipe: 7, pid: 42 });
    let mut calls = Vec::new();
    let mut given = replies.iter();
    loop {
        if let Some(outcome) = run.outcome() {
            return (calls, outcome);
        }
        calls.push(run.action().unwrap());
        run.advance(given.next().copied().unwrap_or(NOTHING));
    }
}

fn create(replies: &[Reply]) -> (Vec<ParentCall>, Result<SpawnParent, Failure>) {
    let mut run = Run::new(CreateParent);
    let mut calls = Vec::new();
    let mut given = replies.iter();
    loop {
        if let Some(outcome) = run.outcome() {
            return (calls, outcome);
        }
        calls.push(run.action().unwrap());
        run.advance(given.next().copied().unwrap_or(NOTHING));
    }
}

fn peer(number: u64) -> Reply {
    Reply {
        status: 1,
        number,
        ..NOTHING
    }
}

fn process() -> Reply {
    Reply {
        handle: 9,
        ..NOTHING
    }
}

fn pin_steps() -> [PinCall; 3] {
    [
        PinCall::QueryPeer { pipe: 7 },
        PinCall::OpenProcess {
            access: 0xC0,
            inherit: 0,
            pid: 42,
        },
        PinCall::Peek { pipe: 7 },
    ]
}

#[test]
fn connected_parent_is_opened_and_kept() {
    let (calls, outcome) = pin(&[peer(42), process(), peer(0)]);
    assert_eq!(outcome, Ok(9));
    assert_eq!(calls, pin_steps());
}

#[test]
fn parent_that_left_before_it_was_confirmed_is_closed() {
    let broken = Reply {
        last_error: 109,
        ..NOTHING
    };
    let (calls, outcome) = pin(&[peer(42), process(), broken]);
    assert_eq!(
        outcome,
        Err(Failure::System {
            operation: Some(Operation::ConfirmPeer),
            code: 109
        })
    );
    assert_eq!(&calls[..3], &pin_steps());
    assert_eq!(&calls[3..], &[PinCall::CloseProcess { process: 9 }]);
}

#[test]
fn other_peer_is_refused_and_not_opened() {
    let (calls, outcome) = pin(&[peer(43)]);
    assert_eq!(outcome, Err(Failure::PeerMismatch));
    assert_eq!(calls, &pin_steps()[..1]);
    assert_eq!(
        pin(&[peer((1 << 32) + 42)]).1,
        Err(Failure::PeerMismatch)
    );
}

#[test]
fn peer_that_cannot_be_asked_or_opened_is_reported() {
    let refused = Reply {
        last_error: 5,
        ..NOTHING
    };
    assert_eq!(
        pin(&[refused]).1,
        Err(Failure::System {
            operation: Some(Operation::QueryPeer),
            code: 5
        })
    );
    let (calls, outcome) = pin(&[peer(42), refused]);
    assert_eq!(
        outcome,
        Err(Failure::System {
            operation: Some(Operation::OpenParent),
            code: 5
        })
    );
    assert_eq!(calls, &pin_steps()[..2]);
}

fn parent_steps() -> Vec<ParentCall> {
    vec![
        ParentCall::CreatePipe,
        ParentCall::PrepareCommand,
        ParentCall::StartParent,
        ParentCall::AwaitConnection { pipe: 7 },
        ParentCall::PinParent { pipe: 7, pid: 42 },
    ]
}

fn parent_replies() -> Vec<Reply> {
    vec![
        Reply {
            handle: 7,
            ..NOTHING
        },
        NOTHING,
        Reply {
            number: 42,
            ..NOTHING
        },
        NOTHING,
        process(),
    ]
}

#[test]
fn parent_is_started_behind_its_pipe() {
    let (calls, outcome) = create(&parent_replies());
    assert_eq!(
        outcome,
        Ok(SpawnParent {
            process: 9,
            pipe: 7
        })
    );
    assert_eq!(calls, parent_steps());
}

#[test]
fn pipe_without_a_parent_is_closed() {
    for failing in 0..5 {
        let mut replies = parent_replies();
        replies[failing].failure = Some(Failure::ConnectionTimedOut);
        let (calls, outcome) = create(&replies[..=failing]);
        assert_eq!(outcome, Err(Failure::ConnectionTimedOut));
        let mut expected = parent_steps()[..=failing].to_vec();
        if failing > 0 {
            expected.push(ParentCall::ClosePipe { pipe: 7 });
        }
        assert_eq!(calls, expected);
    }
}

#[test]
fn created_parent_is_the_process_that_was_pinned() {
    let pinned = pin(&[peer(42), process(), peer(0)]).1;
    let replies = [
        Reply::of_handle(Ok(7)),
        Reply::of_done(Ok(())),
        Reply::of_number(Ok(42)),
        Reply::of_done(Ok(())),
        Reply::of_handle(pinned),
    ];
    let (calls, outcome) = create(&replies);
    assert_eq!(
        outcome,
        Ok(SpawnParent {
            process: 9,
            pipe: 7
        })
    );
    assert_eq!(calls, parent_steps());
    let mut replies = replies;
    replies[4] = Reply::of_handle(pin(&[peer(43)]).1);
    let (calls, outcome) = create(&replies);
    assert_eq!(outcome, Err(Failure::PeerMismatch));
    assert_eq!(calls.last(), Some(&ParentCall::ClosePipe { pipe: 7 }));
}

#[test]
fn parent_becomes_a_reply() {
    let parent = SpawnParent {
        process: 9,
        pipe: 7,
    };
    assert_eq!(
        parent_reply(Ok(parent)),
        Reply {
            handle: 9,
            second: 7,
            ..NOTHING
        }
    );
    assert_eq!(
        parent_reply(Err(Failure::PeerMismatch)),
        Reply {
            failure: Some(Failure::PeerMismatch),
            ..NOTHING
        }
    );
}
