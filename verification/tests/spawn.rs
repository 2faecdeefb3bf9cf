use daemon_spawn::encoding::environment::Environment;
use daemon_spawn::encoding::environment::Override;
use daemon_spawn::encoding::environment::Variable;
use daemon_spawn::procedure::Run;
use daemon_spawn::spawn::prepare_spawn;
use daemon_spawn::spawn::spawn_strings;
use daemon_spawn::spawn::Spawn;
use daemon_spawn::spawn::SpawnCall;
use daemon_spawn::spawn::SpawnParentHandles;
use daemon_spawn::Failure;
use daemon_spawn::Operation;
use daemon_spawn::Reply;

const NOTHING: Reply = Reply {
    status: 0,
    handle: 0,
    second: 0,
    number: 0,
    last_error: 0,
    failure: None,
};

const PARENT: isize = 100;
const STDERR: isize = 200;

fn units(text: &str) -> Vec<u16> {
    text.encode_utf16().collect()
}

fn done() -> Reply {
    Reply {
        status: 1,
        ..NOTHING
    }
}

fn handed(handle: isize) -> Reply {
    Reply {
        status: 1,
        handle,
        ..NOTHING
    }
}

fn numbered(number: u64) -> Reply {
    Reply { number, ..NOTHING }
}

/// The replies of a spawn in which every step is passed.
fn good_replies() -> Vec<Reply> {
    vec![
        handed(1),
        handed(2),
        handed(3),
        numbered(50),
        done(),
        done(),
        done(),
        handed(4),
        Reply {
            status: 1,
            handle: 5,
            second: 6,
            ..NOTHING
        },
    ]
}

/// Runs a spawn whose calls get these replies, and everything after them
/// success.
fn run(replies: &[Reply]) -> (Vec<SpawnCall>, Result<isize, Failure>) {
    let mut run = Run::new(Spawn {
        parent: PARENT,
        stderr: STDERR,
        creation_flags: 4,
    });
    let mut calls = Vec::new();
    let mut given = replies.iter();
    loop {
        if let Some(outcome) = run.outcome() {
            assert_eq!(run.action(), None);
            return (calls, outcome);
        }
        calls.push(run.action().unwrap());
        run.advance(given.next().copied().unwrap_or(done()));
    }
}

fn steps() -> Vec<SpawnCall> {
    let word = std::mem::size_of::<usize>() as u64;
    let duplicate = |source: isize| SpawnCall::Duplicate {
        source,
        target: PARENT,
        access: 0,
        inherit: 1,
        options: 2,
    };
    vec![
        SpawnCall::OpenNul,
        duplicate(1),
        duplicate(STDERR),
        SpawnCall::SizeAttributes { count: 2 },
        SpawnCall::InitializeAttributes {
            count: 2,
            words: (50 + word - 1) / word,
        },
        SpawnCall::SetHandleList {
            attribute: 0x20002,
            input: 2,
            error: 3,
        },
        SpawnCall::SetParent {
            attribute: 0x20000,
            parent: PARENT,
        },
        SpawnCall::OpenToken { access: 0xB },
        SpawnCall::CreateDaemon {
            token: 4,
            inherit: 1,
            flags: 0x8040C,
            startup_flags: 0x101,
            input: 2,
            output: 2,
            error: 3,
        },
    ]
}

fn closing(handle: isize) -> SpawnCall {
    SpawnCall::CloseDuplicate {
        process: PARENT,
        handle,
        options: 1,
    }
}

#[test]
fn spawn_takes_every_step_and_keeps_the_process() {
    let (calls, outcome) = run(&good_replies());
    assert_eq!(outcome, Ok(5));
    let mut expected = steps();
    expected.extend([
        SpawnCall::CloseThread { thread: 6 },
        SpawnCall::CloseToken { token: 4 },
        SpawnCall::DeleteAttributes,
        SpawnCall::CloseNul { nul: 1 },
        closing(2),
        closing(3),
    ]);
    assert_eq!(calls, expected);
}

#[test]
fn spawn_gives_back_what_it_took_wherever_it_fails() {
    let releases = vec![
        SpawnCall::CloseToken { token: 4 },
        SpawnCall::DeleteAttributes,
        SpawnCall::CloseNul { nul: 1 },
        closing(2),
        closing(3),
    ];
    let owed: Vec<Vec<SpawnCall>> = vec![
        vec![],
        releases[2..3].to_vec(),
        releases[2..4].to_vec(),
        releases[2..].to_vec(),
        releases[2..].to_vec(),
        releases[1..].to_vec(),
        releases[1..].to_vec(),
        releases[1..].to_vec(),
        releases.clone(),
    ];
    let operations = [
        None,
        Some(Operation::DuplicateStdio),
        Some(Operation::DuplicateStdio),
        None,
        Some(Operation::InitializeAttributes),
        Some(Operation::SetHandleList),
        Some(Operation::SetParent),
        Some(Operation::OpenCallerToken),
        Some(Operation::CreateDaemon),
    ];
    for failing in 0..9 {
        let mut replies = good_replies();
        replies[failing] = Reply {
            last_error: 5,
            ..NOTHING
        };
        let (calls, outcome) = run(&replies[..=failing]);
        let mut expected = steps()[..=failing].to_vec();
        expected.extend(owed[failing].iter().copied());
        assert_eq!(calls, expected, "step {failing}");
        let failure = if failing == 3 {
            Failure::InvalidAttributeSize
        } else {
            Failure::System {
                operation: operations[failing],
                code: 5,
            }
        };
        assert_eq!(outcome, Err(failure), "step {failing}");
    }
}

#[test]
fn token_that_is_no_handle_is_refused() {
    let mut replies = good_replies();
    replies[7] = Reply {
        status: 1,
        handle: -1,
        last_error: 6,
        ..NOTHING
    };
    let (calls, outcome) = run(&replies[..=7]);
    assert_eq!(
        outcome,
        Err(Failure::System {
            operation: None,
            code: 6
        })
    );
    assert!(!calls.contains(&SpawnCall::CloseToken { token: -1 }));
}

fn request(value: &str) -> Environment {
    let mut request = Environment::new(
        vec![Variable {
            name: units("A"),
            value: units(value),
        }],
        vec![Override {
            name: units("B"),
            value: Some(units("2")),
        }],
    );
    while request.question().is_some() {
        request.answer(0);
    }
    request
}

#[test]
fn command_is_encoded_for_the_system() {
    let arguments = vec![units("x y")];
    let directory = units("C:\\");
    let strings = spawn_strings(
        &units("p.exe"),
        &arguments,
        &request("1"),
        Some(&directory[..]),
    );
    let strings = strings.ok().unwrap();
    assert_eq!(strings.application, units("p.exe\0"));
    assert_eq!(strings.command_line, units("\"p.exe\" \"x y\"\0"));
    assert_eq!(strings.environment, units("A=1\0B=2\0\0"));
    assert_eq!(strings.directory, Some(units("C:\\\0")));
    let strings = spawn_strings(&units("p"), &vec![], &request("1"), None);
    assert_eq!(strings.ok().unwrap().directory, None);
}

#[test]
fn first_part_that_cannot_be_encoded_is_reported() {
    let failure = |program: &str, argument: &str, value: &str, directory: &str| {
        let directory = units(directory);
        spawn_strings(
            &units(program),
            &vec![units(argument)],
            &request(value),
            Some(&directory[..]),
        )
        .err()
    };
    assert_eq!(failure("p", "a", "1", "d"), None);
    assert_eq!(
        failure("p\0", "\0", "\0", "\0"),
        Some(Failure::NulInParameter)
    );
    assert_eq!(
        failure("p", "\0", "\0", "\0"),
        Some(Failure::NulInCommandLine)
    );
    assert_eq!(
        failure("p", &"x".repeat(40000), "\0", "\0"),
        Some(Failure::CommandLineTooLong)
    );
    assert_eq!(failure("p", "a", "\0", "d"), Some(Failure::NulInParameter));
    assert_eq!(failure("p", "a", "1", "\0"), Some(Failure::NulInParameter));
}

#[test]
fn spawn_begins_with_its_strings() {
    let prepare = |program: &str| {
        prepare_spawn(
            &units(program),
            &vec![],
            &request("1"),
            None,
            PARENT,
            STDERR,
            4,
        )
    };
    let (spawn, strings) = prepare("p").ok().unwrap();
    assert_eq!(
        (spawn.parent, spawn.stderr, spawn.creation_flags),
        (PARENT, STDERR, 4)
    );
    assert_eq!(strings.command_line, units("\"p\"\0"));
    assert_eq!(prepare("\0").err(), Some(Failure::NulInParameter));
}

#[test]
fn every_duplicate_is_closed_in_the_parent() {
    let mut handles = SpawnParentHandles::new(PARENT);
    assert!(handles.close_all().is_empty());
    assert_eq!(handles.duplicate_into_parent(handed(11)), Ok(11));
    let refused = Reply {
        handle: 99,
        last_error: 5,
        ..NOTHING
    };
    assert_eq!(
        handles.duplicate_into_parent(refused),
        Err(Failure::System {
            operation: Some(Operation::DuplicateStdio),
            code: 5
        })
    );
    assert_eq!(handles.duplicate_into_parent(handed(12)), Ok(12));
    assert_eq!(handles.duplicate_into_parent(handed(13)), Ok(13));
    assert_eq!(
        handles.close_all(),
        vec![closing(11), closing(12), closing(13)]
    );
}
