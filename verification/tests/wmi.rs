use daemon_spawn::procedure::Run;
use daemon_spawn::wmi::start;
use daemon_spawn::wmi::unterminated;
use daemon_spawn::wmi::Answer;
use daemon_spawn::wmi::CreateProcess;
use daemon_spawn::wmi::WmiCall;
use daemon_spawn::wmi::PARENT_FLAGS;
use daemon_spawn::wmi::REQUEST_TIMEOUT_MS;
use daemon_spawn::Failure;
use daemon_spawn::Reply;
use daemon_spawn::Silence;
use windows_sys::Win32::System::Threading::CREATE_BREAKAWAY_FROM_JOB;
use windows_sys::Win32::System::Threading::DETACHED_PROCESS;

const OBJECT: Reply = Reply {
    status: 0,
    handle: 1,
    second: 0,
    number: 0,
    last_error: 0,
    failure: None,
};

fn request() -> CreateProcess {
    CreateProcess {
        command_line: units("\"p\"\0"),
    }
}

fn units(text: &str) -> Vec<u16> {
    text.encode_utf16().collect()
}

fn run(replies: &[Reply]) -> (Vec<WmiCall>, Result<u32, Failure>) {
    let mut run = Run::new(request());
    let mut calls = Vec::new();
    let mut given = replies.iter();
    loop {
        if let Some(outcome) = run.outcome() {
            return (calls, outcome);
        }
        calls.push(run.action().unwrap());
        run.advance(given.next().copied().unwrap_or(OBJECT));
    }
}

fn steps() -> Vec<WmiCall> {
    vec![
        WmiCall::Initialize { model: 0 },
        WmiCall::CreateLocator { context: 1 },
        WmiCall::ConnectServer { flags: 128 },
        WmiCall::SetBlanket {
            authentication: 10,
            authorization: 0,
            level: 6,
            impersonation: 3,
            capabilities: 0,
        },
        WmiCall::GetProcessClass { flags: 0 },
        WmiCall::GetCreateMethod { flags: 0 },
        WmiCall::SpawnInput { flags: 0 },
        WmiCall::PutCommandLine,
        WmiCall::GetStartupClass { flags: 0 },
        WmiCall::SpawnStartup { flags: 0 },
        WmiCall::PutCreateFlags { value: 0x1000008 },
        WmiCall::PutShowWindow { value: 0 },
        WmiCall::CastStartup,
        WmiCall::PutStartup,
        WmiCall::ExecCreate { flags: 0 },
        WmiCall::GetReturnValue,
        WmiCall::GetProcessId,
    ]
}

#[test]
fn request_takes_every_step_and_leaves_the_library() {
    let mut replies = vec![OBJECT; 17];
    // A library that was entered before says so with a positive code.
    replies[0].status = 1;
    replies[16].number = 4711;
    let (calls, outcome) = run(&replies);
    assert_eq!(outcome, Ok(4711));
    let mut expected = steps();
    expected.push(WmiCall::Uninitialize);
    assert_eq!(calls, expected);
}

#[test]
fn failed_call_ends_the_request() {
    for failing in 0..17 {
        let mut replies = vec![OBJECT; failing + 1];
        replies[failing].status = -2147217405;
        replies[failing].second = 3;
        let (calls, outcome) = run(&replies);
        assert_eq!(
            outcome,
            Err(Failure::Com {
                code: -2147217405,
                info: 3
            })
        );
        let mut expected = steps()[..=failing].to_vec();
        if failing > 0 {
            expected.push(WmiCall::Uninitialize);
        }
        assert_eq!(calls, expected);
    }
}

#[test]
fn missing_objects_are_told_apart() {
    let expected = [
        (4, Failure::NoProcessClass),
        (5, Failure::NoCreateParameters),
        (8, Failure::NoStartupClass),
        (14, Failure::NoProcessResult),
    ];
    for step in 0..17 {
        let mut replies = vec![OBJECT; step + 1];
        replies[step].handle = 0;
        let failure = expected.iter().find(|(at, _)| *at == step);
        assert_eq!(run(&replies).1.err(), failure.map(|(_, failure)| *failure));
    }
}

#[test]
fn refused_creation_is_reported_with_its_status() {
    let mut replies = vec![OBJECT; 16];
    replies[15].number = 9;
    let (calls, outcome) = run(&replies);
    assert_eq!(outcome, Err(Failure::CreationRefused { status: 9 }));
    assert!(!calls.contains(&WmiCall::GetProcessId));
}

#[test]
fn error_without_a_code_ends_the_request() {
    let mut replies = vec![OBJECT; 2];
    replies[1].second = 1;
    assert_eq!(run(&replies).1, Err(Failure::Com { code: 0, info: 1 }));
}

#[test]
fn silence_of_the_service_is_told_apart() {
    assert_eq!(
        start(Answer::TimedOut),
        Err(Failure::RequestTimedOut {
            silence: Silence::TimedOut
        })
    );
    assert_eq!(
        start(Answer::WorkerExited),
        Err(Failure::RequestTimedOut {
            silence: Silence::WorkerExited
        })
    );
    assert_eq!(start(Answer::Came(Ok(7))), Ok(7));
    assert_eq!(
        start(Answer::Came(Err(Failure::NoProcessClass))),
        Err(Failure::NoProcessClass)
    );
    assert_eq!(REQUEST_TIMEOUT_MS, 15_000);
}

#[test]
fn calls_are_made_with_their_texts() {
    let expected: Vec<Vec<&str>> = vec![
        vec![],
        vec![],
        vec![r"ROOT\CIMV2", "", "", "", ""],
        vec![],
        vec!["Win32_Process"],
        vec!["Create"],
        vec![],
        vec!["CommandLine", "\"p\""],
        vec!["Win32_ProcessStartup"],
        vec![],
        vec!["CreateFlags"],
        vec!["ShowWindow"],
        vec![],
        vec!["ProcessStartupInformation"],
        vec!["Win32_Process", "Create"],
        vec!["ReturnValue"],
        vec!["ProcessId"],
    ];
    for (call, texts) in steps().into_iter().zip(expected) {
        let texts: Vec<Vec<u16>> = texts.into_iter().map(units).collect();
        assert_eq!(request().texts(call), texts);
    }
    assert!(request().texts(WmiCall::Uninitialize).is_empty());
}

#[test]
fn service_gets_the_line_without_its_nul() {
    assert_eq!(unterminated(&vec![34, 97, 34, 0]), &[34, 97, 34]);
}

#[test]
fn parent_is_detached_and_breaks_away() {
    let flags = DETACHED_PROCESS | CREATE_BREAKAWAY_FROM_JOB;
    assert_eq!(PARENT_FLAGS, flags as i32);
}
