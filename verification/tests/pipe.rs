use daemon_spawn::pipe::descriptor_text;
use daemon_spawn::pipe::pipe_texts;
use daemon_spawn::pipe::CreatePrivate;
use daemon_spawn::pipe::OwnerCall;
use daemon_spawn::pipe::OwnerLookup;
use daemon_spawn::pipe::PipeCall;
use daemon_spawn::pipe::TextReader;
use daemon_spawn::pipe_name::fresh_pipe_name;
use daemon_spawn::pipe_name::parent_command_line;
use daemon_spawn::pipe_name::parent_pipe;
use daemon_spawn::pipe_name::pipe_name;
use daemon_spawn::pipe_name::PIPE_PREFIX;
use daemon_spawn::procedure::Run;
use daemon_spawn::Failure;
use daemon_spawn::Operation;
use daemon_spawn::Reply;
use daemon_spawn::CODEX_WINDOWS_SPAWN_PARENT_ARG1;
use windows_sys::Win32::Security::TOKEN_USER;

const NOTHING: Reply = Reply {
    status: 0,
    handle: 0,
    second: 0,
    number: 0,
    last_error: 0,
    failure: None,
};

fn units(text: &str) -> Vec<u16> {
    text.encode_utf16().collect()
}

fn words(texts: &[&str]) -> Vec<Vec<u16>> {
    texts.iter().map(|text| units(text)).collect()
}

#[test]
fn pipe_is_named_by_its_nonce_in_hexadecimal() {
    for nonce in [0, 9, 15, 16, 0xDEAD_BEEF, 1 << 127, u128::MAX] {
        let expected = format!(r"\\.\pipe\codex-daemon-launch-parent-{nonce:x}");
        assert_eq!(pipe_name(nonce), units(&expected));
    }
    assert_eq!(PIPE_PREFIX, r"\\.\pipe\codex-daemon-launch-parent-");
}

#[test]
fn fresh_pipe_names_differ() {
    let first = fresh_pipe_name();
    assert!(first.starts_with(&units(PIPE_PREFIX)));
    let digits = String::from_utf16(&first[PIPE_PREFIX.len()..]).unwrap();
    let nonce = u128::from_str_radix(&digits, 16).unwrap();
    assert_eq!(first, pipe_name(nonce));
    assert_ne!(first, fresh_pipe_name());
}

#[test]
fn parent_gets_the_pipe_on_its_command_line() {
    let line = parent_command_line(&units(r"C:\codex.exe"), &pipe_name(0xAB)).unwrap();
    let expected = concat_words(&[
        r#""C:\codex.exe" "#,
        r#""--codex-daemon-launch-parent" "#,
        r#""\\.\pipe\codex-daemon-launch-parent-ab""#,
        "\0",
    ]);
    assert_eq!(line, expected);
    assert_eq!(
        parent_command_line(&[0], &[]),
        Err(Failure::NulInCommandLine)
    );
    assert_eq!(
        parent_command_line(&[65; 32767], &[]),
        Err(Failure::CommandLineTooLong)
    );
    assert_eq!(
        CODEX_WINDOWS_SPAWN_PARENT_ARG1,
        "--codex-daemon-launch-parent"
    );
}

fn concat_words(parts: &[&str]) -> Vec<u16> {
    units(&parts.concat())
}

#[test]
fn started_parent_accepts_its_pipe() {
    let name = String::from_utf16(&fresh_pipe_name()).unwrap();
    let given = words(&["codex.exe", CODEX_WINDOWS_SPAWN_PARENT_ARG1, &name]);
    assert_eq!(parent_pipe(&given), Ok(units(&format!("{name}\0"))));
}

#[test]
fn parent_refuses_other_arguments() {
    let valid = r"\\.\pipe\codex-daemon-launch-parent-1";
    assert_eq!(parent_pipe(&vec![]), Err(Failure::MissingPipe));
    assert_eq!(parent_pipe(&words(&["a", "b"])), Err(Failure::MissingPipe));
    assert_eq!(
        parent_pipe(&words(&["a", "b", valid, "c"])),
        Err(Failure::UnexpectedArguments)
    );
    assert_eq!(
        parent_pipe(&words(&["a", "b", r"\\.\pipe\other"])),
        Err(Failure::InvalidPipe)
    );
    assert_eq!(
        parent_pipe(&words(&["a", "b", ""])),
        Err(Failure::InvalidPipe)
    );
    let mut broken = words(&["a", "b", valid]);
    broken[2].push(0xD800);
    assert_eq!(parent_pipe(&broken), Err(Failure::InvalidPipe));
    let mut cut = words(&["a", "b", valid]);
    cut[2].push(0);
    assert_eq!(parent_pipe(&cut), Err(Failure::NulInParameter));
}

#[test]
fn descriptor_names_the_owner() {
    assert_eq!(
        descriptor_text(&units("S-1-5-18")),
        Ok(units("D:P(A;;GA;;;S-1-5-18)\0"))
    );
    assert_eq!(descriptor_text(&[0]), Err(Failure::NulInParameter));
}

#[test]
fn owner_that_was_read_is_the_one_described() {
    let memory = [0x53, 0x2D, 0xDC00, 0x31, 0, 0x41];
    let (calls, outcome) = look_up(&[handed(3), sized(64), handed(0), handed(8), NOTHING]);
    assert_eq!(outcome, Ok(()));
    assert!(calls.contains(&OwnerCall::ReadText { text: 8 }));
    let mut reader = TextReader::new();
    while let Some(offset) = reader.wanted() {
        reader.take(memory[offset]);
    }
    assert_eq!(
        descriptor_text(&reader.text()),
        Ok(units("D:P(A;;GA;;;S-\u{FFFD}1)\0"))
    );
}

#[test]
fn pipe_is_created_with_its_name_and_its_owner() {
    let texts = pipe_texts(&units("n"), &units("S-1")).ok().unwrap();
    assert_eq!(texts.name, units("n\0"));
    assert_eq!(texts.descriptor, units("D:P(A;;GA;;;S-1)\0"));
    assert_eq!(
        pipe_texts(&[0], &units("S-1")).err(),
        Some(Failure::NulInParameter)
    );
    assert_eq!(
        pipe_texts(&units("n"), &[0]).err(),
        Some(Failure::NulInParameter)
    );
}

#[test]
fn text_is_read_up_to_its_nul() {
    let memory = [0x53, 0xD800, 0x31, 0, 0x99];
    let mut reader = TextReader::new();
    while let Some(offset) = reader.wanted() {
        reader.take(memory[offset]);
    }
    assert_eq!(reader.units, vec![0x53, 0xD800, 0x31]);
    assert_eq!(reader.text(), vec![0x53, 0xFFFD, 0x31]);
    reader.take(0x41);
    assert_eq!(reader.units.len(), 3);
}

fn look_up(replies: &[Reply]) -> (Vec<OwnerCall>, Result<(), Failure>) {
    let mut run = Run::new(OwnerLookup);
    let mut calls = Vec::new();
    let mut given = replies.iter();
    loop {
        if let Some(outcome) = run.outcome() {
            return (calls, outcome);
        }
        calls.push(run.action().unwrap());
        run.advance(given.next().copied().unwrap_or(NOTHING));
    }
}

fn handed(handle: isize) -> Reply {
    Reply {
        status: 1,
        handle,
        ..NOTHING
    }
}

fn sized(number: u64) -> Reply {
    Reply { number, ..NOTHING }
}

#[test]
fn owner_is_read_and_everything_is_given_back() {
    let word = std::mem::size_of::<usize>() as u64;
    let length = 5 * word + 4;
    let (calls, outcome) = look_up(&[handed(3), sized(length), handed(0), handed(8), NOTHING]);
    assert_eq!(outcome, Ok(()));
    assert_eq!(
        calls,
        vec![
            OwnerCall::OpenToken { access: 8 },
            OwnerCall::SizeOwner { token: 3, class: 1 },
            OwnerCall::ReadOwner {
                token: 3,
                class: 1,
                words: 6,
                length,
            },
            OwnerCall::FormatOwner,
            OwnerCall::ReadText { text: 8 },
            OwnerCall::FreeText { text: 8 },
            OwnerCall::CloseToken { token: 3 },
        ]
    );
}

#[test]
fn owner_that_cannot_be_read_is_reported() {
    let refused = Reply {
        last_error: 5,
        ..NOTHING
    };
    let failure = |operation: Operation| {
        Err(Failure::System {
            operation: Some(operation),
            code: 5,
        })
    };
    let fits = sized(std::mem::size_of::<TOKEN_USER>() as u64);
    let (calls, outcome) = look_up(&[refused]);
    assert_eq!((calls.len(), outcome), (1, failure(Operation::QueryOwner)));
    let no_handle = Reply {
        status: 1,
        last_error: 5,
        ..NOTHING
    };
    assert_eq!(
        look_up(&[no_handle]).1,
        Err(Failure::System {
            operation: None,
            code: 5
        })
    );
    let (calls, outcome) = look_up(&[handed(3), fits, refused]);
    assert_eq!(outcome, failure(Operation::ReadOwner));
    assert_eq!(calls.last(), Some(&OwnerCall::CloseToken { token: 3 }));
    let (calls, outcome) = look_up(&[handed(3), fits, handed(0), refused]);
    assert_eq!(outcome, failure(Operation::FormatOwner));
    assert_eq!(&calls[4..], &[OwnerCall::CloseToken { token: 3 }]);
}

#[test]
fn owner_must_hold_its_fixed_part() {
    let least = std::mem::size_of::<TOKEN_USER>() as u64;
    let (calls, outcome) = look_up(&[handed(3), sized(least - 1)]);
    assert_eq!(outcome, Err(Failure::InvalidTokenSize));
    assert_eq!(calls.last(), Some(&OwnerCall::CloseToken { token: 3 }));
    assert_eq!(
        look_up(&[handed(3), sized(least), handed(0), handed(8)]).1,
        Ok(())
    );
}

fn make_pipe(replies: &[Reply]) -> (Vec<PipeCall>, Result<isize, Failure>) {
    let mut run = Run::new(CreatePrivate);
    let mut calls = Vec::new();
    let mut given = replies.iter();
    loop {
        if let Some(outcome) = run.outcome() {
            return (calls, outcome);
        }
        calls.push(run.action().unwrap());
        run.advance(given.next().copied().unwrap_or(NOTHING));
    }
}

#[test]
fn private_pipe_is_created_and_its_descriptor_freed() {
    let expected = vec![
        PipeCall::ConvertDescriptor { revision: 1 },
        PipeCall::CreatePipe {
            descriptor: 4,
            inherit: 0,
            open_mode: 0x80003,
            pipe_mode: 9,
            instances: 1,
            output_size: 64,
            input_size: 64,
            timeout: 0,
        },
        PipeCall::FreeDescriptor { descriptor: 4 },
    ];
    let (calls, outcome) = make_pipe(&[handed(4), handed(6)]);
    assert_eq!((calls, outcome), (expected.clone(), Ok(6)));
    let refused = Reply {
        handle: -1,
        last_error: 231,
        ..NOTHING
    };
    let failure = Failure::System {
        operation: Some(Operation::CreatePipe),
        code: 231,
    };
    let (calls, outcome) = make_pipe(&[handed(4), refused]);
    assert_eq!((calls, outcome), (expected.clone(), Err(failure)));
    let refused = Reply {
        last_error: 87,
        ..NOTHING
    };
    let failure = Failure::System {
        operation: Some(Operation::CreateDacl),
        code: 87,
    };
    let (calls, outcome) = make_pipe(&[refused]);
    assert_eq!((calls, outcome), (expected[..1].to_vec(), Err(failure)));
}
