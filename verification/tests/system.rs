use daemon_spawn::check;
use daemon_spawn::owned;
use daemon_spawn::win32;
use daemon_spawn::Failure;
use daemon_spawn::Operation;
use daemon_spawn::Reply;
use daemon_spawn::Silence;
use windows_sys::Win32::Foundation;
use windows_sys::Win32::Security;
use windows_sys::Win32::Security::Authorization;
use windows_sys::Win32::Storage::FileSystem;
use windows_sys::Win32::System::Com;
use windows_sys::Win32::System::Pipes;
use windows_sys::Win32::System::Rpc;
use windows_sys::Win32::System::Threading;
use windows_sys::Win32::System::Wmi;

#[test]
fn zero_is_a_failed_call() {
    assert_eq!(check(1, Operation::SetParent, 5), Ok(()));
    assert_eq!(check(-1, Operation::SetParent, 5), Ok(()));
    assert_eq!(
        check(0, Operation::SetParent, 5),
        Err(Failure::System {
            operation: Some(Operation::SetParent),
            code: 5
        })
    );
}

#[test]
fn null_and_invalid_handles_are_not_owned() {
    assert_eq!(owned(7, None, 5), Ok(7));
    assert_eq!(owned(-2, None, 5), Ok(-2));
    for bad in [0, Foundation::INVALID_HANDLE_VALUE] {
        assert_eq!(
            owned(bad, Some(Operation::CreatePipe), 5),
            Err(Failure::System {
                operation: Some(Operation::CreatePipe),
                code: 5
            })
        );
    }
}

#[test]
fn failures_are_reported_in_words() {
    let message = |failure: Failure| failure.message();
    let text = |text: &str| Some(text.to_string());
    assert_eq!(
        message(Failure::System {
            operation: Some(Operation::ConfirmPeer),
            code: 5,
        }),
        text("launch parent disconnected before process identity was pinned")
    );
    assert_eq!(
        message(Failure::System {
            operation: None,
            code: 5
        }),
        None
    );
    assert_eq!(message(Failure::Com { code: -1, info: 1 }), None);
    assert_eq!(message(Failure::Io { info: 1 }), None);
    assert_eq!(
        message(Failure::CommandLineTooLong),
        text("Windows command line exceeds 32767 UTF-16 units")
    );
    for silence in [Silence::TimedOut, Silence::WorkerExited] {
        assert_eq!(
            message(Failure::RequestTimedOut { silence }),
            text("WMI launch parent request timed out or worker exited")
        );
    }
    assert_eq!(Operation::InspectJob.text(), "inspect daemon Job");
}

#[test]
fn refused_creation_is_reported_with_its_number() {
    for status in [0, 9, 10, 21, 345, 67890, u32::MAX] {
        assert_eq!(
            Failure::CreationRefused { status }.message(),
            Some(format!("WMI process creation failed with status {status}"))
        );
    }
}

#[test]
fn outcomes_become_replies() {
    let failure = Failure::PeerMismatch;
    let failed = Reply::of_done(Err(failure));
    assert_eq!(failed.failure, Some(failure));
    assert_eq!(Reply::of_handle(Err(failure)), failed);
    assert_eq!(Reply::of_number(Err(failure)), failed);
    let done = Reply::of_done(Ok(()));
    assert_eq!(done.failure, None);
    assert_eq!(Reply::of_handle(Ok(-7)), Reply { handle: -7, ..done });
    assert_eq!(
        Reply::of_number(Ok(u32::MAX)),
        Reply {
            number: 0xFFFF_FFFF,
            ..done
        }
    );
}

#[test]
fn buffers_are_rounded_up_to_words() {
    let word = std::mem::size_of::<usize>() as u64;
    assert_eq!(win32::words_for(0), 0);
    assert_eq!(win32::words_for(1), 1);
    assert_eq!(win32::words_for(word), 1);
    assert_eq!(win32::words_for(word + 1), 2);
    assert_eq!(win32::words_for(u64::MAX), u64::MAX / word + 1);
}

#[test]
fn constants_are_those_of_the_system() {
    assert_eq!(
        win32::INVALID_HANDLE_VALUE,
        Foundation::INVALID_HANDLE_VALUE
    );
    assert_eq!(win32::WAIT_OBJECT_0, Foundation::WAIT_OBJECT_0 as u64);
    assert_eq!(
        win32::DUPLICATE_CLOSE_SOURCE,
        Foundation::DUPLICATE_CLOSE_SOURCE
    );
    assert_eq!(
        win32::DUPLICATE_SAME_ACCESS,
        Foundation::DUPLICATE_SAME_ACCESS
    );
    assert_eq!(win32::TOKEN_ASSIGN_PRIMARY, Security::TOKEN_ASSIGN_PRIMARY);
    assert_eq!(win32::TOKEN_DUPLICATE, Security::TOKEN_DUPLICATE);
    assert_eq!(win32::TOKEN_QUERY, Security::TOKEN_QUERY);
    assert_eq!(win32::TOKEN_USER_CLASS, Security::TokenUser);
    assert_eq!(win32::DETACHED_PROCESS, Threading::DETACHED_PROCESS);
    assert_eq!(
        win32::CREATE_UNICODE_ENVIRONMENT,
        Threading::CREATE_UNICODE_ENVIRONMENT
    );
    assert_eq!(
        win32::EXTENDED_STARTUPINFO_PRESENT,
        Threading::EXTENDED_STARTUPINFO_PRESENT
    );
    assert_eq!(
        win32::CREATE_BREAKAWAY_FROM_JOB,
        Threading::CREATE_BREAKAWAY_FROM_JOB
    );
    assert_eq!(win32::STARTF_USESHOWWINDOW, Threading::STARTF_USESHOWWINDOW);
    assert_eq!(win32::STARTF_USESTDHANDLES, Threading::STARTF_USESTDHANDLES);
    assert_eq!(
        win32::PROC_THREAD_ATTRIBUTE_PARENT_PROCESS,
        Threading::PROC_THREAD_ATTRIBUTE_PARENT_PROCESS
    );
    assert_eq!(
        win32::PROC_THREAD_ATTRIBUTE_HANDLE_LIST,
        Threading::PROC_THREAD_ATTRIBUTE_HANDLE_LIST
    );
    assert_eq!(win32::PROCESS_DUP_HANDLE, Threading::PROCESS_DUP_HANDLE);
    assert_eq!(
        win32::PROCESS_CREATE_PROCESS,
        Threading::PROCESS_CREATE_PROCESS
    );
    assert_eq!(win32::GENERIC_WRITE, Foundation::GENERIC_WRITE);
    assert_eq!(win32::GENERIC_READ, Foundation::GENERIC_READ);
    assert_eq!(win32::OPEN_EXISTING, FileSystem::OPEN_EXISTING);
    assert_eq!(
        win32::SECURITY_IDENTIFICATION,
        FileSystem::SECURITY_IDENTIFICATION
    );
    assert_eq!(
        win32::SECURITY_SQOS_PRESENT,
        FileSystem::SECURITY_SQOS_PRESENT
    );
    assert_eq!(win32::PIPE_ACCESS_DUPLEX, FileSystem::PIPE_ACCESS_DUPLEX);
    assert_eq!(
        win32::FILE_FLAG_FIRST_PIPE_INSTANCE,
        FileSystem::FILE_FLAG_FIRST_PIPE_INSTANCE
    );
    assert_eq!(win32::PIPE_NOWAIT, Pipes::PIPE_NOWAIT);
    assert_eq!(
        win32::PIPE_REJECT_REMOTE_CLIENTS,
        Pipes::PIPE_REJECT_REMOTE_CLIENTS
    );
    assert_eq!(win32::SDDL_REVISION_1, Authorization::SDDL_REVISION_1);
    assert_eq!(
        win32::ERROR_BROKEN_PIPE,
        Foundation::ERROR_BROKEN_PIPE as i32
    );
    assert_eq!(
        win32::ERROR_PIPE_CONNECTED,
        Foundation::ERROR_PIPE_CONNECTED as i32
    );
    assert_eq!(
        win32::ERROR_PIPE_LISTENING,
        Foundation::ERROR_PIPE_LISTENING as i32
    );
}

#[test]
fn service_constants_are_those_of_the_system() {
    assert_eq!(
        win32::WBEM_FLAG_CONNECT_USE_MAX_WAIT,
        Wmi::WBEM_FLAG_CONNECT_USE_MAX_WAIT
    );
    assert_eq!(
        win32::WBEM_FLAG_RETURN_WBEM_COMPLETE,
        Wmi::WBEM_FLAG_RETURN_WBEM_COMPLETE
    );
    assert_eq!(win32::COINIT_MULTITHREADED, Com::COINIT_MULTITHREADED);
    assert_eq!(win32::CLSCTX_INPROC_SERVER, Com::CLSCTX_INPROC_SERVER);
    assert_eq!(win32::RPC_C_AUTHN_WINNT, Rpc::RPC_C_AUTHN_WINNT);
    assert_eq!(win32::RPC_C_AUTHZ_NONE, Rpc::RPC_C_AUTHZ_NONE);
    assert_eq!(
        win32::RPC_C_AUTHN_LEVEL_PKT_PRIVACY,
        Com::RPC_C_AUTHN_LEVEL_PKT_PRIVACY
    );
    assert_eq!(
        win32::RPC_C_IMP_LEVEL_IMPERSONATE,
        Com::RPC_C_IMP_LEVEL_IMPERSONATE
    );
    assert_eq!(win32::EOAC_NONE, Com::EOAC_NONE);
}
