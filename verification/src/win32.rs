//! The system interface: constants of the calls that a launch makes, and how
//! the plain results of those calls are read.

use vstd::prelude::*;

use crate::failure::Failure;
use crate::failure::Operation;

verus! {

pub const INVALID_HANDLE_VALUE: isize = -1;

pub const WAIT_OBJECT_0: u64 = 0;

pub const DUPLICATE_CLOSE_SOURCE: u32 = 1;

pub const DUPLICATE_SAME_ACCESS: u32 = 2;

pub const TOKEN_ASSIGN_PRIMARY: u32 = 1;

pub const TOKEN_DUPLICATE: u32 = 2;

pub const TOKEN_QUERY: u32 = 8;

pub const TOKEN_USER_CLASS: i32 = 1;

pub const DETACHED_PROCESS: u32 = 0x8;

pub const CREATE_UNICODE_ENVIRONMENT: u32 = 0x400;

pub const EXTENDED_STARTUPINFO_PRESENT: u32 = 0x80000;

pub const CREATE_BREAKAWAY_FROM_JOB: u32 = 0x1000000;

pub const STARTF_USESHOWWINDOW: u32 = 0x1;

pub const STARTF_USESTDHANDLES: u32 = 0x100;

pub const PROC_THREAD_ATTRIBUTE_PARENT_PROCESS: u32 = 0x20000;

pub const PROC_THREAD_ATTRIBUTE_HANDLE_LIST: u32 = 0x20002;

pub const PROCESS_DUP_HANDLE: u32 = 0x40;

pub const PROCESS_CREATE_PROCESS: u32 = 0x80;

pub const GENERIC_WRITE: u32 = 0x40000000;

pub const GENERIC_READ: u32 = 0x80000000;

pub const OPEN_EXISTING: u32 = 3;

pub const SECURITY_IDENTIFICATION: u32 = 0x10000;

pub const SECURITY_SQOS_PRESENT: u32 = 0x100000;

pub const PIPE_ACCESS_DUPLEX: u32 = 0x3;

pub const FILE_FLAG_FIRST_PIPE_INSTANCE: u32 = 0x80000;

pub const PIPE_NOWAIT: u32 = 0x1;

pub const PIPE_REJECT_REMOTE_CLIENTS: u32 = 0x8;

pub const SDDL_REVISION_1: u32 = 1;

pub const ERROR_BROKEN_PIPE: i32 = 109;

pub const ERROR_PIPE_CONNECTED: i32 = 535;

pub const ERROR_PIPE_LISTENING: i32 = 536;

pub const WBEM_FLAG_CONNECT_USE_MAX_WAIT: i32 = 0x80;

pub const WBEM_FLAG_RETURN_WBEM_COMPLETE: i32 = 0;

pub const COINIT_MULTITHREADED: i32 = 0;

pub const CLSCTX_INPROC_SERVER: u32 = 1;

pub const RPC_C_AUTHN_WINNT: u32 = 10;

pub const RPC_C_AUTHZ_NONE: u32 = 0;

pub const RPC_C_AUTHN_LEVEL_PKT_PRIVACY: u32 = 6;

pub const RPC_C_IMP_LEVEL_IMPERSONATE: u32 = 3;

pub const EOAC_NONE: i32 = 0;

/// What came back from one system call, or from one part of a launch. Each
/// call fills in the fields that it has something to say in.
#[derive(Clone, Copy, Debug, PartialEq, Eq, Structural)]
pub struct Reply {
    /// The result code that the call returned.
    pub status: i32,
    /// The handle or address that the call returned or wrote.
    pub handle: isize,
    /// A second handle that the call wrote.
    pub second: isize,
    /// The number that the call returned or wrote.
    pub number: u64,
    /// The error code of the calling thread after the call.
    pub last_error: i32,
    /// What a part of a launch failed with, if it did.
    pub failure: Option<Failure>,
}

/// A reply in which nothing is said.
pub open spec fn nothing() -> Reply {
    Reply { status: 0, handle: 0, second: 0, number: 0, last_error: 0, failure: None }
}

/// The reply of a part of a launch that was to be done.
pub open spec fn replied_done(outcome: Result<(), Failure>) -> Reply {
    match outcome {
        Ok(_) => nothing(),
        Err(failure) => Reply { failure: Some(failure), ..nothing() },
    }
}

/// The reply of a part of a launch that was to give a handle.
pub open spec fn replied_handle(outcome: Result<isize, Failure>) -> Reply {
    match outcome {
        Ok(handle) => Reply { handle, ..nothing() },
        Err(failure) => Reply { failure: Some(failure), ..nothing() },
    }
}

/// The reply of a part of a launch that was to give a number.
pub open spec fn replied_number(outcome: Result<u32, Failure>) -> Reply {
    match outcome {
        Ok(number) => Reply { number: number as u64, ..nothing() },
        Err(failure) => Reply { failure: Some(failure), ..nothing() },
    }
}

impl Reply {
    pub fn of_done(outcome: Result<(), Failure>) -> (reply: Reply)
        ensures
            reply == replied_done(outcome),
    {
        let failure = match outcome {
            Ok(()) => None,
            Err(failure) => Some(failure),
        };
        Reply { status: 0, handle: 0, second: 0, number: 0, last_error: 0, failure }
    }

    pub fn of_handle(outcome: Result<isize, Failure>) -> (reply: Reply)
        ensures
            reply == replied_handle(outcome),
    {
        match outcome {
            Ok(handle) => Reply { handle, ..Reply::of_done(Ok(())) },
            Err(failure) => Reply::of_done(Err(failure)),
        }
    }

    pub fn of_number(outcome: Result<u32, Failure>) -> (reply: Reply)
        ensures
            reply == replied_number(outcome),
    {
        match outcome {
            Ok(number) => Reply { number: number as u64, ..Reply::of_done(Ok(())) },
            Err(failure) => Reply::of_done(Err(failure)),
        }
    }
}

/// Reads the result of a call that reports failure as zero.
pub fn check(result: i32, operation: Operation, last_error: i32) -> (outcome: Result<(), Failure>)
    ensures
        outcome is Ok <==> result != 0,
        outcome is Err ==> outcome->Err_0 == (Failure::System {
            operation: Some(operation),
            code: last_error,
        }),
{
    if result == 0 {
        return Err(Failure::System { operation: Some(operation), code: last_error });
    }
    Ok(())
}

/// Whether a call that returns a handle has returned one.
pub open spec fn is_handle(handle: isize) -> bool {
    handle != 0 && handle != INVALID_HANDLE_VALUE
}

/// Reads the result of a call that returns a handle. `operation` is what the
/// call was made for, where a failure reports that.
pub fn owned(handle: isize, operation: Option<Operation>, last_error: i32) -> (outcome: Result<
    isize,
    Failure,
>)
    ensures
        outcome == (if is_handle(handle) {
            Ok(handle)
        } else {
            Err(Failure::System { operation, code: last_error })
        }),
{
    if handle == 0 || handle == INVALID_HANDLE_VALUE {
        return Err(Failure::System { operation, code: last_error });
    }
    Ok(handle)
}

/// What the reply to a call that reports failure as zero fails with.
pub open spec fn failed(operation: Operation, reply: Reply) -> Option<Failure> {
    if reply.status == 0 {
        Some(Failure::System { operation: Some(operation), code: reply.last_error })
    } else {
        None
    }
}

/// What the reply to a call that returns a handle fails with.
pub open spec fn unowned(operation: Option<Operation>, reply: Reply) -> Option<Failure> {
    if !is_handle(reply.handle) {
        Some(Failure::System { operation, code: reply.last_error })
    } else {
        None
    }
}

pub fn check_reply(operation: Operation, reply: Reply) -> (failure: Option<Failure>)
    ensures
        failure == failed(operation, reply),
{
    match check(reply.status, operation, reply.last_error) {
        Ok(()) => None,
        Err(failure) => Some(failure),
    }
}

pub fn check_handle(operation: Option<Operation>, reply: Reply) -> (failure: Option<Failure>)
    ensures
        failure == unowned(operation, reply),
{
    match owned(reply.handle, operation, reply.last_error) {
        Ok(_) => None,
        Err(failure) => Some(failure),
    }
}

/// The bytes of a machine word.
pub open spec fn word_size() -> nat {
    vstd::layout::size_of::<usize>()
}

/// The words of a buffer that holds so many bytes.
pub open spec fn words_holding(bytes: u64) -> nat {
    ((bytes + word_size() - 1) / word_size() as int) as nat
}

pub fn words_for(bytes: u64) -> (words: u64)
    ensures
        words == words_holding(bytes),
{
    broadcast use vstd::layout::layout_of_primitives;

    let word: u64 = core::mem::size_of::<usize>() as u64;
    proof {
        assert(word == 4 || word == 8);
        if word == 4 {
            assert(words_holding(bytes) == (bytes + 3) / 4);
        } else {
            assert(words_holding(bytes) == (bytes + 7) / 8);
        }
    }
    let whole: u64 = bytes / word;
    if bytes % word == 0 {
        whole
    } else {
        whole + 1
    }
}

/// The words hold the bytes, and one fewer would not.
pub proof fn words_are_enough(bytes: u64)
    ensures
        words_holding(bytes) * word_size() >= bytes,
        bytes > 0 ==> (words_holding(bytes) - 1) * word_size() < bytes,
{
    broadcast use vstd::layout::layout_of_primitives;

    assert(word_size() == 4 || word_size() == 8);
    if word_size() == 4 {
        assert(words_holding(bytes) == (bytes + 3) / 4);
    } else {
        assert(words_holding(bytes) == (bytes + 7) / 8);
    }
}

/// A call that returns a handle fails with the null handle and with the handle
/// of all ones, and with no other. One that returns a status fails with zero
/// alone. What is reported is the error code of the thread.
pub proof fn failures_of_a_reply(operation: Operation, purpose: Option<Operation>, reply: Reply)
    ensures
        is_handle(reply.handle) <==> reply.handle != 0 && reply.handle != -1,
        unowned(purpose, reply) is Some <==> reply.handle == 0 || reply.handle == -1,
        unowned(purpose, reply) is Some ==> unowned(purpose, reply) == Some(
            Failure::System { operation: purpose, code: reply.last_error },
        ),
        failed(operation, reply) is Some <==> reply.status == 0,
        failed(operation, reply) is Some ==> failed(operation, reply) == Some(
            Failure::System { operation: Some(operation), code: reply.last_error },
        ),
{
}

/// A part of a launch that succeeds replies with what it gave and with no
/// failure; one that fails replies with its failure.
pub proof fn replies_carry_outcomes(handle: isize, number: u32, failure: Failure)
    ensures
        replied_handle(Ok(handle)).handle == handle,
        replied_handle(Ok(handle)).failure is None,
        replied_number(Ok(number)).number == number,
        replied_number(Ok(number)).failure is None,
        replied_done(Ok(())).failure is None,
        replied_handle(Err(failure)).failure == Some(failure),
        replied_number(Err(failure)).failure == Some(failure),
        replied_done(Err(failure)).failure == Some(failure),
        replied_handle(Ok(handle)) == (Reply { handle, ..replied_done(Ok(())) }),
        replied_number(Ok(number)) == (Reply { number: number as u64, ..replied_done(Ok(())) }),
        replied_done(Ok(())).status == 0,
        replied_done(Ok(())).handle == 0,
        replied_done(Ok(())).second == 0,
        replied_done(Ok(())).number == 0,
        replied_done(Ok(())).last_error == 0,
        replied_handle(Err(failure)) == replied_done(Err(failure)),
        replied_number(Err(failure)) == replied_done(Err(failure)),
        replied_done(Err(failure)) == (Reply {
            failure: Some(failure),
            ..replied_done(Ok(()))
        }),
{
}

/// A buffer of whole words is the least that holds the bytes: each word has an
/// eighth of the bits of an address.
pub proof fn buffer_is_the_least_that_holds(bytes: u64)
    ensures
        words_holding(bytes) * (usize::BITS / 8) >= bytes,
        forall|fewer: nat|
            fewer < words_holding(bytes) ==> #[trigger] (fewer * (usize::BITS / 8)) < bytes,
{
    broadcast use vstd::layout::layout_of_primitives;

    assert(word_size() == 4 || word_size() == 8);
    if word_size() == 4 {
        assert(words_holding(bytes) == (bytes + 3) / 4);
        assert(usize::BITS / 8 == 4);
    } else {
        assert(words_holding(bytes) == (bytes + 7) / 8);
        assert(usize::BITS / 8 == 8);
    }
}

} // verus!
