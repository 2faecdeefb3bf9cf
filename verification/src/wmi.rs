//! Starting the temporary parent through the management service, so that it
//! is no part of this process's Job.

use vstd::prelude::*;
use vstd::slice::slice_subrange;
use vstd::slice::slice_to_vec;
use vstd::utf8::is_ascii_chars;

use crate::encoding::quoting::joined;
use crate::encoding::quoting::some_nul;
use crate::encoding::splitting::arguments_are_preserved;
use crate::encoding::splitting::split;
use crate::encoding::text::ascii;
use crate::encoding::text::push_ascii;
use crate::failure::Failure;
use crate::failure::Silence;
use crate::procedure::needed;
use crate::procedure::owed;
use crate::procedure::passed;
use crate::procedure::passed_steps_were_called;
use crate::procedure::pending;
use crate::procedure::ran;
use crate::procedure::run_is_determined;
use crate::procedure::settled;
use crate::procedure::Procedure;
use crate::win32::Reply;
use crate::win32::CLSCTX_INPROC_SERVER;
use crate::win32::COINIT_MULTITHREADED;
use crate::win32::CREATE_BREAKAWAY_FROM_JOB;
use crate::win32::DETACHED_PROCESS;
use crate::win32::EOAC_NONE;
use crate::win32::RPC_C_AUTHN_LEVEL_PKT_PRIVACY;
use crate::win32::RPC_C_AUTHN_WINNT;
use crate::win32::RPC_C_AUTHZ_NONE;
use crate::win32::RPC_C_IMP_LEVEL_IMPERSONATE;
use crate::win32::WBEM_FLAG_CONNECT_USE_MAX_WAIT;
use crate::win32::WBEM_FLAG_RETURN_WBEM_COMPLETE;

verus! {

pub const NAMESPACE: &'static str = "ROOT\\CIMV2";

pub const PROCESS_CLASS: &'static str = "Win32_Process";

pub const STARTUP_CLASS: &'static str = "Win32_ProcessStartup";

pub const CREATE_METHOD: &'static str = "Create";

/// The properties of a request.
pub const COMMAND_LINE: &'static str = "CommandLine";

pub const STARTUP_INFORMATION: &'static str = "ProcessStartupInformation";

pub const CREATE_FLAGS: &'static str = "CreateFlags";

pub const SHOW_WINDOW: &'static str = "ShowWindow";

/// The properties of its result.
pub const RETURN_VALUE: &'static str = "ReturnValue";

pub const PROCESS_ID: &'static str = "ProcessId";

/// The connection is made as the caller, so no name or password is given.
pub const USER: &'static str = "";

pub const PASSWORD: &'static str = "";

pub const LOCALE: &'static str = "";

pub const AUTHORITY: &'static str = "";

/// How long the launcher waits for the management service.
pub const REQUEST_TIMEOUT_MS: u64 = 15000;

/// A call of a request to the management service. Objects that a call needs
/// are those that the calls before it returned; its texts are those that
/// [`CreateProcess::texts`] gives.
#[derive(Clone, Copy, Debug, PartialEq, Eq, Structural)]
pub enum WmiCall {
    Initialize { model: i32 },
    CreateLocator { context: u32 },
    ConnectServer { flags: i32 },
    /// Have calls made with the caller's identity.
    SetBlanket {
        authentication: u32,
        authorization: u32,
        level: u32,
        impersonation: u32,
        capabilities: i32,
    },
    GetProcessClass { flags: i32 },
    GetCreateMethod { flags: i32 },
    SpawnInput { flags: i32 },
    PutCommandLine,
    GetStartupClass { flags: i32 },
    SpawnStartup { flags: i32 },
    PutCreateFlags { value: i32 },
    PutShowWindow { value: i32 },
    CastStartup,
    PutStartup,
    ExecCreate { flags: i32 },
    GetReturnValue,
    GetProcessId,
    Uninitialize,
}

pub const INITIALIZE: usize = 0;

pub const CREATE_LOCATOR: usize = 1;

pub const CONNECT_SERVER: usize = 2;

pub const SET_BLANKET: usize = 3;

pub const GET_PROCESS_CLASS: usize = 4;

pub const GET_CREATE_METHOD: usize = 5;

pub const SPAWN_INPUT: usize = 6;

pub const PUT_COMMAND_LINE: usize = 7;

pub const GET_STARTUP_CLASS: usize = 8;

pub const SPAWN_STARTUP: usize = 9;

pub const PUT_CREATE_FLAGS: usize = 10;

pub const PUT_SHOW_WINDOW: usize = 11;

pub const CAST_STARTUP: usize = 12;

pub const PUT_STARTUP: usize = 13;

pub const EXEC_CREATE: usize = 14;

pub const GET_RETURN_VALUE: usize = 15;

pub const GET_PROCESS_ID: usize = 16;

pub const WMI_STEPS: usize = 17;

/// The parent is detached and leaves any Job that the service runs in.
pub const PARENT_FLAGS: i32 = 0x1000008;

/// A request to start a process by this NUL-terminated command line.
///
/// The status of a reply is a result code, negative for a failure. The handle
/// is zero where no object came back. The second handle numbers the error that
/// the call came back with, which fails it whatever its code; it is zero where
/// there is none.
pub struct CreateProcess {
    pub command_line: Vec<u16>,
}

fn ascii_units(text: &'static str) -> (units: Vec<u16>)
    requires
        is_ascii_chars(text@),
    ensures
        units@ == ascii(text@),
{
    let mut units: Vec<u16> = Vec::new();
    push_ascii(&mut units, text);
    proof {
        assert(units@ =~= ascii(text@));
    }
    units
}

proof fn names_are_ascii()
    ensures
        is_ascii_chars(NAMESPACE@),
        is_ascii_chars(PROCESS_CLASS@),
        is_ascii_chars(STARTUP_CLASS@),
        is_ascii_chars(CREATE_METHOD@),
        is_ascii_chars(COMMAND_LINE@),
        is_ascii_chars(STARTUP_INFORMATION@),
        is_ascii_chars(CREATE_FLAGS@),
        is_ascii_chars(SHOW_WINDOW@),
        is_ascii_chars(RETURN_VALUE@),
        is_ascii_chars(PROCESS_ID@),
        is_ascii_chars(USER@),
        is_ascii_chars(PASSWORD@),
        is_ascii_chars(LOCALE@),
        is_ascii_chars(AUTHORITY@),
{
    reveal_strlit("ROOT\\CIMV2");
    reveal_strlit("Win32_Process");
    reveal_strlit("Win32_ProcessStartup");
    reveal_strlit("Create");
    reveal_strlit("CommandLine");
    reveal_strlit("ProcessStartupInformation");
    reveal_strlit("CreateFlags");
    reveal_strlit("ShowWindow");
    reveal_strlit("ReturnValue");
    reveal_strlit("ProcessId");
    reveal_strlit("");
}

impl CreateProcess {
    /// The texts that a call is made with, in the order in which it takes
    /// them: a connection its namespace, user, password, locale and authority,
    /// an execution its class and method, and every other call the name that
    /// it asks for or sets. The command line follows the name of its property,
    /// without the NUL at its end.
    pub open spec fn words(self, call: WmiCall) -> Seq<Seq<u16>> {
        match call {
            WmiCall::ConnectServer { .. } => seq![
                ascii(NAMESPACE@),
                ascii(USER@),
                ascii(PASSWORD@),
                ascii(LOCALE@),
                ascii(AUTHORITY@),
            ],
            WmiCall::GetProcessClass { .. } => seq![ascii(PROCESS_CLASS@)],
            WmiCall::GetCreateMethod { .. } => seq![ascii(CREATE_METHOD@)],
            WmiCall::PutCommandLine => seq![
                ascii(COMMAND_LINE@),
                self.command_line@.drop_last(),
            ],
            WmiCall::GetStartupClass { .. } => seq![ascii(STARTUP_CLASS@)],
            WmiCall::PutCreateFlags { .. } => seq![ascii(CREATE_FLAGS@)],
            WmiCall::PutShowWindow { .. } => seq![ascii(SHOW_WINDOW@)],
            WmiCall::PutStartup => seq![ascii(STARTUP_INFORMATION@)],
            WmiCall::ExecCreate { .. } => seq![ascii(PROCESS_CLASS@), ascii(CREATE_METHOD@)],
            WmiCall::GetReturnValue => seq![ascii(RETURN_VALUE@)],
            WmiCall::GetProcessId => seq![ascii(PROCESS_ID@)],
            _ => Seq::empty(),
        }
    }

    pub fn texts(&self, call: WmiCall) -> (texts: Vec<Vec<u16>>)
        requires
            self.command_line@.len() > 0,
        ensures
            texts@.len() == self.words(call).len(),
            forall|i: int|
                0 <= i < texts@.len() ==> (#[trigger] texts@[i])@ == self.words(call)[i],
    {
        let mut texts: Vec<Vec<u16>> = Vec::new();
        proof {
            names_are_ascii();
        }
        match call {
            WmiCall::ConnectServer { flags: _ } => {
                texts.push(ascii_units(NAMESPACE));
                texts.push(ascii_units(USER));
                texts.push(ascii_units(PASSWORD));
                texts.push(ascii_units(LOCALE));
                texts.push(ascii_units(AUTHORITY));
            },
            WmiCall::GetProcessClass { flags: _ } => texts.push(ascii_units(PROCESS_CLASS)),
            WmiCall::GetCreateMethod { flags: _ } => texts.push(ascii_units(CREATE_METHOD)),
            WmiCall::PutCommandLine => {
                texts.push(ascii_units(COMMAND_LINE));
                texts.push(slice_to_vec(unterminated(&self.command_line)));
            },
            WmiCall::GetStartupClass { flags: _ } => texts.push(ascii_units(STARTUP_CLASS)),
            WmiCall::PutCreateFlags { value: _ } => texts.push(ascii_units(CREATE_FLAGS)),
            WmiCall::PutShowWindow { value: _ } => texts.push(ascii_units(SHOW_WINDOW)),
            WmiCall::PutStartup => texts.push(ascii_units(STARTUP_INFORMATION)),
            WmiCall::ExecCreate { flags: _ } => {
                texts.push(ascii_units(PROCESS_CLASS));
                texts.push(ascii_units(CREATE_METHOD));
            },
            WmiCall::GetReturnValue => texts.push(ascii_units(RETURN_VALUE)),
            WmiCall::GetProcessId => texts.push(ascii_units(PROCESS_ID)),
            _ => {},
        }
        texts
    }

    /// What a missing object fails a step with, for steps that need one.
    pub open spec fn missing(step: nat) -> Option<Failure> {
        if step == GET_PROCESS_CLASS {
            Some(Failure::NoProcessClass)
        } else if step == GET_CREATE_METHOD {
            Some(Failure::NoCreateParameters)
        } else if step == GET_STARTUP_CLASS {
            Some(Failure::NoStartupClass)
        } else if step == EXEC_CREATE {
            Some(Failure::NoProcessResult)
        } else {
            None
        }
    }
}

impl Procedure for CreateProcess {
    type Action = WmiCall;

    type Product = u32;

    open spec fn steps(&self) -> nat {
        WMI_STEPS as nat
    }

    open spec fn verdict(&self, step: nat, reply: Reply) -> Option<Failure> {
        if reply.status < 0 || reply.second != 0 {
            Some(Failure::Com { code: reply.status, info: reply.second })
        } else if reply.handle == 0 && CreateProcess::missing(step) is Some {
            CreateProcess::missing(step)
        } else if step == GET_RETURN_VALUE && reply.number as u32 != 0 {
            Some(Failure::CreationRefused { status: reply.number as u32 })
        } else {
            None
        }
    }

    open spec fn call(&self, replies: Seq<Reply>) -> WmiCall {
        let step = replies.len();
        if step == INITIALIZE {
            WmiCall::Initialize { model: COINIT_MULTITHREADED }
        } else if step == CREATE_LOCATOR {
            WmiCall::CreateLocator { context: CLSCTX_INPROC_SERVER }
        } else if step == CONNECT_SERVER {
            WmiCall::ConnectServer { flags: WBEM_FLAG_CONNECT_USE_MAX_WAIT }
        } else if step == SET_BLANKET {
            WmiCall::SetBlanket {
                authentication: RPC_C_AUTHN_WINNT,
                authorization: RPC_C_AUTHZ_NONE,
                level: RPC_C_AUTHN_LEVEL_PKT_PRIVACY,
                impersonation: RPC_C_IMP_LEVEL_IMPERSONATE,
                capabilities: EOAC_NONE,
            }
        } else if step == GET_PROCESS_CLASS {
            WmiCall::GetProcessClass { flags: WBEM_FLAG_RETURN_WBEM_COMPLETE }
        } else if step == GET_CREATE_METHOD {
            WmiCall::GetCreateMethod { flags: 0 }
        } else if step == SPAWN_INPUT {
            WmiCall::SpawnInput { flags: 0 }
        } else if step == PUT_COMMAND_LINE {
            WmiCall::PutCommandLine
        } else if step == GET_STARTUP_CLASS {
            WmiCall::GetStartupClass { flags: WBEM_FLAG_RETURN_WBEM_COMPLETE }
        } else if step == SPAWN_STARTUP {
            WmiCall::SpawnStartup { flags: 0 }
        } else if step == PUT_CREATE_FLAGS {
            WmiCall::PutCreateFlags { value: PARENT_FLAGS }
        } else if step == PUT_SHOW_WINDOW {
            WmiCall::PutShowWindow { value: 0 }
        } else if step == CAST_STARTUP {
            WmiCall::CastStartup
        } else if step == PUT_STARTUP {
            WmiCall::PutStartup
        } else if step == EXEC_CREATE {
            WmiCall::ExecCreate { flags: WBEM_FLAG_RETURN_WBEM_COMPLETE }
        } else if step == GET_RETURN_VALUE {
            WmiCall::GetReturnValue
        } else {
            WmiCall::GetProcessId
        }
    }

    open spec fn releases(&self, replies: Seq<Reply>) -> Seq<WmiCall> {
        needed(replies.len() > INITIALIZE, WmiCall::Uninitialize)
    }

    open spec fn product(&self, replies: Seq<Reply>) -> u32 {
        replies[GET_PROCESS_ID as int].number as u32
    }

    fn step_count(&self) -> (count: usize) {
        WMI_STEPS
    }

    fn judge(&self, step: usize, reply: Reply) -> (failure: Option<Failure>) {
        if reply.status < 0 || reply.second != 0 {
            return Some(Failure::Com { code: reply.status, info: reply.second });
        }
        if reply.handle == 0 {
            if step == GET_PROCESS_CLASS {
                return Some(Failure::NoProcessClass);
            }
            if step == GET_CREATE_METHOD {
                return Some(Failure::NoCreateParameters);
            }
            if step == GET_STARTUP_CLASS {
                return Some(Failure::NoStartupClass);
            }
            if step == EXEC_CREATE {
                return Some(Failure::NoProcessResult);
            }
        }
        let status: u32 = reply.number as u32;
        if step == GET_RETURN_VALUE && status != 0 {
            return Some(Failure::CreationRefused { status });
        }
        None
    }

    fn next_call(&self, replies: &Vec<Reply>) -> (call: WmiCall) {
        match replies.len() {
            INITIALIZE => WmiCall::Initialize { model: COINIT_MULTITHREADED },
            CREATE_LOCATOR => WmiCall::CreateLocator { context: CLSCTX_INPROC_SERVER },
            CONNECT_SERVER => WmiCall::ConnectServer { flags: WBEM_FLAG_CONNECT_USE_MAX_WAIT },
            SET_BLANKET => WmiCall::SetBlanket {
                authentication: RPC_C_AUTHN_WINNT,
                authorization: RPC_C_AUTHZ_NONE,
                level: RPC_C_AUTHN_LEVEL_PKT_PRIVACY,
                impersonation: RPC_C_IMP_LEVEL_IMPERSONATE,
                capabilities: EOAC_NONE,
            },
            GET_PROCESS_CLASS => WmiCall::GetProcessClass {
                flags: WBEM_FLAG_RETURN_WBEM_COMPLETE,
            },
            GET_CREATE_METHOD => WmiCall::GetCreateMethod { flags: 0 },
            SPAWN_INPUT => WmiCall::SpawnInput { flags: 0 },
            PUT_COMMAND_LINE => WmiCall::PutCommandLine,
            GET_STARTUP_CLASS => WmiCall::GetStartupClass {
                flags: WBEM_FLAG_RETURN_WBEM_COMPLETE,
            },
            SPAWN_STARTUP => WmiCall::SpawnStartup { flags: 0 },
            PUT_CREATE_FLAGS => WmiCall::PutCreateFlags { value: PARENT_FLAGS },
            PUT_SHOW_WINDOW => WmiCall::PutShowWindow { value: 0 },
            CAST_STARTUP => WmiCall::CastStartup,
            PUT_STARTUP => WmiCall::PutStartup,
            EXEC_CREATE => WmiCall::ExecCreate { flags: WBEM_FLAG_RETURN_WBEM_COMPLETE },
            GET_RETURN_VALUE => WmiCall::GetReturnValue,
            _ => WmiCall::GetProcessId,
        }
    }

    fn release_at(&self, replies: &Vec<Reply>, index: usize) -> (call: Option<WmiCall>) {
        if index == 0 && replies.len() > INITIALIZE {
            Some(WmiCall::Uninitialize)
        } else {
            None
        }
    }

    fn take_product(&self, replies: &Vec<Reply>) -> (product: u32) {
        replies[GET_PROCESS_ID].number as u32
    }
}

/// The command line as the service takes it: without the NUL at its end.
pub fn unterminated(command_line: &Vec<u16>) -> (units: &[u16])
    requires
        command_line@.len() > 0,
    ensures
        units@ == command_line@.drop_last(),
{
    let units = slice_subrange(command_line.as_slice(), 0, command_line.len() - 1);
    proof {
        assert(units@ =~= command_line@.drop_last());
    }
    units
}

/// What the launcher has of its request when it stops waiting.
#[derive(Clone, Copy, Debug, PartialEq, Eq)]
pub enum Answer {
    Came(Result<u32, Failure>),
    /// The time was over.
    TimedOut,
    /// The thread that asked the service is gone.
    WorkerExited,
}

pub open spec fn answered(answer: Answer) -> Result<u32, Failure> {
    match answer {
        Answer::Came(outcome) => outcome,
        Answer::TimedOut => Err(Failure::RequestTimedOut { silence: Silence::TimedOut }),
        Answer::WorkerExited => Err(Failure::RequestTimedOut { silence: Silence::WorkerExited }),
    }
}

/// Reads what the request came to.
pub fn start(answer: Answer) -> (pid: Result<u32, Failure>)
    ensures
        pid == answered(answer),
{
    match answer {
        Answer::Came(outcome) => outcome,
        Answer::TimedOut => Err(Failure::RequestTimedOut { silence: Silence::TimedOut }),
        Answer::WorkerExited => Err(Failure::RequestTimedOut { silence: Silence::WorkerExited }),
    }
}

/// The process that the service starts gets the program and the arguments that
/// the command line was made of.
pub proof fn service_receives_the_command(words: Seq<Seq<u16>>)
    requires
        !some_nul(words),
    ensures
        split(joined(words).push(0).drop_last()) == words,
{
    arguments_are_preserved(words);
    assert(joined(words).push(0).drop_last() =~= joined(words));
}

/// The parent is started detached and outside any Job.
pub proof fn parent_breaks_away()
    ensures
        PARENT_FLAGS as u32 == DETACHED_PROCESS | CREATE_BREAKAWAY_FROM_JOB,
{
    assert(0x1000008i32 as u32 == 0x8u32 | 0x1000000u32) by (bit_vector);
}

/// The component library is left exactly when it was entered, however the
/// request ends.
pub proof fn library_is_left_when_entered(request: CreateProcess, replies: Seq<Reply>)
    requires
        replies.len() > 0,
    ensures
        owed(request, replies) == (if replies[INITIALIZE as int].status < 0
            || replies[INITIALIZE as int].second != 0 {
            Seq::empty()
        } else {
            seq![WmiCall::Uninitialize]
        }),
{
    run_is_determined(request, replies);
    assert(request.verdict(0, replies[0]) is Some <==> replies[0].status < 0 || replies[0].second
        != 0);
}

/// A process number is handed on only if the service reported success.
pub proof fn process_was_created(request: CreateProcess, replies: Seq<Reply>)
    requires
        pending(request, ran(request, replies)) is None,
        ran(request, replies).failure is None,
    ensures
        replies.len() >= WMI_STEPS,
        forall|step: int|
            0 <= step < WMI_STEPS ==> (#[trigger] replies[step]).status >= 0
                && replies[step].second == 0,
        replies[GET_RETURN_VALUE as int].number as u32 == 0,
        request.product(ran(request, replies).replies)
            == replies[GET_PROCESS_ID as int].number as u32,
{
    run_is_determined(request, replies);
    assert(settled(request, ran(request, replies)));
    assert(passed(request, replies) == WMI_STEPS);
    assert forall|step: int| 0 <= step < WMI_STEPS implies (#[trigger] replies[step]).status >= 0
        && replies[step].second == 0 by {
        assert(request.verdict(step as nat, replies[step]) is None);
    }
    assert(request.verdict(GET_RETURN_VALUE as nat, replies[GET_RETURN_VALUE as int]) is None);
}

/// How a request that succeeds has gone: it connected to the namespace of the
/// system's own classes with no user and no password, had the connection act
/// as the caller before it was used, set the command line, the flags and the
/// hidden window, and executed the creation.
pub proof fn process_is_started_as_asked(request: CreateProcess, replies: Seq<Reply>)
    requires
        pending(request, ran(request, replies)) is None,
        ran(request, replies).failure is None,
    ensures
        replies.len() >= WMI_STEPS,
        ({
            let made = |step: usize| pending(request, ran(request, replies.take(step as int)));
            let none = Seq::<u16>::empty();
            &&& made(CONNECT_SERVER) == Some(
                WmiCall::ConnectServer { flags: WBEM_FLAG_CONNECT_USE_MAX_WAIT },
            )
            &&& request.words(made(CONNECT_SERVER)->Some_0) == seq![
                ascii("ROOT\\CIMV2"@),
                none,
                none,
                none,
                none,
            ]
            &&& SET_BLANKET == CONNECT_SERVER + 1
            &&& made(SET_BLANKET) == Some(
                WmiCall::SetBlanket {
                    authentication: RPC_C_AUTHN_WINNT,
                    authorization: RPC_C_AUTHZ_NONE,
                    level: RPC_C_AUTHN_LEVEL_PKT_PRIVACY,
                    impersonation: RPC_C_IMP_LEVEL_IMPERSONATE,
                    capabilities: EOAC_NONE,
                },
            )
            &&& made(PUT_COMMAND_LINE) == Some(WmiCall::PutCommandLine)
            &&& request.words(WmiCall::PutCommandLine) == seq![
                ascii("CommandLine"@),
                request.command_line@.drop_last(),
            ]
            &&& made(PUT_CREATE_FLAGS) == Some(WmiCall::PutCreateFlags { value: 0x1000008 })
            &&& request.words(made(PUT_CREATE_FLAGS)->Some_0) == seq![ascii("CreateFlags"@)]
            &&& made(PUT_SHOW_WINDOW) == Some(WmiCall::PutShowWindow { value: 0 })
            &&& request.words(made(PUT_SHOW_WINDOW)->Some_0) == seq![ascii("ShowWindow"@)]
            &&& made(EXEC_CREATE) == Some(
                WmiCall::ExecCreate { flags: WBEM_FLAG_RETURN_WBEM_COMPLETE },
            )
            &&& request.words(made(EXEC_CREATE)->Some_0) == seq![
                ascii("Win32_Process"@),
                ascii("Create"@),
            ]
        }),
{
    run_is_determined(request, replies);
    assert(passed(request, replies) == WMI_STEPS);
    passed_steps_were_called(request, replies, CONNECT_SERVER as nat);
    passed_steps_were_called(request, replies, SET_BLANKET as nat);
    passed_steps_were_called(request, replies, PUT_COMMAND_LINE as nat);
    passed_steps_were_called(request, replies, PUT_CREATE_FLAGS as nat);
    passed_steps_were_called(request, replies, PUT_SHOW_WINDOW as nat);
    passed_steps_were_called(request, replies, EXEC_CREATE as nat);
    reveal_strlit("");
    assert(ascii(""@) =~= Seq::<u16>::empty());
}

/// What came of a request is handed on as it is: a process number unchanged,
/// and a failure too. Where nothing came, the failure says why.
pub proof fn answer_is_handed_on(pid: u32, failure: Failure)
    ensures
        answered(Answer::Came(Ok(pid))) == Ok::<u32, Failure>(pid),
        answered(Answer::Came(Err(failure))) == Err::<u32, Failure>(failure),
        answered(Answer::TimedOut) == Err::<u32, Failure>(
            Failure::RequestTimedOut { silence: Silence::TimedOut },
        ),
        answered(Answer::WorkerExited) == Err::<u32, Failure>(
            Failure::RequestTimedOut { silence: Silence::WorkerExited },
        ),
{
}

/// How a request is made: the component library is entered for many threads,
/// the locator is created in this process, the connection is made without
/// waiting for ever and then acts as the caller with every packet encrypted.
/// The classes are fetched and their instances made, the command line, the
/// flags for a detached process outside the Job and the hidden window are set,
/// and the creation is executed and its result read.
pub proof fn request_is_made_in_this_order(request: CreateProcess, replies: Seq<Reply>)
    ensures
        request.steps() == 17,
        ({
            let call = request.call(replies);
            let step = replies.len();
            &&& step == 0 ==> call == (WmiCall::Initialize { model: 0 })
            &&& step == 1 ==> call == (WmiCall::CreateLocator { context: 1 })
            &&& step == 2 ==> call == (WmiCall::ConnectServer { flags: 0x80 })
            &&& step == 3 ==> call == (WmiCall::SetBlanket {
                authentication: 10,
                authorization: 0,
                level: 6,
                impersonation: 3,
                capabilities: 0,
            })
            &&& step == 4 ==> call == (WmiCall::GetProcessClass { flags: 0 })
            &&& step == 5 ==> call == (WmiCall::GetCreateMethod { flags: 0 })
            &&& step == 6 ==> call == (WmiCall::SpawnInput { flags: 0 })
            &&& step == 7 ==> call == WmiCall::PutCommandLine
            &&& step == 8 ==> call == (WmiCall::GetStartupClass { flags: 0 })
            &&& step == 9 ==> call == (WmiCall::SpawnStartup { flags: 0 })
            &&& step == 10 ==> call == (WmiCall::PutCreateFlags { value: 0x1000008 })
            &&& step == 11 ==> call == (WmiCall::PutShowWindow { value: 0 })
            &&& step == 12 ==> call == WmiCall::CastStartup
            &&& step == 13 ==> call == WmiCall::PutStartup
            &&& step == 14 ==> call == (WmiCall::ExecCreate { flags: 0 })
            &&& step == 15 ==> call == WmiCall::GetReturnValue
            &&& step == 16 ==> call == WmiCall::GetProcessId
        }),
        request.releases(replies) == (if replies.len() == 0 {
            Seq::empty()
        } else {
            seq![WmiCall::Uninitialize]
        }),
        replies.len() == 17 && replies[16].number <= u32::MAX ==> request.product(replies)
            == replies[16].number,
{
}

/// What fails a request: a negative code or an error that came back, with that
/// code and that error; a class, a method or a result that is missing; and a
/// return value that is not zero, with that value. Nothing else does.
pub proof fn request_fails_when(request: CreateProcess, step: nat, reply: Reply)
    requires
        step < 17,
        reply.number <= u32::MAX,
    ensures
        request.verdict(step, reply) == (if reply.status < 0 || reply.second != 0 {
            Some(Failure::Com { code: reply.status, info: reply.second })
        } else if reply.handle == 0 && step == 4 {
            Some(Failure::NoProcessClass)
        } else if reply.handle == 0 && step == 5 {
            Some(Failure::NoCreateParameters)
        } else if reply.handle == 0 && step == 8 {
            Some(Failure::NoStartupClass)
        } else if reply.handle == 0 && step == 14 {
            Some(Failure::NoProcessResult)
        } else if step == 15 && reply.number != 0 {
            Some(Failure::CreationRefused { status: reply.number as u32 })
        } else {
            None
        }),
{
}

/// What each call names: the connection the namespace with no credentials, the
/// fetches their classes and the method, the settings and readings their
/// properties. The command line is set whole, but for the NUL at its end. What
/// a call names does not depend on its numbers.
pub proof fn calls_name_their_objects(request: CreateProcess, call: WmiCall)
    ensures
        ({
            let words = request.words(call);
            let none = Seq::<u16>::empty();
            &&& call is ConnectServer ==> words == seq![
                ascii("ROOT\\CIMV2"@),
                none,
                none,
                none,
                none,
            ]
            &&& call is GetProcessClass ==> words == seq![ascii("Win32_Process"@)]
            &&& call is GetCreateMethod ==> words == seq![ascii("Create"@)]
            &&& call is PutCommandLine ==> words.len() == 2 && words[0] == ascii("CommandLine"@)
                && (request.command_line@.len() > 0 ==> words[1].push(
                request.command_line@.last(),
            ) == request.command_line@)
            &&& call is GetStartupClass ==> words == seq![ascii("Win32_ProcessStartup"@)]
            &&& call is PutCreateFlags ==> words == seq![ascii("CreateFlags"@)]
            &&& call is PutShowWindow ==> words == seq![ascii("ShowWindow"@)]
            &&& call is PutStartup ==> words == seq![ascii("ProcessStartupInformation"@)]
            &&& call is ExecCreate ==> words == seq![ascii("Win32_Process"@), ascii("Create"@)]
            &&& call is GetReturnValue ==> words == seq![ascii("ReturnValue"@)]
            &&& call is GetProcessId ==> words == seq![ascii("ProcessId"@)]
            &&& call is Initialize || call is CreateLocator || call is SetBlanket
                || call is SpawnInput || call is SpawnStartup || call is CastStartup
                || call is Uninitialize ==> words.len() == 0
        }),
{
    reveal_strlit("");
    assert(ascii(""@) =~= Seq::<u16>::empty());
    if call is PutCommandLine && request.command_line@.len() > 0 {
        assert(request.command_line@.drop_last().push(request.command_line@.last())
            =~= request.command_line@);
    }
}

} // verus!
