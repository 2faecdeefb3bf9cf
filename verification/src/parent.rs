//! The temporary process that stands in as the daemon's parent, seen from the
//! launcher.

use vstd::prelude::*;

use crate::encoding::quoting::joined;
use crate::encoding::splitting::split;
use crate::encoding::wide::terminated;
use crate::failure::Failure;
use crate::failure::Operation;
use crate::pipe_name::accepted_pipe;
use crate::pipe_name::parent_words;
use crate::pipe_name::pipe_units;
use crate::pipe_name::started_parent_accepts;
use crate::procedure::calls_made;
use crate::procedure::come_to;
use crate::procedure::needed;
use crate::procedure::owed;
use crate::procedure::passed;
use crate::procedure::passed_steps_were_called;
use crate::procedure::pending;
use crate::procedure::ran;
use crate::procedure::run_is_determined;
use crate::procedure::settled;
use crate::procedure::Procedure;
use crate::waiting::connected_at;
use crate::waiting::launcher_goes_on_when_connected;
use crate::waiting::ConnectionWait;
use crate::win32::check_handle;
use crate::win32::check_reply;
use crate::win32::failed;
use crate::win32::is_handle;
use crate::win32::nothing;
use crate::win32::replied_done;
use crate::win32::replied_handle;
use crate::win32::replied_number;
use crate::win32::unowned;
use crate::win32::Reply;
use crate::win32::PROCESS_CREATE_PROCESS;
use crate::win32::PROCESS_DUP_HANDLE;
use crate::wmi::answered;
use crate::wmi::process_was_created;
use crate::wmi::Answer;
use crate::wmi::CreateProcess;
use crate::wmi::WmiCall;

verus! {

/// A system call that pins the identity of the process behind a pipe.
#[derive(Clone, Copy, Debug, PartialEq, Eq, Structural)]
pub enum PinCall {
    /// Ask which process is at the other end of the pipe.
    QueryPeer { pipe: isize },
    OpenProcess { access: u32, inherit: i32, pid: u32 },
    /// See whether the other end of the pipe is still open.
    Peek { pipe: isize },
    CloseProcess { process: isize },
}

pub const QUERY_PEER: usize = 0;

pub const OPEN_PEER: usize = 1;

pub const CONFIRM_PEER: usize = 2;

pub const PIN_STEPS: usize = 3;

/// Opening the process `pid` and making sure that it is the one connected to
/// `pipe`. The process is opened before the connection is confirmed: a number
/// that was given to another process in between would show as a broken pipe.
pub struct PinParent {
    pub pipe: isize,
    pub pid: u32,
}

impl Procedure for PinParent {
    type Action = PinCall;

    type Product = isize;

    open spec fn steps(&self) -> nat {
        PIN_STEPS as nat
    }

    open spec fn verdict(&self, step: nat, reply: Reply) -> Option<Failure> {
        if step == QUERY_PEER {
            if reply.status == 0 {
                failed(Operation::QueryPeer, reply)
            } else if reply.number != self.pid {
                Some(Failure::PeerMismatch)
            } else {
                None
            }
        } else if step == OPEN_PEER {
            unowned(Some(Operation::OpenParent), reply)
        } else {
            failed(Operation::ConfirmPeer, reply)
        }
    }

    open spec fn call(&self, replies: Seq<Reply>) -> PinCall {
        if replies.len() == QUERY_PEER {
            PinCall::QueryPeer { pipe: self.pipe }
        } else if replies.len() == OPEN_PEER {
            PinCall::OpenProcess {
                access: PROCESS_CREATE_PROCESS | PROCESS_DUP_HANDLE,
                inherit: 0,
                pid: self.pid,
            }
        } else {
            PinCall::Peek { pipe: self.pipe }
        }
    }

    /// A process that could not be confirmed is not kept.
    open spec fn releases(&self, replies: Seq<Reply>) -> Seq<PinCall> {
        needed(
            replies.len() == CONFIRM_PEER,
            PinCall::CloseProcess { process: replies[OPEN_PEER as int].handle },
        )
    }

    open spec fn product(&self, replies: Seq<Reply>) -> isize {
        replies[OPEN_PEER as int].handle
    }

    fn step_count(&self) -> (count: usize) {
        PIN_STEPS
    }

    fn judge(&self, step: usize, reply: Reply) -> (failure: Option<Failure>) {
        if step == QUERY_PEER {
            match check_reply(Operation::QueryPeer, reply) {
                Some(failure) => Some(failure),
                None => if reply.number != self.pid as u64 {
                    Some(Failure::PeerMismatch)
                } else {
                    None
                },
            }
        } else if step == OPEN_PEER {
            check_handle(Some(Operation::OpenParent), reply)
        } else {
            check_reply(Operation::ConfirmPeer, reply)
        }
    }

    fn next_call(&self, replies: &Vec<Reply>) -> (call: PinCall) {
        if replies.len() == QUERY_PEER {
            PinCall::QueryPeer { pipe: self.pipe }
        } else if replies.len() == OPEN_PEER {
            PinCall::OpenProcess {
                access: PROCESS_CREATE_PROCESS | PROCESS_DUP_HANDLE,
                inherit: 0,
                pid: self.pid,
            }
        } else {
            PinCall::Peek { pipe: self.pipe }
        }
    }

    fn release_at(&self, replies: &Vec<Reply>, index: usize) -> (call: Option<PinCall>) {
        if index == 0 && replies.len() == CONFIRM_PEER {
            Some(PinCall::CloseProcess { process: replies[OPEN_PEER].handle })
        } else {
            None
        }
    }

    fn take_product(&self, replies: &Vec<Reply>) -> (product: isize) {
        replies[OPEN_PEER].handle
    }
}

/// A process is taken for the temporary parent only if it is the one that was
/// started, it was connected to the pipe, and it was still connected after it
/// had been opened. Otherwise no handle to it remains.
pub proof fn parent_is_pinned(pin: PinParent, replies: Seq<Reply>)
    requires
        pending(pin, ran(pin, replies)) is None,
    ensures
        ran(pin, replies).failure is None <==> {
            &&& replies.len() >= PIN_STEPS
            &&& replies[QUERY_PEER as int].status != 0
            &&& replies[QUERY_PEER as int].number == pin.pid
            &&& is_handle(replies[OPEN_PEER as int].handle)
            &&& replies[CONFIRM_PEER as int].status != 0
        },
        ran(pin, replies).failure is None ==> pin.product(ran(pin, replies).replies)
            == replies[OPEN_PEER as int].handle && owed(pin, replies).len() == 0,
        ran(pin, replies).failure is Some && replies.len() > OPEN_PEER && passed(pin, replies)
            > OPEN_PEER ==> owed(pin, replies) == seq![
            PinCall::CloseProcess { process: replies[OPEN_PEER as int].handle },
        ],
{
    run_is_determined(pin, replies);
    let steps = passed(pin, replies);
    if steps < PIN_STEPS && steps < replies.len() {
        assert(pin.verdict(steps, replies[steps as int]) is Some);
    }
    if steps > QUERY_PEER {
        assert(pin.verdict(QUERY_PEER as nat, replies[QUERY_PEER as int]) is None);
    }
    if steps > OPEN_PEER {
        assert(pin.verdict(OPEN_PEER as nat, replies[OPEN_PEER as int]) is None);
        assert(replies.take(steps as int)[OPEN_PEER as int] == replies[OPEN_PEER as int]);
    }
    if steps > CONFIRM_PEER {
        assert(pin.verdict(CONFIRM_PEER as nat, replies[CONFIRM_PEER as int]) is None);
    }
}

/// The connection is confirmed after the process has been opened, never before.
pub proof fn process_is_opened_before_it_is_confirmed(pin: PinParent, replies: Seq<Reply>)
    requires
        pending(pin, ran(pin, replies)) matches Some(PinCall::Peek { .. }),
    ensures
        replies.len() == CONFIRM_PEER,
        is_handle(replies[OPEN_PEER as int].handle),
{
    run_is_determined(pin, replies);
    assert(!settled(pin, ran(pin, replies)));
    assert(pin.verdict(OPEN_PEER as nat, replies[OPEN_PEER as int]) is None);
}

/// The temporary parent: its process, and the pipe whose closing lets it go.
#[derive(Clone, Copy, Debug, PartialEq, Eq, Structural)]
pub struct SpawnParent {
    pub process: isize,
    pub pipe: isize,
}

/// The reply of the part of a launch that starts the temporary parent.
pub open spec fn replied_parent(outcome: Result<SpawnParent, Failure>) -> Reply {
    match outcome {
        Ok(parent) => Reply { handle: parent.process, second: parent.pipe, ..nothing() },
        Err(failure) => Reply { failure: Some(failure), ..nothing() },
    }
}

pub fn parent_reply(outcome: Result<SpawnParent, Failure>) -> (reply: Reply)
    ensures
        reply == replied_parent(outcome),
{
    match outcome {
        Ok(parent) => Reply {
            handle: parent.process,
            second: parent.pipe,
            ..Reply::of_done(Ok(()))
        },
        Err(failure) => Reply::of_done(Err(failure)),
    }
}

/// A part of starting the temporary parent.
#[derive(Clone, Copy, Debug, PartialEq, Eq, Structural)]
pub enum ParentCall {
    /// Create the pipe that only this user may open.
    CreatePipe,
    /// Find this program and encode the parent's command line.
    PrepareCommand,
    /// Have the management service start the parent.
    StartParent,
    AwaitConnection { pipe: isize },
    PinParent { pipe: isize, pid: u32 },
    ClosePipe { pipe: isize },
}

pub const CREATE_PIPE: usize = 0;

pub const PREPARE_COMMAND: usize = 1;

pub const START_PARENT: usize = 2;

pub const AWAIT_CONNECTION: usize = 3;

pub const PIN_PARENT: usize = 4;

pub const PARENT_STEPS: usize = 5;

/// Starting the temporary parent. Each part replies with the failure that it
/// ended in, if any.
pub struct CreateParent;

impl Procedure for CreateParent {
    type Action = ParentCall;

    type Product = SpawnParent;

    open spec fn steps(&self) -> nat {
        PARENT_STEPS as nat
    }

    open spec fn verdict(&self, step: nat, reply: Reply) -> Option<Failure> {
        reply.failure
    }

    open spec fn call(&self, replies: Seq<Reply>) -> ParentCall {
        let step = replies.len();
        if step == CREATE_PIPE {
            ParentCall::CreatePipe
        } else if step == PREPARE_COMMAND {
            ParentCall::PrepareCommand
        } else if step == START_PARENT {
            ParentCall::StartParent
        } else if step == AWAIT_CONNECTION {
            ParentCall::AwaitConnection { pipe: replies[CREATE_PIPE as int].handle }
        } else {
            ParentCall::PinParent {
                pipe: replies[CREATE_PIPE as int].handle,
                pid: replies[START_PARENT as int].number as u32,
            }
        }
    }

    /// A pipe without a parent is closed, which also lets go of a parent that
    /// is started late.
    open spec fn releases(&self, replies: Seq<Reply>) -> Seq<ParentCall> {
        needed(
            CREATE_PIPE < replies.len() < PARENT_STEPS,
            ParentCall::ClosePipe { pipe: replies[CREATE_PIPE as int].handle },
        )
    }

    open spec fn product(&self, replies: Seq<Reply>) -> SpawnParent {
        SpawnParent {
            process: replies[PIN_PARENT as int].handle,
            pipe: replies[CREATE_PIPE as int].handle,
        }
    }

    fn step_count(&self) -> (count: usize) {
        PARENT_STEPS
    }

    fn judge(&self, step: usize, reply: Reply) -> (failure: Option<Failure>) {
        reply.failure
    }

    fn next_call(&self, replies: &Vec<Reply>) -> (call: ParentCall) {
        let step: usize = replies.len();
        if step == CREATE_PIPE {
            ParentCall::CreatePipe
        } else if step == PREPARE_COMMAND {
            ParentCall::PrepareCommand
        } else if step == START_PARENT {
            ParentCall::StartParent
        } else if step == AWAIT_CONNECTION {
            ParentCall::AwaitConnection { pipe: replies[CREATE_PIPE].handle }
        } else {
            ParentCall::PinParent {
                pipe: replies[CREATE_PIPE].handle,
                pid: replies[START_PARENT].number as u32,
            }
        }
    }

    fn release_at(&self, replies: &Vec<Reply>, index: usize) -> (call: Option<ParentCall>) {
        if index == 0 && CREATE_PIPE < replies.len() && replies.len() < PARENT_STEPS {
            Some(ParentCall::ClosePipe { pipe: replies[CREATE_PIPE].handle })
        } else {
            None
        }
    }

    fn take_product(&self, replies: &Vec<Reply>) -> (product: SpawnParent) {
        SpawnParent { process: replies[PIN_PARENT].handle, pipe: replies[CREATE_PIPE].handle }
    }
}

/// A pipe that was created is closed if and only if the parent on it could not
/// be had; with the parent it stays open.
pub proof fn pipe_outlives_only_a_parent(create: CreateParent, replies: Seq<Reply>)
    requires
        pending(create, ran(create, replies)) is None,
        replies.len() > 0,
        replies[CREATE_PIPE as int].failure is None,
    ensures
        owed(create, replies) == (if ran(create, replies).failure is Some {
            seq![ParentCall::ClosePipe { pipe: replies[CREATE_PIPE as int].handle }]
        } else {
            Seq::empty()
        }),
        ran(create, replies).failure is None ==> create.product(ran(create, replies).replies).pipe
            == replies[CREATE_PIPE as int].handle,
{
    run_is_determined(create, replies);
    let steps = passed(create, replies);
    assert(create.verdict(0, replies[0]) is None);
    assert(steps > 0);
    assert(replies.take(steps as int)[CREATE_PIPE as int] == replies[CREATE_PIPE as int]);
}

/// The parent is started only once the pipe that it is to open is there.
pub proof fn parent_is_started_behind_its_pipe(create: CreateParent, replies: Seq<Reply>)
    requires
        pending(create, ran(create, replies)) == Some(ParentCall::StartParent),
    ensures
        replies.len() == START_PARENT,
        replies[CREATE_PIPE as int].failure is None,
        replies[PREPARE_COMMAND as int].failure is None,
{
    run_is_determined(create, replies);
    assert(!settled(create, ran(create, replies)));
    assert(create.verdict(CREATE_PIPE as nat, replies[CREATE_PIPE as int]) is None);
    assert(create.verdict(PREPARE_COMMAND as nat, replies[PREPARE_COMMAND as int]) is None);
}

/// What the parts of starting the temporary parent came to: creating the pipe
/// of this nonce, encoding the command of this program, asking the service,
/// waiting for the connection and pinning the process.
pub struct ParentParts {
    pub executable: Seq<u16>,
    pub nonce: u128,
    pub pipe: Result<isize, Failure>,
    pub prepared: Result<(), Failure>,
    pub request: CreateProcess,
    pub answer: Answer,
    pub waited: Seq<Reply>,
    pub pinned: Seq<Reply>,
}

impl ParentParts {
    pub open spec fn pin(self) -> PinParent {
        PinParent { pipe: self.pipe->Ok_0, pid: answered(self.answer)->Ok_0 }
    }

    /// Starting the parent got its replies from these parts, each as far as it
    /// was taken.
    pub open spec fn gave(self, replies: Seq<Reply>) -> bool {
        let taken = |step: usize| step < calls_made(CreateParent, replies);
        &&& taken(CREATE_PIPE) ==> replies[CREATE_PIPE as int] == replied_handle(self.pipe)
        &&& taken(PREPARE_COMMAND) ==> replies[PREPARE_COMMAND as int] == replied_done(
            self.prepared,
        )
        &&& taken(PREPARE_COMMAND) && self.prepared is Ok ==> self.request.command_line@ == joined(
            parent_words(self.executable, pipe_units(self.nonce)),
        ).push(0)
        &&& taken(START_PARENT) ==> replies[START_PARENT as int] == replied_number(
            answered(self.answer),
        )
        &&& taken(AWAIT_CONNECTION) ==> {
            &&& ConnectionWait::ran(self.waited) matches ConnectionWait::Finished(waited)
            &&& replies[AWAIT_CONNECTION as int] == replied_done(waited)
        }
        &&& taken(PIN_PARENT) ==> {
            &&& come_to(self.pin(), ran(self.pin(), self.pinned)) matches Some(pinned)
            &&& replies[PIN_PARENT as int] == replied_handle(pinned)
        }
    }
}

/// A parent that was created is the process whose number the service gave, and
/// it was at the other end of the pipe when it was opened and still was
/// afterwards. The pipe is open, and it is the one that the parent's own
/// command line names. Where no parent is created, a pipe that was is closed.
pub proof fn created_parent_is_the_one_started(parts: ParentParts, replies: Seq<Reply>)
    requires
        pending(CreateParent, ran(CreateParent, replies)) is None,
        parts.gave(replies),
    ensures
        ran(CreateParent, replies).failure is None ==> {
            let parent = CreateParent.product(ran(CreateParent, replies).replies);
            let seen = |step: usize| parts.pinned[step as int];
            let made = |step: usize|
                pending(parts.pin(), ran(parts.pin(), parts.pinned.take(step as int)));
            &&& parts.pipe == Ok::<isize, Failure>(parent.pipe)
            &&& answered(parts.answer) is Ok
            &&& exists|i: int| connected_at(parts.waited, i)
            &&& made(QUERY_PEER) == Some(PinCall::QueryPeer { pipe: parent.pipe })
            &&& seen(QUERY_PEER).number == answered(parts.answer)->Ok_0
            &&& made(OPEN_PEER) == Some(
                PinCall::OpenProcess {
                    access: PROCESS_CREATE_PROCESS | PROCESS_DUP_HANDLE,
                    inherit: 0,
                    pid: answered(parts.answer)->Ok_0,
                },
            )
            &&& parent.process == seen(OPEN_PEER).handle
            &&& is_handle(parent.process)
            &&& made(CONFIRM_PEER) == Some(PinCall::Peek { pipe: parent.pipe })
            &&& seen(CONFIRM_PEER).status != 0
            &&& owed(CreateParent, replies).len() == 0
            &&& accepted_pipe(split(parts.request.words(WmiCall::PutCommandLine)[1])) == Ok::<
                Seq<u16>,
                Failure,
            >(terminated(pipe_units(parts.nonce)))
        },
        ran(CreateParent, replies).failure is Some && parts.pipe is Ok ==> owed(
            CreateParent,
            replies,
        ) == seq![ParentCall::ClosePipe { pipe: parts.pipe->Ok_0 }],
{
    let create = CreateParent;
    let steps = passed(create, replies);
    let pin = parts.pin();
    run_is_determined(create, replies);
    if steps < PARENT_STEPS {
        assert(steps < replies.len());
        assert(create.verdict(steps, replies[steps as int]) is Some);
    }
    if steps > CREATE_PIPE {
        assert(create.verdict(CREATE_PIPE as nat, replies[CREATE_PIPE as int]) is None);
        pipe_outlives_only_a_parent(create, replies);
    }
    if ran(create, replies).failure is None {
        assert(steps == PARENT_STEPS);
        assert(create.verdict(PREPARE_COMMAND as nat, replies[PREPARE_COMMAND as int]) is None);
        assert(create.verdict(START_PARENT as nat, replies[START_PARENT as int]) is None);
        assert(create.verdict(AWAIT_CONNECTION as nat, replies[AWAIT_CONNECTION as int]) is None);
        assert(create.verdict(PIN_PARENT as nat, replies[PIN_PARENT as int]) is None);
        let waited = ConnectionWait::ran(parts.waited)->Finished_0;
        assert(waited is Ok && waited->Ok_0 == ());
        assert(ConnectionWait::ran(parts.waited) == ConnectionWait::Finished(Ok(())));
        launcher_goes_on_when_connected(parts.waited);
        parent_is_pinned(pin, parts.pinned);
        run_is_determined(pin, parts.pinned);
        assert(passed(pin, parts.pinned) == PIN_STEPS);
        passed_steps_were_called(pin, parts.pinned, QUERY_PEER as nat);
        passed_steps_were_called(pin, parts.pinned, OPEN_PEER as nat);
        passed_steps_were_called(pin, parts.pinned, CONFIRM_PEER as nat);
        started_parent_accepts(parts.executable, parts.nonce);
        let line = joined(parent_words(parts.executable, pipe_units(parts.nonce)));
        assert(line.push(0).drop_last() =~= line);
    }
}

/// How the process behind a pipe is pinned: the pipe is asked for its peer,
/// the process of the number that was started is opened so that handles can be
/// made in it and processes under it, and the pipe is looked at again.
pub proof fn peer_is_pinned_like_this(pin: PinParent, replies: Seq<Reply>, reply: Reply)
    ensures
        pin.steps() == 3,
        replies.len() == 0 ==> pin.call(replies) == (PinCall::QueryPeer { pipe: pin.pipe }),
        replies.len() == 1 ==> pin.call(replies) == (PinCall::OpenProcess {
            access: 0xC0,
            inherit: 0,
            pid: pin.pid,
        }),
        replies.len() == 2 ==> pin.call(replies) == (PinCall::Peek { pipe: pin.pipe }),
        pin.verdict(0, reply) == (if reply.status == 0 {
            Some(
                Failure::System { operation: Some(Operation::QueryPeer), code: reply.last_error },
            )
        } else if reply.number != pin.pid {
            Some(Failure::PeerMismatch)
        } else {
            None
        }),
        pin.verdict(1, reply) == (if reply.handle == 0 || reply.handle == -1 {
            Some(
                Failure::System { operation: Some(Operation::OpenParent), code: reply.last_error },
            )
        } else {
            None
        }),
        pin.verdict(2, reply) == (if reply.status == 0 {
            Some(
                Failure::System { operation: Some(Operation::ConfirmPeer), code: reply.last_error },
            )
        } else {
            None
        }),
        replies.len() == 2 ==> pin.releases(replies) == seq![
            PinCall::CloseProcess { process: replies[1].handle },
        ],
        replies.len() != 2 ==> pin.releases(replies).len() == 0,
        replies.len() == 3 ==> pin.product(replies) == replies[1].handle,
{
    assert(0x80u32 | 0x40u32 == 0xC0u32) by (bit_vector);
}

/// How the temporary parent is started: the pipe first, then the command, the
/// start, the wait on that pipe, and the pinning on that pipe of the process
/// whose number the start gave. A part that fails ends it with its failure. A
/// pipe is closed unless the parent on it is there.
pub proof fn parent_is_started_like_this(create: CreateParent, replies: Seq<Reply>, reply: Reply)
    ensures
        create.steps() == 5,
        replies.len() == 0 ==> create.call(replies) == ParentCall::CreatePipe,
        replies.len() == 1 ==> create.call(replies) == ParentCall::PrepareCommand,
        replies.len() == 2 ==> create.call(replies) == ParentCall::StartParent,
        replies.len() == 3 ==> create.call(replies) == (ParentCall::AwaitConnection {
            pipe: replies[0].handle,
        }),
        replies.len() == 4 && replies[2].number <= u32::MAX ==> (create.call(
            replies,
        ) matches ParentCall::PinParent { pipe, pid } && pipe == replies[0].handle && pid
            == replies[2].number),
        forall|step: nat| step < 5 ==> #[trigger] create.verdict(step, reply) == reply.failure,
        1 <= replies.len() <= 4 ==> create.releases(replies) == seq![
            ParentCall::ClosePipe { pipe: replies[0].handle },
        ],
        replies.len() == 0 || replies.len() == 5 ==> create.releases(replies).len() == 0,
        replies.len() == 5 ==> create.product(replies) == (SpawnParent {
            process: replies[4].handle,
            pipe: replies[0].handle,
        }),
{
}

/// A parent that was started replies with its process and its pipe, and one
/// that was not with its failure.
pub proof fn parent_reply_carries_the_outcome(parent: SpawnParent, failure: Failure)
    ensures
        replied_parent(Ok(parent)) == (Reply {
            handle: parent.process,
            second: parent.pipe,
            ..replied_done(Ok(()))
        }),
        replied_parent(Err(failure)) == replied_done(Err(failure)),
{
}

/// The process that becomes the parent is the one that the service created:
/// the number that the peer of the pipe must have, and by which the process is
/// opened, is the process number in the service's reply.
pub proof fn peer_has_the_number_that_was_created(
    parts: ParentParts,
    replies: Seq<Reply>,
    service: Seq<Reply>,
    outcome: Result<u32, Failure>,
)
    requires
        pending(CreateParent, ran(CreateParent, replies)) is None,
        ran(CreateParent, replies).failure is None,
        parts.gave(replies),
        come_to(parts.request, ran(parts.request, service)) == Some(outcome),
        parts.answer == Answer::Came(outcome),
    ensures
        service.len() >= 17,
        service[16].number <= u32::MAX ==> {
            &&& parts.pinned[0].number == service[16].number
            &&& pending(parts.pin(), ran(parts.pin(), parts.pinned.take(1))) matches Some(
                PinCall::OpenProcess { pid, .. },
            ) && pid == service[16].number
        },
        service[15].number <= u32::MAX ==> service[15].number == 0,
{
    created_parent_is_the_one_started(parts, replies);
    process_was_created(parts.request, service);
}

} // verus!
