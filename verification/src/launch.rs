//! The launch as a whole: keep the daemon that was started if it is outside
//! any Job, and otherwise start it again under an independent parent.

use vstd::prelude::*;

use crate::failure::Failure;
use crate::failure::Operation;
use crate::parent::replied_parent;
use crate::parent::SpawnParent;
use crate::procedure::pending;
use crate::procedure::ran;
use crate::procedure::success_takes_every_step;
use crate::procedure::Procedure;
use crate::win32::check;
use crate::win32::failed;
use crate::win32::replied_done;
use crate::win32::replied_handle;
use crate::win32::Reply;
use crate::win32::WAIT_OBJECT_0;

verus! {

/// How long a terminated daemon has to exit.
pub const EXIT_WAIT_MS: u32 = 5000;

/// A part of getting rid of a daemon.
#[derive(Clone, Copy, Debug, PartialEq, Eq, Structural)]
pub enum TerminationCall {
    Terminate { process: isize },
    Wait { process: isize, millis: u32 },
}

pub const TERMINATE: usize = 0;

pub const AWAIT_EXIT: usize = 1;

pub const TERMINATION_STEPS: usize = 2;

/// Terminating a process and waiting until it is gone.
pub struct TerminateAndWait {
    pub process: isize,
}

impl Procedure for TerminateAndWait {
    type Action = TerminationCall;

    type Product = ();

    open spec fn steps(&self) -> nat {
        TERMINATION_STEPS as nat
    }

    open spec fn verdict(&self, step: nat, reply: Reply) -> Option<Failure> {
        if step == TERMINATE {
            reply.failure
        } else if reply.number == WAIT_OBJECT_0 {
            None
        } else {
            Some(Failure::DaemonDidNotExit)
        }
    }

    open spec fn call(&self, replies: Seq<Reply>) -> TerminationCall {
        if replies.len() == TERMINATE {
            TerminationCall::Terminate { process: self.process }
        } else {
            TerminationCall::Wait { process: self.process, millis: EXIT_WAIT_MS }
        }
    }

    open spec fn releases(&self, replies: Seq<Reply>) -> Seq<TerminationCall> {
        Seq::empty()
    }

    open spec fn product(&self, replies: Seq<Reply>) -> () {
        ()
    }

    fn step_count(&self) -> (count: usize) {
        TERMINATION_STEPS
    }

    fn judge(&self, step: usize, reply: Reply) -> (failure: Option<Failure>) {
        if step == TERMINATE {
            reply.failure
        } else if reply.number == WAIT_OBJECT_0 {
            None
        } else {
            Some(Failure::DaemonDidNotExit)
        }
    }

    fn next_call(&self, replies: &Vec<Reply>) -> (call: TerminationCall) {
        if replies.len() == TERMINATE {
            TerminationCall::Terminate { process: self.process }
        } else {
            TerminationCall::Wait { process: self.process, millis: EXIT_WAIT_MS }
        }
    }

    fn release_at(&self, replies: &Vec<Reply>, index: usize) -> (call: Option<TerminationCall>) {
        None
    }

    fn take_product(&self, replies: &Vec<Reply>) -> (product: ()) {
    }
}

/// A daemon counts as gone if and only if it could be terminated and its exit
/// was seen in time.
pub proof fn termination_is_seen(termination: TerminateAndWait, replies: Seq<Reply>)
    requires
        pending(termination, ran(termination, replies)) is None,
    ensures
        ran(termination, replies).failure is None <==> {
            &&& replies.len() >= TERMINATION_STEPS
            &&& replies[TERMINATE as int].failure is None
            &&& replies[AWAIT_EXIT as int].number == WAIT_OBJECT_0
        },
{
    success_takes_every_step(termination, replies);
    if replies.len() >= TERMINATION_STEPS {
        assert(termination.verdict(TERMINATE as nat, replies[TERMINATE as int]) is None
            <==> replies[TERMINATE as int].failure is None);
        assert(termination.verdict(AWAIT_EXIT as nat, replies[AWAIT_EXIT as int]) is None
            <==> replies[AWAIT_EXIT as int].number == WAIT_OBJECT_0);
    }
}

/// The part of a launch in which it failed, where that is reported.
#[derive(Clone, Copy, Debug, PartialEq, Eq, Structural)]
pub enum Context {
    Parent,
    Daemon,
}

impl Context {
    pub open spec fn words(self) -> Seq<char> {
        match self {
            Context::Parent => "cannot establish independent daemon parent"@,
            Context::Daemon =>
                "cannot create daemon with original token and independent parent"@,
        }
    }

    pub fn text(self) -> (text: &'static str)
        ensures
            text@ == self.words(),
    {
        match self {
            Context::Parent => "cannot establish independent daemon parent",
            Context::Daemon => "cannot create daemon with original token and independent parent",
        }
    }
}

#[derive(Clone, Copy, Debug, PartialEq, Eq, Structural)]
pub struct LaunchFailure {
    pub context: Option<Context>,
    pub failure: Failure,
}

/// The daemon that a launch leaves running.
#[derive(Clone, Copy, Debug, PartialEq, Eq, Structural)]
pub enum Daemon {
    /// The one that was started first.
    Kept,
    /// One that was created under an independent parent.
    Created { process: isize },
}

pub type Launched = Result<Daemon, LaunchFailure>;

/// What is to be done in a launch. `inspection` is what looking at the Job
/// failed with.
#[derive(Clone, Copy, Debug, PartialEq, Eq)]
pub enum Launch {
    /// Ask whether the daemon is in any Job.
    InspectJob { job: isize },
    /// Terminate the daemon and wait until it is gone.
    TerminateAndWait { inspection: Option<Failure> },
    CreateParent,
    SpawnDaemon { parent: SpawnParent },
    /// Close the handles of the parent, which lets it go.
    CloseParent { parent: SpawnParent, launched: Launched },
    /// Close the handle of the daemon that was terminated.
    CloseChild { launched: Launched },
    Finished(Launched),
}

pub open spec fn plain(failure: Failure) -> Launched {
    Err(LaunchFailure { context: None, failure })
}

pub open spec fn within(context: Context, failure: Failure) -> Launched {
    Err(LaunchFailure { context: Some(context), failure })
}

/// The daemon may stay: it was looked at, and it is in no Job.
pub open spec fn is_free(reply: Reply) -> bool {
    reply.status != 0 && reply.number == 0
}

impl Launch {
    pub open spec fn after(self, reply: Reply) -> Launch {
        match self {
            Launch::InspectJob { .. } => if is_free(reply) {
                Launch::Finished(Ok(Daemon::Kept))
            } else {
                Launch::TerminateAndWait { inspection: failed(Operation::InspectJob, reply) }
            },
            Launch::TerminateAndWait { inspection } => match (reply.failure, inspection) {
                (Some(failure), _) => Launch::CloseChild { launched: plain(failure) },
                (None, Some(failure)) => Launch::CloseChild { launched: plain(failure) },
                (None, None) => Launch::CreateParent,
            },
            Launch::CreateParent => match reply.failure {
                Some(failure) => Launch::CloseChild { launched: within(Context::Parent, failure) },
                None => Launch::SpawnDaemon {
                    parent: SpawnParent { process: reply.handle, pipe: reply.second },
                },
            },
            Launch::SpawnDaemon { parent } => Launch::CloseParent {
                parent,
                launched: match reply.failure {
                    Some(failure) => within(Context::Daemon, failure),
                    None => Ok(Daemon::Created { process: reply.handle }),
                },
            },
            Launch::CloseParent { launched, .. } => Launch::CloseChild { launched },
            Launch::CloseChild { launched } => Launch::Finished(launched),
            Launch::Finished(launched) => Launch::Finished(launched),
        }
    }

    /// The launch after these replies, one after the other.
    pub open spec fn ran(replies: Seq<Reply>) -> Launch
        decreases replies.len(),
    {
        if replies.len() == 0 {
            Launch::InspectJob { job: 0 }
        } else {
            Launch::ran(replies.drop_last()).after(replies.last())
        }
    }

    pub fn new() -> (launch: Launch)
        ensures
            launch == Launch::ran(Seq::empty()),
    {
        Launch::InspectJob { job: 0 }
    }

    /// Takes the reply to what was to be done.
    pub fn advance(&mut self, reply: Reply)
        ensures
            *final(self) == old(self).after(reply),
    {
        *self =
        match *self {
            Launch::InspectJob { job: _ } => {
                match check(reply.status, Operation::InspectJob, reply.last_error) {
                    Err(failure) => Launch::TerminateAndWait { inspection: Some(failure) },
                    Ok(()) => {
                        if reply.number != 0 {
                            Launch::TerminateAndWait { inspection: None }
                        } else {
                            Launch::Finished(Ok(Daemon::Kept))
                        }
                    },
                }
            },
            Launch::TerminateAndWait { inspection } => {
                let stopped = match reply.failure {
                    Some(failure) => Some(failure),
                    None => inspection,
                };
                match stopped {
                    Some(failure) => Launch::CloseChild {
                        launched: Err(LaunchFailure { context: None, failure }),
                    },
                    None => Launch::CreateParent,
                }
            },
            Launch::CreateParent => {
                match reply.failure {
                    Some(failure) => Launch::CloseChild {
                        launched: Err(LaunchFailure { context: Some(Context::Parent), failure }),
                    },
                    None => Launch::SpawnDaemon {
                        parent: SpawnParent { process: reply.handle, pipe: reply.second },
                    },
                }
            },
            Launch::SpawnDaemon { parent } => Launch::CloseParent {
                parent,
                launched: match reply.failure {
                    Some(failure) => Err(
                        LaunchFailure { context: Some(Context::Daemon), failure },
                    ),
                    None => Ok(Daemon::Created { process: reply.handle }),
                },
            },
            Launch::CloseParent { parent: _, launched } => Launch::CloseChild { launched },
            Launch::CloseChild { launched } => Launch::Finished(launched),
            Launch::Finished(launched) => Launch::Finished(launched),
        };
    }
}

/// What a launch comes to. The replies are those to looking at the Job,
/// terminating the daemon, starting the parent and creating the new daemon.
pub open spec fn launch_result(replies: Seq<Reply>) -> Launched {
    if is_free(replies[0]) {
        Ok(Daemon::Kept)
    } else if replies[1].failure is Some {
        plain(replies[1].failure->Some_0)
    } else if replies[0].status == 0 {
        plain(
            Failure::System {
                operation: Some(Operation::InspectJob),
                code: replies[0].last_error,
            },
        )
    } else if replies[2].failure is Some {
        within(Context::Parent, replies[2].failure->Some_0)
    } else if replies[3].failure is Some {
        within(Context::Daemon, replies[3].failure->Some_0)
    } else {
        Ok(Daemon::Created { process: replies[3].handle })
    }
}

/// How many replies decide what a launch comes to.
pub open spec fn deciding(replies: Seq<Reply>) -> nat {
    if is_free(replies[0]) {
        1
    } else if replies[1].failure is Some || replies[0].status == 0 {
        2
    } else if replies[2].failure is Some {
        3
    } else {
        4
    }
}

/// A launch that has come this far agrees with the replies it got.
spec fn agrees(launch: Launch, replies: Seq<Reply>) -> bool {
    match launch {
        Launch::InspectJob { job } => replies.len() == 0 && job == 0,
        Launch::TerminateAndWait { inspection } => {
            &&& replies.len() == 1
            &&& !is_free(replies[0])
            &&& inspection == failed(Operation::InspectJob, replies[0])
        },
        Launch::CreateParent => replies.len() == 2 && in_job(replies[0])
            && replies[1].failure is None,
        Launch::SpawnDaemon { parent } => {
            &&& replies.len() == 3
            &&& in_job(replies[0])
            &&& replies[1].failure is None
            &&& replies[2].failure is None
            &&& parent == (SpawnParent { process: replies[2].handle, pipe: replies[2].second })
        },
        Launch::CloseParent { parent, launched } => {
            &&& replies.len() == 4
            &&& in_job(replies[0])
            &&& replies[1].failure is None
            &&& replies[2].failure is None
            &&& parent == (SpawnParent { process: replies[2].handle, pipe: replies[2].second })
            &&& launched == launch_result(replies)
        },
        Launch::CloseChild { launched } => {
            &&& replies.len() >= deciding(replies)
            &&& replies.len() >= 2
            &&& !is_free(replies[0])
            &&& launched == launch_result(replies)
        },
        Launch::Finished(launched) => {
            &&& replies.len() >= deciding(replies)
            &&& launched == launch_result(replies)
        },
    }
}

pub open spec fn in_job(reply: Reply) -> bool {
    reply.status != 0 && reply.number != 0
}

proof fn ran_agrees(replies: Seq<Reply>)
    ensures
        agrees(Launch::ran(replies), replies),
    decreases replies.len(),
{
    if replies.len() > 0 {
        let front = replies.drop_last();
        ran_agrees(front);
        assert forall|i: int| 0 <= i < front.len() implies front[i] == replies[i] by {}
    }
}

/// A finished launch has come to exactly what its replies say: the first
/// daemon is kept if and only if it was found outside any Job, and otherwise
/// the first part that failed is reported.
pub proof fn launch_is_determined(replies: Seq<Reply>, launched: Launched)
    requires
        Launch::ran(replies) == Launch::Finished(launched),
    ensures
        replies.len() >= deciding(replies),
        launched == launch_result(replies),
        launched == Ok::<Daemon, LaunchFailure>(Daemon::Kept) <==> is_free(replies[0]),
{
    ran_agrees(replies);
}

/// A second daemon is created only after the first one was found in a Job and
/// was gone, and never when the Job could not be looked at.
pub proof fn no_two_daemons_run(replies: Seq<Reply>, parent: SpawnParent)
    requires
        Launch::ran(replies) == (Launch::SpawnDaemon { parent }),
    ensures
        replies.len() == 3,
        in_job(replies[0]),
        replies[1].failure is None,
        parent == (SpawnParent { process: replies[2].handle, pipe: replies[2].second }),
{
    ran_agrees(replies);
}

/// A parent that was started is let go right after the attempt to create the
/// daemon, whether or not that succeeded.
pub proof fn parent_is_let_go(replies: Seq<Reply>, parent: SpawnParent, reply: Reply)
    requires
        Launch::ran(replies) == (Launch::SpawnDaemon { parent }),
    ensures
        Launch::ran(replies.push(reply)) matches Launch::CloseParent { parent: closed, .. }
            && closed == parent,
{
    assert(replies.push(reply).drop_last() =~= replies);
}

/// The parent too is started only after the first daemon was found in a Job
/// and was gone.
pub proof fn parent_waits_for_the_first_daemon(replies: Seq<Reply>)
    requires
        Launch::ran(replies) == Launch::CreateParent,
    ensures
        replies.len() == 2,
        in_job(replies[0]),
        replies[1].failure is None,
{
    ran_agrees(replies);
}

/// A launch comes to what its parts came to: getting rid of the first daemon,
/// starting the parent, and creating the second daemon under that parent.
pub proof fn launch_follows_its_parts(
    replies: Seq<Reply>,
    launched: Launched,
    stopped: Result<(), Failure>,
    created: Result<SpawnParent, Failure>,
    spawned: Result<isize, Failure>,
)
    requires
        Launch::ran(replies) == Launch::Finished(launched),
        deciding(replies) > 1 ==> replies[1] == replied_done(stopped),
        deciding(replies) > 2 ==> replies[2] == replied_parent(created),
        deciding(replies) > 3 ==> replies[3] == replied_handle(spawned),
    ensures
        launched == (if is_free(replies[0]) {
            Ok(Daemon::Kept)
        } else {
            match (stopped, failed(Operation::InspectJob, replies[0]), created, spawned) {
                (Err(failure), _, _, _) => plain(failure),
                (_, Some(failure), _, _) => plain(failure),
                (_, _, Err(failure), _) => within(Context::Parent, failure),
                (_, _, _, Err(failure)) => within(Context::Daemon, failure),
                (_, _, _, Ok(process)) => Ok(Daemon::Created { process }),
            }
        }),
        deciding(replies) > 3 ==> Launch::ran(replies.take(3)) == (Launch::SpawnDaemon {
            parent: created->Ok_0,
        }),
{
    ran_agrees(replies);
    if deciding(replies) > 3 {
        let three = replies.take(3);
        reveal_with_fuel(Launch::ran, 4);
        assert(three.drop_last() =~= replies.take(2));
        assert(three.drop_last().drop_last() =~= replies.take(1));
        assert(three.drop_last().drop_last().drop_last() =~= Seq::<Reply>::empty());
        assert(Launch::ran(replies.take(1)) == (Launch::TerminateAndWait { inspection: None }));
        assert(Launch::ran(replies.take(2)) == Launch::CreateParent);
    }
}

/// How a daemon is got rid of: it is terminated, and then waited for, five
/// seconds at most. A termination that fails ends it with its failure; a wait
/// that ends with anything but the exit says that the daemon did not exit.
pub proof fn daemon_is_terminated_and_waited_for(
    termination: TerminateAndWait,
    replies: Seq<Reply>,
    reply: Reply,
)
    ensures
        termination.steps() == 2,
        replies.len() == 0 ==> termination.call(replies) == (TerminationCall::Terminate {
            process: termination.process,
        }),
        replies.len() == 1 ==> termination.call(replies) == (TerminationCall::Wait {
            process: termination.process,
            millis: 5000,
        }),
        termination.verdict(0, reply) == reply.failure,
        termination.verdict(1, reply) == (if reply.number == 0 {
            None
        } else {
            Some(Failure::DaemonDidNotExit)
        }),
        termination.releases(replies).len() == 0,
{
}

/// How a launch goes on. A daemon that was looked at and is in no Job is kept;
/// any other is terminated. If that fails, or if the Job could not be looked
/// at, the launch is over with that failure, the first of the two before the
/// second. Otherwise a parent is started and the daemon is created under it,
/// and a failure of either is reported with its context. A parent that was
/// started is closed with its pipe, and then the first daemon's handle; what
/// the launch came to does not change any more.
pub proof fn launch_goes_on_like_this(
    reply: Reply,
    job: isize,
    inspection: Option<Failure>,
    parent: SpawnParent,
    launched: Launched,
    replies: Seq<Reply>,
)
    ensures
        Launch::ran(Seq::empty()) == (Launch::InspectJob { job: 0 }),
        Launch::ran(replies.push(reply)) == Launch::ran(replies).after(reply),
        (Launch::InspectJob { job }).after(reply) == (if reply.status == 0 {
            Launch::TerminateAndWait {
                inspection: Some(
                    Failure::System {
                        operation: Some(Operation::InspectJob),
                        code: reply.last_error,
                    },
                ),
            }
        } else if reply.number != 0 {
            Launch::TerminateAndWait { inspection: None }
        } else {
            Launch::Finished(Ok(Daemon::Kept))
        }),
        (Launch::TerminateAndWait { inspection }).after(reply) == (if reply.failure is Some {
            Launch::CloseChild {
                launched: Err(
                    LaunchFailure { context: None, failure: reply.failure->Some_0 },
                ),
            }
        } else if inspection is Some {
            Launch::CloseChild {
                launched: Err(LaunchFailure { context: None, failure: inspection->Some_0 }),
            }
        } else {
            Launch::CreateParent
        }),
        Launch::CreateParent.after(reply) == (if reply.failure is Some {
            Launch::CloseChild {
                launched: Err(
                    LaunchFailure {
                        context: Some(Context::Parent),
                        failure: reply.failure->Some_0,
                    },
                ),
            }
        } else {
            Launch::SpawnDaemon {
                parent: SpawnParent { process: reply.handle, pipe: reply.second },
            }
        }),
        (Launch::SpawnDaemon { parent }).after(reply) == (Launch::CloseParent {
            parent,
            launched: if reply.failure is Some {
                Err(
                    LaunchFailure {
                        context: Some(Context::Daemon),
                        failure: reply.failure->Some_0,
                    },
                )
            } else {
                Ok(Daemon::Created { process: reply.handle })
            },
        }),
        (Launch::CloseParent { parent, launched }).after(reply) == (Launch::CloseChild {
            launched,
        }),
        (Launch::CloseChild { launched }).after(reply) == Launch::Finished(launched),
        Launch::Finished(launched).after(reply) == Launch::Finished(launched),
{
    assert(replies.push(reply).drop_last() =~= replies);
}

/// A failure to start the parent and one to create the daemon are reported in
/// their own words.
pub proof fn contexts_are_named()
    ensures
        Context::Parent.words() == "cannot establish independent daemon parent"@,
        Context::Daemon.words()
            == "cannot create daemon with original token and independent parent"@,
{
}

} // verus!
