//! The two waits on the pipe: the launcher's for its temporary parent to
//! connect, and the parent's for the launcher to be done.

use vstd::prelude::*;

use crate::failure::Failure;
use crate::failure::Operation;
use crate::win32::is_handle;
use crate::win32::owned;
use crate::win32::unowned;
use crate::win32::Reply;
use crate::win32::ERROR_BROKEN_PIPE;
use crate::win32::ERROR_PIPE_CONNECTED;
use crate::win32::ERROR_PIPE_LISTENING;
use crate::win32::GENERIC_READ;
use crate::win32::GENERIC_WRITE;
use crate::win32::OPEN_EXISTING;
use crate::win32::SECURITY_IDENTIFICATION;
use crate::win32::SECURITY_SQOS_PRESENT;

verus! {

/// How long either side waits for the other.
pub const SPAWN_PARENT_TIMEOUT_MS: u64 = 30000;

/// The pause between two looks at the pipe.
pub const POLL_INTERVAL_MS: u64 = 10;

/// What the launcher does while it waits for its parent to connect.
#[derive(Clone, Copy, Debug, PartialEq, Eq)]
pub enum ConnectionWait {
    /// Ask whether the parent has connected.
    Connect,
    /// Read the milliseconds since the wait began.
    ReadClock,
    Sleep { millis: u64 },
    Finished(Result<(), Failure>),
}

/// The code with which the system says that the parent is connected.
pub open spec fn says_connected(reply: Reply) -> bool {
    reply.status == 0 && reply.last_error == ERROR_PIPE_CONNECTED
}

/// The pipe is fine but no parent has connected yet. A call that succeeds says
/// no more: the pipe may report that it listens.
pub open spec fn says_listening(reply: Reply) -> bool {
    reply.status != 0 || reply.last_error == ERROR_PIPE_LISTENING
}

impl ConnectionWait {
    pub open spec fn after(self, reply: Reply) -> ConnectionWait {
        match self {
            ConnectionWait::Connect => if says_connected(reply) {
                ConnectionWait::Finished(Ok(()))
            } else if says_listening(reply) {
                ConnectionWait::ReadClock
            } else {
                ConnectionWait::Finished(
                    Err(
                        Failure::System {
                            operation: Some(Operation::AcceptParent),
                            code: reply.last_error,
                        },
                    ),
                )
            },
            ConnectionWait::ReadClock => if reply.number < SPAWN_PARENT_TIMEOUT_MS {
                ConnectionWait::Sleep { millis: POLL_INTERVAL_MS }
            } else {
                ConnectionWait::Finished(Err(Failure::ConnectionTimedOut))
            },
            ConnectionWait::Sleep { .. } => ConnectionWait::Connect,
            ConnectionWait::Finished(outcome) => ConnectionWait::Finished(outcome),
        }
    }

    /// The wait after these replies, one after the other.
    pub open spec fn ran(replies: Seq<Reply>) -> ConnectionWait
        decreases replies.len(),
    {
        if replies.len() == 0 {
            ConnectionWait::Connect
        } else {
            ConnectionWait::ran(replies.drop_last()).after(replies.last())
        }
    }

    pub fn new() -> (wait: ConnectionWait)
        ensures
            wait == ConnectionWait::ran(Seq::empty()),
    {
        ConnectionWait::Connect
    }

    /// Takes the reply to what was to be done.
    pub fn advance(&mut self, reply: Reply)
        ensures
            *final(self) == old(self).after(reply),
    {
        *self =
        match *self {
            ConnectionWait::Connect => {
                if reply.status != 0 || reply.last_error == ERROR_PIPE_LISTENING {
                    ConnectionWait::ReadClock
                } else if reply.last_error == ERROR_PIPE_CONNECTED {
                    ConnectionWait::Finished(Ok(()))
                } else {
                    ConnectionWait::Finished(
                        Err(
                            Failure::System {
                                operation: Some(Operation::AcceptParent),
                                code: reply.last_error,
                            },
                        ),
                    )
                }
            },
            ConnectionWait::ReadClock => {
                if reply.number < SPAWN_PARENT_TIMEOUT_MS {
                    ConnectionWait::Sleep { millis: POLL_INTERVAL_MS }
                } else {
                    ConnectionWait::Finished(Err(Failure::ConnectionTimedOut))
                }
            },
            ConnectionWait::Sleep { millis: _ } => ConnectionWait::Connect,
            ConnectionWait::Finished(outcome) => ConnectionWait::Finished(outcome),
        };
    }
}

/// Whether the reply at `i` is the one that tells the launcher that its parent
/// has connected.
pub open spec fn connected_at(replies: Seq<Reply>, i: int) -> bool {
    &&& 0 <= i < replies.len()
    &&& ConnectionWait::ran(replies.take(i)) == ConnectionWait::Connect
    &&& says_connected(replies[i])
}

/// The launcher goes on if and only if the system has said that the parent is
/// connected.
pub proof fn launcher_goes_on_when_connected(replies: Seq<Reply>)
    ensures
        ConnectionWait::ran(replies) == ConnectionWait::Finished(Ok(())) <==> exists|i: int|
            connected_at(replies, i),
    decreases replies.len(),
{
    if replies.len() == 0 {
        assert(!(exists|i: int| connected_at(replies, i)));
    } else {
        let front = replies.drop_last();
        let last = replies.len() - 1;
        launcher_goes_on_when_connected(front);
        assert(replies.take(last) =~= front);
        assert forall|i: int| 0 <= i < last implies connected_at(front, i) == connected_at(
            replies,
            i,
        ) by {
            assert(front.take(i) =~= replies.take(i));
        }
        if ConnectionWait::ran(front) == ConnectionWait::Finished(Ok(())) {
            let i = choose|i: int| connected_at(front, i);
            assert(connected_at(replies, i));
        } else if ConnectionWait::ran(replies) == ConnectionWait::Finished(Ok(())) {
            assert(connected_at(replies, last));
        } else {
            assert forall|i: int| !connected_at(replies, i) by {
                if connected_at(replies, i) && i < last {
                    assert(connected_at(front, i));
                }
            }
        }
    }
}

/// The launcher never sleeps once its time is over.
pub proof fn launcher_sleeps_only_in_time(replies: Seq<Reply>)
    requires
        ConnectionWait::ran(replies) matches ConnectionWait::Sleep { .. },
    ensures
        replies.len() > 0,
        replies.last().number < SPAWN_PARENT_TIMEOUT_MS,
        ConnectionWait::ran(replies) == (ConnectionWait::Sleep { millis: POLL_INTERVAL_MS }),
{
}

/// What the temporary parent does while it stands in for the launcher.
#[derive(Clone, Copy, Debug, PartialEq, Eq)]
pub enum ParentHold {
    /// Open the launcher's pipe. The launcher may learn who opened it but not
    /// act as them.
    Connect { access: u32, share: u32, disposition: u32, flags: u32 },
    /// Read the milliseconds since the pipe was opened.
    ReadClock { pipe: isize },
    /// See whether the launcher still has the pipe open.
    Peek { pipe: isize },
    Sleep { pipe: isize, millis: u64 },
    ClosePipe { pipe: isize, outcome: Result<(), Failure> },
    Finished(Result<(), Failure>),
}

/// The launcher has closed its end of the pipe.
pub open spec fn says_closed(reply: Reply) -> bool {
    reply.status == 0 && reply.last_error == ERROR_BROKEN_PIPE
}

impl ParentHold {
    pub open spec fn started() -> ParentHold {
        ParentHold::Connect {
            access: GENERIC_READ | GENERIC_WRITE,
            share: 0,
            disposition: OPEN_EXISTING,
            flags: SECURITY_SQOS_PRESENT | SECURITY_IDENTIFICATION,
        }
    }

    pub open spec fn after(self, reply: Reply) -> ParentHold {
        match self {
            ParentHold::Connect { .. } => match unowned(
                Some(Operation::ConnectParentPipe),
                reply,
            ) {
                Some(failure) => ParentHold::Finished(Err(failure)),
                None => ParentHold::ReadClock { pipe: reply.handle },
            },
            ParentHold::ReadClock { pipe } => if reply.number < SPAWN_PARENT_TIMEOUT_MS {
                ParentHold::Peek { pipe }
            } else {
                ParentHold::ClosePipe { pipe, outcome: Ok(()) }
            },
            ParentHold::Peek { pipe } => if reply.status != 0 {
                ParentHold::Sleep { pipe, millis: POLL_INTERVAL_MS }
            } else if says_closed(reply) {
                ParentHold::ClosePipe { pipe, outcome: Ok(()) }
            } else {
                ParentHold::ClosePipe {
                    pipe,
                    outcome: Err(
                        Failure::System {
                            operation: Some(Operation::WaitForRelease),
                            code: reply.last_error,
                        },
                    ),
                }
            },
            ParentHold::Sleep { pipe, .. } => ParentHold::ReadClock { pipe },
            ParentHold::ClosePipe { outcome, .. } => ParentHold::Finished(outcome),
            ParentHold::Finished(outcome) => ParentHold::Finished(outcome),
        }
    }

    /// The wait after these replies, one after the other.
    pub open spec fn ran(replies: Seq<Reply>) -> ParentHold
        decreases replies.len(),
    {
        if replies.len() == 0 {
            ParentHold::started()
        } else {
            ParentHold::ran(replies.drop_last()).after(replies.last())
        }
    }

    pub fn new() -> (hold: ParentHold)
        ensures
            hold == ParentHold::ran(Seq::empty()),
    {
        ParentHold::Connect {
            access: GENERIC_READ | GENERIC_WRITE,
            share: 0,
            disposition: OPEN_EXISTING,
            flags: SECURITY_SQOS_PRESENT | SECURITY_IDENTIFICATION,
        }
    }

    /// Takes the reply to what was to be done.
    pub fn advance(&mut self, reply: Reply)
        ensures
            *final(self) == old(self).after(reply),
    {
        *self =
        match *self {
            ParentHold::Connect { access: _, share: _, disposition: _, flags: _ } => {
                match owned(reply.handle, Some(Operation::ConnectParentPipe), reply.last_error) {
                    Ok(pipe) => ParentHold::ReadClock { pipe },
                    Err(failure) => ParentHold::Finished(Err(failure)),
                }
            },
            ParentHold::ReadClock { pipe } => {
                if reply.number < SPAWN_PARENT_TIMEOUT_MS {
                    ParentHold::Peek { pipe }
                } else {
                    ParentHold::ClosePipe { pipe, outcome: Ok(()) }
                }
            },
            ParentHold::Peek { pipe } => {
                if reply.status != 0 {
                    ParentHold::Sleep { pipe, millis: POLL_INTERVAL_MS }
                } else if reply.last_error == ERROR_BROKEN_PIPE {
                    ParentHold::ClosePipe { pipe, outcome: Ok(()) }
                } else {
                    ParentHold::ClosePipe {
                        pipe,
                        outcome: Err(
                            Failure::System {
                                operation: Some(Operation::WaitForRelease),
                                code: reply.last_error,
                            },
                        ),
                    }
                }
            },
            ParentHold::Sleep { pipe, millis: _ } => ParentHold::ReadClock { pipe },
            ParentHold::ClosePipe { pipe: _, outcome } => ParentHold::Finished(outcome),
            ParentHold::Finished(outcome) => ParentHold::Finished(outcome),
        };
    }
}

/// Whether the reply at `i` lets the temporary parent go: the launcher has
/// closed the pipe, or the time is over.
pub open spec fn let_go_at(replies: Seq<Reply>, i: int) -> bool {
    &&& 0 <= i < replies.len()
    &&& match ParentHold::ran(replies.take(i)) {
        ParentHold::ReadClock { .. } => replies[i].number >= SPAWN_PARENT_TIMEOUT_MS,
        ParentHold::Peek { .. } => says_closed(replies[i]),
        _ => false,
    }
}

/// The temporary parent is on its way out without a failure.
pub open spec fn leaves(hold: ParentHold) -> bool {
    match hold {
        ParentHold::ClosePipe { outcome, .. } => outcome is Ok,
        ParentHold::Finished(outcome) => outcome is Ok,
        _ => false,
    }
}

/// The temporary parent stays until it is let go: it leaves if and only if the
/// launcher has closed the pipe or the time is over.
pub proof fn parent_stays_until_let_go(replies: Seq<Reply>)
    ensures
        leaves(ParentHold::ran(replies)) <==> exists|i: int| let_go_at(replies, i),
    decreases replies.len(),
{
    if replies.len() == 0 {
        assert(!(exists|i: int| let_go_at(replies, i)));
    } else {
        let front = replies.drop_last();
        let last = replies.len() - 1;
        parent_stays_until_let_go(front);
        assert(replies.take(last) =~= front);
        assert forall|i: int| 0 <= i < last implies let_go_at(front, i) == let_go_at(
            replies,
            i,
        ) by {
            assert(front.take(i) =~= replies.take(i));
        }
        if leaves(ParentHold::ran(front)) {
            let i = choose|i: int| let_go_at(front, i);
            assert(let_go_at(replies, i));
        } else if leaves(ParentHold::ran(replies)) {
            assert(let_go_at(replies, last));
        } else {
            assert forall|i: int| !let_go_at(replies, i) by {
                if let_go_at(replies, i) && i < last {
                    assert(let_go_at(front, i));
                }
            }
        }
    }
}

/// The pipe that the temporary parent holds, while it holds one.
pub open spec fn held_pipe(hold: ParentHold) -> Option<isize> {
    match hold {
        ParentHold::ReadClock { pipe } => Some(pipe),
        ParentHold::Peek { pipe } => Some(pipe),
        ParentHold::Sleep { pipe, .. } => Some(pipe),
        ParentHold::ClosePipe { pipe, .. } => Some(pipe),
        _ => None,
    }
}

/// A pipe that was opened stays the one in use, and nothing but closing it
/// lets the temporary parent finish.
pub proof fn pipe_is_closed_before_the_parent_finishes(hold: ParentHold, reply: Reply)
    requires
        held_pipe(hold) is Some,
    ensures
        held_pipe(hold.after(reply)) == (if hold is ClosePipe {
            None
        } else {
            held_pipe(hold)
        }),
        hold.after(reply) is Finished <==> hold is ClosePipe,
{
}

/// A temporary parent that cannot open the pipe finishes at once, with a
/// failure: one that is started after the launcher has given up does not stay.
pub proof fn parent_without_a_pipe_finishes(replies: Seq<Reply>)
    requires
        replies.len() > 0,
        !is_handle(replies[0].handle),
    ensures
        ParentHold::ran(replies) == ParentHold::Finished(
            Err(
                Failure::System {
                    operation: Some(Operation::ConnectParentPipe),
                    code: replies[0].last_error,
                },
            ),
        ),
    decreases replies.len(),
{
    let front = replies.drop_last();
    if replies.len() > 1 {
        parent_without_a_pipe_finishes(front);
    } else {
        assert(ParentHold::ran(front) == ParentHold::started());
    }
}

/// The exit code of a program that ran as the temporary parent.
pub fn exit_code(outcome: &Result<(), Failure>) -> (code: i32)
    ensures
        code == (if outcome is Ok {
            0int
        } else {
            1
        }),
{
    match outcome {
        Ok(()) => 0,
        Err(_) => 1,
    }
}

/// How the launcher waits. A connect call that fails with the code for a
/// connected pipe ends the wait well; one that succeeds, or fails with the
/// code for a listening pipe, sends it to the clock; any other code ends it
/// with that code. Before thirty seconds have passed it sleeps for ten
/// milliseconds and asks again; from then on it gives up. A wait that is over
/// stays so.
pub proof fn launcher_waits_like_this(
    reply: Reply,
    millis: u64,
    outcome: Result<(), Failure>,
    replies: Seq<Reply>,
)
    ensures
        ConnectionWait::ran(Seq::empty()) == ConnectionWait::Connect,
        ConnectionWait::ran(replies.push(reply)) == ConnectionWait::ran(replies).after(reply),
        ConnectionWait::Connect.after(reply) == (if reply.status != 0 || reply.last_error == 536 {
            ConnectionWait::ReadClock
        } else if reply.last_error == 535 {
            ConnectionWait::Finished(Ok(()))
        } else {
            ConnectionWait::Finished(
                Err(
                    Failure::System {
                        operation: Some(Operation::AcceptParent),
                        code: reply.last_error,
                    },
                ),
            )
        }),
        ConnectionWait::ReadClock.after(reply) == (if reply.number < 30000 {
            ConnectionWait::Sleep { millis: 10 }
        } else {
            ConnectionWait::Finished(Err(Failure::ConnectionTimedOut))
        }),
        (ConnectionWait::Sleep { millis }).after(reply) == ConnectionWait::Connect,
        ConnectionWait::Finished(outcome).after(reply) == ConnectionWait::Finished(outcome),
{
    assert(replies.push(reply).drop_last() =~= replies);
}

/// How the temporary parent holds on. It opens the pipe for reading and
/// writing, shared with no one, letting the other side identify it only. A
/// pipe that is no handle ends it. Before thirty seconds have passed it looks
/// at the pipe: while the pipe is open it sleeps for ten milliseconds and goes
/// on, a broken pipe lets it go, and any other error ends it with that error.
/// When the time is over it goes too. It closes the pipe that it opened and
/// then finishes with what it came to.
pub proof fn parent_holds_on_like_this(
    reply: Reply,
    pipe: isize,
    millis: u64,
    outcome: Result<(), Failure>,
    replies: Seq<Reply>,
)
    ensures
        ParentHold::ran(Seq::empty()) == (ParentHold::Connect {
            access: 0xC0000000,
            share: 0,
            disposition: 3,
            flags: 0x110000,
        }),
        ParentHold::ran(replies.push(reply)) == ParentHold::ran(replies).after(reply),
        ParentHold::ran(Seq::empty()).after(reply) == (if reply.handle == 0 || reply.handle == -1 {
            ParentHold::Finished(
                Err(
                    Failure::System {
                        operation: Some(Operation::ConnectParentPipe),
                        code: reply.last_error,
                    },
                ),
            )
        } else {
            ParentHold::ReadClock { pipe: reply.handle }
        }),
        (ParentHold::ReadClock { pipe }).after(reply) == (if reply.number < 30000 {
            ParentHold::Peek { pipe }
        } else {
            ParentHold::ClosePipe { pipe, outcome: Ok(()) }
        }),
        (ParentHold::Peek { pipe }).after(reply) == (if reply.status != 0 {
            ParentHold::Sleep { pipe, millis: 10 }
        } else if reply.last_error == 109 {
            ParentHold::ClosePipe { pipe, outcome: Ok(()) }
        } else {
            ParentHold::ClosePipe {
                pipe,
                outcome: Err(
                    Failure::System {
                        operation: Some(Operation::WaitForRelease),
                        code: reply.last_error,
                    },
                ),
            }
        }),
        (ParentHold::Sleep { pipe, millis }).after(reply) == (ParentHold::ReadClock { pipe }),
        (ParentHold::ClosePipe { pipe, outcome }).after(reply) == ParentHold::Finished(outcome),
        ParentHold::Finished(outcome).after(reply) == ParentHold::Finished(outcome),
{
    assert(0x80000000u32 | 0x40000000u32 == 0xC0000000u32) by (bit_vector);
    assert(0x100000u32 | 0x10000u32 == 0x110000u32) by (bit_vector);
    assert(replies.push(reply).drop_last() =~= replies);
}

} // verus!
