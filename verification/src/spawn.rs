//! Creating the daemon as a child of a chosen parent process.

use vstd::prelude::*;

use crate::encoding::environment::environment;
use crate::encoding::environment::Environment;
use crate::encoding::quoting::command_line;
use crate::encoding::quoting::command_words;
use crate::encoding::quoting::joined;
use crate::encoding::quoting::some_nul;
use crate::encoding::quoting::COMMAND_LINE_LIMIT;
use crate::encoding::wide::terminated;
use crate::encoding::wide::wide;
use crate::failure::Failure;
use crate::failure::Operation;
use crate::procedure::needed;
use crate::procedure::owed;
use crate::procedure::passed;
use crate::procedure::pending;
use crate::procedure::ran;
use crate::procedure::run_is_determined;
use crate::procedure::settled;
use crate::procedure::Procedure;
use crate::win32::check;
use crate::win32::check_handle;
use crate::win32::check_reply;
use crate::win32::failed;
use crate::win32::unowned;
use crate::win32::words_for;
use crate::win32::words_holding;
use crate::win32::Reply;
use crate::win32::CREATE_UNICODE_ENVIRONMENT;
use crate::win32::DETACHED_PROCESS;
use crate::win32::DUPLICATE_CLOSE_SOURCE;
use crate::win32::DUPLICATE_SAME_ACCESS;
use crate::win32::EXTENDED_STARTUPINFO_PRESENT;
use crate::win32::PROC_THREAD_ATTRIBUTE_HANDLE_LIST;
use crate::win32::PROC_THREAD_ATTRIBUTE_PARENT_PROCESS;
use crate::win32::STARTF_USESHOWWINDOW;
use crate::win32::STARTF_USESTDHANDLES;
use crate::win32::TOKEN_ASSIGN_PRIMARY;
use crate::win32::TOKEN_DUPLICATE;
use crate::win32::TOKEN_QUERY;

verus! {

/// The strings that a daemon is created with.
pub struct SpawnStrings {
    pub application: Vec<u16>,
    pub command_line: Vec<u16>,
    pub environment: Vec<u16>,
    pub directory: Option<Vec<u16>>,
}

impl SpawnStrings {
    /// These are the strings of the command.
    pub open spec fn encode(
        self,
        program: Seq<u16>,
        arguments: Seq<Vec<u16>>,
        request: Environment,
        directory: Option<Seq<u16>>,
    ) -> bool {
        &&& self.application@ == terminated(program)
        &&& self.command_line@ == joined(command_words(program, arguments)).push(0)
        &&& request.laid_out(self.environment@)
        &&& self.directory is Some <==> directory is Some
        &&& directory is Some ==> self.directory->Some_0@ == terminated(directory->Some_0)
    }
}

/// What a command cannot be encoded for, if anything: the program, the command
/// line, the environment and the directory are tried in this order.
pub open spec fn unencodable(
    program: Seq<u16>,
    arguments: Seq<Vec<u16>>,
    request: Environment,
    directory: Option<Seq<u16>>,
) -> Option<Failure> {
    if program.contains(0) {
        Some(Failure::NulInParameter)
    } else if some_nul(command_words(program, arguments)) {
        Some(Failure::NulInCommandLine)
    } else if joined(command_words(program, arguments)).len() >= COMMAND_LINE_LIMIT {
        Some(Failure::CommandLineTooLong)
    } else if !request.encodable() || directory is Some && directory->Some_0.contains(0) {
        Some(Failure::NulInParameter)
    } else {
        None
    }
}

/// Encodes a command for the system.
pub fn spawn_strings(
    program: &[u16],
    arguments: &Vec<Vec<u16>>,
    request: &Environment,
    directory: Option<&[u16]>,
) -> (strings: Result<SpawnStrings, Failure>)
    requires
        request.complete(),
    ensures
        ({
            let directory = match directory {
                Some(directory) => Some(directory@),
                None => None,
            };
            match strings {
                Ok(strings) => {
                    &&& unencodable(program@, arguments@, *request, directory) is None
                    &&& strings.encode(program@, arguments@, *request, directory)
                },
                Err(failure) => unencodable(program@, arguments@, *request, directory) == Some(
                    failure,
                ),
            }
        }),
{
    let application = wide(program)?;
    let command_line = command_line(program, arguments)?;
    let environment = environment(request)?;
    let directory = match directory {
        Some(directory) => Some(wide(directory)?),
        None => None,
    };
    Ok(SpawnStrings { application, command_line, environment, directory })
}

/// The strings of a command and the spawn that they are for. A spawn begins
/// only once its command has been encoded.
pub fn prepare_spawn(
    program: &[u16],
    arguments: &Vec<Vec<u16>>,
    request: &Environment,
    directory: Option<&[u16]>,
    parent: isize,
    stderr: isize,
    creation_flags: u32,
) -> (prepared: Result<(Spawn, SpawnStrings), Failure>)
    requires
        request.complete(),
    ensures
        ({
            let directory = match directory {
                Some(directory) => Some(directory@),
                None => None,
            };
            match prepared {
                Ok((spawn, strings)) => {
                    &&& unencodable(program@, arguments@, *request, directory) is None
                    &&& spawn == (Spawn { parent, stderr, creation_flags })
                    &&& strings.encode(program@, arguments@, *request, directory)
                },
                Err(failure) => unencodable(program@, arguments@, *request, directory) == Some(
                    failure,
                ),
            }
        }),
{
    let strings = spawn_strings(program, arguments, request, directory)?;
    Ok((Spawn { parent, stderr, creation_flags }, strings))
}

/// A system call of a spawn. Handles are duplicated from this process; the
/// other parameters are those of the call.
#[derive(Clone, Copy, Debug, PartialEq, Eq, Structural)]
pub enum SpawnCall {
    /// Open the null device for reading and writing.
    OpenNul,
    Duplicate { source: isize, target: isize, access: u32, inherit: i32, options: u32 },
    SizeAttributes { count: u32 },
    InitializeAttributes { count: u32, words: u64 },
    SetHandleList { attribute: u32, input: isize, error: isize },
    SetParent { attribute: u32, parent: isize },
    OpenToken { access: u32 },
    CreateDaemon {
        token: isize,
        inherit: i32,
        flags: u32,
        startup_flags: u32,
        input: isize,
        output: isize,
        error: isize,
    },
    CloseThread { thread: isize },
    CloseToken { token: isize },
    DeleteAttributes,
    CloseNul { nul: isize },
    /// Close a handle in the process it was duplicated into.
    CloseDuplicate { process: isize, handle: isize, options: u32 },
}

/// The handles that were made in the parent by duplications with these
/// replies.
pub open spec fn duplicated(replies: Seq<Reply>) -> Seq<isize> {
    replies.filter(|reply: Reply| reply.status != 0).map_values(|reply: Reply| reply.handle)
}

/// Closes each of the handles in `parent`.
pub open spec fn closings(parent: isize, handles: Seq<isize>) -> Seq<SpawnCall> {
    handles.map_values(
        |handle: isize|
            SpawnCall::CloseDuplicate { process: parent, handle, options: DUPLICATE_CLOSE_SOURCE },
    )
}

/// Handles that were made in the parent and are closed there in the end.
pub struct SpawnParentHandles {
    pub parent: isize,
    pub handles: Vec<isize>,
}

impl SpawnParentHandles {
    pub fn new(parent: isize) -> (handles: SpawnParentHandles)
        ensures
            handles.parent == parent,
            handles.handles@ == duplicated(Seq::empty()),
    {
        let handles = SpawnParentHandles { parent, handles: Vec::new() };
        proof {
            reveal(Seq::filter);
            assert(handles.handles@ =~= duplicated(Seq::empty()));
        }
        handles
    }

    /// Takes the reply to a duplication into the parent, and gives the handle
    /// that it made there.
    pub fn duplicate_into_parent(&mut self, reply: Reply) -> (outcome: Result<isize, Failure>)
        ensures
            outcome == (match failed(Operation::DuplicateStdio, reply) {
                Some(failure) => Err(failure),
                None => Ok(reply.handle),
            }),
            final(self).parent == old(self).parent,
            final(self).handles@ == (if outcome is Ok {
                old(self).handles@.push(reply.handle)
            } else {
                old(self).handles@
            }),
            forall|replies: Seq<Reply>|
                old(self).handles@ == duplicated(replies) ==> final(self).handles@
                    == #[trigger] duplicated(replies.push(reply)),
    {
        let outcome = match check(reply.status, Operation::DuplicateStdio, reply.last_error) {
            Ok(()) => {
                self.handles.push(reply.handle);
                Ok(reply.handle)
            },
            Err(failure) => Err(failure),
        };
        proof {
            assert forall|replies: Seq<Reply>|
                old(self).handles@ == duplicated(replies) implies self.handles@
                == #[trigger] duplicated(replies.push(reply)) by {
                duplicated_of_push(replies, reply);
            }
        }
        outcome
    }

    /// The calls that close the handles. What one of them answers does not
    /// matter to the others.
    pub fn close_all(&self) -> (calls: Vec<SpawnCall>)
        ensures
            calls@ == closings(self.parent, self.handles@),
    {
        let mut calls: Vec<SpawnCall> = Vec::new();
        let mut i: usize = 0;
        while i < self.handles.len()
            invariant
                i <= self.handles@.len(),
                calls@ == closings(self.parent, self.handles@).take(i as int),
            decreases self.handles.len() - i,
        {
            calls.push(
                SpawnCall::CloseDuplicate {
                    process: self.parent,
                    handle: self.handles[i],
                    options: DUPLICATE_CLOSE_SOURCE,
                },
            );
            i += 1;
            proof {
                assert(calls@ =~= closings(self.parent, self.handles@).take(i as int));
            }
        }
        proof {
            assert(calls@ =~= closings(self.parent, self.handles@));
        }
        calls
    }
}

proof fn duplicated_of_push(replies: Seq<Reply>, reply: Reply)
    ensures
        duplicated(replies.push(reply)) == (if reply.status != 0 {
            duplicated(replies).push(reply.handle)
        } else {
            duplicated(replies)
        }),
{
    reveal(Seq::filter);
    assert(replies.push(reply).drop_last() =~= replies);
    assert(duplicated(replies.push(reply)) =~= (if reply.status != 0 {
        duplicated(replies).push(reply.handle)
    } else {
        duplicated(replies)
    }));
}

/// However many duplications there were, each handle that one of them made is
/// closed once, in the parent and in the order of making, and no other is.
pub proof fn duplicates_are_closed(parent: isize, replies: Seq<Reply>, reply: Reply)
    ensures
        closings(parent, duplicated(replies)).len() == duplicated(replies).len(),
        forall|i: int|
            0 <= i < duplicated(replies).len() ==> #[trigger] closings(
                parent,
                duplicated(replies),
            )[i] == (SpawnCall::CloseDuplicate {
                process: parent,
                handle: duplicated(replies)[i],
                options: DUPLICATE_CLOSE_SOURCE,
            }),
        closings(parent, duplicated(Seq::empty())) == Seq::<SpawnCall>::empty(),
        closings(parent, duplicated(replies.push(reply))) == (if reply.status == 0 {
            closings(parent, duplicated(replies))
        } else {
            closings(parent, duplicated(replies)).push(
                SpawnCall::CloseDuplicate {
                    process: parent,
                    handle: reply.handle,
                    options: DUPLICATE_CLOSE_SOURCE,
                },
            )
        }),
{
    duplicated_of_push(replies, reply);
    reveal(Seq::filter);
    assert(closings(parent, duplicated(Seq::empty())) =~= Seq::<SpawnCall>::empty());
    assert(closings(parent, duplicated(replies).push(reply.handle)) =~= closings(
        parent,
        duplicated(replies),
    ).push(
        SpawnCall::CloseDuplicate {
            process: parent,
            handle: reply.handle,
            options: DUPLICATE_CLOSE_SOURCE,
        },
    ));
}

/// The steps of a spawn, in order.
pub const OPEN_NUL: usize = 0;

pub const DUPLICATE_INPUT: usize = 1;

pub const DUPLICATE_ERROR: usize = 2;

pub const SIZE_ATTRIBUTES: usize = 3;

pub const INITIALIZE_ATTRIBUTES: usize = 4;

pub const SET_HANDLE_LIST: usize = 5;

pub const SET_PARENT: usize = 6;

pub const OPEN_TOKEN: usize = 7;

pub const CREATE_DAEMON: usize = 8;

pub const SPAWN_STEPS: usize = 9;

/// The startup attributes: the handle list and the parent.
pub const ATTRIBUTE_COUNT: u32 = 2;

/// The creation of a daemon under `parent`, which gets the null device as its
/// input and output and `stderr` as its error output.
pub struct Spawn {
    pub parent: isize,
    pub stderr: isize,
    pub creation_flags: u32,
}

impl Spawn {
    /// The daemon runs apart from any console, with the caller's own flags.
    pub open spec fn flags(self) -> u32 {
        self.creation_flags | DETACHED_PROCESS | EXTENDED_STARTUPINFO_PRESENT
            | CREATE_UNICODE_ENVIRONMENT
    }

    fn release_list(&self, replies: &Vec<Reply>) -> (calls: Vec<SpawnCall>)
        requires
            replies@.len() <= SPAWN_STEPS,
        ensures
            calls@ == self.releases(replies@),
    {
        let mut calls: Vec<SpawnCall> = Vec::new();
        let count: usize = replies.len();
        if count > CREATE_DAEMON {
            calls.push(SpawnCall::CloseThread { thread: replies[CREATE_DAEMON].second });
        }
        if count > OPEN_TOKEN {
            calls.push(SpawnCall::CloseToken { token: replies[OPEN_TOKEN].handle });
        }
        if count > INITIALIZE_ATTRIBUTES {
            calls.push(SpawnCall::DeleteAttributes);
        }
        if count > OPEN_NUL {
            calls.push(SpawnCall::CloseNul { nul: replies[OPEN_NUL].handle });
        }
        let mut handles = SpawnParentHandles::new(self.parent);
        if count > DUPLICATE_INPUT {
            let _ = handles.duplicate_into_parent(replies[DUPLICATE_INPUT]);
        }
        if count > DUPLICATE_ERROR {
            let _ = handles.duplicate_into_parent(replies[DUPLICATE_ERROR]);
        }
        let mut last = handles.close_all();
        calls.append(&mut last);
        proof {
            let none = Seq::<Reply>::empty();
            if count > DUPLICATE_INPUT {
                let first = none.push(replies@[DUPLICATE_INPUT as int]);
                assert(first =~= seq![replies@[DUPLICATE_INPUT as int]]);
                if count > DUPLICATE_ERROR {
                    assert(first.push(replies@[DUPLICATE_ERROR as int]) =~= seq![
                        replies@[DUPLICATE_INPUT as int],
                        replies@[DUPLICATE_ERROR as int],
                    ]);
                }
            }
            assert(handles.handles@ == duplicated(duplications(replies@)));
            assert(calls@ =~= self.releases(replies@));
        }
        calls
    }
}

/// The replies to the duplications among those to the steps of a spawn.
pub open spec fn duplications(replies: Seq<Reply>) -> Seq<Reply> {
    if replies.len() > DUPLICATE_ERROR {
        seq![replies[DUPLICATE_INPUT as int], replies[DUPLICATE_ERROR as int]]
    } else if replies.len() > DUPLICATE_INPUT {
        seq![replies[DUPLICATE_INPUT as int]]
    } else {
        Seq::empty()
    }
}

impl Procedure for Spawn {
    type Action = SpawnCall;

    type Product = isize;

    open spec fn steps(&self) -> nat {
        SPAWN_STEPS as nat
    }

    open spec fn verdict(&self, step: nat, reply: Reply) -> Option<Failure> {
        if step == OPEN_NUL {
            unowned(None, reply)
        } else if step == DUPLICATE_INPUT || step == DUPLICATE_ERROR {
            failed(Operation::DuplicateStdio, reply)
        } else if step == SIZE_ATTRIBUTES {
            if reply.number == 0 {
                Some(Failure::InvalidAttributeSize)
            } else {
                None
            }
        } else if step == INITIALIZE_ATTRIBUTES {
            failed(Operation::InitializeAttributes, reply)
        } else if step == SET_HANDLE_LIST {
            failed(Operation::SetHandleList, reply)
        } else if step == SET_PARENT {
            failed(Operation::SetParent, reply)
        } else if step == OPEN_TOKEN {
            if reply.status == 0 {
                failed(Operation::OpenCallerToken, reply)
            } else {
                unowned(None, reply)
            }
        } else {
            failed(Operation::CreateDaemon, reply)
        }
    }

    open spec fn call(&self, replies: Seq<Reply>) -> SpawnCall {
        let step = replies.len();
        if step == OPEN_NUL {
            SpawnCall::OpenNul
        } else if step == DUPLICATE_INPUT || step == DUPLICATE_ERROR {
            SpawnCall::Duplicate {
                source: if step == DUPLICATE_INPUT {
                    replies[OPEN_NUL as int].handle
                } else {
                    self.stderr
                },
                target: self.parent,
                access: 0,
                inherit: 1,
                options: DUPLICATE_SAME_ACCESS,
            }
        } else if step == SIZE_ATTRIBUTES {
            SpawnCall::SizeAttributes { count: ATTRIBUTE_COUNT }
        } else if step == INITIALIZE_ATTRIBUTES {
            SpawnCall::InitializeAttributes {
                count: ATTRIBUTE_COUNT,
                words: words_holding(replies[SIZE_ATTRIBUTES as int].number) as u64,
            }
        } else if step == SET_HANDLE_LIST {
            SpawnCall::SetHandleList {
                attribute: PROC_THREAD_ATTRIBUTE_HANDLE_LIST,
                input: replies[DUPLICATE_INPUT as int].handle,
                error: replies[DUPLICATE_ERROR as int].handle,
            }
        } else if step == SET_PARENT {
            SpawnCall::SetParent {
                attribute: PROC_THREAD_ATTRIBUTE_PARENT_PROCESS,
                parent: self.parent,
            }
        } else if step == OPEN_TOKEN {
            SpawnCall::OpenToken { access: TOKEN_QUERY | TOKEN_DUPLICATE | TOKEN_ASSIGN_PRIMARY }
        } else {
            SpawnCall::CreateDaemon {
                token: replies[OPEN_TOKEN as int].handle,
                inherit: 1,
                flags: self.flags(),
                startup_flags: STARTF_USESTDHANDLES | STARTF_USESHOWWINDOW,
                input: replies[DUPLICATE_INPUT as int].handle,
                output: replies[DUPLICATE_INPUT as int].handle,
                error: replies[DUPLICATE_ERROR as int].handle,
            }
        }
    }

    open spec fn releases(&self, replies: Seq<Reply>) -> Seq<SpawnCall> {
        let taken = |step: usize| replies.len() > step;
        let handle = |step: usize| replies[step as int].handle;
        needed(
            taken(CREATE_DAEMON),
            SpawnCall::CloseThread { thread: replies[CREATE_DAEMON as int].second },
        ) + needed(taken(OPEN_TOKEN), SpawnCall::CloseToken { token: handle(OPEN_TOKEN) }) + needed(
            taken(INITIALIZE_ATTRIBUTES),
            SpawnCall::DeleteAttributes,
        ) + needed(taken(OPEN_NUL), SpawnCall::CloseNul { nul: handle(OPEN_NUL) }) + closings(
            self.parent,
            duplicated(duplications(replies)),
        )
    }

    open spec fn product(&self, replies: Seq<Reply>) -> isize {
        replies[CREATE_DAEMON as int].handle
    }

    fn step_count(&self) -> (count: usize) {
        SPAWN_STEPS
    }

    fn judge(&self, step: usize, reply: Reply) -> (failure: Option<Failure>) {
        if step == OPEN_NUL {
            check_handle(None, reply)
        } else if step == DUPLICATE_INPUT || step == DUPLICATE_ERROR {
            check_reply(Operation::DuplicateStdio, reply)
        } else if step == SIZE_ATTRIBUTES {
            if reply.number == 0 {
                Some(Failure::InvalidAttributeSize)
            } else {
                None
            }
        } else if step == INITIALIZE_ATTRIBUTES {
            check_reply(Operation::InitializeAttributes, reply)
        } else if step == SET_HANDLE_LIST {
            check_reply(Operation::SetHandleList, reply)
        } else if step == SET_PARENT {
            check_reply(Operation::SetParent, reply)
        } else if step == OPEN_TOKEN {
            match check_reply(Operation::OpenCallerToken, reply) {
                Some(failure) => Some(failure),
                None => check_handle(None, reply),
            }
        } else {
            check_reply(Operation::CreateDaemon, reply)
        }
    }

    fn next_call(&self, replies: &Vec<Reply>) -> (call: SpawnCall) {
        let step: usize = replies.len();
        if step == OPEN_NUL {
            SpawnCall::OpenNul
        } else if step == DUPLICATE_INPUT || step == DUPLICATE_ERROR {
            SpawnCall::Duplicate {
                source: if step == DUPLICATE_INPUT {
                    replies[OPEN_NUL].handle
                } else {
                    self.stderr
                },
                target: self.parent,
                access: 0,
                inherit: 1,
                options: DUPLICATE_SAME_ACCESS,
            }
        } else if step == SIZE_ATTRIBUTES {
            SpawnCall::SizeAttributes { count: ATTRIBUTE_COUNT }
        } else if step == INITIALIZE_ATTRIBUTES {
            SpawnCall::InitializeAttributes {
                count: ATTRIBUTE_COUNT,
                words: words_for(replies[SIZE_ATTRIBUTES].number),
            }
        } else if step == SET_HANDLE_LIST {
            SpawnCall::SetHandleList {
                attribute: PROC_THREAD_ATTRIBUTE_HANDLE_LIST,
                input: replies[DUPLICATE_INPUT].handle,
                error: replies[DUPLICATE_ERROR].handle,
            }
        } else if step == SET_PARENT {
            SpawnCall::SetParent {
                attribute: PROC_THREAD_ATTRIBUTE_PARENT_PROCESS,
                parent: self.parent,
            }
        } else if step == OPEN_TOKEN {
            SpawnCall::OpenToken { access: TOKEN_QUERY | TOKEN_DUPLICATE | TOKEN_ASSIGN_PRIMARY }
        } else {
            SpawnCall::CreateDaemon {
                token: replies[OPEN_TOKEN].handle,
                inherit: 1,
                flags: self.creation_flags | DETACHED_PROCESS | EXTENDED_STARTUPINFO_PRESENT
                    | CREATE_UNICODE_ENVIRONMENT,
                startup_flags: STARTF_USESTDHANDLES | STARTF_USESHOWWINDOW,
                input: replies[DUPLICATE_INPUT].handle,
                output: replies[DUPLICATE_INPUT].handle,
                error: replies[DUPLICATE_ERROR].handle,
            }
        }
    }

    fn release_at(&self, replies: &Vec<Reply>, index: usize) -> (call: Option<SpawnCall>) {
        let calls = self.release_list(replies);
        if index < calls.len() {
            Some(calls[index])
        } else {
            None
        }
    }

    fn take_product(&self, replies: &Vec<Reply>) -> (product: isize) {
        replies[CREATE_DAEMON].handle
    }
}

/// A daemon is always created detached and with a wide environment, and keeps
/// every flag that its caller asked for.
pub proof fn daemon_is_detached(spawn: Spawn)
    ensures
        spawn.flags() & DETACHED_PROCESS == DETACHED_PROCESS,
        spawn.flags() & EXTENDED_STARTUPINFO_PRESENT == EXTENDED_STARTUPINFO_PRESENT,
        spawn.flags() & CREATE_UNICODE_ENVIRONMENT == CREATE_UNICODE_ENVIRONMENT,
        spawn.flags() & spawn.creation_flags == spawn.creation_flags,
{
    let asked = spawn.creation_flags;
    assert((asked | 0x8 | 0x80000 | 0x400) & 0x8 == 0x8u32) by (bit_vector);
    assert((asked | 0x8 | 0x80000 | 0x400) & 0x80000 == 0x80000u32) by (bit_vector);
    assert((asked | 0x8 | 0x80000 | 0x400) & 0x400 == 0x400u32) by (bit_vector);
    assert((asked | 0x8 | 0x80000 | 0x400) & asked == asked) by (bit_vector);
}

/// The daemon is created only after every other step has been passed, and it
/// inherits exactly the handles that were duplicated into its parent.
pub proof fn daemon_is_created_last(spawn: Spawn, replies: Seq<Reply>)
    requires
        pending(spawn, ran(spawn, replies)) matches Some(SpawnCall::CreateDaemon { .. }),
    ensures
        replies.len() == CREATE_DAEMON,
        passed(spawn, replies) == CREATE_DAEMON,
        pending(spawn, ran(spawn, replies)) matches Some(
            SpawnCall::CreateDaemon { token, input, output, error, flags, .. },
        ) && {
            &&& token == replies[OPEN_TOKEN as int].handle
            &&& input == replies[DUPLICATE_INPUT as int].handle
            &&& output == input
            &&& error == replies[DUPLICATE_ERROR as int].handle
            &&& flags == spawn.flags()
        },
{
    run_is_determined(spawn, replies);
    let progress = ran(spawn, replies);
    if settled(spawn, progress) {
        let owed = spawn.releases(progress.replies);
        assert(!(owed[progress.released as int] is CreateDaemon));
    } else {
        assert(passed(spawn, replies) == replies.len());
        assert(replies.take(replies.len() as int) =~= replies);
    }
}

/// However a spawn ends, both handles that it made in the parent are closed
/// there, and its own handles and attributes are given back; the daemon's
/// process handle alone is kept.
pub proof fn spawn_gives_back_what_it_took(spawn: Spawn, replies: Seq<Reply>)
    ensures
        ({
            let owed = owed(spawn, replies);
            let steps = passed(spawn, replies);
            &&& steps > OPEN_NUL <==> owed.contains(
                SpawnCall::CloseNul { nul: replies[OPEN_NUL as int].handle },
            )
            &&& steps > DUPLICATE_INPUT ==> owed.contains(
                SpawnCall::CloseDuplicate {
                    process: spawn.parent,
                    handle: replies[DUPLICATE_INPUT as int].handle,
                    options: DUPLICATE_CLOSE_SOURCE,
                },
            )
            &&& steps > DUPLICATE_ERROR ==> owed.contains(
                SpawnCall::CloseDuplicate {
                    process: spawn.parent,
                    handle: replies[DUPLICATE_ERROR as int].handle,
                    options: DUPLICATE_CLOSE_SOURCE,
                },
            )
            &&& steps > INITIALIZE_ATTRIBUTES <==> owed.contains(SpawnCall::DeleteAttributes)
            &&& steps > OPEN_TOKEN <==> owed.contains(
                SpawnCall::CloseToken { token: replies[OPEN_TOKEN as int].handle },
            )
            &&& steps > CREATE_DAEMON <==> owed.contains(
                SpawnCall::CloseThread { thread: replies[CREATE_DAEMON as int].second },
            )
            &&& owed.len() == taken_by(steps)
        }),
{
    run_is_determined(spawn, replies);
    let steps = passed(spawn, replies);
    let seen = replies.take(steps as int);
    let owed = owed(spawn, replies);
    duplicated_by_spawn(spawn, replies);
    if steps > CREATE_DAEMON {
        assert(owed[0] == (SpawnCall::CloseThread { thread: seen[CREATE_DAEMON as int].second }));
    }
    if steps > OPEN_TOKEN {
        let at = owed.len() - 5;
        assert(owed[at] == (SpawnCall::CloseToken { token: seen[OPEN_TOKEN as int].handle }));
    }
    if steps > INITIALIZE_ATTRIBUTES {
        assert(owed[owed.len() - 4] == SpawnCall::DeleteAttributes);
    }
    if steps > DUPLICATE_ERROR {
        assert(owed[owed.len() - 1] == (SpawnCall::CloseDuplicate {
            process: spawn.parent,
            handle: seen[DUPLICATE_ERROR as int].handle,
            options: DUPLICATE_CLOSE_SOURCE,
        }));
        assert(owed[owed.len() - 2] == (SpawnCall::CloseDuplicate {
            process: spawn.parent,
            handle: seen[DUPLICATE_INPUT as int].handle,
            options: DUPLICATE_CLOSE_SOURCE,
        }));
        assert(owed[owed.len() - 3] == (SpawnCall::CloseNul { nul: seen[OPEN_NUL as int].handle }));
    } else if steps > DUPLICATE_INPUT {
        assert(owed[1] == (SpawnCall::CloseDuplicate {
            process: spawn.parent,
            handle: seen[DUPLICATE_INPUT as int].handle,
            options: DUPLICATE_CLOSE_SOURCE,
        }));
        assert(owed[0] == (SpawnCall::CloseNul { nul: seen[OPEN_NUL as int].handle }));
    } else if steps > OPEN_NUL {
        assert(owed[0] == (SpawnCall::CloseNul { nul: seen[OPEN_NUL as int].handle }));
    }
}

/// The handles that a spawn has made in the parent are those of its passed
/// duplications.
proof fn duplicated_by_spawn(spawn: Spawn, replies: Seq<Reply>)
    ensures
        ({
            let steps = passed(spawn, replies);
            duplicated(duplications(replies.take(steps as int))) == (if steps > DUPLICATE_ERROR {
                seq![
                    replies[DUPLICATE_INPUT as int].handle,
                    replies[DUPLICATE_ERROR as int].handle,
                ]
            } else if steps > DUPLICATE_INPUT {
                seq![replies[DUPLICATE_INPUT as int].handle]
            } else {
                Seq::empty()
            })
        }),
{
    run_is_determined(spawn, replies);
    let steps = passed(spawn, replies);
    let none = Seq::<Reply>::empty();
    reveal(Seq::filter);
    assert(duplicated(none) =~= Seq::<isize>::empty());
    if steps > DUPLICATE_INPUT {
        let input = replies[DUPLICATE_INPUT as int];
        assert(spawn.verdict(DUPLICATE_INPUT as nat, input) is None);
        duplicated_of_push(none, input);
        assert(none.push(input) =~= seq![input]);
        assert(duplicated(seq![input]) =~= seq![input.handle]);
        if steps > DUPLICATE_ERROR {
            let error = replies[DUPLICATE_ERROR as int];
            assert(spawn.verdict(DUPLICATE_ERROR as nat, error) is None);
            duplicated_of_push(seq![input], error);
            assert(seq![input].push(error) =~= seq![input, error]);
            assert(seq![input.handle].push(error.handle) =~= seq![input.handle, error.handle]);
        }
    }
}

/// How many of the steps passed have taken something that is given back.
pub open spec fn taken_by(steps: nat) -> nat {
    if steps > CREATE_DAEMON {
        6
    } else if steps > OPEN_TOKEN {
        5
    } else if steps > INITIALIZE_ATTRIBUTES {
        4
    } else if steps > DUPLICATE_ERROR {
        3
    } else {
        steps
    }
}

/// The daemon is created with the flags that its caller asked for and three
/// more, and with no other: none that nobody asked for is set.
pub proof fn no_other_flag_is_set(spawn: Spawn)
    ensures
        spawn.flags() & !(spawn.creation_flags | 0x8 | 0x80000 | 0x400) == 0,
        spawn.flags() & 0x80408 == 0x80408,
        spawn.flags() & spawn.creation_flags == spawn.creation_flags,
        spawn.creation_flags == 0 ==> spawn.flags() == 0x80408,
{
    let asked = spawn.creation_flags;
    let flags = spawn.flags();
    assert(flags == asked | 0x8 | 0x80000 | 0x400);
    assert(flags & !(asked | 0x8 | 0x80000 | 0x400) == 0 && flags & 0x80408 == 0x80408 && flags
        & asked == asked && (asked == 0 ==> flags == 0x80408)) by (bit_vector)
        requires
            flags == asked | 0x8u32 | 0x80000u32 | 0x400u32,
    ;
}

/// How a daemon is given its surroundings. The null device and the caller's
/// error output, in this order, are made into inheritable handles of the
/// parent with the access that they have. Two startup attributes, in the least
/// buffer that holds them, allow just those two handles and name the parent.
/// The daemon is created by the caller's own token, with the null device as
/// its input and its output and the error output as its own.
pub proof fn daemon_gets_its_surroundings(spawn: Spawn, replies: Seq<Reply>)
    ensures
        spawn.steps() == 9,
        replies.len() == 0 ==> spawn.call(replies) == SpawnCall::OpenNul,
        1 <= replies.len() <= 2 ==> (spawn.call(replies) matches SpawnCall::Duplicate {
            source,
            target,
            access,
            inherit,
            options,
        } && {
            &&& source == (if replies.len() == 1 {
                replies[0].handle
            } else {
                spawn.stderr
            })
            &&& target == spawn.parent
            &&& access == 0
            &&& inherit == 1
            &&& options == 2
        }),
        replies.len() == 3 ==> spawn.call(replies) == (SpawnCall::SizeAttributes { count: 2 }),
        replies.len() == 4 ==> (spawn.call(replies) matches SpawnCall::InitializeAttributes {
            count,
            words,
        } && {
            &&& count == 2
            &&& words * (usize::BITS / 8) >= replies[3].number
            &&& forall|fewer: nat|
                fewer < words ==> #[trigger] (fewer * (usize::BITS / 8)) < replies[3].number
        }),
        replies.len() == 5 ==> spawn.call(replies) == (SpawnCall::SetHandleList {
            attribute: 0x20002,
            input: replies[1].handle,
            error: replies[2].handle,
        }),
        replies.len() == 6 ==> spawn.call(replies) == (SpawnCall::SetParent {
            attribute: 0x20000,
            parent: spawn.parent,
        }),
        replies.len() == 7 ==> spawn.call(replies) == (SpawnCall::OpenToken { access: 0xB }),
        replies.len() == 8 ==> (spawn.call(replies) matches SpawnCall::CreateDaemon {
            token,
            inherit,
            flags,
            startup_flags,
            input,
            output,
            error,
        } && {
            &&& token == replies[7].handle
            &&& inherit == 1
            &&& flags & !(spawn.creation_flags | 0x80408) == 0
            &&& flags & (spawn.creation_flags | 0x80408) == spawn.creation_flags | 0x80408
            &&& startup_flags == 0x101
            &&& input == replies[1].handle
            &&& output == replies[1].handle
            &&& error == replies[2].handle
        }),
        replies.len() == 9 ==> spawn.product(replies) == replies[8].handle,
{
    broadcast use vstd::layout::layout_of_primitives;

    let asked = spawn.creation_flags;
    let flags = spawn.flags();
    assert(0x8u32 | 0x2u32 | 0x1u32 == 0xBu32) by (bit_vector);
    assert(0x100u32 | 0x1u32 == 0x101u32) by (bit_vector);
    assert(flags & !(asked | 0x80408) == 0 && flags & (asked | 0x80408) == asked | 0x80408)
        by (bit_vector)
        requires
            flags == asked | 0x8u32 | 0x80000u32 | 0x400u32,
    ;
    if replies.len() == 4 {
        let bytes = replies[3].number;
        crate::win32::buffer_is_the_least_that_holds(bytes);
        assert(words_holding(bytes) <= u64::MAX) by {
            let word = crate::win32::word_size();
            assert(word == 4 || word == 8);
            if word == 4 {
                assert(words_holding(bytes) == (bytes + 3) / 4);
            } else {
                assert(words_holding(bytes) == (bytes + 7) / 8);
            }
        }
    }
}

/// What fails a spawn, step by step: a device or a token that is no handle, a
/// call that says so, which is reported by its name and its error code, and
/// attributes without a size.
pub proof fn spawn_fails_when(spawn: Spawn, reply: Reply)
    ensures
        ({
            let handle = reply.handle != 0 && reply.handle != -1;
            let named = |operation: Operation|
                Some(Failure::System { operation: Some(operation), code: reply.last_error });
            let unnamed = Some(Failure::System { operation: None, code: reply.last_error });
            let refused = |operation: Operation|
                if reply.status == 0 {
                    named(operation)
                } else {
                    None
                };
            &&& spawn.verdict(0, reply) == (if handle {
                None
            } else {
                unnamed
            })
            &&& spawn.verdict(1, reply) == refused(Operation::DuplicateStdio)
            &&& spawn.verdict(2, reply) == refused(Operation::DuplicateStdio)
            &&& spawn.verdict(3, reply) == (if reply.number == 0 {
                Some(Failure::InvalidAttributeSize)
            } else {
                None
            })
            &&& spawn.verdict(4, reply) == refused(Operation::InitializeAttributes)
            &&& spawn.verdict(5, reply) == refused(Operation::SetHandleList)
            &&& spawn.verdict(6, reply) == refused(Operation::SetParent)
            &&& spawn.verdict(7, reply) == (if reply.status == 0 {
                named(Operation::OpenCallerToken)
            } else if handle {
                None
            } else {
                unnamed
            })
            &&& spawn.verdict(8, reply) == refused(Operation::CreateDaemon)
        }),
{
}

/// What a spawn gives back after so many steps: the thread, the token, the
/// attributes, the null device, and in the parent each handle that was made
/// there, whichever of them there are.
pub proof fn spawn_gives_back_in_this_order(spawn: Spawn, replies: Seq<Reply>)
    requires
        replies.len() <= 9,
        replies.len() > 1 ==> replies[1].status != 0,
        replies.len() > 2 ==> replies[2].status != 0,
    ensures
        ({
            let count = replies.len();
            let close = |handle: isize|
                SpawnCall::CloseDuplicate { process: spawn.parent, handle, options: 1 };
            let thread = SpawnCall::CloseThread { thread: replies[8].second };
            let token = SpawnCall::CloseToken { token: replies[7].handle };
            let nul = SpawnCall::CloseNul { nul: replies[0].handle };
            let input = close(replies[1].handle);
            let error = close(replies[2].handle);
            spawn.releases(replies) == (if count == 0 {
                Seq::empty()
            } else if count == 1 {
                seq![nul]
            } else if count == 2 {
                seq![nul, input]
            } else if count <= 4 {
                seq![nul, input, error]
            } else if count <= 7 {
                seq![SpawnCall::DeleteAttributes, nul, input, error]
            } else if count == 8 {
                seq![token, SpawnCall::DeleteAttributes, nul, input, error]
            } else {
                seq![thread, token, SpawnCall::DeleteAttributes, nul, input, error]
            })
        }),
{
    let none = Seq::<Reply>::empty();
    let made = duplicated(duplications(replies));
    reveal(Seq::filter);
    assert(duplicated(none) =~= Seq::<isize>::empty());
    if replies.len() > 1 {
        duplicated_of_push(none, replies[1]);
        assert(none.push(replies[1]) =~= seq![replies[1]]);
        assert(duplicated(seq![replies[1]]) =~= seq![replies[1].handle]);
        if replies.len() > 2 {
            duplicated_of_push(seq![replies[1]], replies[2]);
            assert(seq![replies[1]].push(replies[2]) =~= seq![replies[1], replies[2]]);
            assert(made =~= seq![replies[1].handle, replies[2].handle]);
        } else {
            assert(made =~= seq![replies[1].handle]);
        }
    }
    let close = |handle: isize|
        SpawnCall::CloseDuplicate { process: spawn.parent, handle, options: 1 };
    let thread = SpawnCall::CloseThread { thread: replies[8].second };
    let token = SpawnCall::CloseToken { token: replies[7].handle };
    let nul = SpawnCall::CloseNul { nul: replies[0].handle };
    let input = close(replies[1].handle);
    let error = close(replies[2].handle);
    let count = replies.len();
    assert(spawn.releases(replies) =~= (if count == 0 {
        Seq::empty()
    } else if count == 1 {
        seq![nul]
    } else if count == 2 {
        seq![nul, input]
    } else if count <= 4 {
        seq![nul, input, error]
    } else if count <= 7 {
        seq![SpawnCall::DeleteAttributes, nul, input, error]
    } else if count == 8 {
        seq![token, SpawnCall::DeleteAttributes, nul, input, error]
    } else {
        seq![thread, token, SpawnCall::DeleteAttributes, nul, input, error]
    }));
}

/// A command cannot be encoded exactly where one of its parts holds a NUL or
/// its command line, without the closing NUL, has 32767 units or more. A NUL
/// in the program is reported first, then one in an argument, then the length,
/// and then a NUL in the environment or the directory.
pub proof fn command_is_refused_when(
    program: Seq<u16>,
    arguments: Seq<Vec<u16>>,
    request: Environment,
    directory: Option<Seq<u16>>,
)
    ensures
        ({
            let cut = exists|i: int|
                0 <= i < arguments.len() && (#[trigger] arguments[i])@.contains(0);
            let long = joined(command_words(program, arguments)).len() >= 32767;
            unencodable(program, arguments, request, directory) == (if program.contains(0) {
                Some(Failure::NulInParameter)
            } else if cut {
                Some(Failure::NulInCommandLine)
            } else if long {
                Some(Failure::CommandLineTooLong)
            } else if !request.encodable() {
                Some(Failure::NulInParameter)
            } else if directory matches Some(directory) && directory.contains(0) {
                Some(Failure::NulInParameter)
            } else {
                None
            })
        }),
{
    crate::encoding::quoting::every_argument_is_a_word(program, arguments);
}

/// The strings of a command are its program and its directory, whole and each
/// with a NUL behind it, and a line from which the program and every argument
/// are read back.
pub proof fn strings_carry_the_command(
    strings: SpawnStrings,
    program: Seq<u16>,
    arguments: Seq<Vec<u16>>,
    request: Environment,
    directory: Option<Seq<u16>>,
)
    requires
        strings.encode(program, arguments, request, directory),
    ensures
        strings.application@ == program + seq![0u16],
        strings.command_line@.last() == 0,
        ({
            let read = crate::encoding::splitting::split(strings.command_line@.drop_last());
            &&& read.len() == arguments.len() + 1
            &&& read[0] == program
            &&& forall|i: int|
                0 <= i < arguments.len() ==> read[i + 1] == #[trigger] arguments[i]@
        }),
        request.laid_out(strings.environment@),
        directory is None ==> strings.directory is None,
        directory is Some ==> strings.directory is Some && strings.directory->Some_0@
            == directory->Some_0 + seq![0u16],
{
    assert(terminated(program) =~= program + seq![0u16]);
    if directory is Some {
        assert(terminated(directory->Some_0) =~= directory->Some_0 + seq![0u16]);
    }
    crate::encoding::splitting::every_argument_is_read_back(
        program,
        arguments,
        strings.command_line@,
    );
}

} // verus!
