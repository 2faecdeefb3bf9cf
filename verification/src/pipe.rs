//! The private pipe between a launcher and its temporary parent.

use vstd::prelude::*;

use crate::encoding::text::ascii;
use crate::encoding::text::push_ascii;
use crate::encoding::text::repair;
use crate::encoding::text::repair_brings_no_nul;
use crate::encoding::text::repaired;
use crate::encoding::wide::before_nul;
use crate::encoding::wide::before_nul_holds_none;
use crate::encoding::wide::push_units;
use crate::encoding::wide::terminated;
use crate::encoding::wide::wide;
use crate::failure::Failure;
use crate::failure::Operation;
use crate::procedure::come_to;
use crate::procedure::needed;
use crate::procedure::owed;
use crate::procedure::passed;
use crate::procedure::passed_steps_were_called;
use crate::procedure::pending;
use crate::procedure::ran;
use crate::procedure::run_is_determined;
use crate::procedure::Procedure;
use crate::win32::check_handle;
use crate::win32::check_reply;
use crate::win32::failed;
use crate::win32::unowned;
use crate::win32::word_size;
use crate::win32::words_for;
use crate::win32::words_holding;
use crate::win32::Reply;
use crate::win32::FILE_FLAG_FIRST_PIPE_INSTANCE;
use crate::win32::PIPE_ACCESS_DUPLEX;
use crate::win32::PIPE_NOWAIT;
use crate::win32::PIPE_REJECT_REMOTE_CLIENTS;
use crate::win32::SDDL_REVISION_1;
use crate::win32::TOKEN_QUERY;
use crate::win32::TOKEN_USER_CLASS;

verus! {

/// A system call of finding out who runs this process.
#[derive(Clone, Copy, Debug, PartialEq, Eq, Structural)]
pub enum OwnerCall {
    OpenToken { access: u32 },
    /// Ask how many bytes the owner takes.
    SizeOwner { token: isize, class: i32 },
    /// Read the owner into a buffer of so many words.
    ReadOwner { token: isize, class: i32, words: u64, length: u64 },
    /// Format the owner that was read.
    FormatOwner,
    /// Read the formatted text at this address, unit by unit.
    ReadText { text: isize },
    FreeText { text: isize },
    CloseToken { token: isize },
}

pub const OPEN_OWNER: usize = 0;

pub const SIZE_OWNER: usize = 1;

pub const READ_OWNER: usize = 2;

pub const FORMAT_OWNER: usize = 3;

pub const READ_TEXT: usize = 4;

pub const OWNER_STEPS: usize = 5;

/// Finding out who runs this process.
pub struct OwnerLookup;

/// The bytes of the fixed part of a token's owner: an address and a number.
pub open spec fn owner_size() -> nat {
    2 * word_size()
}

fn token_user_size() -> (size: u64)
    ensures
        size == owner_size(),
{
    broadcast use vstd::layout::layout_of_primitives;

    2 * core::mem::size_of::<usize>() as u64
}

impl Procedure for OwnerLookup {
    type Action = OwnerCall;

    type Product = ();

    open spec fn steps(&self) -> nat {
        OWNER_STEPS as nat
    }

    open spec fn verdict(&self, step: nat, reply: Reply) -> Option<Failure> {
        if step == OPEN_OWNER {
            if reply.status == 0 {
                failed(Operation::QueryOwner, reply)
            } else {
                unowned(None, reply)
            }
        } else if step == SIZE_OWNER {
            if reply.number < owner_size() {
                Some(Failure::InvalidTokenSize)
            } else {
                None
            }
        } else if step == READ_OWNER {
            failed(Operation::ReadOwner, reply)
        } else if step == FORMAT_OWNER {
            failed(Operation::FormatOwner, reply)
        } else {
            None
        }
    }

    open spec fn call(&self, replies: Seq<Reply>) -> OwnerCall {
        let step = replies.len();
        if step == OPEN_OWNER {
            OwnerCall::OpenToken { access: TOKEN_QUERY }
        } else if step == SIZE_OWNER {
            OwnerCall::SizeOwner {
                token: replies[OPEN_OWNER as int].handle,
                class: TOKEN_USER_CLASS,
            }
        } else if step == READ_OWNER {
            OwnerCall::ReadOwner {
                token: replies[OPEN_OWNER as int].handle,
                class: TOKEN_USER_CLASS,
                words: words_holding(replies[SIZE_OWNER as int].number) as u64,
                length: replies[SIZE_OWNER as int].number,
            }
        } else if step == FORMAT_OWNER {
            OwnerCall::FormatOwner
        } else {
            OwnerCall::ReadText { text: replies[FORMAT_OWNER as int].handle }
        }
    }

    open spec fn releases(&self, replies: Seq<Reply>) -> Seq<OwnerCall> {
        needed(
            replies.len() > FORMAT_OWNER,
            OwnerCall::FreeText { text: replies[FORMAT_OWNER as int].handle },
        ) + needed(
            replies.len() > OPEN_OWNER,
            OwnerCall::CloseToken { token: replies[OPEN_OWNER as int].handle },
        )
    }

    open spec fn product(&self, replies: Seq<Reply>) -> () {
        ()
    }

    fn step_count(&self) -> (count: usize) {
        OWNER_STEPS
    }

    fn judge(&self, step: usize, reply: Reply) -> (failure: Option<Failure>) {
        if step == OPEN_OWNER {
            match check_reply(Operation::QueryOwner, reply) {
                Some(failure) => Some(failure),
                None => check_handle(None, reply),
            }
        } else if step == SIZE_OWNER {
            if reply.number < token_user_size() {
                Some(Failure::InvalidTokenSize)
            } else {
                None
            }
        } else if step == READ_OWNER {
            check_reply(Operation::ReadOwner, reply)
        } else if step == FORMAT_OWNER {
            check_reply(Operation::FormatOwner, reply)
        } else {
            None
        }
    }

    fn next_call(&self, replies: &Vec<Reply>) -> (call: OwnerCall) {
        let step: usize = replies.len();
        if step == OPEN_OWNER {
            OwnerCall::OpenToken { access: TOKEN_QUERY }
        } else if step == SIZE_OWNER {
            OwnerCall::SizeOwner { token: replies[OPEN_OWNER].handle, class: TOKEN_USER_CLASS }
        } else if step == READ_OWNER {
            OwnerCall::ReadOwner {
                token: replies[OPEN_OWNER].handle,
                class: TOKEN_USER_CLASS,
                words: words_for(replies[SIZE_OWNER].number),
                length: replies[SIZE_OWNER].number,
            }
        } else if step == FORMAT_OWNER {
            OwnerCall::FormatOwner
        } else {
            OwnerCall::ReadText { text: replies[FORMAT_OWNER].handle }
        }
    }

    fn release_at(&self, replies: &Vec<Reply>, index: usize) -> (call: Option<OwnerCall>) {
        let mut calls: Vec<OwnerCall> = Vec::new();
        if replies.len() > FORMAT_OWNER {
            calls.push(OwnerCall::FreeText { text: replies[FORMAT_OWNER].handle });
        }
        if replies.len() > OPEN_OWNER {
            calls.push(OwnerCall::CloseToken { token: replies[OPEN_OWNER].handle });
        }
        proof {
            assert(calls@ =~= self.releases(replies@));
        }
        if index < calls.len() {
            Some(calls[index])
        } else {
            None
        }
    }

    fn take_product(&self, replies: &Vec<Reply>) -> (product: ()) {
    }
}

/// The buffer for the owner always holds its fixed part.
pub proof fn owner_fits_its_buffer(lookup: OwnerLookup, replies: Seq<Reply>)
    requires
        pending(lookup, ran(lookup, replies)) matches Some(OwnerCall::ReadOwner { .. }),
    ensures
        pending(lookup, ran(lookup, replies)) matches Some(
            OwnerCall::ReadOwner { words, length, .. },
        ) && owner_size() <= length <= words * word_size(),
{
    broadcast use vstd::layout::layout_of_primitives;

    run_is_determined(lookup, replies);
    assert(replies.take(replies.len() as int) =~= replies);
    assert(lookup.verdict(SIZE_OWNER as nat, replies[SIZE_OWNER as int]) is None);
    let length = replies[SIZE_OWNER as int].number;
    crate::win32::words_are_enough(length);
    assert(word_size() == 4 || word_size() == 8);
    assert(words_holding(length) <= u64::MAX) by {
        if word_size() == 4 {
            assert(words_holding(length) == (length + 3) / 4);
        } else {
            assert(words_holding(length) == (length + 7) / 8);
        }
    }
}

/// The token is closed and the text is freed whenever there are any.
pub proof fn owner_lookup_gives_back(lookup: OwnerLookup, replies: Seq<Reply>)
    ensures
        owed(lookup, replies) == (if passed(lookup, replies) > FORMAT_OWNER {
            seq![
                OwnerCall::FreeText { text: replies[FORMAT_OWNER as int].handle },
                OwnerCall::CloseToken { token: replies[OPEN_OWNER as int].handle },
            ]
        } else if passed(lookup, replies) > OPEN_OWNER {
            seq![OwnerCall::CloseToken { token: replies[OPEN_OWNER as int].handle }]
        } else {
            Seq::empty()
        }),
{
    run_is_determined(lookup, replies);
    assert(owed(lookup, replies) =~= (if passed(lookup, replies) > FORMAT_OWNER {
        seq![
            OwnerCall::FreeText { text: replies[FORMAT_OWNER as int].handle },
            OwnerCall::CloseToken { token: replies[OPEN_OWNER as int].handle },
        ]
    } else if passed(lookup, replies) > OPEN_OWNER {
        seq![OwnerCall::CloseToken { token: replies[OPEN_OWNER as int].handle }]
    } else {
        Seq::empty()
    }));
}

/// A NUL-terminated text that is read one unit at a time.
pub struct TextReader {
    pub units: Vec<u16>,
    pub ended: bool,
}

impl TextReader {
    pub fn new() -> (reader: TextReader)
        ensures
            reader.units@.len() == 0,
            !reader.ended,
            reader.has_read(Seq::empty()),
    {
        let reader = TextReader { units: Vec::new(), ended: false };
        proof {
            assert(reader.units@ =~= before_nul(Seq::empty()));
        }
        reader
    }

    /// `read` are units that have been handed to the reader, one by one.
    pub open spec fn has_read(self, read: Seq<u16>) -> bool {
        &&& self.units@ == before_nul(read)
        &&& self.ended == read.contains(0)
    }

    /// The offset of the unit to read next, until the NUL has been read.
    pub fn wanted(&self) -> (offset: Option<usize>)
        ensures
            offset == (if self.ended {
                None
            } else {
                Some(self.units@.len() as usize)
            }),
    {
        if self.ended {
            None
        } else {
            Some(self.units.len())
        }
    }

    /// Takes the next unit.
    pub fn take(&mut self, unit: u16)
        ensures
            forall|read: Seq<u16>|
                old(self).has_read(read) ==> #[trigger] final(self).has_read(read.push(unit)),
            old(self).ended ==> final(self).ended && final(self).units@ == old(self).units@,
            !old(self).ended && unit == 0 ==> final(self).ended && final(self).units@
                == old(self).units@,
            !old(self).ended && unit != 0 ==> !final(self).ended && final(self).units@
                == old(self).units@.push(unit),
    {
        if !self.ended {
            if unit == 0 {
                self.ended = true;
            } else {
                self.units.push(unit);
            }
        }
        proof {
            assert forall|read: Seq<u16>|
                old(self).has_read(read) implies #[trigger] self.has_read(read.push(unit)) by {
                before_nul_of_push(read, unit);
                assert(read.push(unit).contains(0) <==> read.contains(0) || unit == 0) by {
                    if read.contains(0) {
                        let i = choose|i: int| 0 <= i < read.len() && read[i] == 0;
                        assert(read.push(unit)[i] == 0);
                    }
                    if unit == 0 {
                        assert(read.push(unit)[read.len() as int] == 0);
                    }
                }
            }
        }
    }

    /// The text that was read, with each half of a character replaced.
    pub fn text(&self) -> (text: Vec<u16>)
        ensures
            text@ == repaired(self.units@),
    {
        repair(self.units.as_slice())
    }
}

proof fn before_nul_of_push(read: Seq<u16>, unit: u16)
    ensures
        before_nul(read.push(unit)) == (if read.contains(0) || unit == 0 {
            before_nul(read)
        } else {
            before_nul(read).push(unit)
        }),
    decreases read.len(),
{
    let more = read.push(unit);
    if read.len() == 0 {
        assert(more.drop_first() =~= Seq::<u16>::empty());
        assert(before_nul(Seq::<u16>::empty()) =~= Seq::<u16>::empty());
        assert(seq![unit] + Seq::<u16>::empty() =~= Seq::<u16>::empty().push(unit));
    } else if read[0] == 0 {
        assert(read.contains(0));
    } else {
        let rest = read.drop_first();
        before_nul_of_push(rest, unit);
        assert(more.drop_first() =~= rest.push(unit));
        assert(rest.contains(0) <==> read.contains(0)) by {
            if read.contains(0) {
                let i = choose|i: int| 0 <= i < read.len() && read[i] == 0;
                assert(rest[i - 1] == 0);
            }
            if rest.contains(0) {
                let i = choose|i: int| 0 <= i < rest.len() && rest[i] == 0;
                assert(read[i + 1] == 0);
            }
        }
        assert(seq![read[0]] + before_nul(rest).push(unit) =~= (seq![read[0]] + before_nul(
            rest,
        )).push(unit));
    }
}

/// The security descriptor that grants everything to one user and nothing to
/// anyone else.
pub open spec fn descriptor_units(owner: Seq<u16>) -> Seq<u16> {
    ascii("D:P(A;;GA;;;"@) + owner + ascii(")"@)
}

/// The text of the security descriptor, closed by a NUL. An owner that holds a
/// NUL would end it early.
pub open spec fn described(owner: Seq<u16>) -> Result<Seq<u16>, Failure> {
    if owner.contains(0) {
        Err(Failure::NulInParameter)
    } else {
        Ok(terminated(descriptor_units(owner)))
    }
}

/// The text of the pipe's security descriptor, closed by a NUL.
pub fn descriptor_text(owner: &[u16]) -> (text: Result<Vec<u16>, Failure>)
    ensures
        match (text, described(owner@)) {
            (Ok(text), Ok(expected)) => text@ == expected,
            (Err(failure), Err(expected)) => failure == expected,
            _ => false,
        },
{
    let mut units: Vec<u16> = Vec::new();
    proof {
        reveal_strlit("D:P(A;;GA;;;");
        reveal_strlit(")");
    }
    push_ascii(&mut units, "D:P(A;;GA;;;");
    push_units(&mut units, owner);
    push_ascii(&mut units, ")");
    proof {
        let front = ascii("D:P(A;;GA;;;"@);
        assert(units@ =~= descriptor_units(owner@));
        assert(units@.contains(0) <==> owner@.contains(0)) by {
            if owner@.contains(0) {
                let i = choose|i: int| 0 <= i < owner@.len() && owner@[i] == 0;
                assert(units@[i + front.len()] == 0);
            }
            if units@.contains(0) {
                let i = choose|i: int| 0 <= i < units@.len() && units@[i] == 0;
                assert(owner@[i - front.len()] == 0);
            }
        }
    }
    wide(units.as_slice())
}

/// The owner that a lookup found is the one that the pipe is for: the text was
/// read where the lookup had it formatted, up to its NUL, it can be described,
/// and the descriptor names it.
pub proof fn owner_is_described(
    lookup: OwnerLookup,
    replies: Seq<Reply>,
    reader: TextReader,
    read: Seq<u16>,
)
    requires
        come_to(lookup, ran(lookup, replies)) == Some(Ok::<(), Failure>(())),
        reader.has_read(read),
        reader.ended,
    ensures
        replies.len() >= OWNER_STEPS,
        pending(lookup, ran(lookup, replies.take(READ_TEXT as int))) == Some(
            OwnerCall::ReadText { text: replies[FORMAT_OWNER as int].handle },
        ),
        read.contains(0),
        repaired(reader.units@) == repaired(before_nul(read)),
        !repaired(before_nul(read)).contains(0),
        described(repaired(reader.units@)) == Ok::<Seq<u16>, Failure>(
            terminated(descriptor_units(repaired(before_nul(read)))),
        ),
{
    run_is_determined(lookup, replies);
    assert(passed(lookup, replies) == OWNER_STEPS);
    passed_steps_were_called(lookup, replies, READ_TEXT as nat);
    before_nul_holds_none(read);
    repair_brings_no_nul(before_nul(read));
}

/// The NUL-terminated texts that the private pipe is created with.
pub struct PipeTexts {
    pub name: Vec<u16>,
    pub descriptor: Vec<u16>,
}

/// The texts of a pipe of this name for this owner.
pub fn pipe_texts(name: &[u16], owner: &[u16]) -> (texts: Result<PipeTexts, Failure>)
    ensures
        texts is Ok <==> !name@.contains(0) && !owner@.contains(0),
        texts is Ok ==> texts->Ok_0.name@ == terminated(name@),
        texts is Ok ==> texts->Ok_0.descriptor@ == terminated(descriptor_units(owner@)),
        texts is Err ==> texts->Err_0 == Failure::NulInParameter,
{
    let name = wide(name)?;
    let descriptor = descriptor_text(owner)?;
    Ok(PipeTexts { name, descriptor })
}

/// A system call of creating the private pipe, whose texts are its
/// [`PipeTexts`].
#[derive(Clone, Copy, Debug, PartialEq, Eq, Structural)]
pub enum PipeCall {
    /// Turn the descriptor's text into a descriptor.
    ConvertDescriptor { revision: u32 },
    /// Create the pipe under its name.
    CreatePipe {
        descriptor: isize,
        inherit: i32,
        open_mode: u32,
        pipe_mode: u32,
        instances: u32,
        output_size: u32,
        input_size: u32,
        timeout: u32,
    },
    FreeDescriptor { descriptor: isize },
}

pub const CONVERT_DESCRIPTOR: usize = 0;

pub const CREATE_NAMED_PIPE: usize = 1;

pub const PIPE_STEPS: usize = 2;

/// Creating the pipe: the first and only one of its name, for this user on
/// this machine alone.
pub struct CreatePrivate;

impl Procedure for CreatePrivate {
    type Action = PipeCall;

    type Product = isize;

    open spec fn steps(&self) -> nat {
        PIPE_STEPS as nat
    }

    open spec fn verdict(&self, step: nat, reply: Reply) -> Option<Failure> {
        if step == CONVERT_DESCRIPTOR {
            failed(Operation::CreateDacl, reply)
        } else {
            unowned(Some(Operation::CreatePipe), reply)
        }
    }

    open spec fn call(&self, replies: Seq<Reply>) -> PipeCall {
        if replies.len() == CONVERT_DESCRIPTOR {
            PipeCall::ConvertDescriptor { revision: SDDL_REVISION_1 }
        } else {
            PipeCall::CreatePipe {
                descriptor: replies[CONVERT_DESCRIPTOR as int].handle,
                inherit: 0,
                open_mode: PIPE_ACCESS_DUPLEX | FILE_FLAG_FIRST_PIPE_INSTANCE,
                pipe_mode: PIPE_NOWAIT | PIPE_REJECT_REMOTE_CLIENTS,
                instances: 1,
                output_size: 64,
                input_size: 64,
                timeout: 0,
            }
        }
    }

    open spec fn releases(&self, replies: Seq<Reply>) -> Seq<PipeCall> {
        needed(
            replies.len() > CONVERT_DESCRIPTOR,
            PipeCall::FreeDescriptor { descriptor: replies[CONVERT_DESCRIPTOR as int].handle },
        )
    }

    open spec fn product(&self, replies: Seq<Reply>) -> isize {
        replies[CREATE_NAMED_PIPE as int].handle
    }

    fn step_count(&self) -> (count: usize) {
        PIPE_STEPS
    }

    fn judge(&self, step: usize, reply: Reply) -> (failure: Option<Failure>) {
        if step == CONVERT_DESCRIPTOR {
            check_reply(Operation::CreateDacl, reply)
        } else {
            check_handle(Some(Operation::CreatePipe), reply)
        }
    }

    fn next_call(&self, replies: &Vec<Reply>) -> (call: PipeCall) {
        if replies.len() == CONVERT_DESCRIPTOR {
            PipeCall::ConvertDescriptor { revision: SDDL_REVISION_1 }
        } else {
            PipeCall::CreatePipe {
                descriptor: replies[CONVERT_DESCRIPTOR].handle,
                inherit: 0,
                open_mode: PIPE_ACCESS_DUPLEX | FILE_FLAG_FIRST_PIPE_INSTANCE,
                pipe_mode: PIPE_NOWAIT | PIPE_REJECT_REMOTE_CLIENTS,
                instances: 1,
                output_size: 64,
                input_size: 64,
                timeout: 0,
            }
        }
    }

    fn release_at(&self, replies: &Vec<Reply>, index: usize) -> (call: Option<PipeCall>) {
        if index == 0 && replies.len() > CONVERT_DESCRIPTOR {
            Some(PipeCall::FreeDescriptor { descriptor: replies[CONVERT_DESCRIPTOR].handle })
        } else {
            None
        }
    }

    fn take_product(&self, replies: &Vec<Reply>) -> (product: isize) {
        replies[CREATE_NAMED_PIPE].handle
    }
}

/// The descriptor is freed whether or not the pipe could be created.
pub proof fn descriptor_is_freed(create: CreatePrivate, replies: Seq<Reply>)
    requires
        replies.len() > 0,
        replies[CONVERT_DESCRIPTOR as int].status != 0,
    ensures
        owed(create, replies) == seq![
            PipeCall::FreeDescriptor { descriptor: replies[CONVERT_DESCRIPTOR as int].handle },
        ],
{
    run_is_determined(create, replies);
    let steps = passed(create, replies);
    assert(create.verdict(0, replies[0]) is None);
    assert(steps > 0);
    assert(replies.take(steps as int)[0] == replies[0]);
}

/// A descriptor is the owner, unit by unit, between a front of twelve units
/// and a closing parenthesis, with one NUL behind it. It is refused exactly
/// where the owner holds a NUL, so two owners never share a descriptor.
pub proof fn descriptor_names_the_whole_owner(owner: Seq<u16>, other: Seq<u16>)
    ensures
        described(owner) is Ok <==> !owner.contains(0),
        described(owner) is Err ==> described(owner) == Err::<Seq<u16>, Failure>(
            Failure::NulInParameter,
        ),
        described(owner) is Ok ==> {
            let text = described(owner)->Ok_0;
            let front = "D:P(A;;GA;;;"@;
            &&& front.len() == 12
            &&& text.len() == owner.len() + 14
            &&& forall|i: int| 0 <= i < 12 ==> text[i] == front[i] as u16
            &&& forall|i: int| 0 <= i < owner.len() ==> text[12 + i] == #[trigger] owner[i]
            &&& text[owner.len() as int + 12] == ')' as u16
            &&& text[owner.len() as int + 13] == 0
        },
        described(owner) is Ok && described(owner) == described(other) ==> owner == other,
        descriptor_units(owner).len() == owner.len() + 13,
        forall|i: int|
            0 <= i < owner.len() ==> descriptor_units(owner)[12 + i] == #[trigger] owner[i],
{
    reveal_strlit("D:P(A;;GA;;;");
    reveal_strlit(")");
    if described(owner) is Ok && described(owner) == described(other) {
        let text = described(owner)->Ok_0;
        assert(text.len() == owner.len() + 14 && text.len() == other.len() + 14);
        assert forall|i: int| 0 <= i < owner.len() implies owner[i] == other[i] by {
            assert(text[12 + i] == owner[i]);
            assert(text[12 + i] == other[i]);
        }
        assert(owner =~= other);
    }
}

/// How an owner is looked up: the token of this process is opened for asking,
/// the owner is sized and then read from that token into words that hold it,
/// formatted, and its text read where it was formatted.
pub proof fn owner_is_asked_of_one_token(lookup: OwnerLookup, replies: Seq<Reply>)
    ensures
        lookup.steps() == 5,
        replies.len() == 0 ==> lookup.call(replies) == (OwnerCall::OpenToken { access: 8 }),
        replies.len() == 1 ==> lookup.call(replies) == (OwnerCall::SizeOwner {
            token: replies[0].handle,
            class: 1,
        }),
        replies.len() == 2 ==> (lookup.call(replies) matches OwnerCall::ReadOwner {
            token,
            class,
            words,
            length,
        } && {
            &&& token == replies[0].handle
            &&& class == 1
            &&& length == replies[1].number
            &&& words * (usize::BITS / 8) >= length
            &&& forall|fewer: nat| fewer < words ==> #[trigger] (fewer * (usize::BITS / 8)) < length
        }),
        replies.len() == 3 ==> lookup.call(replies) == OwnerCall::FormatOwner,
        replies.len() == 4 ==> lookup.call(replies) == (OwnerCall::ReadText {
            text: replies[3].handle,
        }),
        replies.len() == 0 ==> lookup.releases(replies).len() == 0,
        1 <= replies.len() <= 3 ==> lookup.releases(replies) == seq![
            OwnerCall::CloseToken { token: replies[0].handle },
        ],
        4 <= replies.len() <= 5 ==> lookup.releases(replies) == seq![
            OwnerCall::FreeText { text: replies[3].handle },
            OwnerCall::CloseToken { token: replies[0].handle },
        ],
{
    broadcast use vstd::layout::layout_of_primitives;

    if replies.len() == 2 {
        let bytes = replies[1].number;
        crate::win32::buffer_is_the_least_that_holds(bytes);
        assert(words_holding(bytes) <= u64::MAX) by {
            assert(word_size() == 4 || word_size() == 8);
            if word_size() == 4 {
                assert(words_holding(bytes) == (bytes + 3) / 4);
            } else {
                assert(words_holding(bytes) == (bytes + 7) / 8);
            }
        }
    }
    if 1 <= replies.len() <= 3 {
        assert(lookup.releases(replies) =~= seq![
            OwnerCall::CloseToken { token: replies[0].handle },
        ]);
    }
    if 4 <= replies.len() <= 5 {
        assert(lookup.releases(replies) =~= seq![
            OwnerCall::FreeText { text: replies[3].handle },
            OwnerCall::CloseToken { token: replies[0].handle },
        ]);
    }
}

/// What fails the lookup of an owner, and with what: a call that says so, a
/// token that is no handle, and a size below that of an address and a word of
/// attributes.
pub proof fn owner_lookup_fails_when(lookup: OwnerLookup, reply: Reply)
    ensures
        lookup.verdict(0, reply) == (if reply.status == 0 {
            Some(
                Failure::System {
                    operation: Some(Operation::QueryOwner),
                    code: reply.last_error,
                },
            )
        } else if reply.handle == 0 || reply.handle == -1 {
            Some(Failure::System { operation: None, code: reply.last_error })
        } else {
            None
        }),
        lookup.verdict(1, reply) == (if reply.number < 2 * (usize::BITS / 8) {
            Some(Failure::InvalidTokenSize)
        } else {
            None
        }),
        lookup.verdict(2, reply) == (if reply.status == 0 {
            Some(
                Failure::System { operation: Some(Operation::ReadOwner), code: reply.last_error },
            )
        } else {
            None
        }),
        lookup.verdict(3, reply) == (if reply.status == 0 {
            Some(
                Failure::System {
                    operation: Some(Operation::FormatOwner),
                    code: reply.last_error,
                },
            )
        } else {
            None
        }),
        lookup.verdict(4, reply) is None,
{
    broadcast use vstd::layout::layout_of_primitives;

    assert(word_size() == usize::BITS / 8);
}

/// How the private pipe is created: by the descriptor that was converted, as
/// the first and only pipe of its name, without waiting, for no remote client
/// and not inherited. A call that fails ends it, and a descriptor that was
/// converted is freed.
pub proof fn pipe_is_private(create: CreatePrivate, replies: Seq<Reply>, reply: Reply)
    ensures
        create.steps() == 2,
        replies.len() == 0 ==> create.call(replies) == (PipeCall::ConvertDescriptor {
            revision: 1,
        }),
        replies.len() == 1 ==> create.call(replies) == (PipeCall::CreatePipe {
            descriptor: replies[0].handle,
            inherit: 0,
            open_mode: 0x80003,
            pipe_mode: 0x9,
            instances: 1,
            output_size: 64,
            input_size: 64,
            timeout: 0,
        }),
        create.verdict(0, reply) == (if reply.status == 0 {
            Some(
                Failure::System { operation: Some(Operation::CreateDacl), code: reply.last_error },
            )
        } else {
            None
        }),
        create.verdict(1, reply) == (if reply.handle == 0 || reply.handle == -1 {
            Some(
                Failure::System { operation: Some(Operation::CreatePipe), code: reply.last_error },
            )
        } else {
            None
        }),
        replies.len() == 0 ==> create.releases(replies).len() == 0,
        1 <= replies.len() <= 2 ==> create.releases(replies) == seq![
            PipeCall::FreeDescriptor { descriptor: replies[0].handle },
        ],
        replies.len() == 2 ==> create.product(replies) == replies[1].handle,
{
    assert(0x3u32 | 0x80000u32 == 0x80003u32) by (bit_vector);
    assert(0x1u32 | 0x8u32 == 0x9u32) by (bit_vector);
}

/// A reader holds the units up to the first NUL of what it was given, and has
/// ended exactly when there was one.
pub proof fn reader_holds_what_it_was_given(reader: TextReader, read: Seq<u16>)
    requires
        reader.has_read(read),
    ensures
        reader.units@.len() <= read.len(),
        forall|i: int|
            0 <= i < reader.units@.len() ==> reader.units@[i] == read[i] && read[i] != 0,
        reader.ended <==> reader.units@.len() < read.len(),
        reader.ended ==> read[reader.units@.len() as int] == 0,
{
    crate::encoding::wide::before_nul_ends_at_the_first(read);
    if read.contains(0) {
        let i = choose|i: int| 0 <= i < read.len() && read[i] == 0;
        assert(i >= reader.units@.len());
    }
}

} // verus!
