//! The name of the pipe between a launcher and its temporary parent.

use vstd::prelude::*;
use vstd::slice::slice_to_vec;

use crate::encoding::quoting::command_line;
use crate::encoding::quoting::command_words;
use crate::encoding::quoting::joined;
use crate::encoding::quoting::some_nul;
use crate::encoding::quoting::BACKSLASH;
use crate::encoding::quoting::COMMAND_LINE_LIMIT;
use crate::encoding::quoting::QUOTE;
use crate::encoding::splitting::arguments_are_preserved;
use crate::encoding::splitting::read_words;
use crate::encoding::splitting::split;
use crate::encoding::splitting::words_are_read_back;
use crate::encoding::text::ascii;
use crate::encoding::text::ascii_is_text;
use crate::encoding::text::encodes_text;
use crate::encoding::text::is_text;
use crate::encoding::text::push_ascii;
use crate::encoding::wide::terminated;
use crate::encoding::wide::wide;
use crate::failure::Failure;

verus! {

/// The first argument of a program that is started as a temporary parent.
pub const CODEX_WINDOWS_SPAWN_PARENT_ARG1: &'static str = "--codex-daemon-launch-parent";

pub const PIPE_PREFIX: &'static str = "\\\\.\\pipe\\codex-daemon-launch-parent-";

pub open spec fn hex_digit(digit: nat) -> u16 {
    if digit < 10 {
        (48 + digit) as u16
    } else {
        (87 + digit) as u16
    }
}

/// A number in lower-case hexadecimal, without leading zeros.
pub open spec fn hex(number: nat) -> Seq<u16>
    decreases number,
{
    if number < 16 {
        seq![hex_digit(number)]
    } else {
        hex(number / 16).push(hex_digit(number % 16))
    }
}

pub open spec fn pipe_units(nonce: u128) -> Seq<u16> {
    ascii(PIPE_PREFIX@) + hex(nonce as nat)
}

fn push_hex(line: &mut Vec<u16>, number: u128)
    ensures
        final(line)@ == old(line)@ + hex(number as nat),
    decreases number,
{
    if number >= 16 {
        push_hex(line, number / 16);
    }
    let digit: u16 = (number % 16) as u16;
    line.push(
        if digit < 10 {
            48 + digit
        } else {
            87 + digit
        },
    );
    proof {
        assert(line@ =~= old(line)@ + hex(number as nat));
    }
}

proof fn prefix_is_ascii()
    ensures
        vstd::utf8::is_ascii_chars(PIPE_PREFIX@),
{
    reveal_strlit("\\\\.\\pipe\\codex-daemon-launch-parent-");
}

/// The pipe name for a nonce.
pub fn pipe_name(nonce: u128) -> (name: Vec<u16>)
    ensures
        name@ == pipe_units(nonce),
{
    let mut name: Vec<u16> = Vec::new();
    proof {
        prefix_is_ascii();
    }
    push_ascii(&mut name, PIPE_PREFIX);
    push_hex(&mut name, nonce);
    proof {
        assert(name@ =~= pipe_units(nonce));
    }
    name
}

/// A number drawn by `rand::random` from the thread's generator. Nothing is
/// claimed of which number it is.
#[verifier::external_body]
fn random_nonce() -> (nonce: u128) {
    rand::random()
}

/// The pipe name for a nonce that was just drawn. That others cannot foresee
/// the name rests on `rand` alone.
pub fn fresh_pipe_name() -> (name: Vec<u16>)
    ensures
        exists|nonce: u128| name@ == #[trigger] pipe_units(nonce),
{
    pipe_name(random_nonce())
}

/// The command that starts the temporary parent.
pub open spec fn parent_words(executable: Seq<u16>, name: Seq<u16>) -> Seq<Seq<u16>> {
    seq![executable, ascii(CODEX_WINDOWS_SPAWN_PARENT_ARG1@), name]
}

/// The command line that starts `executable` as the temporary parent on the
/// pipe called `name`.
pub fn parent_command_line(executable: &[u16], name: &[u16]) -> (line: Result<Vec<u16>, Failure>)
    ensures
        line is Ok <==> {
            &&& !some_nul(parent_words(executable@, name@))
            &&& joined(parent_words(executable@, name@)).len() < COMMAND_LINE_LIMIT
        },
        line is Ok ==> line->Ok_0@ == joined(parent_words(executable@, name@)).push(0),
        line is Err ==> line->Err_0 == (if some_nul(parent_words(executable@, name@)) {
            Failure::NulInCommandLine
        } else {
            Failure::CommandLineTooLong
        }),
{
    let mut first: Vec<u16> = Vec::new();
    proof {
        reveal_strlit("--codex-daemon-launch-parent");
    }
    push_ascii(&mut first, CODEX_WINDOWS_SPAWN_PARENT_ARG1);
    let mut arguments: Vec<Vec<u16>> = Vec::new();
    arguments.push(first);
    arguments.push(slice_to_vec(name));
    proof {
        assert(first@ =~= ascii(CODEX_WINDOWS_SPAWN_PARENT_ARG1@));
        assert(command_words(executable@, arguments@) =~= parent_words(executable@, name@));
    }
    command_line(executable, &arguments)
}

/// The pipe that a temporary parent is to open, given the words of its
/// command line: it stands alone behind the first argument.
pub open spec fn accepted_pipe(words: Seq<Seq<u16>>) -> Result<Seq<u16>, Failure> {
    if words.len() < 3 {
        Err(Failure::MissingPipe)
    } else if words.len() > 3 {
        Err(Failure::UnexpectedArguments)
    } else if !is_text(words[2]) || !ascii(PIPE_PREFIX@).is_prefix_of(words[2]) {
        Err(Failure::InvalidPipe)
    } else if words[2].contains(0) {
        Err(Failure::NulInParameter)
    } else {
        Ok(terminated(words[2]))
    }
}

fn starts_with(units: &[u16], prefix: &Vec<u16>) -> (starts: bool)
    ensures
        starts == prefix@.is_prefix_of(units@),
{
    if units.len() < prefix.len() {
        return false;
    }
    let mut i: usize = 0;
    while i < prefix.len()
        invariant
            i <= prefix@.len() <= units@.len(),
            forall|j: int| 0 <= j < i ==> units@[j] == prefix@[j],
        decreases prefix.len() - i,
    {
        if units[i] != prefix[i] {
            proof {
                assert(units@.subrange(0, prefix@.len() as int)[i as int] == units@[i as int]);
            }
            return false;
        }
        i += 1;
    }
    proof {
        assert(units@.subrange(0, prefix@.len() as int) =~= prefix@);
    }
    true
}

/// The NUL-terminated name of the pipe that a temporary parent is to open,
/// given all words of its command line.
pub fn parent_pipe(words: &Vec<Vec<u16>>) -> (name: Result<Vec<u16>, Failure>)
    ensures
        match (name, accepted_pipe(words@.map_values(|word: Vec<u16>| word@))) {
            (Ok(name), Ok(accepted)) => name@ == accepted,
            (Err(failure), Err(expected)) => failure == expected,
            _ => false,
        },
{
    if words.len() < 3 {
        return Err(Failure::MissingPipe);
    }
    if words.len() > 3 {
        return Err(Failure::UnexpectedArguments);
    }
    let mut prefix: Vec<u16> = Vec::new();
    proof {
        prefix_is_ascii();
    }
    push_ascii(&mut prefix, PIPE_PREFIX);
    proof {
        assert(prefix@ =~= ascii(PIPE_PREFIX@));
    }
    let name = words[2].as_slice();
    if !encodes_text(name) || !starts_with(name, &prefix) {
        return Err(Failure::InvalidPipe);
    }
    wide(name)
}

proof fn hex_is_ascii(number: nat)
    ensures
        hex(number).len() > 0,
        forall|i: int| 0 <= i < hex(number).len() ==> 0 < (#[trigger] hex(number)[i]) < 128,
    decreases number,
{
    if number >= 16 {
        hex_is_ascii(number / 16);
    }
}

proof fn hex_is_injective(left: nat, right: nat)
    requires
        hex(left) == hex(right),
    ensures
        left == right,
    decreases left,
{
    hex_is_ascii(left / 16);
    hex_is_ascii(right / 16);
    assert(hex(left).last() == hex_digit(left % 16));
    assert(hex(right).last() == hex_digit(right % 16));
    if left >= 16 && right >= 16 {
        assert(hex(left).drop_last() =~= hex(left / 16));
        assert(hex(right).drop_last() =~= hex(right / 16));
        hex_is_injective(left / 16, right / 16);
    }
}

/// Different nonces give different pipes.
pub proof fn pipe_names_are_distinct(left: u128, right: u128)
    requires
        pipe_units(left) == pipe_units(right),
    ensures
        left == right,
{
    let start = ascii(PIPE_PREFIX@).len() as int;
    assert(pipe_units(left).skip(start) =~= hex(left as nat));
    assert(pipe_units(right).skip(start) =~= hex(right as nat));
    hex_is_injective(left as nat, right as nat);
}

/// A temporary parent that was started on a launcher's pipe accepts it: its
/// command line, taken apart, names exactly that pipe. That is so too where
/// the program name is read by its own rule, for a program that holds no quote
/// and does not end in a backslash.
pub proof fn started_parent_accepts(executable: Seq<u16>, nonce: u128)
    ensures
        accepted_pipe(split(joined(parent_words(executable, pipe_units(nonce))))) == Ok::<
            Seq<u16>,
            Failure,
        >(terminated(pipe_units(nonce))),
        !executable.contains(QUOTE) && (executable.len() > 0 ==> executable.last() != BACKSLASH)
            ==> accepted_pipe(
            read_words(joined(parent_words(executable, pipe_units(nonce)))),
        ) == Ok::<Seq<u16>, Failure>(terminated(pipe_units(nonce))),
{
    let words = parent_words(executable, pipe_units(nonce));
    let name = pipe_units(nonce);
    let prefix = ascii(PIPE_PREFIX@);
    arguments_are_preserved(words);
    if !executable.contains(QUOTE) && (executable.len() > 0 ==> executable.last() != BACKSLASH) {
        words_are_read_back(words);
    }
    reveal_strlit("\\\\.\\pipe\\codex-daemon-launch-parent-");
    hex_is_ascii(nonce as nat);
    assert forall|i: int| 0 <= i < name.len() implies 0 < (#[trigger] name[i]) < 128 by {
        if i < prefix.len() {
            assert(name[i] == prefix[i]);
        } else {
            assert(name[i] == hex(nonce as nat)[i - prefix.len()]);
        }
    }
    ascii_is_text(name);
    assert(name.subrange(0, prefix.len() as int) =~= prefix);
    assert(!name.contains(0));
}

/// A number is written digit by digit: one below sixteen as its digit, from
/// zero to nine and a to f, and a larger one as its sixteenth part with the
/// digit of the remainder behind it.
pub proof fn hexadecimal_is_positional(number: nat, remainder: nat)
    requires
        remainder < 16,
    ensures
        hex(remainder) == seq![
            if remainder < 10 {
                ('0' as u16 + remainder) as u16
            } else {
                ('a' as u16 + remainder - 10) as u16
            },
        ],
        number > 0 ==> hex(16 * number + remainder) == hex(number) + hex(remainder),
{
    if number > 0 {
        let all = 16 * number + remainder;
        assert(all / 16 == number && all % 16 == remainder);
        assert(hex(all) =~= hex(number) + hex(remainder));
    }
}

/// The name of a pipe is the fixed prefix, unit by unit, and the nonce in
/// hexadecimal behind it.
pub proof fn pipe_name_is_prefix_and_nonce(nonce: u128)
    ensures
        ({
            let prefix = "\\\\.\\pipe\\codex-daemon-launch-parent-"@;
            &&& pipe_units(nonce).len() == prefix.len() + hex(nonce as nat).len()
            &&& forall|i: int| 0 <= i < prefix.len() ==> pipe_units(nonce)[i] == prefix[i] as u16
            &&& pipe_units(nonce).skip(prefix.len() as int) == hex(nonce as nat)
        }),
{
    assert(pipe_units(nonce).skip(PIPE_PREFIX@.len() as int) =~= hex(nonce as nat));
}

/// The temporary parent is started as this program with two arguments: the
/// word that makes it a parent, and the name of the pipe.
pub proof fn parent_command_is_three_words(executable: Seq<u16>, name: Seq<u16>)
    ensures
        ({
            let words = parent_words(executable, name);
            let first = "--codex-daemon-launch-parent"@;
            &&& words.len() == 3
            &&& words[0] == executable
            &&& words[1].len() == first.len()
            &&& forall|i: int| 0 <= i < first.len() ==> words[1][i] == first[i] as u16
            &&& words[2] == name
        }),
        some_nul(parent_words(executable, name)) <==> executable.contains(0) || name.contains(0),
{
    reveal_strlit("--codex-daemon-launch-parent");
    let words = parent_words(executable, name);
    assert(!words[1].contains(0));
    if executable.contains(0) {
        assert(words[0].contains(0));
    }
    if name.contains(0) {
        assert(words[2].contains(0));
    }
}

/// A temporary parent takes exactly three words. The third is its pipe, whole
/// and with a NUL behind it, where it is a text that begins with the prefix
/// and holds no NUL; otherwise it says what is wrong.
pub proof fn parent_takes_only_its_pipe(words: Seq<Seq<u16>>)
    ensures
        ({
            let prefix = "\\\\.\\pipe\\codex-daemon-launch-parent-"@;
            let begins = words[2].len() >= prefix.len() && forall|i: int|
                0 <= i < prefix.len() ==> #[trigger] words[2][i] == prefix[i] as u16;
            accepted_pipe(words) == (if words.len() < 3 {
                Err(Failure::MissingPipe)
            } else if words.len() > 3 {
                Err(Failure::UnexpectedArguments)
            } else if !is_text(words[2]) || !begins {
                Err(Failure::InvalidPipe)
            } else if words[2].contains(0) {
                Err(Failure::NulInParameter)
            } else {
                Ok(words[2] + seq![0u16])
            })
        }),
{
    let prefix = ascii(PIPE_PREFIX@);
    assert(words[2] + seq![0u16] =~= terminated(words[2]));
    if words[2].len() >= prefix.len() {
        let start = words[2].subrange(0, prefix.len() as int);
        if prefix.is_prefix_of(words[2]) {
            assert forall|i: int| 0 <= i < prefix.len() implies #[trigger] words[2][i]
                == PIPE_PREFIX@[i] as u16 by {
                assert(start[i] == prefix[i]);
            }
        } else if forall|i: int|
            0 <= i < prefix.len() ==> #[trigger] words[2][i] == PIPE_PREFIX@[i] as u16 {
            assert(start =~= prefix);
        }
    }
}

} // verus!
