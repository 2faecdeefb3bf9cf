//! One command line out of a program and its arguments.

use vstd::prelude::*;

use crate::encoding::wide::before_nul;
use crate::failure::Failure;

verus! {

pub const BACKSLASH: u16 = 92;

pub const QUOTE: u16 = 34;

pub const SPACE: u16 = 32;

/// The most units a command line may have, its closing NUL counted.
pub const COMMAND_LINE_LIMIT: usize = 32767;

pub open spec fn backslashes(count: nat) -> Seq<u16> {
    Seq::new(count, |i: int| BACKSLASH)
}

/// Whether the run of backslashes at the front of `units`, which may be empty,
/// is followed by a quote or by nothing.
pub open spec fn run_meets_quote(units: Seq<u16>) -> bool
    decreases units.len(),
{
    ||| units.len() == 0
    ||| units[0] == QUOTE
    ||| units[0] == BACKSLASH && run_meets_quote(units.drop_first())
}

/// The inside of a quoted argument: a quote gets a backslash before it, a
/// backslash is doubled where its run ends at a quote or at the end, and every
/// other unit stands as it is.
pub open spec fn escaped(argument: Seq<u16>) -> Seq<u16>
    decreases argument.len(),
{
    if argument.len() == 0 {
        Seq::empty()
    } else {
        let rest = argument.drop_first();
        if argument[0] == QUOTE || argument[0] == BACKSLASH && run_meets_quote(rest) {
            seq![BACKSLASH, argument[0]] + escaped(rest)
        } else {
            seq![argument[0]] + escaped(rest)
        }
    }
}

/// The units in front of the run of backslashes at the end.
pub open spec fn before_run(units: Seq<u16>) -> Seq<u16>
    decreases units.len(),
{
    if units.len() == 0 || units.last() != BACKSLASH {
        units
    } else {
        before_run(units.drop_last())
    }
}

pub open spec fn quoted(argument: Seq<u16>) -> Seq<u16> {
    seq![QUOTE] + escaped(argument) + seq![QUOTE]
}

/// The quoted arguments, a space between each two.
pub open spec fn joined(arguments: Seq<Seq<u16>>) -> Seq<u16>
    decreases arguments.len(),
{
    if arguments.len() == 0 {
        Seq::empty()
    } else if arguments.len() == 1 {
        quoted(arguments[0])
    } else {
        joined(arguments.drop_last()) + seq![SPACE] + quoted(arguments.last())
    }
}

/// The words of a command: the program, then its arguments.
pub open spec fn command_words(program: Seq<u16>, arguments: Seq<Vec<u16>>) -> Seq<Seq<u16>> {
    seq![program] + arguments.map_values(|argument: Vec<u16>| argument@)
}

pub open spec fn some_nul(words: Seq<Seq<u16>>) -> bool {
    exists|i: int| 0 <= i < words.len() && (#[trigger] words[i]).contains(0)
}

/// Backslashes that are held back are written doubled before a quote or the
/// end, and as they are before anything else.
proof fn escaped_run(count: nat, rest: Seq<u16>)
    requires
        rest.len() == 0 || rest[0] != BACKSLASH,
    ensures
        run_meets_quote(backslashes(count) + rest) == run_meets_quote(rest),
        escaped(backslashes(count) + rest) == (if run_meets_quote(rest) {
            backslashes(count + count)
        } else {
            backslashes(count)
        }) + escaped(rest),
    decreases count,
{
    let all = backslashes(count) + rest;
    if count == 0 {
        assert(all =~= rest);
        assert(backslashes(0) + escaped(rest) =~= escaped(rest));
    } else {
        let fewer = (count - 1) as nat;
        escaped_run(fewer, rest);
        assert(all.drop_first() =~= backslashes(fewer) + rest);
        assert(all[0] == BACKSLASH);
        if run_meets_quote(rest) {
            assert(seq![BACKSLASH, BACKSLASH] + (backslashes(fewer + fewer) + escaped(rest))
                =~= backslashes(count + count) + escaped(rest));
        } else {
            assert(seq![BACKSLASH] + (backslashes(fewer) + escaped(rest)) =~= backslashes(count)
                + escaped(rest));
        }
    }
}

/// What is escaped does not depend on what follows a unit that is no
/// backslash.
proof fn escaped_parts(front: Seq<u16>, rest: Seq<u16>)
    requires
        front.len() > 0 ==> front.last() != BACKSLASH,
    ensures
        escaped(front + rest) == escaped(front) + escaped(rest),
        front.len() > 0 ==> run_meets_quote(front + rest) == run_meets_quote(front),
    decreases front.len(),
{
    let all = front + rest;
    if front.len() == 0 {
        assert(all =~= rest);
        assert(escaped(front) + escaped(rest) =~= escaped(rest));
    } else {
        let more = front.drop_first();
        if more.len() > 0 {
            assert(more.last() == front.last());
        }
        escaped_parts(more, rest);
        assert(all.drop_first() =~= more + rest);
        assert(escaped(all) =~= escaped(front) + escaped(rest));
    }
}

proof fn before_nul_at(units: Seq<u16>, at: int)
    requires
        0 <= at < units.len(),
        units[at] == 0,
        forall|i: int| 0 <= i < at ==> units[i] != 0,
    ensures
        before_nul(units) == units.take(at),
    decreases at,
{
    if at > 0 {
        let rest = units.drop_first();
        assert forall|i: int| 0 <= i < at - 1 implies rest[i] != 0 by {
            assert(units[i + 1] != 0);
        }
        before_nul_at(rest, at - 1);
    }
    assert(before_nul(units) =~= units.take(at));
}

proof fn before_run_of(units: Seq<u16>, count: nat)
    requires
        count <= units.len(),
        forall|i: int| units.len() - count <= i < units.len() ==> units[i] == BACKSLASH,
        count < units.len() ==> units[units.len() - count - 1] != BACKSLASH,
    ensures
        before_run(units) == units.take(units.len() - count),
    decreases count,
{
    if count > 0 {
        before_run_of(units.drop_last(), (count - 1) as nat);
    }
    assert(before_run(units) =~= units.take(units.len() - count));
}

/// How a unit that is no backslash is written, with the backslashes that were
/// held back before it.
spec fn unit_escaped(unit: u16, held: nat) -> Seq<u16> {
    if unit == QUOTE {
        backslashes(held) + backslashes(held) + seq![BACKSLASH, QUOTE]
    } else {
        backslashes(held) + seq![unit]
    }
}

proof fn escaped_unit(argument: Seq<u16>, at: int, held: nat)
    requires
        0 <= held <= at < argument.len(),
        argument[at] != BACKSLASH,
        forall|i: int| at - held <= i < at ==> argument[i] == BACKSLASH,
    ensures
        escaped(argument.skip(at - held)) == unit_escaped(argument[at], held) + escaped(
            argument.skip(at + 1),
        ),
{
    let rest = argument.skip(at);
    let after = escaped(argument.skip(at + 1));
    assert(argument.skip(at - held) =~= backslashes(held) + rest);
    escaped_run(held, rest);
    assert(rest.drop_first() =~= argument.skip(at + 1));
    if argument[at] == QUOTE {
        assert(escaped(rest) == seq![BACKSLASH, QUOTE] + after);
        assert(backslashes(held + held) + (seq![BACKSLASH, QUOTE] + after) =~= unit_escaped(
            QUOTE,
            held,
        ) + after);
    } else {
        assert(escaped(rest) == seq![argument[at]] + after);
        assert(backslashes(held) + (seq![argument[at]] + after) =~= unit_escaped(
            argument[at],
            held,
        ) + after);
    }
}

/// What is written when a NUL is met is what stands before it, but for the
/// backslashes that are held back.
proof fn written_before_nul(argument: Seq<u16>, at: int, held: nat, written: Seq<u16>)
    requires
        0 <= held <= at < argument.len(),
        argument[at] == 0,
        forall|i: int| 0 <= i < at ==> argument[i] != 0,
        forall|i: int| at - held <= i < at ==> argument[i] == BACKSLASH,
        held < at ==> argument[at - held - 1] != BACKSLASH,
        written + escaped(argument.skip(at - held)) == escaped(argument),
    ensures
        written == escaped(before_run(before_nul(argument))),
{
    let front = argument.take(at - held);
    let rest = argument.skip(at - held);
    before_nul_at(argument, at);
    before_run_of(argument.take(at), held);
    assert(argument.take(at).take(at - held) =~= front);
    assert(front + rest =~= argument);
    escaped_parts(front, rest);
    assert(written =~= (written + escaped(rest)).take(written.len() as int));
    assert(escaped(front) =~= (escaped(front) + escaped(rest)).take(escaped(front).len() as int));
}

fn push_backslashes(line: &mut Vec<u16>, count: usize)
    ensures
        final(line)@ == old(line)@ + backslashes(count as nat),
{
    let mut i: usize = 0;
    while i < count
        invariant
            i <= count,
            line@ =~= old(line)@ + backslashes(i as nat),
        decreases count - i,
    {
        line.push(BACKSLASH);
        i += 1;
    }
}

/// Appends one quoted argument to a command line. A NUL in the argument would
/// end the line early, so it is refused; the line then holds what was written
/// before the NUL was met.
pub fn append_quoted_arg(line: &mut Vec<u16>, argument: &[u16]) -> (outcome: Result<(), Failure>)
    ensures
        outcome is Ok <==> !argument@.contains(0),
        outcome is Ok ==> final(line)@ == old(line)@ + quoted(argument@),
        outcome is Err ==> outcome->Err_0 == Failure::NulInCommandLine,
        outcome is Err ==> final(line)@ == old(line)@.push(QUOTE) + escaped(
            before_run(before_nul(argument@)),
        ),
{
    line.push(QUOTE);
    let mut slashes: usize = 0;
    let mut i: usize = 0;
    let ghost start = line@;
    let ghost mut written: Seq<u16> = Seq::empty();
    proof {
        assert(argument@.skip(0) =~= argument@);
        assert(written + escaped(argument@) =~= escaped(argument@));
    }
    while i < argument.len()
        invariant
            slashes <= i <= argument.len(),
            start == old(line)@.push(QUOTE),
            line@ == start + written,
            forall|j: int| 0 <= j < i ==> argument@[j] != 0,
            forall|j: int| i - slashes <= j < i ==> argument@[j] == BACKSLASH,
            slashes < i ==> argument@[i - slashes - 1] != BACKSLASH,
            written + escaped(argument@.skip(i - slashes)) == escaped(argument@),
        decreases argument.len() - i,
    {
        let unit: u16 = argument[i];
        if unit == 0 {
            proof {
                written_before_nul(argument@, i as int, slashes as nat, written);
            }
            return Err(Failure::NulInCommandLine);
        }
        if unit == BACKSLASH {
            slashes += 1;
        } else {
            push_backslashes(line, slashes);
            if unit == QUOTE {
                push_backslashes(line, slashes);
                line.push(BACKSLASH);
            }
            line.push(unit);
            proof {
                let more = unit_escaped(unit, slashes as nat);
                let rest = escaped(argument@.skip(i + 1));
                escaped_unit(argument@, i as int, slashes as nat);
                assert(line@ =~= start + (written + more));
                assert((written + more) + rest =~= written + (more + rest));
                written = written + more;
            }
            slashes = 0;
        }
        i += 1;
    }
    proof {
        assert(argument@.skip(i - slashes) =~= backslashes(slashes as nat) + Seq::<u16>::empty());
        escaped_run(slashes as nat, Seq::empty());
    }
    push_backslashes(line, slashes);
    push_backslashes(line, slashes);
    line.push(QUOTE);
    proof {
        assert(backslashes((slashes + slashes) as nat) + escaped(Seq::<u16>::empty())
            =~= backslashes((slashes + slashes) as nat));
        assert(line@ =~= old(line)@ + quoted(argument@));
        assert(!argument@.contains(0));
    }
    Ok(())
}

/// The command line of a program with its arguments, closed by a NUL.
pub fn command_line(program: &[u16], arguments: &Vec<Vec<u16>>) -> (line: Result<
    Vec<u16>,
    Failure,
>)
    ensures
        line is Ok <==> {
            &&& !some_nul(command_words(program@, arguments@))
            &&& joined(command_words(program@, arguments@)).len() < COMMAND_LINE_LIMIT
        },
        line is Ok ==> line->Ok_0@ == joined(command_words(program@, arguments@)).push(0),
        line is Err ==> line->Err_0 == (if some_nul(command_words(program@, arguments@)) {
            Failure::NulInCommandLine
        } else {
            Failure::CommandLineTooLong
        }),
{
    let ghost words = command_words(program@, arguments@);
    let mut line: Vec<u16> = Vec::new();
    if let Err(failure) = append_quoted_arg(&mut line, program) {
        proof {
            assert(words[0].contains(0));
        }
        return Err(failure);
    }
    proof {
        assert(words.take(1) =~= seq![program@]);
        assert(line@ =~= joined(words.take(1)));
    }
    let mut i: usize = 0;
    while i < arguments.len()
        invariant
            i <= arguments.len(),
            words == command_words(program@, arguments@),
            line@ == joined(words.take(i + 1)),
            forall|j: int| 0 <= j <= i ==> !(#[trigger] words[j]).contains(0),
        decreases arguments.len() - i,
    {
        line.push(SPACE);
        proof {
            assert(words[i + 1] == arguments@[i as int]@);
        }
        if let Err(failure) = append_quoted_arg(&mut line, arguments[i].as_slice()) {
            return Err(failure);
        }
        proof {
            assert(words.take(i + 2).drop_last() =~= words.take(i + 1));
            assert(line@ =~= joined(words.take(i + 2)));
        }
        i += 1;
    }
    proof {
        assert(words.take(i + 1) =~= words);
    }
    if line.len() >= COMMAND_LINE_LIMIT {
        return Err(Failure::CommandLineTooLong);
    }
    line.push(0);
    Ok(line)
}

/// A run of backslashes is doubled at the end of an argument, doubled and one
/// more before a quote, and left as it is before any other unit; every unit
/// that is no backslash is written once.
pub proof fn runs_are_doubled_before_quotes(count: nat, unit: u16, rest: Seq<u16>)
    ensures
        escaped(Seq::new(count, |i: int| 92u16)) == Seq::new(2 * count, |i: int| 92u16),
        escaped(Seq::new(count, |i: int| 92u16) + seq![34u16] + rest) == Seq::new(
            2 * count + 1,
            |i: int| 92u16,
        ) + seq![34u16] + escaped(rest),
        unit != 92 && unit != 34 ==> escaped(
            Seq::new(count, |i: int| 92u16) + seq![unit] + rest,
        ) == Seq::new(count, |i: int| 92u16) + seq![unit] + escaped(rest),
{
    let run = Seq::new(count, |i: int| 92u16);
    let none = Seq::<u16>::empty();
    assert(run =~= backslashes(count));
    escaped_run(count, none);
    assert(backslashes(count) + none =~= run);
    assert(backslashes(count + count) + escaped(none) =~= Seq::new(2 * count, |i: int| 92u16));
    let quote = seq![34u16] + rest;
    escaped_run(count, quote);
    assert(run + seq![34u16] + rest =~= backslashes(count) + quote);
    assert(quote.drop_first() =~= rest);
    assert(escaped(run + seq![34u16] + rest) =~= Seq::new(2 * count + 1, |i: int| 92u16) + seq![
        34u16,
    ] + escaped(rest));
    if unit != 92 && unit != 34 {
        let plain = seq![unit] + rest;
        escaped_run(count, plain);
        assert(run + seq![unit] + rest =~= backslashes(count) + plain);
        assert(plain.drop_first() =~= rest);
        assert(escaped(run + seq![unit] + rest) =~= run + seq![unit] + escaped(rest));
    }
}

/// One word stands between two quotes, and two parts of a command are joined
/// by one space, wherever it is cut.
pub proof fn words_are_joined_by_one_space(word: Seq<u16>, front: Seq<Seq<u16>>, back: Seq<Seq<u16>>)
    ensures
        joined(Seq::empty()) == Seq::<u16>::empty(),
        joined(seq![word]) == seq![34u16] + escaped(word) + seq![34u16],
        quoted(word) == joined(seq![word]),
        front.len() > 0 && back.len() > 0 ==> joined(front + back) == joined(front) + seq![32u16]
            + joined(back),
    decreases back.len(),
{
    if front.len() > 0 && back.len() > 0 {
        let all = front + back;
        if back.len() == 1 {
            assert(all.drop_last() =~= front);
        } else {
            words_are_joined_by_one_space(word, front, back.drop_last());
            assert(all.drop_last() =~= front + back.drop_last());
        }
        assert(joined(all) =~= joined(front) + seq![32u16] + joined(back));
    }
}

/// The words of a command are the program and every argument in turn, and one
/// of them holds a NUL exactly where the program or an argument does.
pub proof fn every_argument_is_a_word(program: Seq<u16>, arguments: Seq<Vec<u16>>)
    ensures
        command_words(program, arguments).len() == arguments.len() + 1,
        command_words(program, arguments)[0] == program,
        forall|i: int|
            0 <= i < arguments.len() ==> command_words(program, arguments)[i + 1]
                == #[trigger] arguments[i]@,
        some_nul(command_words(program, arguments)) <==> program.contains(0) || exists|i: int|
            0 <= i < arguments.len() && (#[trigger] arguments[i])@.contains(0),
{
    let words = command_words(program, arguments);
    assert forall|i: int| 0 <= i < arguments.len() implies words[i + 1]
        == #[trigger] arguments[i]@ by {}
    if program.contains(0) {
        assert(words[0].contains(0));
    }
    if exists|i: int| 0 <= i < arguments.len() && (#[trigger] arguments[i])@.contains(0) {
        let i = choose|i: int| 0 <= i < arguments.len() && (#[trigger] arguments[i])@.contains(0);
        assert(words[i + 1].contains(0));
    }
    if some_nul(words) {
        let i = choose|i: int| 0 <= i < words.len() && (#[trigger] words[i]).contains(0);
        if i > 0 {
            assert(arguments[i - 1]@.contains(0));
        }
    }
}

/// What stands in front of the run of backslashes at the end is everything up
/// to the last unit that is no backslash.
pub proof fn run_at_the_end_is_left_out(front: Seq<u16>, count: nat)
    requires
        front.len() > 0 ==> front.last() != 92,
    ensures
        before_run(front + Seq::new(count, |i: int| 92u16)) == front,
{
    let units = front + Seq::new(count, |i: int| 92u16);
    before_run_of(units, count);
    assert(units.take(units.len() - count) =~= front);
}

} // verus!
