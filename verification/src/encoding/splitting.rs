//! How a started program takes its command line apart again, and that it gets
//! back exactly the arguments that were quoted.

use vstd::prelude::*;

use crate::encoding::quoting::backslashes;
use crate::encoding::quoting::command_words;
use crate::encoding::quoting::escaped;
use crate::encoding::quoting::every_argument_is_a_word;
use crate::encoding::quoting::joined;
use crate::encoding::quoting::quoted;
use crate::encoding::quoting::run_meets_quote;
use crate::encoding::quoting::some_nul;
use crate::encoding::quoting::BACKSLASH;
use crate::encoding::quoting::QUOTE;
use crate::encoding::quoting::SPACE;
use crate::encoding::wide::before_nul;
use crate::encoding::wide::terminated_reads_back;

verus! {

pub const TAB: u16 = 9;

/// The argument read so far, where one has begun, with `held` backslashes
/// that turned out to stand for themselves.
pub open spec fn with_held(current: Option<Seq<u16>>, held: nat) -> Option<Seq<u16>> {
    if current is None && held == 0 {
        None
    } else {
        Some(begun(current) + backslashes(held))
    }
}

pub open spec fn begun(current: Option<Seq<u16>>) -> Seq<u16> {
    match current {
        Some(units) => units,
        None => Seq::empty(),
    }
}

pub open spec fn finished(current: Option<Seq<u16>>) -> Seq<Seq<u16>> {
    match current {
        Some(units) => seq![units],
        None => Seq::empty(),
    }
}

/// The arguments that the C runtime reads from `line`. `current` is the
/// argument being read, `held` counts the backslashes just seen, and `inside`
/// says whether a quote is open.
///
/// Backslashes stand for themselves unless a quote follows. Before a quote
/// each pair of them is one backslash, and an odd one makes the quote a plain
/// unit. A quote that is not plain opens or closes; two of them together
/// inside quotes are one plain quote. Spaces and tabs outside quotes separate.
pub open spec fn split_from(
    line: Seq<u16>,
    current: Option<Seq<u16>>,
    held: nat,
    inside: bool,
) -> Seq<Seq<u16>>
    decreases line.len(),
{
    if line.len() == 0 {
        finished(with_held(current, held))
    } else {
        let unit = line[0];
        let rest = line.drop_first();
        if unit == BACKSLASH {
            split_from(rest, current, held + 1, inside)
        } else if unit == QUOTE {
            let halved = begun(current) + backslashes(held / 2);
            if held % 2 == 1 {
                split_from(rest, Some(halved.push(QUOTE)), 0, inside)
            } else if inside && rest.len() > 0 && rest[0] == QUOTE {
                split_from(rest.drop_first(), Some(halved.push(QUOTE)), 0, inside)
            } else {
                split_from(rest, Some(halved), 0, !inside)
            }
        } else if (unit == SPACE || unit == TAB) && !inside {
            finished(with_held(current, held)) + split_from(rest, None, 0, false)
        } else {
            split_from(rest, Some(begun(current) + backslashes(held).push(unit)), 0, inside)
        }
    }
}

/// The arguments that the C runtime reads from a command line.
pub open spec fn split(line: Seq<u16>) -> Seq<Seq<u16>> {
    split_from(line, None, 0, false)
}

/// The program name that the C runtime reads from the front of a command line:
/// up to a space or tab outside quotes, without the quotes. Backslashes have
/// no meaning here.
pub open spec fn program_name(line: Seq<u16>, inside: bool) -> Seq<u16>
    decreases line.len(),
{
    if line.len() == 0 || (line[0] == SPACE || line[0] == TAB) && !inside {
        Seq::empty()
    } else if line[0] == QUOTE {
        program_name(line.drop_first(), !inside)
    } else {
        seq![line[0]] + program_name(line.drop_first(), inside)
    }
}

/// What stands behind the program name, from the space or tab that ends it.
pub open spec fn behind_program(line: Seq<u16>, inside: bool) -> Seq<u16>
    decreases line.len(),
{
    if line.len() == 0 || (line[0] == SPACE || line[0] == TAB) && !inside {
        line
    } else if line[0] == QUOTE {
        behind_program(line.drop_first(), !inside)
    } else {
        behind_program(line.drop_first(), inside)
    }
}

/// The words that a started program reads from its command line: the program
/// name by its own rule, and what stands behind it as arguments.
pub open spec fn read_words(line: Seq<u16>) -> Seq<Seq<u16>> {
    seq![program_name(line, false)] + split(behind_program(line, false))
}

/// Reading one escaped argument up to its closing quote.
proof fn split_escaped(argument: Seq<u16>, tail: Seq<u16>, read: Seq<u16>, held: nat)
    requires
        tail.len() == 0 || tail[0] != QUOTE,
    ensures
        split_from(
            escaped(argument) + (seq![QUOTE] + tail),
            Some(read),
            if run_meets_quote(argument) {
                held + held
            } else {
                held
            },
            true,
        ) == split_from(tail, Some(read + backslashes(held) + argument), 0, false),
    decreases argument.len(),
{
    let line = escaped(argument) + (seq![QUOTE] + tail);
    let target = read + backslashes(held) + argument;
    reveal_with_fuel(split_from, 3);
    if argument.len() == 0 {
        assert(line =~= seq![QUOTE] + tail);
        assert(line.drop_first() =~= tail);
        assert((held + held) / 2 == held);
        assert(target =~= read + backslashes(held));
    } else {
        let unit = argument[0];
        let rest = argument.drop_first();
        let after = escaped(rest) + (seq![QUOTE] + tail);
        if unit == QUOTE {
            assert(line =~= seq![BACKSLASH, QUOTE] + after);
            assert(line.drop_first() =~= seq![QUOTE] + after);
            assert(line.drop_first().drop_first() =~= after);
            assert((held + held + 1) / 2 == held);
            let next = (read + backslashes(held)).push(QUOTE);
            split_escaped(rest, tail, next, 0);
            assert(next + backslashes(0) + rest =~= target);
        } else if unit == BACKSLASH {
            split_escaped(rest, tail, read, held + 1);
            assert(read + backslashes(held + 1) + rest =~= target);
            if run_meets_quote(rest) {
                assert(line =~= seq![BACKSLASH, BACKSLASH] + after);
                assert(line.drop_first() =~= seq![BACKSLASH] + after);
                assert(line.drop_first().drop_first() =~= after);
            } else {
                assert(line =~= seq![BACKSLASH] + after);
                assert(line.drop_first() =~= after);
            }
        } else {
            assert(line =~= seq![unit] + after);
            assert(line.drop_first() =~= after);
            let next = read + backslashes(held).push(unit);
            split_escaped(rest, tail, next, 0);
            assert(next + backslashes(0) + rest =~= target);
        }
    }
}

proof fn split_quoted(argument: Seq<u16>, tail: Seq<u16>)
    requires
        tail.len() == 0 || tail[0] == SPACE,
    ensures
        split(quoted(argument) + tail) == seq![argument] + (if tail.len() == 0 {
            Seq::empty()
        } else {
            split(tail.drop_first())
        }),
{
    let line = quoted(argument) + tail;
    let inner = escaped(argument) + (seq![QUOTE] + tail);
    assert(line =~= seq![QUOTE] + inner);
    assert(line.drop_first() =~= inner);
    let nothing = Seq::<u16>::empty();
    assert(nothing + backslashes(0) =~= nothing);
    split_escaped(argument, tail, nothing, 0);
    assert(nothing + backslashes(0) + argument =~= argument);
    assert(argument + backslashes(0) =~= argument);
    assert(seq![argument] + Seq::<Seq<u16>>::empty() =~= seq![argument]);
}

proof fn joined_front(words: Seq<Seq<u16>>)
    requires
        words.len() > 1,
    ensures
        joined(words) == quoted(words[0]) + (seq![SPACE] + joined(words.drop_first())),
    decreases words.len(),
{
    reveal_with_fuel(joined, 2);
    if words.len() == 2 {
        assert(words.drop_last() =~= seq![words[0]]);
        assert(words.drop_first() =~= seq![words[1]]);
    } else {
        joined_front(words.drop_last());
        assert(words.drop_last().drop_first() =~= words.drop_first().drop_last());
    }
    assert(joined(words) =~= quoted(words[0]) + (seq![SPACE] + joined(words.drop_first())));
}

/// Taking a command line apart gives back the program and every argument
/// unchanged: empty ones, ones with spaces, quotes and backslashes, and ones
/// whose units are no valid text.
pub proof fn arguments_are_preserved(words: Seq<Seq<u16>>)
    ensures
        split(joined(words)) == words,
    decreases words.len(),
{
    if words.len() == 0 {
        assert(split(joined(words)) =~= words);
    } else if words.len() == 1 {
        let none = Seq::<u16>::empty();
        split_quoted(words[0], none);
        assert(quoted(words[0]) + none =~= quoted(words[0]));
        assert(split(joined(words)) =~= words);
    } else {
        let rest = words.drop_first();
        joined_front(words);
        let tail = seq![SPACE] + joined(rest);
        split_quoted(words[0], tail);
        assert(tail.drop_first() =~= joined(rest));
        arguments_are_preserved(rest);
        assert(seq![words[0]] + rest =~= words);
    }
}

proof fn escaped_plain(argument: Seq<u16>)
    requires
        !argument.contains(QUOTE),
        argument.len() > 0 ==> argument.last() != BACKSLASH,
    ensures
        escaped(argument) == argument,
        argument.len() > 0 ==> !run_meets_quote(argument),
    decreases argument.len(),
{
    if argument.len() > 0 {
        let rest = argument.drop_first();
        assert(argument.contains(argument[0]));
        assert forall|i: int| 0 <= i < rest.len() implies rest[i] != QUOTE by {
            assert(argument.contains(argument[i + 1]));
        }
        if rest.len() > 0 {
            assert(rest.last() == argument.last());
        }
        escaped_plain(rest);
        assert(seq![argument[0]] + rest =~= argument);
    }
}

proof fn program_name_inside(program: Seq<u16>, tail: Seq<u16>)
    requires
        !program.contains(QUOTE),
        tail.len() == 0 || tail[0] == SPACE,
    ensures
        program_name(program + (seq![QUOTE] + tail), true) == program,
        behind_program(program + (seq![QUOTE] + tail), true) == tail,
    decreases program.len(),
{
    let line = program + (seq![QUOTE] + tail);
    reveal_with_fuel(program_name, 2);
    reveal_with_fuel(behind_program, 2);
    if program.len() == 0 {
        assert(line.drop_first() =~= tail);
        assert(program_name(line, true) =~= program);
    } else {
        let rest = program.drop_first();
        assert(program.contains(program[0]));
        assert forall|i: int| 0 <= i < rest.len() implies rest[i] != QUOTE by {
            assert(program.contains(program[i + 1]));
        }
        program_name_inside(rest, tail);
        assert(line.drop_first() =~= rest + (seq![QUOTE] + tail));
        assert(seq![program[0]] + rest =~= program);
    }
}

/// A program name is also read back unchanged by the rule that gives
/// backslashes no meaning, unless it holds a quote or ends in a backslash.
pub proof fn program_is_preserved(words: Seq<Seq<u16>>)
    requires
        words.len() > 0,
        !words[0].contains(QUOTE),
        words[0].len() > 0 ==> words[0].last() != BACKSLASH,
    ensures
        program_name(joined(words), false) == words[0],
{
    let program = words[0];
    let tail = if words.len() == 1 {
        Seq::empty()
    } else {
        joined_front(words);
        seq![SPACE] + joined(words.drop_first())
    };
    let line = joined(words);
    escaped_plain(program);
    program_name_inside(program, tail);
    assert(line =~= seq![QUOTE] + (program + (seq![QUOTE] + tail)));
    assert(line.drop_first() =~= program + (seq![QUOTE] + tail));
}

/// A program that holds no quote and does not end in a backslash is started
/// with exactly its words: its name read by the rule for names, and every
/// argument by the rule for arguments.
pub proof fn words_are_read_back(words: Seq<Seq<u16>>)
    requires
        words.len() > 0,
        !words[0].contains(QUOTE),
        words[0].len() > 0 ==> words[0].last() != BACKSLASH,
    ensures
        read_words(joined(words)) == words,
{
    let program = words[0];
    let rest = words.drop_first();
    let line = joined(words);
    let tail = if words.len() == 1 {
        Seq::empty()
    } else {
        joined_front(words);
        seq![SPACE] + joined(rest)
    };
    escaped_plain(program);
    program_name_inside(program, tail);
    assert(line =~= seq![QUOTE] + (program + (seq![QUOTE] + tail)));
    assert(line.drop_first() =~= program + (seq![QUOTE] + tail));
    assert(behind_program(line, false) == tail);
    program_is_preserved(words);
    arguments_are_preserved(rest);
    if words.len() == 1 {
        assert(split(tail) =~= rest);
    } else {
        assert(tail.drop_first() =~= joined(rest));
        assert(split(tail) =~= split(joined(rest)));
    }
    assert(read_words(line) =~= words);
}

proof fn escaped_without_nul(argument: Seq<u16>)
    requires
        !argument.contains(0),
    ensures
        !escaped(argument).contains(0),
    decreases argument.len(),
{
    if argument.len() > 0 {
        let rest = argument.drop_first();
        assert(argument.contains(argument[0]));
        assert forall|i: int| 0 <= i < rest.len() implies rest[i] != 0 by {
            assert(argument.contains(argument[i + 1]));
        }
        escaped_without_nul(rest);
        assert forall|i: int| 0 <= i < escaped(argument).len() implies escaped(argument)[i] != 0 by {
            let skipped = escaped(argument).len() - escaped(rest).len();
            if i >= skipped {
                assert(escaped(argument)[i] == escaped(rest)[i - skipped]);
                assert(escaped(rest).contains(escaped(rest)[i - skipped]));
            }
        }
    }
}

proof fn joined_without_nul(words: Seq<Seq<u16>>)
    requires
        !some_nul(words),
    ensures
        !joined(words).contains(0),
    decreases words.len(),
{
    if words.len() > 0 {
        let word = words.last();
        assert(!words[words.len() - 1].contains(0));
        escaped_without_nul(word);
        assert forall|i: int| 0 <= i < quoted(word).len() implies quoted(word)[i] != 0 by {
            if 0 < i < quoted(word).len() - 1 {
                assert(quoted(word)[i] == escaped(word)[i - 1]);
                assert(escaped(word).contains(escaped(word)[i - 1]));
            }
        }
        if words.len() > 1 {
            let front = words.drop_last();
            assert forall|i: int| 0 <= i < front.len() implies !(#[trigger] front[i]).contains(0) by {
                assert(!words[i].contains(0));
            }
            joined_without_nul(front);
            assert forall|i: int| 0 <= i < joined(words).len() implies joined(words)[i] != 0 by {
                if i < joined(front).len() {
                    assert(joined(words)[i] == joined(front)[i]);
                    assert(joined(front).contains(joined(front)[i]));
                } else if i > joined(front).len() {
                    assert(joined(words)[i] == quoted(word)[i - joined(front).len() - 1]);
                }
            }
        }
    }
}

/// The command line that the system receives, read up to its NUL and taken
/// apart, is the program followed by its arguments.
pub proof fn command_line_reads_back(words: Seq<Seq<u16>>)
    requires
        !some_nul(words),
    ensures
        before_nul(joined(words).push(0)) == joined(words),
        split(before_nul(joined(words).push(0))) == words,
{
    joined_without_nul(words);
    terminated_reads_back(joined(words));
    arguments_are_preserved(words);
}

/// Two commands that are not the same have different command lines.
pub proof fn command_lines_are_distinct(left: Seq<Seq<u16>>, right: Seq<Seq<u16>>)
    requires
        joined(left) == joined(right),
    ensures
        left == right,
{
    arguments_are_preserved(left);
    arguments_are_preserved(right);
}

/// The command line of a program and its arguments, read up to its NUL, has as
/// many words as they are, and gives each of them back in its place.
pub proof fn every_argument_is_read_back(
    program: Seq<u16>,
    arguments: Seq<Vec<u16>>,
    line: Seq<u16>,
)
    requires
        line == joined(command_words(program, arguments)).push(0),
    ensures
        split(line.drop_last()).len() == arguments.len() + 1,
        split(line.drop_last())[0] == program,
        forall|i: int|
            0 <= i < arguments.len() ==> split(line.drop_last())[i + 1]
                == #[trigger] arguments[i]@,
        !program.contains(0) && (forall|i: int|
            0 <= i < arguments.len() ==> !(#[trigger] arguments[i])@.contains(0)) ==> before_nul(
            line,
        ) == line.drop_last(),
{
    let words = command_words(program, arguments);
    every_argument_is_a_word(program, arguments);
    arguments_are_preserved(words);
    assert(line.drop_last() =~= joined(words));
    if !some_nul(words) {
        command_line_reads_back(words);
    }
}

} // verus!
