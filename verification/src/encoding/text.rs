//! Text in 16-bit units.

use vstd::prelude::*;
use vstd::utf8::is_ascii_chars;

verus! {

/// The units of a text of ASCII characters.
pub open spec fn ascii(text: Seq<char>) -> Seq<u16> {
    text.map_values(|c: char| c as u16)
}

/// Appends a text of ASCII characters.
pub fn push_ascii(line: &mut Vec<u16>, text: &str)
    requires
        is_ascii_chars(text@),
    ensures
        final(line)@ == old(line)@ + ascii(text@),
{
    let count: usize = text.unicode_len();
    let mut i: usize = 0;
    while i < count
        invariant
            count == text@.len(),
            i <= count,
            line@ =~= old(line)@ + ascii(text@).take(i as int),
        decreases count - i,
    {
        line.push(text.get_char(i) as u16);
        i += 1;
    }
    proof {
        assert(ascii(text@).take(count as int) =~= ascii(text@));
    }
}

pub open spec fn is_high_surrogate(unit: u16) -> bool {
    0xD800 <= unit < 0xDC00
}

pub open spec fn is_low_surrogate(unit: u16) -> bool {
    0xDC00 <= unit < 0xE000
}

/// Whether the units start with a character that two of them encode.
pub open spec fn starts_with_pair(units: Seq<u16>) -> bool {
    units.len() >= 2 && is_high_surrogate(units[0]) && is_low_surrogate(units[1])
}

/// Whether the units start with half of a character.
pub open spec fn starts_unpaired(units: Seq<u16>) -> bool {
    &&& units.len() > 0
    &&& is_high_surrogate(units[0]) || is_low_surrogate(units[0])
    &&& !starts_with_pair(units)
}

/// Whether the units encode a text.
pub open spec fn is_text(units: Seq<u16>) -> bool
    decreases units.len(),
{
    if units.len() == 0 {
        true
    } else if starts_with_pair(units) {
        is_text(units.skip(2))
    } else {
        !starts_unpaired(units) && is_text(units.skip(1))
    }
}

/// The character that stands for what encodes none.
pub const REPLACEMENT: u16 = 0xFFFD;

/// The units with each half of a character replaced.
pub open spec fn repaired(units: Seq<u16>) -> Seq<u16>
    decreases units.len(),
{
    if units.len() == 0 {
        Seq::empty()
    } else if starts_with_pair(units) {
        units.take(2) + repaired(units.skip(2))
    } else if starts_unpaired(units) {
        seq![REPLACEMENT] + repaired(units.skip(1))
    } else {
        units.take(1) + repaired(units.skip(1))
    }
}

fn is_pair(units: &[u16], i: usize) -> (pair: bool)
    requires
        i < units@.len(),
    ensures
        pair == starts_with_pair(units@.skip(i as int)),
{
    units.len() - i >= 2 && 0xD800 <= units[i] && units[i] < 0xDC00 && 0xDC00 <= units[i + 1]
        && units[i + 1] < 0xE000
}

/// Whether the units encode a text, as opposed to holding half a character.
pub fn encodes_text(units: &[u16]) -> (text: bool)
    ensures
        text == is_text(units@),
{
    let mut i: usize = 0;
    proof {
        assert(units@.skip(0) =~= units@);
    }
    while i < units.len()
        invariant
            i <= units@.len(),
            is_text(units@) == is_text(units@.skip(i as int)),
        decreases units.len() - i,
    {
        let ghost rest = units@.skip(i as int);
        if is_pair(units, i) {
            proof {
                assert(rest.skip(2) =~= units@.skip(i + 2));
            }
            i += 2;
        } else if 0xD800 <= units[i] && units[i] < 0xE000 {
            return false;
        } else {
            proof {
                assert(rest.skip(1) =~= units@.skip(i + 1));
            }
            i += 1;
        }
    }
    true
}

/// Replaces each half of a character.
pub fn repair(units: &[u16]) -> (text: Vec<u16>)
    ensures
        text@ == repaired(units@),
{
    let mut text: Vec<u16> = Vec::new();
    let mut i: usize = 0;
    proof {
        assert(units@.skip(0) =~= units@);
        assert(text@ + repaired(units@) =~= repaired(units@));
    }
    while i < units.len()
        invariant
            i <= units@.len(),
            text@ + repaired(units@.skip(i as int)) == repaired(units@),
        decreases units.len() - i,
    {
        let ghost rest = units@.skip(i as int);
        let ghost before = text@;
        if is_pair(units, i) {
            text.push(units[i]);
            text.push(units[i + 1]);
            proof {
                assert(rest.skip(2) =~= units@.skip(i + 2));
                assert(text@ + repaired(rest.skip(2)) =~= before + repaired(rest));
            }
            i += 2;
        } else {
            if 0xD800 <= units[i] && units[i] < 0xE000 {
                text.push(REPLACEMENT);
            } else {
                text.push(units[i]);
            }
            proof {
                assert(rest.skip(1) =~= units@.skip(i + 1));
                assert(text@ + repaired(rest.skip(1)) =~= before + repaired(rest));
            }
            i += 1;
        }
    }
    proof {
        assert(units@.skip(i as int) =~= Seq::<u16>::empty());
        assert(text@ + repaired(Seq::<u16>::empty()) =~= text@);
    }
    text
}

/// Text needs no repair, and what was repaired is text.
pub proof fn repair_gives_text(units: Seq<u16>)
    ensures
        is_text(repaired(units)),
        is_text(units) ==> repaired(units) == units,
    decreases units.len(),
{
    if units.len() > 0 {
        let kept: int = if starts_with_pair(units) {
            2
        } else {
            1
        };
        let rest = units.skip(kept);
        repair_gives_text(rest);
        let front = repaired(units).take(kept);
        assert(repaired(units) =~= front + repaired(rest));
        assert(repaired(units).skip(kept) =~= repaired(rest));
        assert(units =~= units.take(kept) + rest);
    } else {
        assert(repaired(units) =~= units);
    }
}

/// Repairing brings in no NUL.
pub proof fn repair_brings_no_nul(units: Seq<u16>)
    requires
        !units.contains(0),
    ensures
        !repaired(units).contains(0),
    decreases units.len(),
{
    if units.len() > 0 {
        let kept: int = if starts_with_pair(units) {
            2
        } else {
            1
        };
        let rest = units.skip(kept);
        assert forall|i: int| 0 <= i < rest.len() implies rest[i] != 0 by {
            assert(units.contains(units[i + kept]));
        }
        repair_brings_no_nul(rest);
        assert forall|i: int| 0 <= i < repaired(units).len() implies repaired(units)[i] != 0 by {
            if i < kept {
                assert(units.contains(units[i]));
            } else {
                assert(repaired(units)[i] == repaired(rest)[i - kept]);
                assert(repaired(rest).contains(repaired(rest)[i - kept]));
            }
        }
    }
}

/// ASCII characters encode a text.
pub proof fn ascii_is_text(units: Seq<u16>)
    requires
        forall|i: int| 0 <= i < units.len() ==> (#[trigger] units[i]) < 128,
    ensures
        is_text(units),
    decreases units.len(),
{
    if units.len() > 0 {
        ascii_is_text(units.skip(1));
    }
}

/// The units of an ASCII text are its characters, one for one.
pub proof fn ascii_is_one_for_one(text: Seq<char>)
    ensures
        ascii(text).len() == text.len(),
        forall|i: int| 0 <= i < text.len() ==> ascii(text)[i] == text[i] as u16,
{
}

/// Half of a character that stands alone.
spec fn lone(units: Seq<u16>, i: int) -> bool {
    ||| 0xD800 <= units[i] <= 0xDBFF && !(i + 1 < units.len() && 0xDC00 <= units[i + 1] <= 0xDFFF)
    ||| 0xDC00 <= units[i] <= 0xDFFF && !(i > 0 && 0xD800 <= units[i - 1] <= 0xDBFF)
}

proof fn lone_halves(units: Seq<u16>)
    ensures
        repaired(units).len() == units.len(),
        forall|i: int|
            0 <= i < units.len() ==> #[trigger] repaired(units)[i] == (if lone(units, i) {
                0xFFFDu16
            } else {
                units[i]
            }),
        is_text(units) <==> forall|i: int| 0 <= i < units.len() ==> !#[trigger] lone(units, i),
    decreases units.len(),
{
    if units.len() > 0 {
        let kept: int = if starts_with_pair(units) {
            2
        } else {
            1
        };
        let rest = units.skip(kept);
        lone_halves(rest);
        assert forall|i: int| 0 <= i < rest.len() implies #[trigger] lone(rest, i) == lone(
            units,
            i + kept,
        ) by {
            assert(rest[i] == units[i + kept]);
            if i + 1 < rest.len() {
                assert(rest[i + 1] == units[i + kept + 1]);
            }
            if i > 0 {
                assert(rest[i - 1] == units[i + kept - 1]);
            }
        }
        assert(starts_unpaired(units) <==> lone(units, 0));
        assert(kept == 2 ==> !lone(units, 0) && !lone(units, 1));
        assert forall|i: int| 0 <= i < units.len() implies #[trigger] repaired(units)[i] == (if lone(
            units,
            i,
        ) {
            0xFFFDu16
        } else {
            units[i]
        }) by {
            if i >= kept {
                assert(repaired(units)[i] == repaired(rest)[i - kept]);
                assert(lone(rest, i - kept) == lone(units, i));
            }
        }
        if is_text(units) {
            assert forall|i: int| 0 <= i < units.len() implies !#[trigger] lone(units, i) by {
                if i >= kept {
                    assert(!lone(rest, i - kept));
                }
            }
        }
        if forall|i: int| 0 <= i < units.len() ==> !#[trigger] lone(units, i) {
            assert forall|i: int| 0 <= i < rest.len() implies !#[trigger] lone(rest, i) by {
                assert(!lone(units, i + kept));
            }
            assert(!lone(units, 0));
        }
    }
}

/// Units encode a text if and only if every first half of a character is
/// followed by a second half and every second half follows a first. What is
/// repaired has as many units as before: the half characters that stand alone
/// are replaced, and every other unit stays where it is.
pub proof fn only_lone_halves_are_replaced(units: Seq<u16>)
    ensures
        repaired(units).len() == units.len(),
        forall|i: int|
            0 <= i < units.len() ==> #[trigger] repaired(units)[i] == (if 0xD800 <= units[i]
                <= 0xDBFF && !(i + 1 < units.len() && 0xDC00 <= units[i + 1] <= 0xDFFF) || 0xDC00
                <= units[i] <= 0xDFFF && !(i > 0 && 0xD800 <= units[i - 1] <= 0xDBFF) {
                0xFFFDu16
            } else {
                units[i]
            }),
        is_text(units) <==> forall|i: int|
            0 <= i < units.len() ==> {
                &&& 0xD800 <= #[trigger] units[i] <= 0xDBFF ==> i + 1 < units.len() && 0xDC00
                    <= units[i + 1] <= 0xDFFF
                &&& 0xDC00 <= units[i] <= 0xDFFF ==> i > 0 && 0xD800 <= units[i - 1] <= 0xDBFF
            },
{
    lone_halves(units);
    if is_text(units) {
        assert forall|i: int| 0 <= i < units.len() implies {
            &&& 0xD800 <= #[trigger] units[i] <= 0xDBFF ==> i + 1 < units.len() && 0xDC00
                <= units[i + 1] <= 0xDFFF
            &&& 0xDC00 <= units[i] <= 0xDFFF ==> i > 0 && 0xD800 <= units[i - 1] <= 0xDBFF
        } by {
            assert(!lone(units, i));
        }
    } else {
        let i = choose|i: int| 0 <= i < units.len() && lone(units, i);
        assert(0xD800 <= units[i] <= 0xDFFF);
    }
}

} // verus!
