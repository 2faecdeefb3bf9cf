//! NUL-terminated strings of 16-bit units.

use vstd::prelude::*;
use vstd::slice::slice_to_vec;

use crate::failure::Failure;

verus! {

/// `value` as the system takes it, closed by a NUL.
pub open spec fn terminated(value: Seq<u16>) -> Seq<u16> {
    value.push(0)
}

/// The units before the first NUL, or all of them where there is none.
pub open spec fn before_nul(units: Seq<u16>) -> Seq<u16>
    decreases units.len(),
{
    if units.len() == 0 || units[0] == 0 {
        Seq::empty()
    } else {
        seq![units[0]] + before_nul(units.drop_first())
    }
}

pub fn has_nul(units: &[u16]) -> (found: bool)
    ensures
        found == units@.contains(0),
{
    let mut i: usize = 0;
    while i < units.len()
        invariant
            i <= units.len(),
            forall|j: int| 0 <= j < i ==> units@[j] != 0,
        decreases units.len() - i,
    {
        if units[i] == 0 {
            return true;
        }
        i += 1;
    }
    false
}

/// Appends a string as it is.
pub fn push_units(line: &mut Vec<u16>, units: &[u16])
    ensures
        final(line)@ == old(line)@ + units@,
{
    line.extend_from_slice(units);
    proof {
        assert(line@ =~= old(line)@ + units@);
    }
}

/// Closes a string with a NUL. A string that holds a NUL would reach the
/// system cut short, so it is refused.
pub fn wide(value: &[u16]) -> (encoded: Result<Vec<u16>, Failure>)
    ensures
        encoded is Ok <==> !value@.contains(0),
        encoded is Ok ==> encoded->Ok_0@ == terminated(value@),
        encoded is Err ==> encoded->Err_0 == Failure::NulInParameter,
{
    if has_nul(value) {
        return Err(Failure::NulInParameter);
    }
    let mut encoded = slice_to_vec(value);
    encoded.push(0);
    Ok(encoded)
}

/// What stands before the first NUL holds none.
pub proof fn before_nul_holds_none(units: Seq<u16>)
    ensures
        !before_nul(units).contains(0),
    decreases units.len(),
{
    if units.len() > 0 && units[0] != 0 {
        let rest = before_nul(units.drop_first());
        before_nul_holds_none(units.drop_first());
        assert forall|i: int| 0 <= i < before_nul(units).len() implies before_nul(units)[i] != 0 by {
            if i > 0 {
                assert(before_nul(units)[i] == rest[i - 1]);
                assert(rest.contains(rest[i - 1]));
            }
        }
    }
}

/// What the system reads back of a terminated string is the string itself.
pub proof fn terminated_reads_back(value: Seq<u16>)
    requires
        !value.contains(0),
    ensures
        before_nul(terminated(value)) == value,
        terminated(value).last() == 0,
        forall|i: int| 0 <= i < value.len() ==> terminated(value)[i] != 0,
    decreases value.len(),
{
    assert forall|i: int| 0 <= i < value.len() implies terminated(value)[i] != 0 by {
        assert(value[i] != 0) by {
            assert(value.contains(value[i]));
        }
    }
    if value.len() > 0 {
        let rest = value.drop_first();
        assert(!rest.contains(0)) by {
            if rest.contains(0) {
                let i = choose|i: int| 0 <= i < rest.len() && rest[i] == 0;
                assert(value[i + 1] == 0);
            }
        }
        terminated_reads_back(rest);
        assert(terminated(value).drop_first() =~= terminated(rest));
        assert(seq![value[0]] + rest =~= value);
    } else {
        assert(before_nul(terminated(value)) =~= value);
    }
}

/// A terminated string is the string, unit by unit, and one NUL behind it.
pub proof fn terminated_is_the_string_and_a_nul(value: Seq<u16>)
    ensures
        terminated(value).len() == value.len() + 1,
        forall|i: int| 0 <= i < value.len() ==> terminated(value)[i] == value[i],
        terminated(value)[value.len() as int] == 0,
{
}

/// What stands before the first NUL runs from the start up to a NUL or to the
/// end, and no unit of it is one.
pub proof fn before_nul_ends_at_the_first(units: Seq<u16>)
    ensures
        before_nul(units).len() <= units.len(),
        forall|i: int|
            0 <= i < before_nul(units).len() ==> before_nul(units)[i] == units[i] && units[i] != 0,
        before_nul(units).len() < units.len() ==> units[before_nul(units).len() as int] == 0,
    decreases units.len(),
{
    if units.len() > 0 && units[0] != 0 {
        let rest = units.drop_first();
        before_nul_ends_at_the_first(rest);
        assert forall|i: int| 0 <= i < before_nul(units).len() implies before_nul(units)[i]
            == units[i] && units[i] != 0 by {
            if i > 0 {
                assert(before_nul(units)[i] == before_nul(rest)[i - 1]);
                assert(rest[i - 1] == units[i]);
            }
        }
    }
}

} // verus!
