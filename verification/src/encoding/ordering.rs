//! That names are put in a total order, by their units and by any comparison
//! that folds them first.

use vstd::prelude::*;

use crate::encoding::environment::name_rank;
use crate::encoding::environment::unit_rank;
use crate::encoding::environment::Environment;

verus! {

proof fn unit_rank_reversed(left: Seq<u16>, right: Seq<u16>)
    ensures
        unit_rank(left, right) == -unit_rank(right, left),
        -1 <= unit_rank(left, right) <= 1,
        unit_rank(left, right) == 0 <==> left == right,
    decreases left.len(),
{
    if left.len() > 0 && right.len() > 0 && left[0] == right[0] {
        unit_rank_reversed(left.drop_first(), right.drop_first());
        if left.drop_first() == right.drop_first() {
            assert(left =~= seq![left[0]] + left.drop_first());
            assert(right =~= seq![right[0]] + right.drop_first());
        }
    } else if left.len() == 0 && right.len() == 0 {
        assert(left =~= right);
    }
}

proof fn unit_rank_is_transitive(a: Seq<u16>, b: Seq<u16>, c: Seq<u16>)
    requires
        unit_rank(a, b) <= 0,
        unit_rank(b, c) <= 0,
    ensures
        unit_rank(a, c) <= 0,
    decreases a.len(),
{
    if a.len() > 0 && b.len() > 0 && c.len() > 0 && a[0] == b[0] && b[0] == c[0] {
        unit_rank_is_transitive(a.drop_first(), b.drop_first(), c.drop_first());
    }
}

/// The order by units is a total order: a string is equal to itself and to no
/// other, the order turns round with its sides, and it carries over.
pub proof fn units_are_totally_ordered(a: Seq<u16>, b: Seq<u16>, c: Seq<u16>)
    ensures
        -1 <= unit_rank(a, b) <= 1,
        unit_rank(a, b) == 0 <==> a == b,
        unit_rank(b, a) == -unit_rank(a, b),
        unit_rank(a, b) <= 0 && unit_rank(b, c) <= 0 ==> unit_rank(a, c) <= 0,
{
    unit_rank_reversed(a, b);
    if unit_rank(a, b) <= 0 && unit_rank(b, c) <= 0 {
        unit_rank_is_transitive(a, b, c);
    }
}

/// Every answer compares two names by the units of what `fold` makes of them.
pub open spec fn compares_folded(
    answer: spec_fn(Seq<u16>, Seq<u16>) -> i32,
    fold: spec_fn(Seq<u16>) -> Seq<u16>,
) -> bool {
    forall|left: Seq<u16>, right: Seq<u16>| #[trigger]
        answer(left, right) == 2 + unit_rank(fold(left), fold(right))
}

/// Where the system compares names by the units of their folded forms, names
/// are in a total order in which those tie that are the same when folded.
pub proof fn folded_names_are_totally_ordered(
    answer: spec_fn(Seq<u16>, Seq<u16>) -> i32,
    fold: spec_fn(Seq<u16>) -> Seq<u16>,
    a: Seq<u16>,
    b: Seq<u16>,
    c: Seq<u16>,
)
    requires
        compares_folded(answer, fold),
    ensures
        ({
            let rank = |left: Seq<u16>, right: Seq<u16>| name_rank(left, right, answer(left, right));
            &&& rank(a, a) == 0
            &&& rank(b, a) == -rank(a, b)
            &&& rank(a, b) <= 0 && rank(b, c) <= 0 ==> rank(a, c) <= 0
            &&& rank(a, b) == 0 <==> fold(a) == fold(b)
        }),
{
    unit_rank_reversed(fold(a), fold(a));
    unit_rank_reversed(fold(a), fold(b));
    unit_rank_reversed(fold(b), fold(c));
    unit_rank_reversed(fold(a), fold(c));
    units_are_totally_ordered(fold(a), fold(b), fold(c));
}

/// A comparison that failed leaves two names in the order of their units.
pub proof fn failed_answer_orders_by_units(left: Seq<u16>, right: Seq<u16>, answer: i32)
    requires
        answer < 1 || answer > 3,
    ensures
        name_rank(left, right, answer) == unit_rank(left, right),
{
}

/// The answers about an environment are consistent where they compare the
/// names by their folded forms.
pub proof fn folded_answers_are_consistent(
    environment: Environment,
    fold: spec_fn(Seq<u16>) -> Seq<u16>,
)
    requires
        environment.complete(),
        forall|a: usize, b: usize|
            a < environment.count() && b < environment.count()
                ==> #[trigger] environment.rows@[a as int]@[b as int] == 2 + unit_rank(
                fold(environment.name(a)),
                fold(environment.name(b)),
            ),
    ensures
        environment.consistent(),
{
    assert forall|a: usize, b: usize|
        a < environment.count() && b < environment.count() implies #[trigger] environment.rank(a, b)
        == unit_rank(fold(environment.name(a)), fold(environment.name(b))) by {
        unit_rank_reversed(fold(environment.name(a)), fold(environment.name(b)));
    }
    ranked_by_units(environment, fold);
}

/// The answers about an environment are consistent where every comparison
/// failed.
pub proof fn failed_answers_are_consistent(environment: Environment)
    requires
        environment.complete(),
        forall|a: usize, b: usize|
            a < environment.count() && b < environment.count() ==> !(1
                <= #[trigger] environment.rows@[a as int]@[b as int] <= 3),
    ensures
        environment.consistent(),
{
    ranked_by_units(environment, |name: Seq<u16>| name);
}

proof fn ranked_by_units(environment: Environment, fold: spec_fn(Seq<u16>) -> Seq<u16>)
    requires
        forall|a: usize, b: usize|
            a < environment.count() && b < environment.count() ==> #[trigger] environment.rank(a, b)
                == unit_rank(fold(environment.name(a)), fold(environment.name(b))),
    ensures
        environment.consistent(),
{
    assert forall|a: usize, b: usize| a < environment.count() && b < environment.count() implies (
    #[trigger] environment.rank(a, b) < 0 <==> environment.rank(b, a) > 0) by {
        assert(environment.rank(b, a) == unit_rank(
            fold(environment.name(b)),
            fold(environment.name(a)),
        ));
        unit_rank_reversed(fold(environment.name(a)), fold(environment.name(b)));
    }
    assert forall|a: usize, b: usize, c: usize|
        a < environment.count() && b < environment.count() && c < environment.count()
            && #[trigger] environment.rank(a, b) <= 0 && #[trigger] environment.rank(b, c)
            <= 0 implies environment.rank(a, c) <= 0 by {
        unit_rank_is_transitive(
            fold(environment.name(a)),
            fold(environment.name(b)),
            fold(environment.name(c)),
        );
    }
}

} // verus!
