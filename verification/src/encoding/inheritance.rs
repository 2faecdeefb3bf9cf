//! What a started process finds in its environment block.

use vstd::prelude::*;

use crate::encoding::environment::Environment;
use crate::encoding::environment::unit_rank;
use crate::encoding::environment::EQUALS;
use crate::encoding::ordering::folded_answers_are_consistent;
use crate::encoding::ordering::units_are_totally_ordered;
use crate::encoding::wide::before_nul;

verus! {

/// The entries that a process reads from its environment block: NUL-terminated
/// strings up to an empty one.
pub open spec fn block_entries(block: Seq<u16>) -> Seq<Seq<u16>>
    decreases block.len(),
{
    let entry = before_nul(block);
    if entry.len() == 0 || entry.len() >= block.len() {
        Seq::empty()
    } else {
        seq![entry] + block_entries(block.skip(entry.len() as int + 1))
    }
}

/// Where the name of an entry ends: at the first equals sign, but for one that
/// starts the entry.
pub open spec fn name_length(entry: Seq<u16>, from: nat) -> nat
    decreases entry.len() - from,
{
    if from >= entry.len() || entry[from as int] == EQUALS && from > 0 {
        from
    } else {
        name_length(entry, from + 1)
    }
}

proof fn before_nul_of_entry(entry: Seq<u16>, tail: Seq<u16>)
    requires
        !entry.contains(0),
    ensures
        before_nul(entry.push(0) + tail) == entry,
    decreases entry.len(),
{
    let units = entry.push(0) + tail;
    if entry.len() == 0 {
        assert(before_nul(units) =~= entry);
    } else {
        let rest = entry.drop_first();
        assert(entry.contains(entry[0]));
        assert forall|i: int| 0 <= i < rest.len() implies rest[i] != 0 by {
            assert(entry.contains(entry[i + 1]));
        }
        before_nul_of_entry(rest, tail);
        assert(units.drop_first() =~= rest.push(0) + tail);
        assert(seq![entry[0]] + rest =~= entry);
    }
}

proof fn entries_front(environment: Environment, ids: Seq<usize>)
    requires
        ids.len() > 0,
    ensures
        environment.entries(ids) == environment.entry(ids[0]).push(0) + environment.entries(
            ids.drop_first(),
        ),
    decreases ids.len(),
{
    reveal_with_fuel(Environment::entries, 2);
    if ids.len() > 1 {
        entries_front(environment, ids.drop_last());
        assert(ids.drop_last().drop_first() =~= ids.drop_first().drop_last());
    } else {
        assert(ids.drop_last() =~= Seq::<usize>::empty());
        assert(ids.drop_first() =~= Seq::<usize>::empty());
    }
    assert(environment.entries(ids) =~= environment.entry(ids[0]).push(0) + environment.entries(
        ids.drop_first(),
    ));
}

proof fn entries_read_back(environment: Environment, ids: Seq<usize>)
    requires
        forall|i: int| 0 <= i < ids.len() ==> environment.nul_free(#[trigger] ids[i]),
    ensures
        block_entries(environment.entries(ids).push(0)) == ids.map_values(
            |id: usize| environment.entry(id),
        ),
    decreases ids.len(),
{
    let block = environment.entries(ids).push(0);
    let read = ids.map_values(|id: usize| environment.entry(id));
    if ids.len() == 0 {
        assert(block_entries(block) =~= read);
    } else {
        let id = ids[0];
        let rest = ids.drop_first();
        let entry = environment.entry(id);
        let tail = environment.entries(rest).push(0);
        assert(environment.nul_free(id));
        assert forall|i: int| 0 <= i < entry.len() implies entry[i] != 0 by {
            let name = environment.name(id);
            let value = environment.value(id)->Some_0;
            if i < name.len() {
                assert(name.contains(name[i]));
            } else if i > name.len() {
                assert(value.contains(value[i - name.len() - 1]));
                assert(entry[i] == value[i - name.len() - 1]);
            }
        }
        entries_front(environment, ids);
        assert(block =~= entry.push(0) + tail);
        before_nul_of_entry(entry, tail);
        assert(block.skip(entry.len() as int + 1) =~= tail);
        entries_read_back(environment, rest);
        assert(seq![entry] + rest.map_values(|id: usize| environment.entry(id)) =~= read);
    }
}

/// A process reads from its block exactly the variables that were put there,
/// in their order and with no unit lost. The block ends in two NULs.
pub proof fn block_reads_back(environment: Environment, ids: Seq<usize>)
    requires
        forall|i: int| 0 <= i < ids.len() ==> environment.nul_free(#[trigger] ids[i]),
    ensures
        block_entries(environment.block(ids)) == ids.map_values(
            |id: usize| environment.entry(id),
        ),
        environment.block(ids).len() >= 2,
        environment.block(ids).last() == 0,
        environment.block(ids)[environment.block(ids).len() - 2] == 0,
{
    if ids.len() == 0 {
        assert(block_entries(environment.block(ids)) =~= ids.map_values(
            |id: usize| environment.entry(id),
        ));
    } else {
        entries_read_back(environment, ids);
    }
}

proof fn name_length_of_entry(entry: Seq<u16>, name: Seq<u16>, value: Seq<u16>, from: nat)
    requires
        entry == name + seq![EQUALS] + value,
        name.len() > 0,
        from <= name.len(),
        forall|i: int| 0 < i < name.len() ==> name[i] != EQUALS,
    ensures
        name_length(entry, from) == name.len(),
    decreases name.len() - from,
{
    if from < name.len() {
        assert(entry[from as int] == name[from as int]);
        name_length_of_entry(entry, name, value, from + 1);
    } else {
        assert(entry[from as int] == EQUALS);
    }
}

/// The name and the value of a variable are found again in its entry, for a
/// name that is not empty and holds no equals sign behind its first unit.
pub proof fn entry_reads_back(environment: Environment, id: usize)
    requires
        environment.name(id).len() > 0,
        forall|i: int|
            0 < i < environment.name(id).len() ==> #[trigger] environment.name(id)[i] != EQUALS,
    ensures
        ({
            let entry = environment.entry(id);
            let end = name_length(entry, 0) as int;
            &&& entry.take(end) == environment.name(id)
            &&& entry.skip(end + 1) == environment.value(id)->Some_0
        }),
{
    let name = environment.name(id);
    let value = environment.value(id)->Some_0;
    let entry = environment.entry(id);
    name_length_of_entry(entry, name, value, 0);
    assert(entry.take(name.len() as int) =~= name);
    assert(entry.skip(name.len() as int + 1) =~= value);
}

proof fn member_of(environment: Environment, ids: Seq<usize>, id: usize)
    requires
        environment.count() <= usize::MAX,
        environment.arranged(ids),
    ensures
        ids.contains(id) <==> environment.survives(id),
{
    broadcast use vstd::seq_lib::group_to_multiset_ensures;

    environment.surviving_below_facts(environment.count());
    let kept = environment.surviving();
    assert(ids.contains(id) <==> ids.to_multiset().count(id) > 0);
    assert(kept.contains(id) <==> kept.to_multiset().count(id) > 0);
}

/// A process finds in its block one entry for each variable that is there, in
/// the order of the block, and no other.
pub proof fn process_finds_its_variables(environment: Environment, units: Seq<u16>)
    requires
        environment.complete(),
        environment.encodable(),
        environment.laid_out(units),
    ensures
        exists|ids: Seq<usize>| #[trigger]
            environment.arranged(ids) && block_entries(units) == ids.map_values(
                |id: usize| environment.entry(id),
            ),
{
    let ids = choose|ids: Seq<usize>| #[trigger]
        environment.arranged(ids) && units == environment.block(ids);
    assert forall|i: int| 0 <= i < ids.len() implies environment.nul_free(#[trigger] ids[i]) by {
        assert(ids.contains(ids[i]));
        member_of(environment, ids, ids[i]);
    }
    block_reads_back(environment, ids);
}

proof fn ordered_lists_agree(environment: Environment, left: Seq<usize>, right: Seq<usize>)
    requires
        environment.consistent(),
        environment.ordered(left),
        environment.ordered(right),
        left.to_multiset() == right.to_multiset(),
        forall|i: int| 0 <= i < left.len() ==> (#[trigger] left[i]) < environment.count(),
    ensures
        left == right,
    decreases left.len(),
{
    broadcast use vstd::seq_lib::group_to_multiset_ensures;

    assert(left.len() == left.to_multiset().len());
    assert(right.len() == right.to_multiset().len());
    if left.len() > 0 {
        let a = left[0];
        let b = right[0];
        assert(left.contains(a) && left.to_multiset().count(a) > 0);
        assert(right.contains(b) && right.to_multiset().count(b) > 0);
        assert(right.contains(a) && left.contains(b));
        let i = choose|i: int| 0 <= i < right.len() && right[i] == a;
        let j = choose|j: int| 0 <= j < left.len() && left[j] == b;
        if a != b {
            assert(environment.precedes(right[0], right[i]));
            assert(environment.precedes(left[0], left[j]));
            assert(environment.rank(a, b) < 0 <==> environment.rank(b, a) > 0);
            assert(environment.rank(b, a) < 0 <==> environment.rank(a, b) > 0);
        }
        let left_rest = left.drop_first();
        let right_rest = right.drop_first();
        assert(left_rest =~= left.remove(0));
        assert(right_rest =~= right.remove(0));
        assert forall|x: int, y: int| 0 <= x < y < left_rest.len() implies #[trigger] environment.precedes(
            left_rest[x],
            left_rest[y],
        ) by {
            assert(environment.precedes(left[x + 1], left[y + 1]));
        }
        assert forall|x: int, y: int| 0 <= x < y < right_rest.len() implies #[trigger] environment.precedes(
            right_rest[x],
            right_rest[y],
        ) by {
            assert(environment.precedes(right[x + 1], right[y + 1]));
        }
        assert(left_rest.to_multiset() =~= left.to_multiset().remove(a));
        assert(right_rest.to_multiset() =~= right.to_multiset().remove(b));
        ordered_lists_agree(environment, left_rest, right_rest);
        assert(left =~= seq![a] + left_rest);
        assert(right =~= seq![b] + right_rest);
    } else {
        assert(left =~= right);
    }
}

/// Where the system's answers are consistent, there is only one way to
/// arrange the block.
pub proof fn arrangement_is_unique(environment: Environment, left: Seq<usize>, right: Seq<usize>)
    requires
        environment.complete(),
        environment.consistent(),
        environment.arranged(left),
        environment.arranged(right),
    ensures
        left == right,
{
    assert forall|i: int| 0 <= i < left.len() implies (#[trigger] left[i]) < environment.count() by {
        assert(left.contains(left[i]));
        member_of(environment, left, left[i]);
    }
    ordered_lists_agree(environment, left, right);
}

/// An inherited variable that no override names is in the block.
pub proof fn unnamed_variables_stay(environment: Environment, ids: Seq<usize>, id: usize)
    requires
        environment.complete(),
        environment.arranged(ids),
        id < environment.inherited@.len(),
        forall|later: usize|
            environment.is_override(later) ==> #[trigger] environment.rank(id, later) != 0,
    ensures
        ids.contains(id),
{
    member_of(environment, ids, id);
}

/// Of the overrides that give one name, the last decides. Where it sets a
/// value, it is in the block, and no other variable there has its name.
pub proof fn last_override_is_set(environment: Environment, ids: Seq<usize>, last: usize)
    requires
        environment.complete(),
        environment.consistent(),
        environment.arranged(ids),
        environment.is_override(last),
        forall|later: usize|
            environment.is_override(later) && last < later ==> #[trigger] environment.rank(
                last,
                later,
            ) != 0,
        environment.value(last) is Some,
    ensures
        ids.contains(last),
        forall|i: int|
            0 <= i < ids.len() && #[trigger] ids[i] != last ==> environment.rank(ids[i], last)
                != 0,
{
    member_of(environment, ids, last);
    assert forall|i: int| 0 <= i < ids.len() && #[trigger] ids[i] != last implies environment.rank(
        ids[i],
        last,
    ) != 0 by {
        other_names_differ(environment, ids, last, i);
    }
}

/// Where the last override of a name removes the variable, the block holds no
/// variable of that name.
pub proof fn last_override_is_removal(environment: Environment, ids: Seq<usize>, last: usize)
    requires
        environment.complete(),
        environment.consistent(),
        environment.arranged(ids),
        environment.is_override(last),
        forall|later: usize|
            environment.is_override(later) && last < later ==> #[trigger] environment.rank(
                last,
                later,
            ) != 0,
        environment.value(last) is None,
    ensures
        forall|i: int| 0 <= i < ids.len() ==> environment.rank(#[trigger] ids[i], last) != 0,
{
    member_of(environment, ids, last);
    assert forall|i: int| 0 <= i < ids.len() implies environment.rank(#[trigger] ids[i], last)
        != 0 by {
        assert(ids.contains(ids[i]));
        other_names_differ(environment, ids, last, i);
    }
}

proof fn other_names_differ(environment: Environment, ids: Seq<usize>, last: usize, i: int)
    requires
        environment.complete(),
        environment.consistent(),
        environment.arranged(ids),
        environment.is_override(last),
        forall|later: usize|
            environment.is_override(later) && last < later ==> #[trigger] environment.rank(
                last,
                later,
            ) != 0,
        0 <= i < ids.len(),
        ids[i] != last,
    ensures
        environment.rank(ids[i], last) != 0,
{
    let id = ids[i];
    assert(ids.contains(id));
    member_of(environment, ids, id);
    if id > last {
        assert(environment.is_override(id));
        assert(environment.rank(last, id) != 0);
        assert(environment.rank(id, last) < 0 <==> environment.rank(last, id) > 0);
        assert(environment.rank(last, id) < 0 <==> environment.rank(id, last) > 0);
    }
}

/// Whether a variable is there after one more override depends only on whether
/// it was there before and whether it has the override's name.
proof fn survives_one_more(before: Environment, after: Environment, id: usize)
    requires
        one_more(before, after),
        id < before.count(),
    ensures
        after.survives(id) <==> before.survives(id) && after.rank(id, before.count() as usize)
            != 0,
{
    let added = before.count() as usize;
    let first = before.inherited@.len();
    if id >= first {
        assert(after.overrides@.drop_last()[id - first] == after.overrides@[id - first]);
    }
    assert(after.value(id) == before.value(id));
    assert(after.is_override(added));
    if before.survives(id) && after.rank(id, added) != 0 {
        assert forall|later: usize|
            after.is_override(later) && id < later implies #[trigger] after.rank(id, later) != 0 by {
            if later != added {
                assert(before.is_override(later));
                assert(before.rank(id, later) != 0);
            }
        }
    }
    if after.survives(id) {
        assert forall|later: usize|
            before.is_override(later) && id < later implies #[trigger] before.rank(id, later)
            != 0 by {
            assert(after.is_override(later));
            assert(after.rank(id, later) != 0);
        }
    }
}

proof fn surviving_one_more(before: Environment, after: Environment, limit: nat)
    requires
        one_more(before, after),
        limit <= before.count(),
    ensures
        after.surviving_below(limit) == before.surviving_below(limit).filter(
            |id: usize| after.rank(id, before.count() as usize) != 0,
        ),
    decreases limit,
{
    let keep = |id: usize| after.rank(id, before.count() as usize) != 0;
    reveal(Seq::filter);
    if limit == 0 {
        assert(after.surviving_below(0) =~= before.surviving_below(0).filter(keep));
    } else {
        let fewer = (limit - 1) as nat;
        let id = fewer as usize;
        surviving_one_more(before, after, fewer);
        survives_one_more(before, after, id);
        if before.survives(id) {
            assert(before.surviving_below(limit).drop_last() =~= before.surviving_below(fewer));
        }
    }
}

/// `after` is `before` with one more override at the end, and the system's
/// answers about the names of `before` are the same.
pub open spec fn one_more(before: Environment, after: Environment) -> bool {
    &&& before.complete()
    &&& after.complete()
    &&& after.inherited@ == before.inherited@
    &&& after.overrides@.len() == before.overrides@.len() + 1
    &&& after.overrides@.drop_last() == before.overrides@
    &&& forall|a: usize, b: usize|
        a < before.count() && b < before.count() ==> #[trigger] after.rank(a, b) == before.rank(
            a,
            b,
        )
}

/// Overrides take effect one after the other: each takes out the variables of
/// its name, those of earlier overrides too, and then adds its own at the end
/// where it sets a value.
pub proof fn overrides_apply_in_turn(before: Environment, after: Environment)
    requires
        one_more(before, after),
    ensures
        after.surviving() == before.surviving().filter(
            |id: usize| after.rank(id, before.count() as usize) != 0,
        ) + (if after.value(before.count() as usize) is Some {
            seq![before.count() as usize]
        } else {
            Seq::empty()
        }),
{
    let added = before.count() as usize;
    surviving_one_more(before, after, before.count());
    assert(after.survives(added) <==> after.value(added) is Some);
}

proof fn kept_variables(environment: Environment, ids: Seq<usize>)
    requires
        environment.complete(),
        environment.arranged(ids),
    ensures
        ids.no_duplicates(),
        forall|id: usize| #[trigger] ids.contains(id) <==> environment.survives(id),
{
    broadcast use vstd::seq_lib::group_to_multiset_ensures;

    environment.surviving_below_facts(environment.count());
    let kept = environment.surviving();
    assert(kept.no_duplicates());
    kept.lemma_multiset_has_no_duplicates();
    ids.lemma_multiset_has_no_duplicates_conv();
    assert forall|id: usize| #[trigger] ids.contains(id) <==> environment.survives(id) by {
        member_of(environment, ids, id);
    }
}

/// What a process finds in its block, in terms of what was given: each entry
/// is the name, an equals sign and the whole value of one variable. There is
/// one for each inherited variable and each override with a value whose name
/// no later override has, and none twice; two names are the same where the
/// system answered so, or failed to answer and they have the same units.
pub proof fn block_holds_what_was_given(environment: Environment, units: Seq<u16>)
    requires
        environment.complete(),
        environment.encodable(),
        environment.laid_out(units),
    ensures
        ({
            let first = environment.inherited@.len();
            let last = first + environment.overrides@.len();
            let name = |id: usize|
                if id < first {
                    environment.inherited@[id as int].name@
                } else {
                    environment.overrides@[id - first].name@
                };
            let given = |id: usize|
                if id < first {
                    environment.inherited@[id as int].value@
                } else {
                    environment.overrides@[id - first].value->Some_0@
                };
            let answer = |id: usize, other: usize| environment.rows@[id as int]@[other as int];
            let same = |id: usize, other: usize|
                answer(id, other) == 2 || !(1 <= answer(id, other) <= 3) && name(id) == name(other);
            exists|ids: Seq<usize>|
                {
                    &&& #[trigger] environment.arranged(ids)
                    &&& units == environment.block(ids)
                    &&& ids.no_duplicates()
                    &&& block_entries(units).len() == ids.len()
                    &&& forall|k: int|
                        0 <= k < ids.len() ==> #[trigger] block_entries(units)[k] == name(ids[k])
                            + seq![61u16] + given(ids[k])
                    &&& forall|id: usize| #[trigger]
                        ids.contains(id) <==> {
                            &&& id < last
                            &&& id >= first ==> environment.overrides@[id - first].value is Some
                            &&& forall|later: usize|
                                first <= later < last && id < later ==> !#[trigger] same(id, later)
                        }
                }
        }),
{
    let first = environment.inherited@.len();
    let last = first + environment.overrides@.len();
    let name = |id: usize|
        if id < first {
            environment.inherited@[id as int].name@
        } else {
            environment.overrides@[id - first].name@
        };
    let given = |id: usize|
        if id < first {
            environment.inherited@[id as int].value@
        } else {
            environment.overrides@[id - first].value->Some_0@
        };
    let answer = |id: usize, other: usize| environment.rows@[id as int]@[other as int];
    let same = |id: usize, other: usize|
        answer(id, other) == 2 || !(1 <= answer(id, other) <= 3) && name(id) == name(other);
    let ids = choose|ids: Seq<usize>| #[trigger]
        environment.arranged(ids) && units == environment.block(ids);
    kept_variables(environment, ids);
    assert forall|i: int| 0 <= i < ids.len() implies environment.nul_free(#[trigger] ids[i]) by {
        assert(ids.contains(ids[i]));
    }
    block_reads_back(environment, ids);
    assert forall|k: int| 0 <= k < ids.len() implies #[trigger] block_entries(units)[k] == name(
        ids[k],
    ) + seq![61u16] + given(ids[k]) by {
        assert(ids.contains(ids[k]));
        assert(environment.survives(ids[k]));
        assert(block_entries(units)[k] == environment.entry(ids[k]));
    }
    assert forall|id: usize, later: usize|
        id < last && later < last implies (#[trigger] environment.rank(id, later) == 0) == same(
        id,
        later,
    ) by {
        units_are_totally_ordered(name(id), name(later), name(id));
    }
    assert forall|id: usize| #[trigger] ids.contains(id) <==> {
        &&& id < last
        &&& id >= first ==> environment.overrides@[id - first].value is Some
        &&& forall|later: usize|
            first <= later < last && id < later ==> !#[trigger] same(id, later)
    } by {
        if environment.survives(id) {
            assert forall|later: usize| first <= later < last && id < later implies !#[trigger] same(
                id,
                later,
            ) by {
                assert(environment.is_override(later));
                assert(environment.rank(id, later) != 0);
            }
        }
        if id < last && (forall|later: usize|
            first <= later < last && id < later ==> !#[trigger] same(id, later)) {
            assert forall|later: usize|
                environment.is_override(later) && id < later implies #[trigger] environment.rank(
                id,
                later,
            ) != 0 by {
                assert(!same(id, later));
            }
        }
    }
}

/// A block is refused exactly where the name or the value of a variable that
/// is to be in it holds a NUL.
pub proof fn block_is_refused_for_a_nul(environment: Environment, ids: Seq<usize>)
    requires
        environment.complete(),
        environment.arranged(ids),
    ensures
        ({
            let first = environment.inherited@.len();
            environment.encodable() <==> forall|id: usize| #[trigger]
                ids.contains(id) ==> (if id < first {
                    !environment.inherited@[id as int].name@.contains(0)
                        && !environment.inherited@[id as int].value@.contains(0)
                } else {
                    !environment.overrides@[id - first].name@.contains(0)
                        && !environment.overrides@[id - first].value->Some_0@.contains(0)
                })
        }),
{
    kept_variables(environment, ids);
    assert forall|id: usize| environment.survives(id) implies #[trigger] environment.nul_free(id)
        == (if id < environment.inherited@.len() {
        !environment.inherited@[id as int].name@.contains(0)
            && !environment.inherited@[id as int].value@.contains(0)
    } else {
        !environment.overrides@[id - environment.inherited@.len()].name@.contains(0)
            && !environment.overrides@[id
            - environment.inherited@.len()].value->Some_0@.contains(0)
    }) by {}
    if environment.encodable() {
        assert forall|id: usize| #[trigger] ids.contains(id) implies environment.nul_free(id) by {
            assert(environment.survives(id));
        }
    } else {
        let id = choose|id: usize|
            environment.survives(id) && !#[trigger] environment.nul_free(id);
        assert(ids.contains(id));
    }
}

/// Where the system compares names by their folded forms, the entries of a
/// block stand in the order of those forms, and those whose forms are the same
/// in the order in which they came.
pub proof fn block_is_in_the_order_of_names(
    environment: Environment,
    ids: Seq<usize>,
    fold: spec_fn(Seq<u16>) -> Seq<u16>,
)
    requires
        environment.complete(),
        environment.arranged(ids),
        forall|a: usize, b: usize|
            a < environment.count() && b < environment.count()
                ==> #[trigger] environment.rows@[a as int]@[b as int] == 2 + unit_rank(
                fold(environment.name(a)),
                fold(environment.name(b)),
            ),
    ensures
        forall|i: int, j: int|
            #![trigger ids[i], ids[j]]
            0 <= i < j < ids.len() ==> {
                let order = unit_rank(fold(environment.name(ids[i])), fold(environment.name(ids[j])));
                order < 0 || order == 0 && ids[i] < ids[j]
            },
{
    folded_answers_are_consistent(environment, fold);
    assert forall|i: int, j: int| #![trigger ids[i], ids[j]] 0 <= i < j < ids.len() implies {
        let order = unit_rank(fold(environment.name(ids[i])), fold(environment.name(ids[j])));
        order < 0 || order == 0 && ids[i] < ids[j]
    } by {
        assert(environment.precedes(ids[i], ids[j]));
        assert(ids.contains(ids[i]) && ids.contains(ids[j]));
        member_of(environment, ids, ids[i]);
        member_of(environment, ids, ids[j]);
        units_are_totally_ordered(
            fold(environment.name(ids[i])),
            fold(environment.name(ids[j])),
            fold(environment.name(ids[i])),
        );
        assert(environment.rows@[ids[i] as int]@[ids[j] as int] == 2 + unit_rank(
            fold(environment.name(ids[i])),
            fold(environment.name(ids[j])),
        ));
    }
}

} // verus!
