//! The environment block of a started process: what it inherits, changed by
//! the overrides of its command.
//!
//! Which names are the same, and in what order they stand, is for the system
//! to say. An [`Environment`] asks it about every pair of names, one question
//! at a time, and then lays out the block.

use core::cmp::Ordering;

use vstd::prelude::*;

use crate::encoding::wide::has_nul;
use crate::encoding::wide::push_units;
use crate::failure::Failure;

verus! {

pub const EQUALS: u16 = 61;

/// The comparison asked for ignores case.
pub const IGNORE_CASE: i32 = 1;

pub struct Variable {
    pub name: Vec<u16>,
    pub value: Vec<u16>,
}

/// A change that a command makes to the environment: a variable gets a value,
/// or is removed where there is none.
pub struct Override {
    pub name: Vec<u16>,
    pub value: Option<Vec<u16>>,
}

/// The order of two strings by their units: negative, zero or positive.
pub open spec fn unit_rank(left: Seq<u16>, right: Seq<u16>) -> int
    decreases left.len(),
{
    if left.len() == 0 {
        if right.len() == 0 {
            0
        } else {
            -1
        }
    } else if right.len() == 0 || left[0] > right[0] {
        1
    } else if left[0] < right[0] {
        -1
    } else {
        unit_rank(left.drop_first(), right.drop_first())
    }
}

/// The order of two names, negative, zero or positive, given what the system
/// answered: 1, 2 or 3 for less, equal or greater. Any other answer is a
/// failure, and the units decide.
pub open spec fn name_rank(left: Seq<u16>, right: Seq<u16>, answer: i32) -> int {
    if answer == 1 {
        -1
    } else if answer == 2 {
        0
    } else if answer == 3 {
        1
    } else {
        unit_rank(left, right)
    }
}

fn compare_units(left: &[u16], right: &[u16]) -> (rank: i32)
    ensures
        rank == unit_rank(left@, right@),
{
    let mut i: usize = 0;
    proof {
        assert(left@.skip(0) =~= left@);
        assert(right@.skip(0) =~= right@);
    }
    while i < left.len() && i < right.len()
        invariant
            i <= left.len(),
            i <= right.len(),
            unit_rank(left@, right@) == unit_rank(left@.skip(i as int), right@.skip(i as int)),
        decreases left.len() - i,
    {
        if left[i] < right[i] {
            return -1;
        }
        if left[i] > right[i] {
            return 1;
        }
        proof {
            assert(left@.skip(i as int).drop_first() =~= left@.skip(i + 1));
            assert(right@.skip(i as int).drop_first() =~= right@.skip(i + 1));
        }
        i += 1;
    }
    if i < left.len() {
        1
    } else if i < right.len() {
        -1
    } else {
        0
    }
}

/// Orders two names by the system's answer about them.
pub fn compare_names(left: &[u16], right: &[u16], answer: i32) -> (order: Ordering)
    ensures
        match order {
            Ordering::Less => name_rank(left@, right@, answer) < 0,
            Ordering::Equal => name_rank(left@, right@, answer) == 0,
            Ordering::Greater => name_rank(left@, right@, answer) > 0,
        },
{
    if answer == 1 {
        Ordering::Less
    } else if answer == 2 {
        Ordering::Equal
    } else if answer == 3 {
        Ordering::Greater
    } else {
        let rank: i32 = compare_units(left, right);
        if rank < 0 {
            Ordering::Less
        } else if rank == 0 {
            Ordering::Equal
        } else {
            Ordering::Greater
        }
    }
}

/// An environment in the making. The inherited variables and then the
/// overrides are numbered from zero; `rows[a][b]` is the answer about the
/// names of `a` and `b`, and `row` is the row being filled.
pub struct Environment {
    pub inherited: Vec<Variable>,
    pub overrides: Vec<Override>,
    pub rows: Vec<Vec<i32>>,
    pub row: Vec<i32>,
}

impl Environment {
    pub open spec fn count(self) -> nat {
        self.inherited@.len() + self.overrides@.len()
    }

    pub open spec fn name(self, id: usize) -> Seq<u16> {
        if id < self.inherited@.len() {
            self.inherited@[id as int].name@
        } else {
            self.overrides@[id - self.inherited@.len()].name@
        }
    }

    pub open spec fn value(self, id: usize) -> Option<Seq<u16>> {
        if id < self.inherited@.len() {
            Some(self.inherited@[id as int].value@)
        } else {
            match self.overrides@[id - self.inherited@.len()].value {
                Some(value) => Some(value@),
                None => None,
            }
        }
    }

    pub open spec fn well_formed(self) -> bool {
        &&& self.count() <= usize::MAX
        &&& self.rows@.len() <= self.count()
        &&& forall|a: int|
            0 <= a < self.rows@.len() ==> (#[trigger] self.rows@[a])@.len() == self.count()
        &&& if self.rows@.len() < self.count() {
            self.row@.len() < self.count()
        } else {
            self.row@.len() == 0
        }
    }

    /// Every pair of names has been asked about.
    pub open spec fn complete(self) -> bool {
        self.well_formed() && self.rows@.len() == self.count()
    }

    pub open spec fn rank(self, a: usize, b: usize) -> int {
        name_rank(self.name(a), self.name(b), self.rows@[a as int]@[b as int])
    }

    pub open spec fn is_override(self, id: usize) -> bool {
        self.inherited@.len() <= id < self.count()
    }

    /// A variable is in the block where it has a value and no later override
    /// has the same name.
    pub open spec fn survives(self, id: usize) -> bool {
        &&& id < self.count()
        &&& self.value(id) is Some
        &&& forall|later: usize|
            self.is_override(later) && id < later ==> #[trigger] self.rank(id, later) != 0
    }

    pub open spec fn surviving_below(self, limit: nat) -> Seq<usize>
        decreases limit,
    {
        if limit == 0 {
            Seq::empty()
        } else {
            let id = (limit - 1) as usize;
            let fewer = self.surviving_below((limit - 1) as nat);
            if self.survives(id) {
                fewer.push(id)
            } else {
                fewer
            }
        }
    }

    /// The variables that are in the block, in the order in which they came.
    pub open spec fn surviving(self) -> Seq<usize> {
        self.surviving_below(self.count())
    }

    /// The system's answers put the names in an order in which some may tie.
    pub open spec fn consistent(self) -> bool {
        &&& forall|a: usize, b: usize|
            a < self.count() && b < self.count() ==> (#[trigger] self.rank(a, b) < 0 <==> self.rank(
                b,
                a,
            ) > 0)
        &&& forall|a: usize, b: usize, c: usize|
            a < self.count() && b < self.count() && c < self.count() && #[trigger] self.rank(a, b)
                <= 0 && #[trigger] self.rank(b, c) <= 0 ==> self.rank(a, c) <= 0
    }

    /// By name, and where names tie the one that came first.
    pub open spec fn precedes(self, a: usize, b: usize) -> bool {
        self.rank(a, b) < 0 || self.rank(a, b) == 0 && a < b
    }

    pub open spec fn ordered(self, ids: Seq<usize>) -> bool {
        forall|i: int, j: int| 0 <= i < j < ids.len() ==> #[trigger] self.precedes(ids[i], ids[j])
    }

    /// `ids` lists the variables that are in the block in the order in which
    /// they stand there.
    pub open spec fn arranged(self, ids: Seq<usize>) -> bool {
        &&& ids.to_multiset() == self.surviving().to_multiset()
        &&& self.consistent() ==> self.ordered(ids)
    }

    /// A variable as the block holds it, without its NUL.
    pub open spec fn entry(self, id: usize) -> Seq<u16> {
        self.name(id) + seq![EQUALS] + self.value(id)->Some_0
    }

    pub open spec fn entries(self, ids: Seq<usize>) -> Seq<u16>
        decreases ids.len(),
    {
        if ids.len() == 0 {
            Seq::empty()
        } else {
            self.entries(ids.drop_last()) + self.entry(ids.last()).push(0)
        }
    }

    /// The entries, each closed by a NUL, and one more NUL; two of them where
    /// there is no entry.
    pub open spec fn block(self, ids: Seq<usize>) -> Seq<u16> {
        if ids.len() == 0 {
            seq![0u16, 0u16]
        } else {
            self.entries(ids).push(0)
        }
    }

    pub open spec fn nul_free(self, id: usize) -> bool {
        !self.name(id).contains(0) && !self.value(id)->Some_0.contains(0)
    }

    /// No name or value in the block would end it early.
    pub open spec fn encodable(self) -> bool {
        forall|id: usize| self.survives(id) ==> #[trigger] self.nul_free(id)
    }

    /// `units` is the block.
    pub open spec fn laid_out(self, units: Seq<u16>) -> bool {
        exists|ids: Seq<usize>| #[trigger] self.arranged(ids) && units == self.block(ids)
    }

    /// An environment about which the system has not been asked yet.
    pub fn new(inherited: Vec<Variable>, overrides: Vec<Override>) -> (environment: Environment)
        requires
            inherited@.len() + overrides@.len() <= usize::MAX,
        ensures
            environment.well_formed(),
            environment.inherited == inherited,
            environment.overrides == overrides,
            environment.rows@.len() == 0,
            environment.row@.len() == 0,
    {
        Environment { inherited, overrides, rows: Vec::new(), row: Vec::new() }
    }

    fn name_at(&self, id: usize) -> (name: &[u16])
        requires
            self.count() <= usize::MAX,
            id < self.count(),
        ensures
            name@ == self.name(id),
    {
        if id < self.inherited.len() {
            self.inherited[id].name.as_slice()
        } else {
            self.overrides[id - self.inherited.len()].name.as_slice()
        }
    }

    fn value_at(&self, id: usize) -> (value: &[u16])
        requires
            self.count() <= usize::MAX,
            id < self.count(),
            self.value(id) is Some,
        ensures
            value@ == self.value(id)->Some_0,
    {
        if id < self.inherited.len() {
            return self.inherited[id].value.as_slice();
        }
        match &self.overrides[id - self.inherited.len()].value {
            Some(value) => value.as_slice(),
            None => {
                proof {
                    assert(false);
                }
                &[]
            },
        }
    }

    /// The two names to ask the system about next, if any are left.
    pub fn question(&self) -> (names: Option<(&[u16], &[u16])>)
        requires
            self.well_formed(),
        ensures
            names is None <==> self.complete(),
            names matches Some(names) ==> {
                &&& names.0@ == self.name(self.rows@.len() as usize)
                &&& names.1@ == self.name(self.row@.len() as usize)
            },
    {
        let count: usize = self.inherited.len() + self.overrides.len();
        if self.rows.len() == count {
            return None;
        }
        Some((self.name_at(self.rows.len()), self.name_at(self.row.len())))
    }

    /// Takes the system's answer to the question that is open.
    pub fn answer(&mut self, answer: i32)
        requires
            old(self).well_formed(),
            !old(self).complete(),
        ensures
            final(self).well_formed(),
            final(self).inherited == old(self).inherited,
            final(self).overrides == old(self).overrides,
            ({
                let filled = old(self).row@.push(answer);
                if filled.len() == old(self).count() {
                    &&& final(self).rows@.len() == old(self).rows@.len() + 1
                    &&& final(self).rows@.drop_last() == old(self).rows@
                    &&& final(self).rows@.last()@ == filled
                    &&& final(self).row@.len() == 0
                } else {
                    final(self).rows == old(self).rows && final(self).row@ == filled
                }
            }),
    {
        let count: usize = self.inherited.len() + self.overrides.len();
        self.row.push(answer);
        if self.row.len() == count {
            let mut filled: Vec<i32> = Vec::new();
            filled.append(&mut self.row);
            self.rows.push(filled);
            proof {
                assert(self.rows@.drop_last() =~= old(self).rows@);
                assert(self.rows@.last()@ =~= old(self).row@.push(answer));
            }
        }
    }

    fn same_name(&self, a: usize, b: usize) -> (same: bool)
        requires
            self.complete(),
            a < self.count(),
            b < self.count(),
        ensures
            same == (self.rank(a, b) == 0),
    {
        match compare_names(self.name_at(a), self.name_at(b), self.rows[a][b]) {
            Ordering::Equal => true,
            _ => false,
        }
    }

    fn follows(&self, a: usize, b: usize) -> (follows: bool)
        requires
            self.complete(),
            a < self.count(),
            b < self.count(),
        ensures
            follows == (self.rank(a, b) > 0),
    {
        match compare_names(self.name_at(a), self.name_at(b), self.rows[a][b]) {
            Ordering::Greater => true,
            _ => false,
        }
    }

    fn is_kept(&self, id: usize) -> (kept: bool)
        requires
            self.complete(),
            id < self.count(),
        ensures
            kept == self.survives(id),
    {
        let first: usize = self.inherited.len();
        let count: usize = first + self.overrides.len();
        if id >= first && self.overrides[id - first].value.is_none() {
            return false;
        }
        let mut later: usize = if id < first {
            first
        } else {
            id + 1
        };
        while later < count
            invariant
                self.complete(),
                first == self.inherited@.len(),
                count == self.count(),
                id < count,
                id < later,
                first <= later <= count,
                forall|k: usize|
                    self.is_override(k) && id < k < later ==> #[trigger] self.rank(id, k) != 0,
            decreases count - later,
        {
            if self.same_name(id, later) {
                return false;
            }
            later += 1;
        }
        true
    }

    pub(crate) proof fn surviving_below_facts(self, limit: nat)
        requires
            limit <= self.count(),
            self.count() <= usize::MAX,
        ensures
            forall|i: int|
                0 <= i < self.surviving_below(limit).len() ==> (#[trigger] self.surviving_below(
                    limit,
                )[i]) < limit && self.survives(self.surviving_below(limit)[i]),
            forall|i: int, j: int|
                0 <= i < j < self.surviving_below(limit).len() ==> #[trigger] self.surviving_below(
                    limit,
                )[i] < #[trigger] self.surviving_below(limit)[j],
            forall|id: usize|
                id < limit && #[trigger] self.survives(id) ==> self.surviving_below(limit).contains(
                    id,
                ),
        decreases limit,
    {
        if limit > 0 {
            let fewer = (limit - 1) as nat;
            self.surviving_below_facts(fewer);
            let ids = self.surviving_below(limit);
            let was = self.surviving_below(fewer);
            assert forall|i: int| 0 <= i < ids.len() implies (#[trigger] ids[i]) < limit
                && self.survives(ids[i]) by {
                if i < was.len() {
                    assert(ids[i] == was[i]);
                    assert(was[i] < fewer);
                }
            }
            assert forall|i: int, j: int| 0 <= i < j < ids.len() implies #[trigger] ids[i]
                < #[trigger] ids[j] by {
                assert(ids[i] == was[i] && was[i] < fewer);
                if j < was.len() {
                    assert(ids[j] == was[j]);
                }
            }
            assert forall|id: usize| id < limit && #[trigger] self.survives(id) implies ids.contains(
                id,
            ) by {
                if id < fewer {
                    assert(was.contains(id));
                    let i = choose|i: int| 0 <= i < was.len() && was[i] == id;
                    assert(ids[i] == id);
                } else {
                    assert(ids[ids.len() - 1] == id);
                }
            }
        }
    }

    fn kept(&self) -> (ids: Vec<usize>)
        requires
            self.complete(),
        ensures
            ids@ == self.surviving(),
    {
        let count: usize = self.inherited.len() + self.overrides.len();
        let mut ids: Vec<usize> = Vec::new();
        let mut id: usize = 0;
        while id < count
            invariant
                self.complete(),
                count == self.count(),
                id <= count,
                ids@ == self.surviving_below(id as nat),
            decreases count - id,
        {
            if self.is_kept(id) {
                ids.push(id);
            }
            id += 1;
        }
        ids
    }

    /// Puts `id` where it belongs in a list that is in order.
    fn insert(&self, ids: &mut Vec<usize>, id: usize)
        requires
            self.complete(),
            id < self.count(),
            forall|i: int| 0 <= i < old(ids)@.len() ==> (#[trigger] old(ids)@[i]) < id,
        ensures
            final(ids)@.to_multiset() == old(ids)@.to_multiset().insert(id),
            self.consistent() && self.ordered(old(ids)@) ==> self.ordered(final(ids)@),
            forall|i: int| 0 <= i < final(ids)@.len() ==> (#[trigger] final(ids)@[i]) <= id,
    {
        let mut at: usize = ids.len();
        while at > 0 && self.follows(ids[at - 1], id)
            invariant
                self.complete(),
                id < self.count(),
                at <= ids@.len(),
                ids@ == old(ids)@,
                forall|i: int| 0 <= i < ids@.len() ==> (#[trigger] ids@[i]) < id,
                forall|i: int| at <= i < ids@.len() ==> self.rank(#[trigger] ids@[i], id) > 0,
            decreases at,
        {
            at -= 1;
        }
        ids.insert(at, id);
        proof {
            old(ids)@.insert_ensures(at as int, id);
            broadcast use vstd::seq_lib::group_to_multiset_ensures;

            assert(ids@.to_multiset() =~= old(ids)@.to_multiset().insert(id));
            if self.consistent() && self.ordered(old(ids)@) {
                let was = old(ids)@;
                assert forall|i: int| 0 <= i < at implies self.precedes(#[trigger] was[i], id) by {
                    let last = was[at - 1];
                    assert(self.rank(last, id) <= 0);
                    if i < at - 1 {
                        assert(self.precedes(was[i], last));
                        assert(self.rank(was[i], last) <= 0);
                    }
                }
                assert forall|i: int| at <= i < was.len() implies self.precedes(
                    id,
                    #[trigger] was[i],
                ) by {
                    assert(self.rank(was[i], id) > 0);
                    assert(self.rank(id, was[i]) < 0);
                }
                assert forall|i: int, j: int| 0 <= i < j < ids@.len() implies #[trigger] self.precedes(
                    ids@[i],
                    ids@[j],
                ) by {
                    let from = if i < at {
                        i
                    } else {
                        i - 1
                    };
                    let to = if j < at {
                        j
                    } else {
                        j - 1
                    };
                    if i != at && j != at {
                        assert(self.precedes(was[from], was[to]));
                    }
                }
            }
        }
    }

    fn arrange(&self) -> (ids: Vec<usize>)
        requires
            self.complete(),
        ensures
            self.arranged(ids@),
            forall|i: int| 0 <= i < ids@.len() ==> self.survives(#[trigger] ids@[i]),
            forall|id: usize| #[trigger] self.survives(id) ==> ids@.contains(id),
    {
        let kept = self.kept();
        let mut ids: Vec<usize> = Vec::new();
        let mut i: usize = 0;
        proof {
            self.surviving_below_facts(self.count());
            assert(kept@.take(0) =~= Seq::<usize>::empty());
        }
        while i < kept.len()
            invariant
                self.complete(),
                kept@ == self.surviving(),
                i <= kept@.len(),
                forall|a: int|
                    0 <= a < kept@.len() ==> (#[trigger] kept@[a]) < self.count()
                        && self.survives(kept@[a]),
                forall|a: int, b: int| 0 <= a < b < kept@.len() ==> kept@[a] < kept@[b],
                ids@.to_multiset() == kept@.take(i as int).to_multiset(),
                self.consistent() ==> self.ordered(ids@),
                i > 0 ==> forall|a: int|
                    0 <= a < ids@.len() ==> (#[trigger] ids@[a]) <= kept@[i - 1],
                i == 0 ==> ids@.len() == 0,
            decreases kept.len() - i,
        {
            self.insert(&mut ids, kept[i]);
            proof {
                broadcast use vstd::seq_lib::group_to_multiset_ensures;

                assert(kept@.take(i + 1) =~= kept@.take(i as int).push(kept@[i as int]));
            }
            i += 1;
        }
        proof {
            broadcast use vstd::seq_lib::group_to_multiset_ensures;

            assert(kept@.take(i as int) =~= kept@);
            assert forall|a: int| 0 <= a < ids@.len() implies self.survives(#[trigger] ids@[a]) by {
                assert(ids@.contains(ids@[a]));
                assert(ids@.to_multiset().count(ids@[a]) > 0);
                assert(kept@.contains(ids@[a]));
            }
            assert forall|id: usize| #[trigger] self.survives(id) implies ids@.contains(id) by {
                assert(kept@.contains(id));
                assert(kept@.to_multiset().count(id) > 0);
            }
        }
        ids
    }
}

/// The environment block of a process. A name or value that holds a NUL would
/// end the block early, so it is refused.
pub fn environment(request: &Environment) -> (block: Result<Vec<u16>, Failure>)
    requires
        request.complete(),
    ensures
        block is Ok <==> request.encodable(),
        block is Ok ==> request.laid_out(block->Ok_0@),
        block is Err ==> block->Err_0 == Failure::NulInParameter,
{
    let ids = request.arrange();
    let mut block: Vec<u16> = Vec::new();
    let mut i: usize = 0;
    proof {
        assert(ids@.take(0) =~= Seq::<usize>::empty());
    }
    while i < ids.len()
        invariant
            request.complete(),
            i <= ids@.len(),
            forall|a: int| 0 <= a < ids@.len() ==> request.survives(#[trigger] ids@[a]),
            forall|a: int| 0 <= a < i ==> request.nul_free(#[trigger] ids@[a]),
            block@ == request.entries(ids@.take(i as int)),
            i > 0 ==> block@.len() > 0,
            i == 0 ==> block@.len() == 0,
        decreases ids.len() - i,
    {
        let id: usize = ids[i];
        let name = request.name_at(id);
        let value = request.value_at(id);
        if has_nul(name) || has_nul(value) {
            proof {
                assert(!request.nul_free(ids@[i as int]));
            }
            return Err(Failure::NulInParameter);
        }
        let ghost before = block@;
        push_units(&mut block, name);
        block.push(EQUALS);
        push_units(&mut block, value);
        block.push(0);
        proof {
            assert(ids@.take(i + 1).drop_last() =~= ids@.take(i as int));
            assert(block@ =~= before + request.entry(id).push(0));
        }
        i += 1;
    }
    proof {
        assert(ids@.take(i as int) =~= ids@);
        assert forall|id: usize| request.survives(id) implies #[trigger] request.nul_free(id) by {
            assert(ids@.contains(id));
        }
    }
    if block.is_empty() {
        block.push(0);
    }
    block.push(0);
    proof {
        assert(block@ =~= request.block(ids@));
        assert(request.arranged(ids@));
    }
    Ok(block)
}

/// The order by units does not depend on what two strings begin with alike.
/// Behind that the smaller unit comes first, and the string that ends first;
/// strings that are alike tie.
pub proof fn first_difference_decides(alike: Seq<u16>, left: Seq<u16>, right: Seq<u16>)
    ensures
        unit_rank(alike, alike) == 0,
        left.len() == 0 && right.len() > 0 ==> unit_rank(alike + left, alike + right) == -1,
        left.len() > 0 && right.len() == 0 ==> unit_rank(alike + left, alike + right) == 1,
        left.len() > 0 && right.len() > 0 && left[0] < right[0] ==> unit_rank(
            alike + left,
            alike + right,
        ) == -1,
        left.len() > 0 && right.len() > 0 && left[0] > right[0] ==> unit_rank(
            alike + left,
            alike + right,
        ) == 1,
        unit_rank(alike + left, alike + right) == unit_rank(left, right),
    decreases alike.len(),
{
    if alike.len() > 0 {
        let rest = alike.drop_first();
        first_difference_decides(rest, left, right);
        assert((alike + left).drop_first() =~= rest + left);
        assert((alike + right).drop_first() =~= rest + right);
    } else {
        assert(alike + left =~= left);
        assert(alike + right =~= right);
    }
}

/// The system's answers 1, 2 and 3 put a name before, with and behind another.
/// After any other answer the units of the names decide.
pub proof fn answer_decides_or_units_do(left: Seq<u16>, right: Seq<u16>, answer: i32)
    ensures
        answer == 1 ==> name_rank(left, right, answer) == -1,
        answer == 2 ==> name_rank(left, right, answer) == 0,
        answer == 3 ==> name_rank(left, right, answer) == 1,
        answer < 1 || answer > 3 ==> name_rank(left, right, answer) == unit_rank(left, right),
{
}

/// A variable has the name and the whole value that it was given with, and two
/// variables are ordered by the answer about those names.
pub proof fn variables_are_as_given(environment: Environment, id: usize, other: usize)
    ensures
        environment.count() == environment.inherited@.len() + environment.overrides@.len(),
        id < environment.inherited@.len() ==> {
            &&& environment.name(id) == environment.inherited@[id as int].name@
            &&& environment.value(id) == Some(environment.inherited@[id as int].value@)
        },
        environment.inherited@.len() <= id < environment.inherited@.len()
            + environment.overrides@.len() ==> {
            let given = environment.overrides@[id - environment.inherited@.len()];
            &&& environment.name(id) == given.name@
            &&& environment.value(id) is Some <==> given.value is Some
            &&& given.value is Some ==> environment.value(id) == Some(given.value->Some_0@)
        },
        environment.rank(id, other) == name_rank(
            environment.name(id),
            environment.name(other),
            environment.rows@[id as int]@[other as int],
        ),
        environment.is_override(id) <==> environment.inherited@.len() <= id
            < environment.inherited@.len() + environment.overrides@.len(),
{
}

/// A block is what its variables are, one behind the other, wherever the list
/// of them is cut: a name, an equals sign, a value and a NUL for each, and one
/// more NUL at the end. Without variables it is two NULs.
pub proof fn block_is_its_variables(environment: Environment, front: Seq<usize>, back: Seq<usize>)
    ensures
        environment.block(Seq::empty()) == seq![0u16, 0u16],
        front.len() > 0 ==> environment.block(front) == environment.entries(front) + seq![0u16],
        environment.entries(front + back) == environment.entries(front) + environment.entries(back),
        environment.entries(Seq::empty()) == Seq::<u16>::empty(),
        forall|id: usize|
            id < environment.inherited@.len() ==> #[trigger] environment.entries(seq![id])
                == environment.inherited@[id as int].name@ + seq![61u16]
                + environment.inherited@[id as int].value@ + seq![0u16],
        forall|id: usize|
            #![trigger environment.entries(seq![id])]
            environment.inherited@.len() <= id < environment.inherited@.len()
                + environment.overrides@.len() && environment.overrides@[id
                - environment.inherited@.len()].value is Some ==> environment.entries(seq![id])
                == environment.overrides@[id - environment.inherited@.len()].name@ + seq![61u16]
                + environment.overrides@[id
                - environment.inherited@.len()].value->Some_0@ + seq![0u16],
    decreases back.len(),
{
    if back.len() > 0 {
        block_is_its_variables(environment, front, back.drop_last());
        assert((front + back).drop_last() =~= front + back.drop_last());
        assert(environment.entries(front + back) =~= environment.entries(front)
            + environment.entries(back));
    } else {
        assert(front + back =~= front);
        assert(environment.entries(front) + environment.entries(back) =~= environment.entries(
            front,
        ));
    }
    assert forall|id: usize| #[trigger] environment.entries(seq![id]) == environment.entry(
        id,
    ).push(0) by {
        let one = seq![id];
        reveal_with_fuel(Environment::entries, 2);
        assert(one.drop_last() =~= Seq::<usize>::empty());
        assert(one.last() == id);
        assert(environment.entries(one) =~= environment.entry(id).push(0));
    }
    assert forall|id: usize| true implies #[trigger] environment.entries(seq![id])
        =~= environment.name(id) + seq![61u16] + environment.value(id)->Some_0 + seq![0u16] by {}
}

/// An environment is complete when there is one answer for every two variables
/// and no row of answers is begun.
pub proof fn complete_when_every_pair_is_answered(environment: Environment)
    ensures
        ({
            let count = environment.inherited@.len() + environment.overrides@.len();
            environment.complete() <==> {
                &&& count <= usize::MAX
                &&& environment.rows@.len() == count
                &&& forall|a: int|
                    0 <= a < count ==> (#[trigger] environment.rows@[a])@.len() == count
                &&& environment.row@.len() == 0
            }
        }),
{
}

} // verus!
