//! When two documents are the same.
//!
//! Two documents are the same when they hold the same values in the same
//! places. The entries of a mapping have no place among each other: TOML,
//! for one, writes plain values before tables whatever their order was. So
//! two mappings are the same when they have as many entries and every entry
//! of each is found in the other.

use vstd::prelude::*;
use vstd::std_specs::cmp::PartialEqSpecImpl;
use crate::codec::same_float;
use crate::value::{entries_model, AbstractValue, Integer, Tree};

verus! {

/// Whether two documents are the same, up to the order of the entries of
/// their mappings.
pub open spec fn same(a: Tree, b: Tree) -> bool
    decreases a,
{
    match a {
        Tree::Sequence(x) => b matches Tree::Sequence(y) && x.len() == y.len() && forall|i: int|
            0 <= i < x.len() ==> same(#[trigger] x[i], y[i]),
        Tree::Mapping(x) => b matches Tree::Mapping(y) && x.len() == y.len() && (forall|i: int|
            0 <= i < x.len() ==> entry_found(#[trigger] x[i], y)) && (forall|j: int|
            0 <= j < y.len() ==> entry_matched(x, #[trigger] y[j])),
        Tree::Optional(Some(x)) => b matches Tree::Optional(Some(y)) && same(*x, *y),
        _ => b == a,
    }
}

/// Whether `among` holds an entry with the same key and the same value as
/// `entry`.
pub open spec fn entry_found(entry: (Tree, Tree), among: Seq<(Tree, Tree)>) -> bool
    decreases entry,
{
    exists|j: int|
        0 <= j < among.len() && same(entry.0, (#[trigger] among[j]).0) && same(
            entry.1,
            among[j].1,
        )
}

/// Whether an entry of `among` has the same key and the same value as
/// `entry`.
pub open spec fn entry_matched(among: Seq<(Tree, Tree)>, entry: (Tree, Tree)) -> bool
    decreases among,
{
    exists|i: int|
        0 <= i < among.len() && same((#[trigger] among[i]).0, entry.0) && same(
            among[i].1,
            entry.1,
        )
}

/// Every document is the same as itself.
pub proof fn lemma_same_reflexive(a: Tree)
    ensures
        same(a, a),
    decreases a,
{
    match a {
        Tree::Sequence(x) => {
            assert forall|i: int| 0 <= i < x.len() implies same(#[trigger] x[i], x[i]) by {
                lemma_same_reflexive(x[i]);
            }
        },
        Tree::Mapping(x) => {
            assert forall|i: int| 0 <= i < x.len() implies entry_found(#[trigger] x[i], x)
                && entry_matched(x, x[i]) by {
                lemma_same_reflexive(x[i].0);
                lemma_same_reflexive(x[i].1);
            }
        },
        Tree::Optional(Some(x)) => {
            lemma_same_reflexive(*x);
        },
        _ => {},
    }
}

/// Sameness does not depend on the side.
pub proof fn lemma_same_symmetric(a: Tree, b: Tree)
    requires
        same(a, b),
    ensures
        same(b, a),
    decreases a,
{
    match a {
        Tree::Sequence(x) => {
            let y = b->Sequence_0;
            assert forall|i: int| 0 <= i < y.len() implies same(#[trigger] y[i], x[i]) by {
                assert(same(x[i], y[i]));
                lemma_same_symmetric(x[i], y[i]);
            }
        },
        Tree::Mapping(x) => {
            let y = b->Mapping_0;
            assert forall|j: int| 0 <= j < y.len() implies entry_found(#[trigger] y[j], x) by {
                assert(entry_matched(x, y[j]));
                let i = choose|i: int|
                    0 <= i < x.len() && same((#[trigger] x[i]).0, y[j].0) && same(x[i].1, y[j].1);
                lemma_same_symmetric(x[i].0, y[j].0);
                lemma_same_symmetric(x[i].1, y[j].1);
            }
            assert forall|i: int| 0 <= i < x.len() implies entry_matched(y, #[trigger] x[i]) by {
                assert(entry_found(x[i], y));
                let j = choose|j: int|
                    0 <= j < y.len() && same(x[i].0, (#[trigger] y[j]).0) && same(x[i].1, y[j].1);
                lemma_same_symmetric(x[i].0, y[j].0);
                lemma_same_symmetric(x[i].1, y[j].1);
            }
        },
        Tree::Optional(Some(x)) => {
            lemma_same_symmetric(*x, *b->Optional_0->Some_0);
        },
        _ => {},
    }
}

/// Two documents that are the same as a third are the same.
pub proof fn lemma_same_transitive(a: Tree, b: Tree, c: Tree)
    requires
        same(a, b),
        same(b, c),
    ensures
        same(a, c),
    decreases a,
{
    match a {
        Tree::Sequence(x) => {
            let y = b->Sequence_0;
            let z = c->Sequence_0;
            assert forall|i: int| 0 <= i < x.len() implies same(#[trigger] x[i], z[i]) by {
                assert(same(x[i], y[i]));
                assert(same(y[i], z[i]));
                lemma_same_transitive(x[i], y[i], z[i]);
            }
        },
        Tree::Mapping(x) => {
            let y = b->Mapping_0;
            let z = c->Mapping_0;
            assert forall|i: int| 0 <= i < x.len() implies entry_found(#[trigger] x[i], z) by {
                assert(entry_found(x[i], y));
                let j = choose|j: int|
                    0 <= j < y.len() && same(x[i].0, (#[trigger] y[j]).0) && same(x[i].1, y[j].1);
                assert(entry_found(y[j], z));
                let k = choose|k: int|
                    0 <= k < z.len() && same(y[j].0, (#[trigger] z[k]).0) && same(y[j].1, z[k].1);
                lemma_same_transitive(x[i].0, y[j].0, z[k].0);
                lemma_same_transitive(x[i].1, y[j].1, z[k].1);
            }
            assert forall|k: int| 0 <= k < z.len() implies entry_matched(x, #[trigger] z[k]) by {
                assert(entry_matched(y, z[k]));
                let j = choose|j: int|
                    0 <= j < y.len() && same((#[trigger] y[j]).0, z[k].0) && same(y[j].1, z[k].1);
                assert(entry_matched(x, y[j]));
                let i = choose|i: int|
                    0 <= i < x.len() && same((#[trigger] x[i]).0, y[j].0) && same(x[i].1, y[j].1);
                lemma_same_transitive(x[i].0, y[j].0, z[k].0);
                lemma_same_transitive(x[i].1, y[j].1, z[k].1);
            }
        },
        Tree::Optional(Some(x)) => {
            lemma_same_transitive(*x, *b->Optional_0->Some_0, *c->Optional_0->Some_0);
        },
        _ => {},
    }
}

impl PartialEq for Integer {
    /// `==` is equality of the numbers.
    fn eq(&self, other: &Integer) -> (r: bool) {
        self.value() == other.value()
    }
}

impl PartialEqSpecImpl for Integer {
    open spec fn obeys_eq_spec() -> bool {
        true
    }

    open spec fn eq_spec(&self, other: &Integer) -> bool {
        self@ == other@
    }
}

fn found_among(
    entry: &(AbstractValue, AbstractValue),
    among: &Vec<(AbstractValue, AbstractValue)>,
) -> (r: bool)
    ensures
        r == entry_found((entry.0@, entry.1@), entries_model(among@)),
    decreases entry,
{
    let ghost model = entries_model(among@);
    let mut j: usize = 0;
    while j < among.len()
        invariant
            j <= among@.len(),
            model == entries_model(among@),
            forall|k: int|
                0 <= k < j ==> !(same(entry.0@, (#[trigger] model[k]).0) && same(
                    entry.1@,
                    model[k].1,
                )),
        decreases among@.len() - j,
    {
        if entry.0.same_as(&among[j].0) && entry.1.same_as(&among[j].1) {
            assert(same(entry.0@, model[j as int].0) && same(entry.1@, model[j as int].1));
            return true;
        }
        j += 1;
    }
    false
}

fn matched_among(
    among: &Vec<(AbstractValue, AbstractValue)>,
    entry: &(AbstractValue, AbstractValue),
) -> (r: bool)
    ensures
        r == entry_matched(entries_model(among@), (entry.0@, entry.1@)),
    decreases among,
{
    let ghost model = entries_model(among@);
    let mut i: usize = 0;
    while i < among.len()
        invariant
            i <= among@.len(),
            model == entries_model(among@),
            forall|k: int|
                0 <= k < among@.len() ==> decreases_to!(among => (#[trigger] among@[k]).0)
                    && decreases_to!(among => among@[k].1),
            forall|k: int|
                0 <= k < i ==> !(same((#[trigger] model[k]).0, entry.0@) && same(
                    model[k].1,
                    entry.1@,
                )),
        decreases among@.len() - i,
    {
        if among[i].0.same_as(&entry.0) && among[i].1.same_as(&entry.1) {
            assert(same(model[i as int].0, entry.0@) && same(model[i as int].1, entry.1@));
            return true;
        }
        i += 1;
    }
    false
}

impl AbstractValue {
    /// Whether the two documents are the same, up to the order of the
    /// entries of their mappings.
    pub fn same_as(&self, other: &AbstractValue) -> (r: bool)
        ensures
            r == same(self@, other@),
        decreases self,
    {
        match (self, other) {
            (AbstractValue::Unit, AbstractValue::Unit) => true,
            (AbstractValue::Bool(x), AbstractValue::Bool(y)) => *x == *y,
            (AbstractValue::Integer(x), AbstractValue::Integer(y)) => *x == *y,
            (AbstractValue::Float(x), AbstractValue::Float(y)) => same_float(x, y),
            (AbstractValue::Text(x), AbstractValue::Text(y)) => {
                let r = *x == *y;
                r
            },
            (AbstractValue::Sequence(x), AbstractValue::Sequence(y)) => {
                if x.len() != y.len() {
                    return false;
                }
                let ghost xs = self@->Sequence_0;
                let ghost ys = other@->Sequence_0;
                let mut i: usize = 0;
                while i < x.len()
                    invariant
                        i <= x@.len(),
                        x@.len() == y@.len(),
                        self@ == Tree::Sequence(xs),
                        other@ == Tree::Sequence(ys),
                        xs.len() == x@.len(),
                        ys.len() == y@.len(),
                        forall|k: int| 0 <= k < x@.len() ==> xs[k] == (#[trigger] x@[k])@,
                        forall|k: int| 0 <= k < y@.len() ==> ys[k] == (#[trigger] y@[k])@,
                        forall|k: int|
                            0 <= k < x@.len() ==> decreases_to!(self => #[trigger] x@[k]),
                        forall|k: int| 0 <= k < i ==> same(#[trigger] xs[k], ys[k]),
                    decreases x@.len() - i,
                {
                    if !x[i].same_as(&y[i]) {
                        assert(!same(xs[i as int], ys[i as int]));
                        return false;
                    }
                    i += 1;
                }
                true
            },
            (AbstractValue::Mapping(x), AbstractValue::Mapping(y)) => {
                if x.len() != y.len() {
                    return false;
                }
                let ghost xs = self@->Mapping_0;
                let ghost ys = other@->Mapping_0;
                assert(xs =~= entries_model(x@));
                assert(ys =~= entries_model(y@));
                let mut i: usize = 0;
                while i < x.len()
                    invariant
                        i <= x@.len(),
                        x@.len() == y@.len(),
                        self@ == Tree::Mapping(xs),
                        other@ == Tree::Mapping(ys),
                        xs == entries_model(x@),
                        ys == entries_model(y@),
                        forall|k: int|
                            0 <= k < x@.len() ==> decreases_to!(self => #[trigger] x@[k]),
                        forall|k: int| 0 <= k < i ==> entry_found(#[trigger] xs[k], ys),
                    decreases x@.len() - i,
                {
                    if !found_among(&x[i], y) {
                        assert(!entry_found(xs[i as int], ys));
                        return false;
                    }
                    i += 1;
                }
                let mut j: usize = 0;
                while j < y.len()
                    invariant
                        j <= y@.len(),
                        x@.len() == y@.len(),
                        self@ == Tree::Mapping(xs),
                        other@ == Tree::Mapping(ys),
                        xs == entries_model(x@),
                        ys == entries_model(y@),
                        decreases_to!(self => x),
                        forall|k: int| 0 <= k < x@.len() ==> entry_found(#[trigger] xs[k], ys),
                        forall|k: int| 0 <= k < j ==> entry_matched(xs, #[trigger] ys[k]),
                    decreases y@.len() - j,
                {
                    if !matched_among(x, &y[j]) {
                        assert(!entry_matched(xs, ys[j as int]));
                        return false;
                    }
                    j += 1;
                }
                true
            },
            (AbstractValue::Optional(None), AbstractValue::Optional(None)) => true,
            (AbstractValue::Optional(Some(x)), AbstractValue::Optional(Some(y))) => x.same_as(y),
            _ => false,
        }
    }
}

impl PartialEq for AbstractValue {
    /// `==` is sameness up to the order of mapping entries.
    fn eq(&self, other: &AbstractValue) -> (r: bool) {
        self.same_as(other)
    }
}

impl PartialEqSpecImpl for AbstractValue {
    open spec fn obeys_eq_spec() -> bool {
        true
    }

    open spec fn eq_spec(&self, other: &AbstractValue) -> bool {
        same(self@, other@)
    }
}

} // verus!
