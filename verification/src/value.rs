//! The value tree that every document is read into, and its mathematical
//! model.

use vstd::prelude::*;

verus! {

/// A 64-bit float as the RON crate holds it: `ron::value::F64`, which
/// compares and hashes by `total_cmp`, so that two floats are equal exactly
/// when their bits are. Nothing here looks inside one.
#[verifier::external_type_specification]
#[verifier::external_body]
pub struct ExF64(ron::value::F64);

/// A whole number of a document: anything from `i64::MIN` to `u64::MAX`.
///
/// `Unsigned` is the widening for what `i64` cannot hold. In a canonical
/// integer it is used for nothing else, so that one number has one form.
/// Two integers are equal when they are the same number, in whatever form.
#[derive(Debug, Clone, Copy)]
pub enum Integer {
    Signed(i64),
    Unsigned(u64),
}

impl View for Integer {
    type V = int;

    open spec fn view(&self) -> int {
        match self {
            Integer::Signed(i) => *i as int,
            Integer::Unsigned(u) => *u as int,
        }
    }
}

impl Integer {
    /// Whether the number is written in its one canonical form.
    pub open spec fn canonical(self) -> bool {
        self matches Integer::Unsigned(u) ==> u > i64::MAX
    }

    /// The canonical integer for `n`, where there is one.
    pub fn new(n: i128) -> (r: Option<Integer>)
        ensures
            r is Some <==> i64::MIN <= n <= u64::MAX,
            r matches Some(i) ==> i.canonical() && i@ == n,
    {
        if n < i64::MIN as i128 || n > u64::MAX as i128 {
            None
        } else if n <= i64::MAX as i128 {
            Some(Integer::Signed(n as i64))
        } else {
            Some(Integer::Unsigned(n as u64))
        }
    }

    /// The same number in canonical form.
    pub fn normalized(self) -> (r: Integer)
        ensures
            r.canonical(),
            r@ == self@,
    {
        match self {
            Integer::Signed(i) => Integer::Signed(i),
            Integer::Unsigned(u) => if u <= i64::MAX as u64 {
                Integer::Signed(u as i64)
            } else {
                Integer::Unsigned(u)
            },
        }
    }

    /// The number itself.
    pub fn value(&self) -> (n: i128)
        ensures
            n == self@,
    {
        match self {
            Integer::Signed(i) => *i as i128,
            Integer::Unsigned(u) => *u as i128,
        }
    }

    /// Whether the number fits a signed 64-bit integer.
    pub fn fits_i64(&self) -> (r: bool)
        ensures
            r == (i64::MIN <= self@ <= i64::MAX),
    {
        match self {
            Integer::Signed(_) => true,
            Integer::Unsigned(u) => *u <= i64::MAX as u64,
        }
    }
}

/// What a document says, as mathematics: the model of [`AbstractValue`].
///
/// A mapping is the sequence of its entries in document order. Keys are
/// trees themselves, since RON allows any value as a key.
pub enum Tree {
    Unit,
    Bool(bool),
    Integer(int),
    Float(ron::value::F64),
    Text(Seq<char>),
    Sequence(Seq<Tree>),
    Mapping(Seq<(Tree, Tree)>),
    Optional(Option<Box<Tree>>),
}

/// A node of a parsed document.
#[derive(Debug)]
pub enum AbstractValue {
    /// The absent value: RON's `()`, JSON's and YAML's `null`.
    Unit,
    Bool(bool),
    Integer(Integer),
    Float(ron::value::F64),
    Text(String),
    /// An ordered list.
    Sequence(Vec<AbstractValue>),
    /// Key and value pairs in document order.
    Mapping(Vec<(AbstractValue, AbstractValue)>),
    /// RON's `Some(..)` and `None`.
    Optional(Option<Box<AbstractValue>>),
}

impl View for AbstractValue {
    type V = Tree;

    open spec fn view(&self) -> Tree {
        self.tree()
    }
}

/// The models of the entries of a mapping, in their order: what the model
/// of the mapping holds.
pub open spec fn entries_model(entries: Seq<(AbstractValue, AbstractValue)>) -> Seq<(Tree, Tree)> {
    Seq::new(entries.len(), |i: int| (entries[i].0@, entries[i].1@))
}

impl AbstractValue {
    /// The model of the value: the same tree with every list as a sequence,
    /// every text as its characters and every integer as the number it is.
    pub open spec fn tree(&self) -> Tree
        decreases self,
    {
        match self {
            AbstractValue::Unit => Tree::Unit,
            AbstractValue::Bool(b) => Tree::Bool(*b),
            AbstractValue::Integer(i) => Tree::Integer(i@),
            AbstractValue::Float(x) => Tree::Float(*x),
            AbstractValue::Text(s) => Tree::Text(s@),
            AbstractValue::Sequence(items) => Tree::Sequence(
                Seq::new(
                    items@.len(),
                    |i: int|
                        if 0 <= i < items@.len() {
                            items@[i].tree()
                        } else {
                            Tree::Unit
                        },
                ),
            ),
            AbstractValue::Mapping(entries) => Tree::Mapping(
                Seq::new(
                    entries@.len(),
                    |i: int|
                        if 0 <= i < entries@.len() {
                            (entries@[i].0.tree(), entries@[i].1.tree())
                        } else {
                            (Tree::Unit, Tree::Unit)
                        },
                ),
            ),
            AbstractValue::Optional(None) => Tree::Optional(None),
            AbstractValue::Optional(Some(inner)) => Tree::Optional(Some(Box::new(inner.tree()))),
        }
    }

    /// Whether every integer in the tree is in canonical form. Two canonical
    /// values with the same model are the same value.
    pub open spec fn canonical(&self) -> bool
        decreases self,
    {
        match self {
            AbstractValue::Integer(i) => i.canonical(),
            AbstractValue::Sequence(items) => forall|i: int|
                0 <= i < items@.len() ==> (#[trigger] items@[i]).canonical(),
            AbstractValue::Mapping(entries) => forall|i: int|
                0 <= i < entries@.len() ==> {
                    &&& (#[trigger] entries@[i]).0.canonical()
                    &&& entries@[i].1.canonical()
                },
            AbstractValue::Optional(Some(inner)) => inner.canonical(),
            _ => true,
        }
    }

    /// The same document with every integer in canonical form.
    pub fn normalized(&self) -> (r: AbstractValue)
        ensures
            r.canonical(),
            r@ == self@,
        decreases self,
    {
        match self {
            AbstractValue::Unit => AbstractValue::Unit,
            AbstractValue::Bool(b) => AbstractValue::Bool(*b),
            AbstractValue::Integer(i) => AbstractValue::Integer(i.normalized()),
            AbstractValue::Float(x) => AbstractValue::Float(*x),
            AbstractValue::Text(s) => AbstractValue::Text(s.clone()),
            AbstractValue::Sequence(items) => {
                let mut out: Vec<AbstractValue> = Vec::new();
                let mut i: usize = 0;
                while i < items.len()
                    invariant
                        i <= items@.len(),
                        out@.len() == i,
                        forall|j: int| 0 <= j < i ==> (#[trigger] out@[j]).canonical(),
                        forall|j: int| 0 <= j < i ==> (#[trigger] out@[j])@ == items@[j]@,
                        forall|j: int|
                            0 <= j < items@.len() ==> decreases_to!(self => #[trigger] items@[j]),
                    decreases items@.len() - i,
                {
                    out.push(items[i].normalized());
                    i += 1;
                }
                let r = AbstractValue::Sequence(out);
                assert(r@ == self@) by {
                    assert(r@->Sequence_0 =~= self@->Sequence_0);
                }
                r
            },
            AbstractValue::Mapping(entries) => {
                let mut out: Vec<(AbstractValue, AbstractValue)> = Vec::new();
                let mut i: usize = 0;
                while i < entries.len()
                    invariant
                        i <= entries@.len(),
                        out@.len() == i,
                        forall|j: int|
                            0 <= j < i ==> (#[trigger] out@[j]).0.canonical()
                                && out@[j].1.canonical(),
                        forall|j: int|
                            0 <= j < i ==> (#[trigger] out@[j]).0@ == entries@[j].0@
                                && out@[j].1@ == entries@[j].1@,
                        forall|j: int|
                            0 <= j < entries@.len() ==> decreases_to!(self => (#[trigger] entries@[j]).0)
                                && decreases_to!(self => entries@[j].1),
                    decreases entries@.len() - i,
                {
                    let key = entries[i].0.normalized();
                    let item = entries[i].1.normalized();
                    out.push((key, item));
                    i += 1;
                }
                let r = AbstractValue::Mapping(out);
                assert(r@ == self@) by {
                    assert(r@->Mapping_0 =~= self@->Mapping_0);
                }
                r
            },
            AbstractValue::Optional(None) => AbstractValue::Optional(None),
            AbstractValue::Optional(Some(inner)) => AbstractValue::Optional(Some(Box::new(inner.normalized()))),
        }
    }
}

} // verus!
