//! What each format can express, and the check of a value against it.
//!
//! No format takes a mapping in which a key comes twice: every writer would
//! keep one of the two entries and say nothing. JSON, YAML and TOML want
//! every mapping key to be a text. TOML, moreover, has no null, holds signed
//! 64-bit integers only, and is a table at its root. A value that breaks one
//! of these rules is refused before any text is written, so that no entry is
//! dropped and no key turned into a text on the way.

use vstd::prelude::*;
use crate::equality::same;
use crate::format::OutputType;
use crate::value::{entries_model, AbstractValue, Integer, Tree};

verus! {

/// The rule that a value breaks in a format.
#[derive(Debug, Clone, Copy, PartialEq, Eq, Structural)]
pub enum ShapeDefect {
    /// The root of the document is not a mapping.
    RootNotTable,
    /// A mapping has a key that is not a text.
    KeyNotText,
    /// A mapping has two entries with the same key.
    RepeatedKey,
    /// A unit or a `None`, in a format without null.
    Null,
    /// An integer outside the range of the format's integers.
    IntegerRange,
}

/// Whether the format wants every mapping key to be a text.
pub open spec fn wants_text_keys(format: OutputType) -> bool {
    format != OutputType::Ron
}

/// Whether the format can write "nothing here".
pub open spec fn has_null(format: OutputType) -> bool {
    format != OutputType::Toml
}

/// Whether the format's integers hold `n`.
pub open spec fn holds_integer(format: OutputType, n: int) -> bool {
    format == OutputType::Toml ==> i64::MIN <= n <= i64::MAX
}

/// The first rule of `format` that the tree breaks, going through it in
/// document order; `None` where it breaks none. In a mapping entry the key
/// comes before the value.
pub open spec fn node_defect(tree: Tree, format: OutputType) -> Option<ShapeDefect>
    decreases tree, 0nat,
{
    match tree {
        Tree::Unit | Tree::Optional(None) => if has_null(format) {
            None
        } else {
            Some(ShapeDefect::Null)
        },
        Tree::Bool(_) | Tree::Float(_) | Tree::Text(_) => None,
        Tree::Integer(n) => if holds_integer(format, n) {
            None
        } else {
            Some(ShapeDefect::IntegerRange)
        },
        Tree::Sequence(items) => items_defect(items, format, 0),
        Tree::Mapping(entries) => entries_defect(entries, format, 0),
        Tree::Optional(Some(inner)) => node_defect(*inner, format),
    }
}

/// The first broken rule among the items from index `from` on.
pub open spec fn items_defect(items: Seq<Tree>, format: OutputType, from: int) -> Option<
    ShapeDefect,
>
    decreases items, items.len() - from,
{
    if 0 <= from < items.len() {
        match node_defect(items[from], format) {
            Some(defect) => Some(defect),
            None => items_defect(items, format, from + 1),
        }
    } else {
        None
    }
}

/// The first broken rule in one mapping entry: the rule on keys, then the
/// rules inside the key, then those inside the value.
pub open spec fn entry_defect(entry: (Tree, Tree), format: OutputType) -> Option<ShapeDefect>
    decreases entry, 0nat,
{
    if wants_text_keys(format) && !(entry.0 is Text) {
        Some(ShapeDefect::KeyNotText)
    } else {
        match node_defect(entry.0, format) {
            Some(defect) => Some(defect),
            None => node_defect(entry.1, format),
        }
    }
}

/// Whether the key of the entry at index `at` is the same as the key of an
/// entry before it.
pub open spec fn key_repeats(entries: Seq<(Tree, Tree)>, at: int) -> bool {
    exists|i: int| 0 <= i < at && same((#[trigger] entries[i]).0, entries[at].0)
}

/// The first broken rule among the entries from index `from` on. An entry
/// whose key was there before is refused for that, before it is looked
/// into.
pub open spec fn entries_defect(
    entries: Seq<(Tree, Tree)>,
    format: OutputType,
    from: int,
) -> Option<ShapeDefect>
    decreases entries, entries.len() - from,
{
    if 0 <= from < entries.len() {
        if key_repeats(entries, from) {
            Some(ShapeDefect::RepeatedKey)
        } else {
            match entry_defect(entries[from], format) {
                Some(defect) => Some(defect),
                None => entries_defect(entries, format, from + 1),
            }
        }
    } else {
        None
    }
}

/// The tree inside any number of `Some(..)`: what the formats without an
/// option type write in its place.
pub open spec fn payload(tree: Tree) -> Tree
    decreases tree,
{
    match tree {
        Tree::Optional(Some(inner)) => payload(*inner),
        _ => tree,
    }
}

/// The first rule of `format` that a whole document breaks. The rule on the
/// root is looked at before any other.
pub open spec fn document_defect(tree: Tree, format: OutputType) -> Option<ShapeDefect> {
    if format == OutputType::Toml && !(payload(tree) is Mapping) {
        Some(ShapeDefect::RootNotTable)
    } else {
        node_defect(tree, format)
    }
}

/// Whether some mapping in the tree, at any depth, has a key that is not a
/// text.
pub open spec fn has_foreign_key(tree: Tree) -> bool
    decreases tree,
{
    match tree {
        Tree::Sequence(items) => exists|k: int|
            0 <= k < items.len() && has_foreign_key(#[trigger] items[k]),
        Tree::Mapping(entries) => exists|k: int|
            0 <= k < entries.len() && entry_has_foreign_key(#[trigger] entries[k]),
        Tree::Optional(Some(inner)) => has_foreign_key(*inner),
        _ => false,
    }
}

/// Whether the key of the entry is not a text, or a mapping inside the
/// entry has such a key.
pub open spec fn entry_has_foreign_key(entry: (Tree, Tree)) -> bool
    decreases entry,
{
    !(entry.0 is Text) || has_foreign_key(entry.0) || has_foreign_key(entry.1)
}

/// Whether some mapping in the tree, at any depth, has two entries with the
/// same key.
pub open spec fn has_repeated_key(tree: Tree) -> bool
    decreases tree,
{
    match tree {
        Tree::Sequence(items) => exists|k: int|
            0 <= k < items.len() && has_repeated_key(#[trigger] items[k]),
        Tree::Mapping(entries) => exists|k: int|
            0 <= k < entries.len() && (key_repeats(entries, k) || has_repeated_key(
                (#[trigger] entries[k]).0,
            ) || has_repeated_key(entries[k].1)),
        Tree::Optional(Some(inner)) => has_repeated_key(*inner),
        _ => false,
    }
}

/// What a verdict of the check has to do with the keys of the tree: a key
/// that is not a text, or one that comes twice, is always found, and each
/// verdict names a rule that the tree does break.
pub open spec fn explains(
    verdict: Option<ShapeDefect>,
    format: OutputType,
    foreign: bool,
    repeated: bool,
) -> bool {
    &&& format != OutputType::Ron && foreign ==> verdict is Some
    &&& repeated ==> verdict is Some
    &&& verdict == Some(ShapeDefect::KeyNotText) ==> format != OutputType::Ron && foreign
    &&& verdict == Some(ShapeDefect::RepeatedKey) ==> repeated
    &&& verdict == Some(ShapeDefect::Null) || verdict == Some(ShapeDefect::IntegerRange)
        ==> format == OutputType::Toml
    &&& verdict != Some(ShapeDefect::RootNotTable)
}

spec fn items_foreign(items: Seq<Tree>, from: int) -> bool {
    exists|k: int| from <= k < items.len() && has_foreign_key(#[trigger] items[k])
}

spec fn items_repeated(items: Seq<Tree>, from: int) -> bool {
    exists|k: int| from <= k < items.len() && has_repeated_key(#[trigger] items[k])
}

spec fn entries_foreign(entries: Seq<(Tree, Tree)>, from: int) -> bool {
    exists|k: int| from <= k < entries.len() && entry_has_foreign_key(#[trigger] entries[k])
}

spec fn entry_repeats(entries: Seq<(Tree, Tree)>, at: int) -> bool {
    key_repeats(entries, at) || has_repeated_key(entries[at].0) || has_repeated_key(
        entries[at].1,
    )
}

spec fn entries_repeated(entries: Seq<(Tree, Tree)>, from: int) -> bool {
    exists|k: int|
        from <= k < entries.len() && (key_repeats(entries, k) || has_repeated_key(
            (#[trigger] entries[k]).0,
        ) || has_repeated_key(entries[k].1))
}

proof fn lemma_items_foreign_step(items: Seq<Tree>, from: int)
    requires
        0 <= from < items.len(),
    ensures
        items_foreign(items, from) == (has_foreign_key(items[from]) || items_foreign(
            items,
            from + 1,
        )),
{
    if items_foreign(items, from) {
        let k = choose|k: int| from <= k < items.len() && has_foreign_key(#[trigger] items[k]);
        if k != from {
            assert(from + 1 <= k < items.len() && has_foreign_key(items[k]));
        }
    }
    if items_foreign(items, from + 1) {
        let k = choose|k: int|
            from + 1 <= k < items.len() && has_foreign_key(#[trigger] items[k]);
        assert(from <= k < items.len() && has_foreign_key(items[k]));
    }
    if has_foreign_key(items[from]) {
        assert(from <= from < items.len() && has_foreign_key(items[from]));
    }
}

proof fn lemma_items_repeated_step(items: Seq<Tree>, from: int)
    requires
        0 <= from < items.len(),
    ensures
        items_repeated(items, from) == (has_repeated_key(items[from]) || items_repeated(
            items,
            from + 1,
        )),
{
    if items_repeated(items, from) {
        let k = choose|k: int| from <= k < items.len() && has_repeated_key(#[trigger] items[k]);
        if k != from {
            assert(from + 1 <= k < items.len() && has_repeated_key(items[k]));
        }
    }
    if items_repeated(items, from + 1) {
        let k = choose|k: int|
            from + 1 <= k < items.len() && has_repeated_key(#[trigger] items[k]);
        assert(from <= k < items.len() && has_repeated_key(items[k]));
    }
    if has_repeated_key(items[from]) {
        assert(from <= from < items.len() && has_repeated_key(items[from]));
    }
}

proof fn lemma_entries_foreign_step(entries: Seq<(Tree, Tree)>, from: int)
    requires
        0 <= from < entries.len(),
    ensures
        entries_foreign(entries, from) == (entry_has_foreign_key(entries[from])
            || entries_foreign(entries, from + 1)),
{
    if entries_foreign(entries, from) {
        let k = choose|k: int|
            from <= k < entries.len() && entry_has_foreign_key(#[trigger] entries[k]);
        if k != from {
            assert(from + 1 <= k < entries.len() && entry_has_foreign_key(entries[k]));
        }
    }
    if entries_foreign(entries, from + 1) {
        let k = choose|k: int|
            from + 1 <= k < entries.len() && entry_has_foreign_key(#[trigger] entries[k]);
        assert(from <= k < entries.len() && entry_has_foreign_key(entries[k]));
    }
    if entry_has_foreign_key(entries[from]) {
        assert(from <= from < entries.len() && entry_has_foreign_key(entries[from]));
    }
}

proof fn lemma_entries_repeated_step(entries: Seq<(Tree, Tree)>, from: int)
    requires
        0 <= from < entries.len(),
    ensures
        entries_repeated(entries, from) == (entry_repeats(entries, from) || entries_repeated(
            entries,
            from + 1,
        )),
{
    if entries_repeated(entries, from) {
        let k = choose|k: int|
            from <= k < entries.len() && (key_repeats(entries, k) || has_repeated_key(
                (#[trigger] entries[k]).0,
            ) || has_repeated_key(entries[k].1));
        if k != from {
            assert(from + 1 <= k < entries.len() && (key_repeats(entries, k)
                || has_repeated_key(entries[k].0) || has_repeated_key(entries[k].1)));
        }
    }
    if entries_repeated(entries, from + 1) {
        let k = choose|k: int|
            from + 1 <= k < entries.len() && (key_repeats(entries, k) || has_repeated_key(
                (#[trigger] entries[k]).0,
            ) || has_repeated_key(entries[k].1));
        assert(from <= k < entries.len() && (key_repeats(entries, k) || has_repeated_key(
            entries[k].0,
        ) || has_repeated_key(entries[k].1)));
    }
    if entry_repeats(entries, from) {
        assert(from <= from < entries.len() && (key_repeats(entries, from)
            || has_repeated_key(entries[from].0) || has_repeated_key(entries[from].1)));
    }
}

/// The check finds every key that is not a text and every key that comes
/// twice, and names no rule that the tree keeps.
pub proof fn lemma_defect_explained(tree: Tree, format: OutputType)
    ensures
        explains(
            node_defect(tree, format),
            format,
            has_foreign_key(tree),
            has_repeated_key(tree),
        ),
    decreases tree, 0nat,
{
    match tree {
        Tree::Sequence(items) => {
            lemma_items_explained(items, format, 0);
            assert(has_foreign_key(tree) == items_foreign(items, 0));
            assert(has_repeated_key(tree) == items_repeated(items, 0));
        },
        Tree::Mapping(entries) => {
            lemma_entries_explained(entries, format, 0);
            assert(has_foreign_key(tree) == entries_foreign(entries, 0));
            assert(has_repeated_key(tree) == entries_repeated(entries, 0));
        },
        Tree::Optional(Some(inner)) => {
            lemma_defect_explained(*inner, format);
        },
        _ => {},
    }
}

proof fn lemma_items_explained(items: Seq<Tree>, format: OutputType, from: int)
    requires
        0 <= from <= items.len(),
    ensures
        explains(
            items_defect(items, format, from),
            format,
            items_foreign(items, from),
            items_repeated(items, from),
        ),
    decreases items, items.len() - from,
{
    if from < items.len() {
        lemma_defect_explained(items[from], format);
        lemma_items_explained(items, format, from + 1);
        lemma_items_foreign_step(items, from);
        lemma_items_repeated_step(items, from);
    }
}

proof fn lemma_entry_explained(entry: (Tree, Tree), format: OutputType)
    ensures
        explains(
            entry_defect(entry, format),
            format,
            entry_has_foreign_key(entry),
            has_repeated_key(entry.0) || has_repeated_key(entry.1),
        ),
    decreases entry, 0nat,
{
    lemma_defect_explained(entry.0, format);
    lemma_defect_explained(entry.1, format);
}

proof fn lemma_entries_explained(entries: Seq<(Tree, Tree)>, format: OutputType, from: int)
    requires
        0 <= from <= entries.len(),
    ensures
        explains(
            entries_defect(entries, format, from),
            format,
            entries_foreign(entries, from),
            entries_repeated(entries, from),
        ),
    decreases entries, entries.len() - from,
{
    if from < entries.len() {
        lemma_entry_explained(entries[from], format);
        lemma_entries_explained(entries, format, from + 1);
        lemma_entries_foreign_step(entries, from);
        lemma_entries_repeated_step(entries, from);
    }
}

fn integer_defect(n: &Integer, format: OutputType) -> (r: Option<ShapeDefect>)
    ensures
        r == node_defect(Tree::Integer(n@), format),
{
    match format {
        OutputType::Toml => if n.fits_i64() {
            None
        } else {
            Some(ShapeDefect::IntegerRange)
        },
        _ => None,
    }
}

fn null_defect(format: OutputType) -> (r: Option<ShapeDefect>)
    ensures
        r == node_defect(Tree::Unit, format),
        r == node_defect(Tree::Optional(None), format),
{
    match format {
        OutputType::Toml => Some(ShapeDefect::Null),
        _ => None,
    }
}

fn is_text(value: &AbstractValue) -> (r: bool)
    ensures
        r == (value@ is Text),
{
    match value {
        AbstractValue::Text(_) => true,
        _ => false,
    }
}

fn key_seen_before(entries: &Vec<(AbstractValue, AbstractValue)>, at: usize) -> (r: bool)
    requires
        at < entries@.len(),
    ensures
        r == key_repeats(entries_model(entries@), at as int),
{
    let ghost model = entries_model(entries@);
    let mut i: usize = 0;
    while i < at
        invariant
            i <= at < entries@.len(),
            model == entries_model(entries@),
            forall|k: int| 0 <= k < i ==> !same((#[trigger] model[k]).0, model[at as int].0),
        decreases at - i,
    {
        if entries[i].0.same_as(&entries[at].0) {
            assert(same(model[i as int].0, model[at as int].0));
            return true;
        }
        i += 1;
    }
    false
}

fn find_defect(value: &AbstractValue, format: OutputType) -> (r: Option<ShapeDefect>)
    ensures
        r == node_defect(value@, format),
    decreases value,
{
    match value {
        AbstractValue::Unit => null_defect(format),
        AbstractValue::Bool(_) => None,
        AbstractValue::Integer(n) => integer_defect(n, format),
        AbstractValue::Float(_) => None,
        AbstractValue::Text(_) => None,
        AbstractValue::Sequence(items) => {
            let ghost trees = value@->Sequence_0;
            let mut i: usize = 0;
            while i < items.len()
                invariant
                    i <= items@.len(),
                    trees.len() == items@.len(),
                    forall|j: int| 0 <= j < items@.len() ==> trees[j] == (#[trigger] items@[j])@,
                    forall|j: int|
                        0 <= j < items@.len() ==> decreases_to!(value => #[trigger] items@[j]),
                    node_defect(value@, format) == items_defect(trees, format, i as int),
                decreases items@.len() - i,
            {
                let found = find_defect(&items[i], format);
                if found.is_some() {
                    return found;
                }
                i += 1;
            }
            None
        },
        AbstractValue::Mapping(entries) => {
            let ghost trees = value@->Mapping_0;
            let mut i: usize = 0;
            while i < entries.len()
                invariant
                    i <= entries@.len(),
                    trees.len() == entries@.len(),
                    forall|j: int|
                        0 <= j < entries@.len() ==> trees[j] == ((#[trigger] entries@[j]).0@, entries@[j].1@),
                    forall|j: int|
                        0 <= j < entries@.len() ==> decreases_to!(value => (#[trigger] entries@[j]).0)
                            && decreases_to!(value => entries@[j].1),
                    node_defect(value@, format) == entries_defect(trees, format, i as int),
                decreases entries@.len() - i,
            {
                let key = &entries[i].0;
                assert(trees[i as int] == (entries@[i as int].0@, entries@[i as int].1@));
                assert(trees =~= entries_model(entries@));
                if key_seen_before(entries, i) {
                    return Some(ShapeDefect::RepeatedKey);
                }
                assert(entries_defect(trees, format, i as int) == match entry_defect(
                    trees[i as int],
                    format,
                ) {
                    Some(defect) => Some(defect),
                    None => entries_defect(trees, format, i + 1),
                });
                if !is_text(key) {
                    match format {
                        OutputType::Ron => {},
                        _ => {
                            return Some(ShapeDefect::KeyNotText);
                        },
                    }
                }
                let in_key = find_defect(key, format);
                if in_key.is_some() {
                    return in_key;
                }
                let in_item = find_defect(&entries[i].1, format);
                if in_item.is_some() {
                    return in_item;
                }
                i += 1;
            }
            None
        },
        AbstractValue::Optional(None) => null_defect(format),
        AbstractValue::Optional(Some(inner)) => find_defect(inner, format),
    }
}

fn root_is_table(value: &AbstractValue) -> (r: bool)
    ensures
        r == (payload(value@) is Mapping),
    decreases value,
{
    match value {
        AbstractValue::Mapping(_) => true,
        AbstractValue::Optional(Some(inner)) => root_is_table(inner),
        _ => false,
    }
}

/// Checks a document against the rules of a format and names the first rule
/// that it breaks.
pub fn shape_defect(value: &AbstractValue, format: OutputType) -> (r: Option<ShapeDefect>)
    ensures
        r == document_defect(value@, format),
{
    match format {
        OutputType::Toml => if !root_is_table(value) {
            return Some(ShapeDefect::RootNotTable);
        },
        _ => {},
    }
    find_defect(value, format)
}

} // verus!
