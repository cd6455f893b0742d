//! What holds of every conversion.

use vstd::prelude::*;
use crate::equality::{lemma_same_reflexive, same};
use crate::error::Failure;
use crate::format::OutputType;
use crate::shape::{
    document_defect, has_foreign_key, has_repeated_key, lemma_defect_explained, ShapeDefect,
};
use crate::translate::{parse_spec, serialize_spec, translate_spec};
use crate::value::Tree;

verus! {

/// Whether the format keeps the document: however the entries of its
/// mappings are ordered, it can be written in the format, and what is
/// written reads back as the same document.
pub open spec fn keeps(format: OutputType, tree: Tree) -> bool {
    forall|written: Tree| same(written, tree) ==> #[trigger] comes_back(format, written, tree)
}

/// Whether `written` can be written in the format, and what is written
/// reads back as the same document as `tree`.
pub open spec fn comes_back(format: OutputType, written: Tree, tree: Tree) -> bool {
    serialize_spec(written, format) matches Ok(text) && parse_spec(text, format) matches Ok(read)
        && same(read, tree)
}

/// Round trip. Take a document that two formats both keep, written in the
/// first. Converting that text to the second format and the result back to
/// the first succeeds both times, and what comes back reads as the document
/// that was started from.
pub proof fn lemma_round_trip(tree: Tree, first: OutputType, second: OutputType)
    requires
        keeps(first, tree),
        keeps(second, tree),
    ensures
        serialize_spec(tree, first) matches Ok(origin) && translate_spec(origin, first, second)
            matches Ok(there) && translate_spec(there, second, first) matches Ok(back)
            && parse_spec(back, first) matches Ok(again) && same(again, tree),
{
    lemma_same_reflexive(tree);
    assert(comes_back(first, tree, tree));
    let origin = serialize_spec(tree, first)->Ok_0;
    let read_first = parse_spec(origin, first)->Ok_0;
    assert(comes_back(second, read_first, tree));
    let there = serialize_spec(read_first, second)->Ok_0;
    let read_second = parse_spec(there, second)->Ok_0;
    assert(comes_back(first, read_second, tree));
}

/// A conversion goes through the document alone: two texts that read as the
/// same document convert to the same text, or fail in the same way.
pub proof fn lemma_same_document_same_text(
    one: Seq<char>,
    other: Seq<char>,
    source: OutputType,
    target: OutputType,
)
    requires
        parse_spec(one, source) is Ok,
        parse_spec(one, source) == parse_spec(other, source),
    ensures
        translate_spec(one, source, target) == translate_spec(other, source, target),
{
}

/// A key that is not a text is never coerced. Whatever the document, if a
/// mapping in it has such a key, writing it as JSON, YAML or TOML fails with
/// `UnsupportedShapeError`.
pub proof fn lemma_foreign_key_is_refused(tree: Tree, format: OutputType)
    requires
        has_foreign_key(tree),
        format != OutputType::Ron,
    ensures
        serialize_spec(tree, format) matches Err(Failure::UnsupportedShapeError { .. }),
{
    lemma_defect_explained(tree, format);
}

/// No entry is dropped for the sake of another. Whatever the document and
/// the format, if a mapping in it has two entries with the same key,
/// writing it fails with `UnsupportedShapeError`; so every document that a
/// writer is handed has different keys in each of its mappings.
pub proof fn lemma_repeated_key_is_refused(tree: Tree, format: OutputType)
    requires
        has_repeated_key(tree),
    ensures
        serialize_spec(tree, format) matches Err(Failure::UnsupportedShapeError { .. }),
{
    lemma_defect_explained(tree, format);
}

proof fn lemma_verdict_names_a_rule(verdict: Option<ShapeDefect>)
    ensures
        verdict is None || verdict == Some(ShapeDefect::RootNotTable) || verdict == Some(
            ShapeDefect::KeyNotText,
        ) || verdict == Some(ShapeDefect::RepeatedKey) || verdict == Some(ShapeDefect::Null)
            || verdict == Some(ShapeDefect::IntegerRange),
{
    match verdict {
        Some(ShapeDefect::RootNotTable) => {},
        Some(ShapeDefect::KeyNotText) => {},
        Some(ShapeDefect::RepeatedKey) => {},
        Some(ShapeDefect::Null) => {},
        Some(ShapeDefect::IntegerRange) => {},
        None => {},
    }
}

/// The rules of JSON and of YAML are the two rules on keys and nothing
/// else: a document is refused by them exactly when a mapping in it has a
/// key that is not a text or a key that comes twice, and the failure names
/// one of these two rules, one that the document does break.
pub proof fn lemma_rules_of_json_and_yaml(tree: Tree, format: OutputType)
    requires
        format == OutputType::Json || format == OutputType::Yaml,
    ensures
        document_defect(tree, format) is Some <==> has_foreign_key(tree) || has_repeated_key(
            tree,
        ),
        document_defect(tree, format) == Some(ShapeDefect::KeyNotText) ==> has_foreign_key(tree),
        document_defect(tree, format) == Some(ShapeDefect::RepeatedKey) ==> has_repeated_key(
            tree,
        ),
        document_defect(tree, format) is Some ==> document_defect(tree, format) == Some(
            ShapeDefect::KeyNotText,
        ) || document_defect(tree, format) == Some(ShapeDefect::RepeatedKey),
{
    lemma_defect_explained(tree, format);
    lemma_verdict_names_a_rule(document_defect(tree, format));
}

/// RON has one rule: it expresses every document but one with a key that
/// comes twice.
pub proof fn lemma_rule_of_ron(tree: Tree)
    ensures
        document_defect(tree, OutputType::Ron) == if has_repeated_key(tree) {
            Some(ShapeDefect::RepeatedKey)
        } else {
            None
        },
{
    lemma_defect_explained(tree, OutputType::Ron);
    lemma_verdict_names_a_rule(document_defect(tree, OutputType::Ron));
}

} // verus!
