//! The translator: read a text in one format, check the document against
//! the other, write it there.

use vstd::prelude::*;
use crate::codec::{
    json_reading, json_writing, read_json, read_ron, read_toml, read_yaml, ron_reading,
    ron_writing, toml_reading, toml_writing, write_json, write_ron, write_toml, write_yaml,
    yaml_reading, yaml_writing,
};
use crate::error::{ConversionError, Failure};
use crate::format::{Format, OutputType};
use crate::shape::{document_defect, lemma_defect_explained, shape_defect};
use crate::value::{AbstractValue, Tree};

verus! {

/// What the reader of `format` makes of a text.
pub open spec fn reading(format: OutputType, text: Seq<char>) -> Result<Tree, Seq<char>> {
    match format {
        OutputType::Ron => ron_reading(text),
        OutputType::Json => json_reading(text),
        OutputType::Yaml => yaml_reading(text),
        OutputType::Toml => toml_reading(text),
    }
}

/// What the writer of `format` makes of a document.
pub open spec fn writing(format: OutputType, tree: Tree) -> Result<Seq<char>, Seq<char>> {
    match format {
        OutputType::Ron => ron_writing(tree),
        OutputType::Json => json_writing(tree),
        OutputType::Yaml => yaml_writing(tree),
        OutputType::Toml => toml_writing(tree),
    }
}

/// Reading, with the reader's complaint as a [`Failure`].
pub open spec fn parse_spec(text: Seq<char>, format: OutputType) -> Result<Tree, Failure> {
    match reading(format, text) {
        Ok(tree) => Ok(tree),
        Err(diagnostic) => Err(Failure::ParseError { format, diagnostic }),
    }
}

/// Writing: refused with the first broken rule where the format cannot
/// express the document, and only else handed to the writer.
pub open spec fn serialize_spec(tree: Tree, format: OutputType) -> Result<Seq<char>, Failure> {
    match document_defect(tree, format) {
        Some(defect) => Err(Failure::UnsupportedShapeError { format, defect }),
        None => match writing(format, tree) {
            Ok(text) => Ok(text),
            Err(diagnostic) => Err(Failure::SerializeError { format, diagnostic }),
        },
    }
}

/// A whole conversion: what is read from `text` as `source`, written as
/// `target`.
pub open spec fn translate_spec(text: Seq<char>, source: OutputType, target: OutputType) -> Result<
    Seq<char>,
    Failure,
> {
    match parse_spec(text, source) {
        Ok(tree) => serialize_spec(tree, target),
        Err(failure) => Err(failure),
    }
}

/// The model of a parse result.
pub open spec fn document_model(r: Result<AbstractValue, ConversionError>) -> Result<
    Tree,
    Failure,
> {
    match r {
        Ok(value) => Ok(value@),
        Err(error) => Err(error@),
    }
}

/// The model of a conversion result.
pub open spec fn text_model(r: Result<String, ConversionError>) -> Result<Seq<char>, Failure> {
    match r {
        Ok(text) => Ok(text@),
        Err(error) => Err(error@),
    }
}

/// Turns what a reader handed back into the result of a parse: the document
/// with its integers in canonical form, or a `ParseError` that carries the
/// reader's complaint word for word.
pub fn parse_outcome(format: Format, outcome: Result<AbstractValue, String>) -> (r: Result<
    AbstractValue,
    ConversionError,
>)
    ensures
        document_model(r) == match outcome {
            Ok(value) => Ok::<Tree, Failure>(value@),
            Err(diagnostic) => Err(Failure::ParseError { format, diagnostic: diagnostic@ }),
        },
        r matches Ok(value) ==> value.canonical(),
{
    match outcome {
        Ok(value) => Ok(value.normalized()),
        Err(diagnostic) => Err(ConversionError::ParseError { format, diagnostic }),
    }
}

/// Turns what a writer handed back into the result of a conversion: the
/// text, or a `SerializeError` that carries the writer's complaint word for
/// word.
pub fn serialize_outcome(format: Format, outcome: Result<String, String>) -> (r: Result<
    String,
    ConversionError,
>)
    ensures
        text_model(r) == match outcome {
            Ok(text) => Ok::<Seq<char>, Failure>(text@),
            Err(diagnostic) => Err(Failure::SerializeError { format, diagnostic: diagnostic@ }),
        },
{
    match outcome {
        Ok(text) => Ok(text),
        Err(diagnostic) => Err(ConversionError::SerializeError { format, diagnostic }),
    }
}

/// Reads a text of the given format into a value tree.
///
/// Fails with `ParseError` exactly when the format's reader refuses the
/// text.
pub fn parse(text: &str, format: Format) -> (r: Result<AbstractValue, ConversionError>)
    ensures
        document_model(r) == parse_spec(text@, format),
        r matches Ok(value) ==> value.canonical(),
{
    let outcome = match format {
        OutputType::Ron => read_ron(text),
        OutputType::Json => read_json(text),
        OutputType::Yaml => read_yaml(text),
        OutputType::Toml => read_toml(text),
    };
    parse_outcome(format, outcome)
}

/// Writes a value tree as a text of the given format, pretty-printed where
/// the format has such a layout.
///
/// Fails with `UnsupportedShapeError` exactly when the document breaks a
/// rule of the format, naming the first one in document order; the writer
/// is then never called. So a writer only ever sees a document in which the
/// keys of every mapping differ, and drops no entry for another. Fails with `SerializeError` when the writer itself
/// refuses a document that breaks none.
pub fn serialize(value: &AbstractValue, format: Format) -> (r: Result<String, ConversionError>)
    ensures
        text_model(r) == serialize_spec(value@, format),
{
    let value = value.normalized();
    match shape_defect(&value, format) {
        Some(defect) => Err(ConversionError::UnsupportedShapeError { format, defect }),
        None => {
            proof {
                lemma_defect_explained(value@, format);
            }
            let outcome = match format {
                OutputType::Ron => write_ron(&value),
                OutputType::Json => write_json(&value),
                OutputType::Yaml => write_yaml(&value),
                OutputType::Toml => write_toml(&value),
            };
            serialize_outcome(format, outcome)
        },
    }
}

/// Converts a document from one format to another.
///
/// The text is read as `source`, and the document written as `target`. The
/// result is a whole text or a failure, never a part of a text.
pub fn translate(text: &str, source: Format, target: Format) -> (r: Result<
    String,
    ConversionError,
>)
    ensures
        text_model(r) == translate_spec(text@, source, target),
{
    match parse(text, source) {
        Ok(value) => serialize(&value, target),
        Err(error) => Err(error),
    }
}

} // verus!
