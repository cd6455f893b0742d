//! The ways in which a conversion fails.

use vstd::prelude::*;
use vstd::string::StringExecFns;
use crate::format::OutputType;
use crate::shape::ShapeDefect;

verus! {

/// Why a conversion gave no text. Each failure ends the conversion: nothing
/// is retried and no part of a result is handed out.
#[derive(Debug, PartialEq, Eq)]
pub enum ConversionError {
    /// The input is not a document of the source format. `diagnostic` is
    /// what the format's reader said, with the position where it gives one.
    ParseError { format: OutputType, diagnostic: String },
    /// The document holds something that the target format cannot express.
    UnsupportedShapeError { format: OutputType, defect: ShapeDefect },
    /// The target format's writer refused the document for a reason of its
    /// own. `diagnostic` is what it said.
    SerializeError { format: OutputType, diagnostic: String },
}

/// The model of a [`ConversionError`]: the same, with texts as characters.
pub enum Failure {
    ParseError { format: OutputType, diagnostic: Seq<char> },
    UnsupportedShapeError { format: OutputType, defect: ShapeDefect },
    SerializeError { format: OutputType, diagnostic: Seq<char> },
}

impl View for ConversionError {
    type V = Failure;

    open spec fn view(&self) -> Failure {
        match self {
            ConversionError::ParseError { format, diagnostic } => Failure::ParseError {
                format: *format,
                diagnostic: diagnostic@,
            },
            ConversionError::UnsupportedShapeError {
                format,
                defect,
            } => Failure::UnsupportedShapeError { format: *format, defect: *defect },
            ConversionError::SerializeError { format, diagnostic } => Failure::SerializeError {
                format: *format,
                diagnostic: diagnostic@,
            },
        }
    }
}

impl ShapeDefect {
    /// The broken rule in words.
    pub open spec fn reason_text(self) -> Seq<char> {
        match self {
            ShapeDefect::RootNotTable => "the document is not a mapping at its root"@,
            ShapeDefect::KeyNotText => "a mapping has a key that is not a string"@,
            ShapeDefect::RepeatedKey => "a mapping has the same key twice"@,
            ShapeDefect::Null => "the document holds a unit or a None"@,
            ShapeDefect::IntegerRange => "an integer is outside the signed 64-bit range"@,
        }
    }

    /// The broken rule in words.
    pub fn reason(&self) -> (words: &'static str)
        ensures
            words@ == self.reason_text(),
    {
        match self {
            ShapeDefect::RootNotTable => "the document is not a mapping at its root",
            ShapeDefect::KeyNotText => "a mapping has a key that is not a string",
            ShapeDefect::RepeatedKey => "a mapping has the same key twice",
            ShapeDefect::Null => "the document holds a unit or a None",
            ShapeDefect::IntegerRange => "an integer is outside the signed 64-bit range",
        }
    }
}

/// How the line for a writer's refusal begins. It is worded in two ways:
/// one for JSON and YAML, which are written as they are made, and one for
/// TOML and RON, which are made as a string first.
pub open spec fn serialize_opening(format: OutputType) -> Seq<char> {
    match format {
        OutputType::Json | OutputType::Yaml => "Error serializing to "@,
        OutputType::Toml | OutputType::Ron => "Error: Failed to serialize to "@,
    }
}

/// What stands between the format's name and the writer's complaint.
pub open spec fn serialize_joint(format: OutputType) -> Seq<char> {
    match format {
        OutputType::Json | OutputType::Yaml => ": "@,
        OutputType::Toml | OutputType::Ron => " string: "@,
    }
}

impl Failure {
    /// The line that tells a user of the failure.
    pub open spec fn message(self) -> Seq<char> {
        match self {
            Failure::ParseError { format, diagnostic } => "Error: Failed to parse "@
                + format.title_text() + ": "@ + diagnostic,
            Failure::UnsupportedShapeError {
                format,
                defect,
            } => "Error: Cannot express the document in "@ + format.title_text() + ": "@
                + defect.reason_text(),
            Failure::SerializeError { format, diagnostic } => serialize_opening(format)
                + format.title_text() + serialize_joint(format) + diagnostic,
        }
    }
}

impl ConversionError {
    /// The line that tells a user of the failure: what was attempted, in
    /// which format, and the reason.
    pub fn to_string(&self) -> (line: String)
        ensures
            line@ == self@.message(),
    {
        match self {
            ConversionError::ParseError { format, diagnostic } => {
                let mut line = String::from_str("Error: Failed to parse ");
                line.append(format.title());
                line.append(": ");
                line.append(diagnostic.as_str());
                line
            },
            ConversionError::UnsupportedShapeError { format, defect } => {
                let mut line = String::from_str("Error: Cannot express the document in ");
                line.append(format.title());
                line.append(": ");
                line.append(defect.reason());
                line
            },
            ConversionError::SerializeError { format, diagnostic } => {
                let (opening, joint) = match format {
                    OutputType::Json | OutputType::Yaml => ("Error serializing to ", ": "),
                    OutputType::Toml | OutputType::Ron => (
                        "Error: Failed to serialize to ",
                        " string: ",
                    ),
                };
                let mut line = String::from_str(opening);
                line.append(format.title());
                line.append(joint);
                line.append(diagnostic.as_str());
                line
            },
        }
    }
}

} // verus!
