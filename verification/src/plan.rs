//! Which conversion a request asks for: the formats to read and to write,
//! from the extension of the input file and the output type that was asked
//! for, if one was.

use vstd::prelude::*;
use vstd::string::StringExecFns;
use crate::format::OutputType;

verus! {

/// A conversion that can be made: read as `source`, write as `target`.
#[derive(Debug, Clone, Copy, PartialEq, Eq, Structural)]
pub struct Conversion {
    pub source: OutputType,
    pub target: OutputType,
}

/// Why a request names no conversion.
#[derive(Debug, Clone, Copy, PartialEq, Eq, Structural)]
pub enum PlanError {
    /// A RON file was to be written as RON.
    RonToRon,
    /// RON was to be written from a file whose extension names no format
    /// that can be read.
    UnsupportedInput,
}

/// The output type of a request that names none: JSON for a RON file, RON
/// for any other.
pub open spec fn default_target(extension: Seq<char>) -> OutputType {
    if extension == "ron"@ {
        OutputType::Json
    } else {
        OutputType::Ron
    }
}

/// The format that an input file's extension names, RON apart. The letter
/// case counts.
pub open spec fn source_named_by(extension: Seq<char>) -> Option<OutputType> {
    if extension == "json"@ {
        Some(OutputType::Json)
    } else if extension == "yaml"@ || extension == "yml"@ {
        Some(OutputType::Yaml)
    } else if extension == "toml"@ {
        Some(OutputType::Toml)
    } else {
        None
    }
}

/// The conversion for an input extension and a requested output type.
///
/// Whatever is not written as RON is read as RON, whatever the extension.
/// What is written as RON is read in the format that the extension names.
pub open spec fn plan_spec(extension: Seq<char>, requested: Option<OutputType>) -> Result<
    Conversion,
    PlanError,
> {
    let target = match requested {
        Some(target) => target,
        None => default_target(extension),
    };
    if target != OutputType::Ron {
        Ok(Conversion { source: OutputType::Ron, target })
    } else if extension == "ron"@ {
        Err(PlanError::RonToRon)
    } else {
        match source_named_by(extension) {
            Some(source) => Ok(Conversion { source, target }),
            None => Err(PlanError::UnsupportedInput),
        }
    }
}

impl PlanError {
    /// The line that tells a user why nothing was converted.
    pub open spec fn message(self) -> Seq<char> {
        match self {
            PlanError::RonToRon =>
                "Error: Cannot convert a RON file to RON. Please specify a different output type."@,
            PlanError::UnsupportedInput =>
                "Error: Unsupported input file type for converting to RON. Supported types are: json, yaml, yml, toml. File extension must be one of these."@,
        }
    }

    /// The line that tells a user why nothing was converted.
    pub fn to_string(&self) -> (line: String)
        ensures
            line@ == self.message(),
    {
        match self {
            PlanError::RonToRon => String::from_str(
                "Error: Cannot convert a RON file to RON. Please specify a different output type.",
            ),
            PlanError::UnsupportedInput => String::from_str(
                "Error: Unsupported input file type for converting to RON. Supported types are: json, yaml, yml, toml. File extension must be one of these.",
            ),
        }
    }
}

fn is_word(text: &str, word: &str) -> (r: bool)
    ensures
        r == (text@ == word@),
{
    String::from_str(text) == String::from_str(word)
}

/// The output type of a request that names none.
pub fn default_output_type(extension: &str) -> (target: OutputType)
    ensures
        target == default_target(extension@),
{
    if is_word(extension, "ron") {
        OutputType::Json
    } else {
        OutputType::Ron
    }
}

/// The format that an input file's extension names, RON apart.
pub fn source_format(extension: &str) -> (source: Option<OutputType>)
    ensures
        source == source_named_by(extension@),
{
    if is_word(extension, "json") {
        Some(OutputType::Json)
    } else if is_word(extension, "yaml") || is_word(extension, "yml") {
        Some(OutputType::Yaml)
    } else if is_word(extension, "toml") {
        Some(OutputType::Toml)
    } else {
        None
    }
}

/// Decides which conversion a request asks for. `extension` is that of the
/// input file, without the dot and empty where it has none; `requested` is
/// the output type that the user named, if any.
pub fn plan_conversion(extension: &str, requested: Option<OutputType>) -> (r: Result<
    Conversion,
    PlanError,
>)
    ensures
        r == plan_spec(extension@, requested),
{
    let target = match requested {
        Some(target) => target,
        None => default_output_type(extension),
    };
    match target {
        OutputType::Ron => {
            if is_word(extension, "ron") {
                Err(PlanError::RonToRon)
            } else {
                match source_format(extension) {
                    Some(source) => Ok(Conversion { source, target }),
                    None => Err(PlanError::UnsupportedInput),
                }
            }
        },
        _ => Ok(Conversion { source: OutputType::Ron, target }),
    }
}

} // verus!
