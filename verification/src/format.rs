//! The four document formats, their names and their file extensions.

use vstd::prelude::*;
use vstd::string::StringExecFns;

verus! {

/// One of the four text grammars a document can be read from or written in.
#[derive(Debug, Clone, Copy, PartialEq, Eq, Structural)]
pub enum OutputType {
    Json,
    Yaml,
    Toml,
    Ron,
}

/// A format, where it is not only the target of a conversion.
pub type Format = OutputType;

/// What `str::to_lowercase` makes of a text.
pub uninterp spec fn lowercased(text: Seq<char>) -> Seq<char>;

/// Calls `str::to_lowercase`: the text with every character replaced by its
/// Unicode lowercase mapping. The result depends on the text alone.
#[verifier::external_body]
fn to_lowercase(text: &str) -> (lower: String)
    ensures
        lower@ == lowercased(text@),
{
    text.to_lowercase()
}

/// The text that follows `Invalid output type: <given>` in the message for an
/// unknown type name.
pub open spec fn supported_types_note() -> Seq<char> {
    ". Supported types are: json, yaml, yml, toml, ron"@
}

/// The message for a type name that is none of the known ones.
pub open spec fn invalid_type_message(given: Seq<char>) -> Seq<char> {
    "Invalid output type: "@ + given + supported_types_note()
}

impl OutputType {
    /// The file extension of the format, without the dot.
    pub open spec fn extension_text(self) -> Seq<char> {
        match self {
            OutputType::Json => "json"@,
            OutputType::Yaml => "yaml"@,
            OutputType::Toml => "toml"@,
            OutputType::Ron => "ron"@,
        }
    }

    /// The name of the format as it is written in prose.
    pub open spec fn title_text(self) -> Seq<char> {
        match self {
            OutputType::Json => "JSON"@,
            OutputType::Yaml => "YAML"@,
            OutputType::Toml => "TOML"@,
            OutputType::Ron => "RON"@,
        }
    }

    /// The format that a lowercase type name stands for, if any. Both `yaml`
    /// and `yml` name YAML.
    pub open spec fn named_by(lower: Seq<char>) -> Option<OutputType> {
        if lower == "json"@ {
            Some(OutputType::Json)
        } else if lower == "yaml"@ || lower == "yml"@ {
            Some(OutputType::Yaml)
        } else if lower == "toml"@ {
            Some(OutputType::Toml)
        } else if lower == "ron"@ {
            Some(OutputType::Ron)
        } else {
            None
        }
    }

    /// The file extension that a document of this format gets.
    pub fn extension(&self) -> (ext: &'static str)
        ensures
            ext@ == self.extension_text(),
    {
        match self {
            OutputType::Json => "json",
            OutputType::Yaml => "yaml",
            OutputType::Toml => "toml",
            OutputType::Ron => "ron",
        }
    }

    /// The name of the format as it is shown to a user: the same word as its
    /// extension.
    pub fn to_string(&self) -> (name: String)
        ensures
            name@ == self.extension_text(),
    {
        String::from_str(self.extension())
    }

    /// The name of the format as it is written in prose, in capitals.
    pub fn title(&self) -> (name: &'static str)
        ensures
            name@ == self.title_text(),
    {
        match self {
            OutputType::Json => "JSON",
            OutputType::Yaml => "YAML",
            OutputType::Toml => "TOML",
            OutputType::Ron => "RON",
        }
    }

    /// Reads an already lowercased type name. `given` is the name as the user
    /// wrote it, and is quoted in the message when the name is unknown.
    pub fn from_lowercase(lower: &str, given: &str) -> (r: Result<OutputType, String>)
        ensures
            match OutputType::named_by(lower@) {
                Some(t) => r == Ok::<OutputType, String>(t),
                None => r is Err && r->Err_0@ == invalid_type_message(given@),
            },
    {
        let lower = String::from_str(lower);
        if lower == String::from_str("json") {
            Ok(OutputType::Json)
        } else if lower == String::from_str("yaml") || lower == String::from_str("yml") {
            Ok(OutputType::Yaml)
        } else if lower == String::from_str("toml") {
            Ok(OutputType::Toml)
        } else if lower == String::from_str("ron") {
            Ok(OutputType::Ron)
        } else {
            let mut message = String::from_str("Invalid output type: ");
            message.append(given);
            message.append(". Supported types are: json, yaml, yml, toml, ron");
            Err(message)
        }
    }

    /// Reads a type name in any letter case: `json`, `yaml`, `yml`, `toml` or
    /// `ron`. Any other name is answered with a message that quotes it.
    pub fn from_str(s: &str) -> (r: Result<OutputType, String>)
        ensures
            match OutputType::named_by(lowercased(s@)) {
                Some(t) => r == Ok::<OutputType, String>(t),
                None => r is Err && r->Err_0@ == invalid_type_message(s@),
            },
    {
        let lower = to_lowercase(s);
        OutputType::from_lowercase(lower.as_str(), s)
    }
}

} // verus!
