//! The calls into the format crates.
//!
//! Nothing in this file is proved. Each reader and writer is one call into a
//! crate, with the document carried over between this library's
//! [`AbstractValue`] and the RON crate's value type, which all four crates
//! read into and write from: `lift` after a reader, `lower` before a writer.
//! What a call returns is given a name, and the contract says no more than
//! that the result is that name applied to the argument: the same text is
//! always read as the same value, the same value always written as the same
//! text.
//!
//! A writer is handed canonical values only, in which no mapping has a key
//! twice. `lower` is then one for one: the map that it collects the entries
//! of a mapping into holds every one of them, in their order.

use vstd::prelude::*;
use crate::shape::has_repeated_key;
use crate::value::AbstractValue::{Bool, Float, Integer, Mapping, Optional, Sequence, Text, Unit};
use crate::value::Integer::{Signed, Unsigned};
use crate::value::{AbstractValue, Tree};
use ron::value::{Number, F64};
use ron::Value as Doc;

verus! {

/// `ron::Value`, the tree that the four crates read into and write from. It
/// is only carried between a call and the conversion.
#[verifier::external_type_specification]
#[verifier::external_body]
pub struct ExDoc(ron::Value);

/// `ron::Number`, a number of any width as the RON crate holds it.
#[verifier::external_type_specification]
#[verifier::external_body]
pub struct ExNumber(ron::Number);

/// What the RON crate makes of a text: the document, or its complaint.
pub uninterp spec fn ron_reading(text: Seq<char>) -> Result<Tree, Seq<char>>;

/// What `serde_json` makes of a text.
pub uninterp spec fn json_reading(text: Seq<char>) -> Result<Tree, Seq<char>>;

/// What `serde_yaml_bw` makes of a text.
pub uninterp spec fn yaml_reading(text: Seq<char>) -> Result<Tree, Seq<char>>;

/// What the `toml` crate makes of a text.
pub uninterp spec fn toml_reading(text: Seq<char>) -> Result<Tree, Seq<char>>;

/// The RON text for a document, or the RON crate's complaint.
pub uninterp spec fn ron_writing(tree: Tree) -> Result<Seq<char>, Seq<char>>;

/// The JSON text for a document, or `serde_json`'s complaint.
pub uninterp spec fn json_writing(tree: Tree) -> Result<Seq<char>, Seq<char>>;

/// The YAML text for a document, or `serde_yaml_bw`'s complaint.
pub uninterp spec fn yaml_writing(tree: Tree) -> Result<Seq<char>, Seq<char>>;

/// The TOML text for a document, or the `toml` crate's complaint.
pub uninterp spec fn toml_writing(tree: Tree) -> Result<Seq<char>, Seq<char>>;

/// The model of what a reader hands back.
pub open spec fn read_model(outcome: Result<AbstractValue, String>) -> Result<Tree, Seq<char>> {
    match outcome {
        Ok(value) => Ok(value@),
        Err(complaint) => Err(complaint@),
    }
}

/// The model of what a writer hands back.
pub open spec fn write_model(outcome: Result<String, String>) -> Result<Seq<char>, Seq<char>> {
    match outcome {
        Ok(text) => Ok(text@),
        Err(complaint) => Err(complaint@),
    }
}

/// Calls `==` of `ron::value::F64`, which compares by `total_cmp`: two
/// floats are equal exactly when they have the same bits, and so exactly
/// when they are the same float.
#[verifier::external_body]
pub(crate) fn same_float(one: &F64, other: &F64) -> (r: bool)
    ensures
        r == (*one == *other),
{
    one == other
}

/// Carries a number of the RON crate over, variant by variant: the signed
/// ones as `Signed`, the unsigned ones as `Unsigned`, and a float of either
/// width as the 64-bit float that `Number::into_f64` gives.
#[verifier::external_body]
fn lift_number(number: Number) -> AbstractValue {
    match number {
        Number::I8(i) => Integer(Signed(i.into())),
        Number::I16(i) => Integer(Signed(i.into())),
        Number::I32(i) => Integer(Signed(i.into())),
        Number::I64(i) => Integer(Signed(i)),
        Number::U8(u) => Integer(Unsigned(u.into())),
        Number::U16(u) => Integer(Unsigned(u.into())),
        Number::U32(u) => Integer(Unsigned(u.into())),
        Number::U64(u) => Integer(Unsigned(u)),
        float => Float(F64::new(float.into_f64())),
    }
}

/// Carries a value of the RON crate over, variant by variant. A `Char`
/// becomes the text of that one character. A byte string becomes what the
/// crate's own `From<Vec<u8>>` makes of it, the sequence of its bytes as
/// numbers. A map keeps the order in which it is walked.
#[verifier::external_body]
fn lift(doc: &Doc) -> AbstractValue {
    match doc {
        Doc::Unit => Unit,
        Doc::Bool(b) => Bool(*b),
        Doc::Char(c) => Text(c.to_string()),
        Doc::Number(n) => lift_number(*n),
        Doc::String(s) => Text(s.clone()),
        Doc::Bytes(b) => lift(&b.clone().into()),
        Doc::Seq(s) => Sequence(s.iter().map(lift).collect()),
        Doc::Map(m) => Mapping(m.iter().map(|(k, v)| (lift(k), lift(v))).collect()),
        Doc::Option(o) => Optional(o.as_deref().map(lift).map(Box::new)),
    }
}

/// Carries a value over to the RON crate, variant by variant. The entries of
/// a mapping are collected in their order into the crate's map, in which a
/// later entry would take the place of an earlier one with an equal key:
/// the writers, which alone call this, want the keys to differ.
#[verifier::external_body]
fn lower(value: &AbstractValue) -> Doc {
    match value {
        Unit => Doc::Unit,
        Bool(b) => Doc::Bool(*b),
        Integer(Signed(i)) => Doc::Number(Number::I64(*i)),
        Integer(Unsigned(u)) => Doc::Number(Number::U64(*u)),
        Float(x) => Doc::Number(Number::F64(*x)),
        Text(s) => Doc::String(s.clone()),
        Sequence(s) => Doc::Seq(s.iter().map(lower).collect()),
        Mapping(m) => Doc::Map(m.iter().map(|(k, v)| (lower(k), lower(v))).collect()),
        Optional(o) => Doc::Option(o.as_deref().map(lower).map(Box::new)),
    }
}

/// Calls `<ron::Value as FromStr>::from_str`, which parses one RON value and
/// wants nothing but white space after it. An error is handed back as the
/// text it displays: the position and the reason.
#[verifier::external_body]
pub(crate) fn read_ron(text: &str) -> (outcome: Result<AbstractValue, String>)
    ensures
        read_model(outcome) == ron_reading(text@),
{
    match text.parse::<Doc>() {
        Ok(doc) => Ok(lift(&doc)),
        Err(error) => Err(error.to_string()),
    }
}

/// Calls `serde_json::from_str`, reading the JSON text into the RON crate's
/// value type.
#[verifier::external_body]
pub(crate) fn read_json(text: &str) -> (outcome: Result<AbstractValue, String>)
    ensures
        read_model(outcome) == json_reading(text@),
{
    match serde_json::from_str::<Doc>(text) {
        Ok(doc) => Ok(lift(&doc)),
        Err(error) => Err(error.to_string()),
    }
}

/// Calls `serde_yaml_bw::from_str`, reading the YAML text into the RON
/// crate's value type.
#[verifier::external_body]
pub(crate) fn read_yaml(text: &str) -> (outcome: Result<AbstractValue, String>)
    ensures
        read_model(outcome) == yaml_reading(text@),
{
    match serde_yaml_bw::from_str::<Doc>(text) {
        Ok(doc) => Ok(lift(&doc)),
        Err(error) => Err(error.to_string()),
    }
}

/// Calls `toml::from_str`, reading the TOML document into the RON crate's
/// value type.
#[verifier::external_body]
pub(crate) fn read_toml(text: &str) -> (outcome: Result<AbstractValue, String>)
    ensures
        read_model(outcome) == toml_reading(text@),
{
    match toml::from_str::<Doc>(text) {
        Ok(doc) => Ok(lift(&doc)),
        Err(error) => Err(error.to_string()),
    }
}

/// Calls `ron::ser::to_string_pretty` with the default layout, but for the
/// line end, which is `\n` on every platform.
#[verifier::external_body]
pub(crate) fn write_ron(value: &AbstractValue) -> (outcome: Result<String, String>)
    requires
        value.canonical(),
        !has_repeated_key(value@),
    ensures
        write_model(outcome) == ron_writing(value@),
{
    let layout = ron::ser::PrettyConfig::default().new_line("\n");
    ron::ser::to_string_pretty(&lower(value), layout).map_err(|error| error.to_string())
}

/// Calls `serde_json::to_string_pretty`.
#[verifier::external_body]
pub(crate) fn write_json(value: &AbstractValue) -> (outcome: Result<String, String>)
    requires
        value.canonical(),
        !has_repeated_key(value@),
    ensures
        write_model(outcome) == json_writing(value@),
{
    serde_json::to_string_pretty(&lower(value)).map_err(|error| error.to_string())
}

/// Calls `serde_yaml_bw::to_string`.
#[verifier::external_body]
pub(crate) fn write_yaml(value: &AbstractValue) -> (outcome: Result<String, String>)
    requires
        value.canonical(),
        !has_repeated_key(value@),
    ensures
        write_model(outcome) == yaml_writing(value@),
{
    serde_yaml_bw::to_string(&lower(value)).map_err(|error| error.to_string())
}

/// Calls `toml::to_string_pretty`.
#[verifier::external_body]
pub(crate) fn write_toml(value: &AbstractValue) -> (outcome: Result<String, String>)
    requires
        value.canonical(),
        !has_repeated_key(value@),
    ensures
        write_model(outcome) == toml_writing(value@),
{
    toml::to_string_pretty(&lower(value)).map_err(|error| error.to_string())
}

} // verus!
