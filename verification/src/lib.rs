//! Conversion of documents between RON, JSON, YAML and TOML.
//!
//! A document is read into one untyped [`AbstractValue`] tree, checked
//! against what the target format can express, and written out again. The
//! reading and the writing are done by the format crates; what is decided
//! around them is verified here.

pub mod codec;
pub mod equality;
pub mod error;
pub mod format;
pub mod laws;
pub mod plan;
pub mod shape;
pub mod translate;
pub mod value;

pub use equality::same;
pub use error::{ConversionError, Failure};
pub use format::{Format, OutputType};
pub use plan::{default_output_type, plan_conversion, source_format, Conversion, PlanError};
pub use shape::{shape_defect, ShapeDefect};
pub use translate::{parse, parse_outcome, serialize, serialize_outcome, translate};
pub use value::{AbstractValue, Integer, Tree};
