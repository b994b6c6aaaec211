//! Schemas that validate reflected values.

pub mod error;
pub mod pattern;
pub mod rules;

pub use error::{Error, ErrorGroup, ListError, ObjectError};
pub use pattern::Pattern;
pub use rules::{
    array, bool, integer, null, object, string, validate_schema, ArraySchema, BoolSchema, IntegerSchema,
    NullSchema, ObjectSchema, OneOf, Schema, StringSchema, Validate,
};
