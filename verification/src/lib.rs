//! A small form-field validation engine.
//!
//! A schema is a list of [`checker::Checker`]s, one per named field.  Each
//! checker owns a [`value::FieldType`] (how a raw string is parsed into a
//! typed [`value::FieldValue`]) and an ordered list of [`value::Rule`]s
//! (bounds, a pattern, a predicate).  A [`validator::Validator`] runs every
//! checker against a multi-valued string map, collects the typed values of
//! the fields that passed, and one human-readable message for each field
//! that failed.  The guarantees that span several functions are stated and
//! proved in [`laws`].

pub mod decimal;
pub mod pattern;
pub mod value;
pub mod checker;
pub mod validator;
pub mod laws;
