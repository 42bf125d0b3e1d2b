//! Discovery of the variables of a Handlebars template, and its rendering.
//!
//! A template is parsed by the `handlebars` crate into a sequence of
//! elements; the variables are the distinct names of its simple `{{name}}`
//! expressions, in the order in which each first appears.
pub mod template;
pub mod document;

pub use document::{Document, Error};
