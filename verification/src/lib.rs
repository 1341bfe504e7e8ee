//! Generates typed client bindings from an API description.
//!
//! A parsed [`document::Document`] is first normalized into a canonical
//! model of namespaces, methods and parameters ([`extract`]), on the way
//! deciding which role every parameter plays ([`classify`]). The model is
//! then rendered as source text ([`render`]): request shapes as static
//! types, responses as runtime validators, and one class with a method
//! for each operation. [`generate::generate`] does both in one step.
//!
//! Schemas may refer to each other by name. Resolution and rendering
//! follow such references under a bound, so that a table whose entries
//! refer to each other in a circle ends in an error; [`acyclic`] shows
//! that the bound never decides for a table without circles.
//!
//! Every function states what it returns over the views of its
//! arguments, in which a string is a sequence of characters; the texts
//! that rendering emits are defined character by character.

pub mod acyclic;
pub mod classify;
pub mod document;
pub mod error;
pub mod extract;
pub mod generate;
pub mod kind;
pub mod render;
pub mod resolve;
pub mod schema;
pub mod text;
pub mod wrap;
