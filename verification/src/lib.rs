//! A provider plugin protocol: named, parameterized actions that a host invokes
//! on interchangeable backend providers, with schemas, argument validation and
//! structured results.
//!
//! - [`value`]: the JSON-like values that arguments and results are made of.
//! - [`schema`]: the schema of an action and of its parameters.
//! - [`validation`]: typed extraction of arguments, with messages that tell
//!   an absent argument from one of the wrong kind.
//! - [`response`]: the conventional envelopes around results.
//! - [`extension`]: the contract that every provider fulfils.
//! - [`registry`]: the schemas of one provider's actions, and the decision
//!   whether an invocation reaches its handler.
//! - [`provider`]: a provider made of a registry and a handler.
//! - [`annotation`]: what the annotations on a provider's source declare.
//! - [`text`]: comparing texts, and what it means to mention one.
//!
//! Contracts are stated over mathematical models: a value is a
//! [`value::Json`], an argument map a `Map` from names to such values, a
//! schema a [`schema::DefinitionModel`].

pub mod annotation;
pub mod extension;
pub mod provider;
pub mod registry;
pub mod response;
pub mod schema;
pub mod text;
pub mod validation;
pub mod value;

pub use extension::{ActionResult, CpiExtension};
pub use provider::Provider;
pub use registry::ActionRegistry;
pub use schema::{ActionDefinition, ActionParameter, ParamType};
pub use value::{ArgumentMap, Number, Object, Value};
