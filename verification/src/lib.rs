//! A verified model of a daemon's flat `key=value` configuration file:
//! a catalog of known options, a parser that reconciles a file's sections
//! against that catalog, a document type with safe mutation and round-trip
//! serialization, and the navigation state machine of the interactive editor.
pub mod app;
pub mod config;
pub mod hit;
pub mod ini;
pub mod laws;
pub mod nav;
pub mod probe;
pub mod schema;
pub mod text;
