//! Scaffolding library: copy a named template directory into a fresh project
//! directory, honouring ignore rules, with a small JSON-backed configuration.
//!
//! The filesystem itself is driven by a thin front end; this crate holds the
//! decisions: which configuration action to take, which template names exist,
//! which entries of a template tree are copied where, and which projects a
//! listing reports.

pub mod error;
pub mod paths;
pub mod textlines;
pub mod ignore_rules;
pub mod copier;
pub mod config;
pub mod registry;
pub mod lister;
pub mod commands;
