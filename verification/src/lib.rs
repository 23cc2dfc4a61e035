//! An editor-facing analysis library for a multi-file source workspace.
//!
//! The library maintains a live, incrementally updated model of a workspace:
//! which files exist, how they nest into a module hierarchy, which type
//! symbols they define, and which syntax errors they currently contain.
//! Editors push file open/change/close events and issue queries
//! (jump-to-definition, quick-fix code actions); the library answers from its
//! maintained model without re-scanning the whole workspace.
//!
//! Everything that performs input or output (reading files from disk, the
//! editor transport) lives outside this crate; the library receives full
//! document text and canonical paths as plain values and hands back plain
//! values (diagnostics, suggested edits, locations).
//!
//! A caller applies one document change in this order: derive the diagnostics
//! with [`database::file::get_file_diagnostics`] and publish them; purge the
//! file's stale symbols with [`database::Database::purge_file_types`]; run
//! the parent search over [`database::module::parent_candidates`], lazily
//! loading candidates, and commit the outcome with
//! [`database::module::set_parent`]; then rescan and commit the text with
//! [`database::Database::finish_update`].
//! [`database::Database::update_file`] bundles the database steps of that
//! sequence for a parent the caller has already resolved.

pub mod code_action;
pub mod database;
pub mod definition;
pub mod diagnostics;
pub mod lines;
pub mod parser;
pub mod text_util;
