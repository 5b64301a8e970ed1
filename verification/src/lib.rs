//! Dependency resolution and retrieval planning for a JavaScript package
//! manager.
//!
//! The library decides; whoever uses it carries the decisions out. Given a
//! manifest of package names and version constraints it settles every direct
//! and transitive dependency on one published version, names the archives to
//! fetch and where they land, and plans how each archive is unpacked. It asks
//! for the registry's documents one request at a time and is handed their
//! text; it never touches the network or the disk itself.
//!
//! - [`version`], [`resolver`]: version triples, the compatibility rule, and
//!   the choice of one published version for a constraint.
//! - [`packages`], [`dependencies`], [`cache`]: the mapping from names to
//!   versions, the manifest, and the stored resolved set.
//! - [`json`], [`registry`]: what is read in the registry's documents, and
//!   where documents and archives are found.
//! - [`graph`], [`install`], [`closure`]: the walk below one package, the
//!   resolution of a whole manifest, and what both arrive at.
//! - [`fetch`], [`extract`]: the downloads that a resolved set calls for, the
//!   tally of finished units, and the unpacking of an archive.
//! - [`cli`], [`error`], [`text`]: commands, failures, and operations on
//!   text.

pub mod cache;
pub mod cli;
pub mod closure;
pub mod dependencies;
pub mod error;
pub mod extract;
pub mod fetch;
pub mod graph;
pub mod install;
pub mod json;
pub mod packages;
pub mod registry;
pub mod resolver;
pub mod text;
pub mod version;
