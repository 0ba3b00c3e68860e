//! A disk-usage scanning engine without the disk: the rules by which a scan
//! measures, orders, trims and reports a directory tree, verified with Verus.
//!
//! The host reads the filesystem and runs the workers; every decision about
//! what was read is made here.
//!
//! - [`engine`]: the scan of one root, step by step between its reads.
//! - [`aggregate`] and [`ranking`]: how a directory is made of its children.
//! - [`node`]: the tree that comes out, and what holds of every such tree.
//! - [`progress`] and [`errors`]: what a scan counts, samples and records.
//! - [`registry`]: the scans in flight and the requests to start and cancel.
//! - [`path`]: the names of entries.
//!
//! # Taken on trust
//!
//! Three things are called and not proved, each behind one private function
//! whose comment says what is claimed of it: the final component that
//! `std::path::Path::file_name` finds in a path (in [`path`]), the clock of
//! `std::time::Instant` (in [`progress`]), and the random identifier of
//! `uuid::Uuid::new_v4` (in [`registry`]).

pub mod aggregate;
pub mod engine;
pub mod errors;
pub mod node;
pub mod path;
pub mod progress;
pub mod ranking;
pub mod registry;
