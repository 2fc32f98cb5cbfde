//! Backup and restore of the saved state of applications: the engine that
//! classifies what a scan found against a baseline, indexes resources
//! that several applications claim, keeps the snapshots of an application,
//! tallies an operation and reconciles with a remote store; and the
//! reports made of its results.
//!
//! - [`change`]: the classification of an entry against its baseline.
//! - [`scan`]: what a scan found for an application, and what failed.
//! - [`duplicate`]: the index of resources claimed by applications.
//! - [`manifest`]: the entries of a snapshot, the baseline of later scans.
//! - [`layout`]: the snapshots of an application and their upkeep.
//! - [`status`]: the tally of an operation.
//! - [`cloud`]: reconciliation with a remote store.
//! - [`report`], [`lines`], [`document`]: reports in text and in structure.
//! - [`wrap`]: the game behind a launcher's command line.
//! - [`listing`], [`text`]: lists by name, and texts.

pub mod change;
pub mod cloud;
pub mod document;
pub mod duplicate;
pub mod layout;
pub mod lines;
pub mod listing;
pub mod manifest;
pub mod report;
pub mod scan;
pub mod status;
pub mod text;
pub mod wrap;
