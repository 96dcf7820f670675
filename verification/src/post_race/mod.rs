//! Results of past sessions, and what live captures add to them.

pub mod anchors;
pub mod backfill;
pub mod evidence;
pub mod identity;
pub mod importer;
pub mod scan;
