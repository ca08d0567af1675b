//! The summary of a build.

use vstd::prelude::*;
use vstd::string::*;
use crate::build::clean::CleanError;

verus! {

/// The numbers that a build reports.
pub struct BuildSummary {
    pub source_dir: String,
    pub output_dir: String,
    pub total_modules: usize,
    pub loaded_modules: usize,
    pub built_units: usize,
    pub skipped_units: usize,
    pub failed_units: usize,
    /// The number of unmanaged items deleted, or `None` if cleanup failed.
    pub deleted_items: Option<usize>,
}

/// Summarizes a build: the units that were neither built nor skipped failed.
pub fn summarize_build(
    source_dir: &str,
    output_dir: &str,
    total_modules: usize,
    loaded_modules: usize,
    total_units: usize,
    built_units: usize,
    skipped_units: usize,
    clean_result: Result<usize, CleanError>,
) -> (s: BuildSummary)
    requires
        built_units + skipped_units <= total_units,
    ensures
        s.source_dir@ == source_dir@,
        s.output_dir@ == output_dir@,
        s.total_modules == total_modules,
        s.loaded_modules == loaded_modules,
        s.built_units == built_units,
        s.skipped_units == skipped_units,
        s.failed_units == total_units - (built_units + skipped_units),
        s.deleted_items == match clean_result {
            Ok(n) => Some(n),
            Err(_) => None::<usize>,
        },
{
    BuildSummary {
        source_dir: String::from_str(source_dir),
        output_dir: String::from_str(output_dir),
        total_modules,
        loaded_modules,
        built_units,
        skipped_units,
        failed_units: total_units - (built_units + skipped_units),
        deleted_items: match clean_result {
            Ok(n) => Some(n),
            Err(_) => None,
        },
    }
}

} // verus!
