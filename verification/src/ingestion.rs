//! When the catalogue is refreshed.

use core::time::Duration;
use vstd::prelude::*;

verus! {

/// The length of a span of time in whole seconds.
pub uninterp spec fn whole_seconds(span: Duration) -> u64;

/// `Duration::from_secs` makes a span of the given number of whole seconds.
pub assume_specification[ Duration::from_secs ](secs: u64) -> (span: Duration)
    ensures
        whole_seconds(span) == secs,
;

/// How often each kind of ingestion work is done.
#[derive(Debug)]
pub struct IngestionSchedule {
    /// The whole catalogue is refreshed.
    pub catalog_refresh: Duration,
    /// Availability is brought up to date.
    pub availability_sync: Duration,
    /// Content about to expire is looked for.
    pub expiring_content: Duration,
    /// Metadata is enriched.
    pub metadata_enrichment: Duration,
}

impl Default for IngestionSchedule {
    /// Six hours, one hour, fifteen minutes, and twenty-four hours.
    fn default() -> (schedule: Self)
        ensures
            whole_seconds(schedule.catalog_refresh) == 21_600,
            whole_seconds(schedule.availability_sync) == 3_600,
            whole_seconds(schedule.expiring_content) == 900,
            whole_seconds(schedule.metadata_enrichment) == 86_400,
    {
        IngestionSchedule {
            catalog_refresh: Duration::from_secs(6 * 3600),
            availability_sync: Duration::from_secs(3600),
            expiring_content: Duration::from_secs(900),
            metadata_enrichment: Duration::from_secs(24 * 3600),
        }
    }
}

} // verus!
