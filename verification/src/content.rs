//! What is known of a piece of content: its identifiers elsewhere, where
//! and when it can be watched, and its descriptive metadata.
//!
//! Points in time are seconds since the Unix epoch; prices are millionths
//! of the currency unit.

use crate::types::{AudioQuality, AvailabilityType, Platform, Region, VideoQuality};
use vstd::prelude::*;

verus! {

/// The identifiers of a piece of content in other catalogues.
#[derive(Debug, Clone)]
pub struct ExternalIds {
    pub imdb_id: Option<String>,
    pub tmdb_id: Option<u32>,
    pub eidr: Option<String>,
    pub tvdb_id: Option<u32>,
}

impl Default for ExternalIds {
    fn default() -> (ids: Self)
        ensures
            ids.imdb_id is None,
            ids.tmdb_id is None,
            ids.eidr is None,
            ids.tvdb_id is None,
    {
        ExternalIds { imdb_id: None, tmdb_id: None, eidr: None, tvdb_id: None }
    }
}

/// Where an episode stands in its series.
#[derive(Debug, Clone)]
pub struct SeriesMetadata {
    pub season_number: Option<u32>,
    pub episode_number: Option<u32>,
    pub total_seasons: Option<u32>,
    pub total_episodes: Option<u32>,
    /// The identifier of the series.
    pub series_id: Option<u128>,
}

/// Descriptive metadata.
#[derive(Debug, Clone)]
pub struct ContentMetadata {
    pub description: Option<String>,
    pub duration_minutes: Option<u32>,
    pub director: Option<Vec<String>>,
    pub cast: Option<Vec<String>>,
    pub production_companies: Option<Vec<String>>,
    pub original_language: Option<String>,
    pub series_metadata: Option<SeriesMetadata>,
}

/// One offer of a piece of content on a platform in a region.
#[derive(Debug, Clone)]
pub struct PlatformAvailability {
    pub platform: Platform,
    pub availability_type: AvailabilityType,
    pub region: Region,
    pub url: Option<String>,
    /// The price, in millionths of the currency unit.
    pub price: Option<i64>,
    pub currency: Option<String>,
    /// The first second of the offer.
    pub available_from: Option<i64>,
    /// The last second of the offer.
    pub available_until: Option<i64>,
    pub video_quality: Vec<VideoQuality>,
    pub audio_quality: Vec<AudioQuality>,
}

/// `std::time::SystemTime::now`, as seconds since `UNIX_EPOCH` by
/// `duration_since`; 0 for a clock set before the epoch. Nothing is claimed
/// of the value: it is the clock's.
#[verifier::external_body]
fn unix_now() -> (now: i64) {
    match std::time::SystemTime::now().duration_since(std::time::UNIX_EPOCH) {
        Ok(since) => since.as_secs() as i64,
        Err(_) => 0,
    }
}

impl PlatformAvailability {
    /// Whether the offer stands at the second `now`: not before its start
    /// and not after its end, where it has them.
    pub open spec fn available_at(&self, now: i64) -> bool {
        &&& self.available_from matches Some(from) ==> from <= now
        &&& self.available_until matches Some(until) ==> now <= until
    }

    /// Whether the offer stands at the second `now`.
    pub fn is_available_at(&self, now: i64) -> (available: bool)
        ensures
            available == self.available_at(now),
    {
        let started = match self.available_from {
            Some(from) => from <= now,
            None => true,
        };
        let running = match self.available_until {
            Some(until) => now <= until,
            None => true,
        };
        started && running
    }

    /// Whether the offer stands now, by the system clock. An offer without
    /// start and end always stands.
    pub fn is_currently_available(&self) -> (available: bool)
        ensures
            exists|now: i64| available == #[trigger] self.available_at(now),
            self.available_from is None && self.available_until is None ==> available,
    {
        let now = unix_now();
        let available = self.is_available_at(now);
        assert(available == self.available_at(now));
        available
    }
}

} // verus!
