use media_gateway::content::{ContentMetadata, ExternalIds, PlatformAvailability, SeriesMetadata};
use media_gateway::types::{AudioQuality, AvailabilityType, Platform, VideoQuality};

/// A price as the library carries it: in millionths.
fn price(value: f64) -> i64 {
    (value * 1_000_000.0).round() as i64
}

#[test]
fn test_external_ids_validation_imdb_format() {
    let ids = ExternalIds {
        imdb_id: Some("tt0111161".to_string()),
        tmdb_id: Some(278),
        eidr: None,
        tvdb_id: None,
    };

    let imdb = ids.imdb_id.unwrap();
    assert!(imdb.starts_with("tt"));
    assert_eq!(imdb.len(), 9); // "tt" + 7 digits
}

#[test]
fn test_external_ids_validation_eidr_format() {
    let ids = ExternalIds {
        imdb_id: None,
        tmdb_id: None,
        eidr: Some("10.5240/ABCD-1234-5678-90AB-CDEF-G".to_string()),
        tvdb_id: None,
    };

    let eidr = ids.eidr.unwrap();
    assert!(eidr.starts_with("10."));
    assert!(eidr.contains('/'));
}

#[test]
fn external_ids_default_is_empty() {
    let ids = ExternalIds::default();
    assert!(ids.imdb_id.is_none());
    assert!(ids.tmdb_id.is_none());
    assert!(ids.eidr.is_none());
    assert!(ids.tvdb_id.is_none());
}

#[test]
fn test_platform_availability_is_currently_available_no_restrictions() {
    let availability = PlatformAvailability {
        platform: Platform::Netflix,
        availability_type: AvailabilityType::Subscription,
        region: "US".to_string(),
        url: Some("https://netflix.com/title/123".to_string()),
        price: None,
        currency: None,
        available_from: None,
        available_until: None,
        video_quality: vec![VideoQuality::HD, VideoQuality::UHD],
        audio_quality: vec![AudioQuality::Surround51, AudioQuality::Atmos],
    };

    assert!(availability.is_currently_available());
}

fn offer(from: Option<i64>, until: Option<i64>) -> PlatformAvailability {
    PlatformAvailability {
        platform: Platform::HBOMax,
        availability_type: AvailabilityType::Subscription,
        region: "US".to_string(),
        url: None,
        price: None,
        currency: None,
        available_from: from,
        available_until: until,
        video_quality: vec![VideoQuality::UHD],
        audio_quality: vec![AudioQuality::Atmos],
    }
}

#[test]
fn test_platform_availability_is_currently_available_within_window() {
    let now = std::time::SystemTime::now()
        .duration_since(std::time::UNIX_EPOCH)
        .unwrap()
        .as_secs() as i64;
    let day = 86_400;
    let availability = offer(Some(now - day), Some(now + day));
    assert!(availability.is_currently_available());
}

#[test]
fn test_platform_availability_not_available_before_start_date() {
    let now = std::time::SystemTime::now()
        .duration_since(std::time::UNIX_EPOCH)
        .unwrap()
        .as_secs() as i64;
    let availability = offer(Some(now + 10 * 86_400), None);
    assert!(!availability.is_currently_available());
}

#[test]
fn test_platform_availability_not_available_after_end_date() {
    let now = std::time::SystemTime::now()
        .duration_since(std::time::UNIX_EPOCH)
        .unwrap()
        .as_secs() as i64;
    let availability = offer(None, Some(now - 10 * 86_400));
    assert!(!availability.is_currently_available());
}

#[test]
fn availability_window_is_inclusive() {
    let availability = offer(Some(100), Some(200));
    assert!(!availability.is_available_at(99));
    assert!(availability.is_available_at(100));
    assert!(availability.is_available_at(150));
    assert!(availability.is_available_at(200));
    assert!(!availability.is_available_at(201));
    assert!(offer(None, None).is_available_at(i64::MIN));
    assert!(offer(None, Some(5)).is_available_at(5));
    assert!(!offer(Some(5), None).is_available_at(4));
}

#[test]
fn test_platform_availability_rental_with_price() {
    let availability = PlatformAvailability {
        platform: Platform::PrimeVideo,
        availability_type: AvailabilityType::Rental,
        region: "US".to_string(),
        url: Some("https://primevideo.com/rent/123".to_string()),
        price: Some(price(3.99)),
        currency: Some("USD".to_string()),
        available_from: None,
        available_until: None,
        video_quality: vec![VideoQuality::HD, VideoQuality::UHD],
        audio_quality: vec![AudioQuality::Surround51],
    };

    assert_eq!(availability.availability_type, AvailabilityType::Rental);
    assert_eq!(availability.price.unwrap(), price(3.99));
    assert_eq!(availability.price.unwrap(), 3_990_000);
    assert_eq!(availability.currency.as_ref().unwrap(), "USD");
}

#[test]
fn test_platform_availability_multiple_quality_options() {
    let availability = PlatformAvailability {
        platform: Platform::AppleTVPlus,
        availability_type: AvailabilityType::Purchase,
        region: "GB".to_string(),
        url: None,
        price: Some(price(12.99)),
        currency: Some("GBP".to_string()),
        available_from: None,
        available_until: None,
        video_quality: vec![
            VideoQuality::SD,
            VideoQuality::HD,
            VideoQuality::UHD,
            VideoQuality::HDR,
        ],
        audio_quality: vec![AudioQuality::Stereo, AudioQuality::Surround51, AudioQuality::Atmos],
    };

    assert_eq!(availability.video_quality.len(), 4);
    assert_eq!(availability.audio_quality.len(), 3);
    assert!(availability.video_quality.contains(&VideoQuality::HDR));
    assert!(availability.audio_quality.contains(&AudioQuality::Atmos));
}

#[test]
fn test_series_metadata_complete() {
    let series_id = uuid::Uuid::new_v4().as_u128();
    let metadata = SeriesMetadata {
        season_number: Some(3),
        episode_number: Some(12),
        total_seasons: Some(5),
        total_episodes: Some(60),
        series_id: Some(series_id),
    };

    assert_eq!(metadata.season_number.unwrap(), 3);
    assert_eq!(metadata.episode_number.unwrap(), 12);
    assert_eq!(metadata.total_seasons.unwrap(), 5);
    assert_eq!(metadata.total_episodes.unwrap(), 60);
    assert_eq!(metadata.series_id.unwrap(), series_id);
}

#[test]
fn test_series_metadata_partial() {
    let metadata = SeriesMetadata {
        season_number: Some(1),
        episode_number: Some(1),
        total_seasons: None,
        total_episodes: None,
        series_id: None,
    };

    assert!(metadata.total_seasons.is_none());
    assert!(metadata.total_episodes.is_none());
}

#[test]
fn test_content_metadata_minimal() {
    let metadata = ContentMetadata {
        description: None,
        duration_minutes: Some(90),
        director: None,
        cast: None,
        production_companies: None,
        original_language: Some("en".to_string()),
        series_metadata: None,
    };

    assert_eq!(metadata.duration_minutes.unwrap(), 90);
    assert!(metadata.description.is_none());
    assert!(metadata.cast.is_none());
}

#[test]
fn test_content_metadata_with_large_cast() {
    let cast = vec![
        "Actor 1".to_string(),
        "Actor 2".to_string(),
        "Actor 3".to_string(),
        "Actor 4".to_string(),
        "Actor 5".to_string(),
    ];

    let metadata = ContentMetadata {
        description: Some("A film with a large ensemble cast".to_string()),
        duration_minutes: Some(180),
        director: Some(vec!["Director A".to_string(), "Director B".to_string()]),
        cast: Some(cast.clone()),
        production_companies: Some(vec!["Studio X".to_string()]),
        original_language: Some("en".to_string()),
        series_metadata: None,
    };

    assert_eq!(metadata.cast.unwrap().len(), 5);
    assert_eq!(metadata.director.unwrap().len(), 2);
}
