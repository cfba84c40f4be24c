use media_gateway::types::{
    AudioQuality, ContentType, Genre, MaturityRating, Platform, Region, VideoQuality,
};
use std::collections::HashSet;

#[test]
fn test_video_quality_ordering() {
    assert!(VideoQuality::HD > VideoQuality::SD);
    assert!(VideoQuality::UHD > VideoQuality::HD);
    assert!(VideoQuality::HDR > VideoQuality::UHD);
}

#[test]
fn video_quality_rank_follows_the_order() {
    let scale = [VideoQuality::SD, VideoQuality::HD, VideoQuality::UHD, VideoQuality::HDR];
    for (i, a) in scale.iter().enumerate() {
        assert_eq!(a.rank() as usize, i);
        for b in scale.iter() {
            assert_eq!(a.at_least(b), a >= b);
        }
    }
}

#[test]
fn test_audio_quality_ordering() {
    assert!(AudioQuality::Surround51 > AudioQuality::Stereo);
    assert!(AudioQuality::Surround71 > AudioQuality::Surround51);
    assert!(AudioQuality::Atmos > AudioQuality::Surround71);
    assert!(AudioQuality::DtsX > AudioQuality::Surround71);
}

#[test]
fn test_maturity_rating_ordering() {
    assert!(MaturityRating::PG > MaturityRating::G);
    assert!(MaturityRating::PG13 > MaturityRating::PG);
    assert!(MaturityRating::R > MaturityRating::PG13);
    assert!(MaturityRating::NC17 > MaturityRating::R);
    assert!(MaturityRating::TVMA > MaturityRating::TV14);
}

#[test]
fn test_region_type_alias() {
    let region: Region = "US".to_string();
    assert_eq!(region.len(), 2);

    let region_ca: Region = "CA".to_string();
    assert_eq!(region_ca, "CA");
}

#[test]
fn test_enum_equality_and_hash() {
    let mut platforms = HashSet::new();
    platforms.insert(Platform::Netflix);
    platforms.insert(Platform::Netflix); // Duplicate

    assert_eq!(platforms.len(), 1);
    assert!(platforms.contains(&Platform::Netflix));

    let mut genres = HashSet::new();
    genres.insert(Genre::Action);
    genres.insert(Genre::Drama);
    genres.insert(Genre::Action); // Duplicate

    assert_eq!(genres.len(), 2);
}

#[test]
fn test_enum_clone_and_copy() {
    let content_type = ContentType::Movie;
    let cloned = content_type;
    assert_eq!(content_type, cloned);

    let platform = Platform::Netflix;
    let copied = platform;
    assert_eq!(platform, copied);
}
