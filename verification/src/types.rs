//! The vocabulary of the catalogue: kinds of content, platforms, genres and
//! the quality and rating scales.

use vstd::prelude::*;

verus! {

/// A region, as a two-letter country code.
pub type Region = String;

/// What a piece of content is.
#[derive(Debug, Clone, Copy, PartialEq, Eq, Structural, Hash)]
pub enum ContentType {
    Movie,
    Series,
    Episode,
    Short,
    Documentary,
    Special,
}

/// Where content can be watched.
#[derive(Debug, Clone, Copy, PartialEq, Eq, Structural, Hash)]
pub enum Platform {
    Netflix,
    PrimeVideo,
    DisneyPlus,
    Hulu,
    AppleTVPlus,
    HBOMax,
    Peacock,
    ParamountPlus,
    YouTube,
    Crave,
    BBCiPlayer,
}

/// The genres of the catalogue.
#[derive(Debug, Clone, Copy, PartialEq, Eq, Structural, Hash)]
pub enum Genre {
    Action,
    Adventure,
    Animation,
    Comedy,
    Crime,
    Documentary,
    Drama,
    Family,
    Fantasy,
    Horror,
    Mystery,
    Romance,
    SciFi,
    Thriller,
    Western,
    Musical,
    War,
    Biography,
    History,
    Sport,
    GameShow,
    RealityTV,
    TalkShow,
    News,
}

/// How content is offered on a platform.
#[derive(Debug, Clone, Copy, PartialEq, Eq, Structural, Hash)]
pub enum AvailabilityType {
    Subscription,
    Rental,
    Purchase,
    Free,
}

/// Picture quality, from the lowest up.
#[derive(Debug, Clone, Copy, PartialEq, Eq, Structural, PartialOrd, Ord, Hash)]
pub enum VideoQuality {
    SD,
    HD,
    UHD,
    HDR,
}

/// Sound quality, from the lowest up.
#[derive(Debug, Clone, Copy, PartialEq, Eq, Structural, PartialOrd, Ord, Hash)]
pub enum AudioQuality {
    Stereo,
    Surround51,
    Surround71,
    Atmos,
    DtsX,
}

/// How subtitles are delivered.
#[derive(Debug, Clone, Copy, PartialEq, Eq, Structural, Hash)]
pub enum SubtitleFormat {
    ClosedCaptions,
    SDH,
    Standard,
}

/// Age ratings: the cinema scale from the mildest up, then the television
/// scale from the mildest up.
#[derive(Debug, Clone, Copy, PartialEq, Eq, Structural, PartialOrd, Ord, Hash)]
pub enum MaturityRating {
    G,
    PG,
    PG13,
    R,
    NC17,
    NR,
    TVY,
    TVY7,
    TVG,
    TVPG,
    TV14,
    TVMA,
}

impl VideoQuality {
    /// The place of the quality on its scale, from 0.
    pub open spec fn level(&self) -> nat {
        match self {
            VideoQuality::SD => 0,
            VideoQuality::HD => 1,
            VideoQuality::UHD => 2,
            VideoQuality::HDR => 3,
        }
    }

    /// The place of the quality on its scale, from 0.
    pub fn rank(&self) -> (level: u8)
        ensures
            level == self.level(),
    {
        match self {
            VideoQuality::SD => 0,
            VideoQuality::HD => 1,
            VideoQuality::UHD => 2,
            VideoQuality::HDR => 3,
        }
    }

    /// Whether this quality is at least `other`.
    pub fn at_least(&self, other: &VideoQuality) -> (enough: bool)
        ensures
            enough == (self.level() >= other.level()),
    {
        self.rank() >= other.rank()
    }
}

} // verus!
