//! Command-line choices that carry meaning beyond parsing: which profile a
//! command talks to, the wire names of the media options, and how saved
//! profiles are listed.

use crate::credentials::SavedProfile;
use crate::text::{concat, owned};
use vstd::prelude::*;

verus! {

/// The profile whose saved login a command may use: the named one; else,
/// when no URL was given either, the selected default; with only a URL, none.
pub fn endpoint_profile<'a>(
    explicit_profile: Option<&'a str>,
    explicit_url: Option<&str>,
    default_profile: &'a str,
) -> (r: Option<&'a str>)
    ensures
        explicit_profile is Some ==> r == explicit_profile,
        explicit_profile is None && explicit_url is None ==> r == Some(default_profile),
        explicit_profile is None && explicit_url is Some ==> r is None,
{
    match explicit_profile {
        Some(p) => Some(p),
        None => if explicit_url.is_none() {
            Some(default_profile)
        } else {
            None
        },
    }
}

/// Image generation tiers.
#[derive(Clone, Copy, Debug, PartialEq, Eq, Structural)]
pub enum ImageTier {
    Fast,
    Quality,
}

impl ImageTier {
    /// The tier's name on the wire.
    pub fn as_str(self) -> (r: &'static str)
        ensures
            r@ == match self {
                ImageTier::Fast => "fast"@,
                ImageTier::Quality => "quality"@,
            },
    {
        match self {
            ImageTier::Fast => "fast",
            ImageTier::Quality => "quality",
        }
    }
}

/// Audio file formats.
#[derive(Clone, Copy, Debug, PartialEq, Eq, Structural)]
pub enum AudioFormat {
    Mp3,
    Wav,
}

impl AudioFormat {
    /// The format's name on the wire.
    pub fn as_str(self) -> (r: &'static str)
        ensures
            r@ == match self {
                AudioFormat::Mp3 => "mp3"@,
                AudioFormat::Wav => "wav"@,
            },
    {
        match self {
            AudioFormat::Mp3 => "mp3",
            AudioFormat::Wav => "wav",
        }
    }
}

/// Video generation models.
#[derive(Clone, Copy, Debug, PartialEq, Eq, Structural)]
pub enum VideoModel {
    Fast,
    Quality,
}

impl VideoModel {
    /// The model's name on the wire.
    pub fn as_str(self) -> (r: &'static str)
        ensures
            r@ == match self {
                VideoModel::Fast => "fast"@,
                VideoModel::Quality => "quality"@,
            },
    {
        match self {
            VideoModel::Fast => "fast",
            VideoModel::Quality => "quality",
        }
    }
}

/// Video resolutions.
#[derive(Clone, Copy, Debug, PartialEq, Eq, Structural)]
pub enum VideoResolution {
    P480,
    P720,
}

impl VideoResolution {
    /// The resolution's name on the wire.
    pub fn as_str(self) -> (r: &'static str)
        ensures
            r@ == match self {
                VideoResolution::P480 => "480p"@,
                VideoResolution::P720 => "720p"@,
            },
    {
        match self {
            VideoResolution::P480 => "480p",
            VideoResolution::P720 => "720p",
        }
    }
}

/// Video aspect ratios.
#[derive(Clone, Copy, Debug, PartialEq, Eq, Structural)]
pub enum VideoRatio {
    SixteenNine,
    NineSixteen,
    FourThree,
    ThreeFour,
    OneOne,
    TwentyOneNine,
}

impl VideoRatio {
    /// The ratio's name on the wire.
    pub fn as_str(self) -> (r: &'static str)
        ensures
            r@ == match self {
                VideoRatio::SixteenNine => "16:9"@,
                VideoRatio::NineSixteen => "9:16"@,
                VideoRatio::FourThree => "4:3"@,
                VideoRatio::ThreeFour => "3:4"@,
                VideoRatio::OneOne => "1:1"@,
                VideoRatio::TwentyOneNine => "21:9"@,
            },
    {
        match self {
            VideoRatio::SixteenNine => "16:9",
            VideoRatio::NineSixteen => "9:16",
            VideoRatio::FourThree => "4:3",
            VideoRatio::ThreeFour => "3:4",
            VideoRatio::OneOne => "1:1",
            VideoRatio::TwentyOneNine => "21:9",
        }
    }
}

/// One listed profile: its name, ` (default)` for the default, then a tab,
/// the API origin, a tab, and `@` with the username.
pub open spec fn profile_line_spec(p: SavedProfile) -> Seq<char> {
    p.name@ + (if p.is_default {
        " (default)"@
    } else {
        Seq::empty()
    }) + "\t"@ + p.credentials.api_url@ + "\t@"@ + p.credentials.user.username@
}

/// The line that lists a saved profile.
pub fn profile_line(p: &SavedProfile) -> (r: String)
    ensures
        r@ == profile_line_spec(*p),
{
    let named = if p.is_default {
        concat(p.name.as_str(), " (default)")
    } else {
        owned(p.name.as_str())
    };
    let a = concat(named.as_str(), "\t");
    let b = concat(a.as_str(), p.credentials.api_url.as_str());
    let c = concat(b.as_str(), "\t@");
    let r = concat(c.as_str(), p.credentials.user.username.as_str());
    assert(r@ =~= profile_line_spec(*p));
    r
}

} // verus!
