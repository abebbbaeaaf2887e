//! The platform registry: the closed set of source platforms and, for each,
//! the URL template, download format selector and source file extension used
//! to fetch and name its media. The registry is total over the enum by an
//! exhaustive match, so no lookup can fail at run time.

use vstd::prelude::*;

use crate::strutil::str_eq;

verus! {

/// A source platform. The enumeration is closed: records naming anything
/// else are rejected during normalization.
#[derive(Clone, Copy, Debug, PartialEq, Eq, Hash, Structural)]
pub enum Platform {
    Twitter,
    Bilibili,
    YouTube,
}

/// What the registry knows about one platform.
pub struct PlatformSettings {
    /// Human-facing and downloader-facing URL with `{}` standing for the
    /// record's external id.
    pub url_template: String,
    /// Format selector handed to the downloader.
    pub format: String,
    /// Extension of the media file the downloader produces.
    pub source_ext: String,
}

impl Platform {
    /// The canonical upper-case code of the platform, as records spell it
    /// and as the identity hash is fed it.
    pub open spec fn spec_code(self) -> Seq<char> {
        match self {
            Platform::Twitter => "TWITTER"@,
            Platform::Bilibili => "BILIBILI"@,
            Platform::YouTube => "YOUTUBE"@,
        }
    }

    /// Returns the platform's canonical code string.
    pub fn code(self) -> (r: &'static str)
        ensures
            r@ == self.spec_code(),
    {
        match self {
            Platform::Twitter => "TWITTER",
            Platform::Bilibili => "BILIBILI",
            Platform::YouTube => "YOUTUBE",
        }
    }

    /// The platform whose code is exactly the given string, if any.
    pub open spec fn spec_from_code(s: Seq<char>) -> Option<Platform> {
        if s == "TWITTER"@ {
            Some(Platform::Twitter)
        } else if s == "BILIBILI"@ {
            Some(Platform::Bilibili)
        } else if s == "YOUTUBE"@ {
            Some(Platform::YouTube)
        } else {
            None
        }
    }

    /// Looks a platform up by its exact canonical code.
    pub fn from_code(s: &str) -> (r: Option<Platform>)
        ensures
            r == Self::spec_from_code(s@),
    {
        if str_eq(s, "TWITTER") {
            Some(Platform::Twitter)
        } else if str_eq(s, "BILIBILI") {
            Some(Platform::Bilibili)
        } else if str_eq(s, "YOUTUBE") {
            Some(Platform::YouTube)
        } else {
            None
        }
    }

    /// The registry entry of the platform, as a spec-level triple
    /// `(url_template, format, source_ext)`.
    pub open spec fn spec_settings(self) -> (Seq<char>, Seq<char>, Seq<char>) {
        match self {
            Platform::YouTube => (
                "https://www.youtube.com/watch?v={}"@,
                "bestaudio[ext=m4a]"@,
                "mp4"@,
            ),
            Platform::Twitter => ("https://www.twitter.com/i/status/{}"@, "best[ext=mp4]"@, "mp4"@),
            Platform::Bilibili => ("https://www.bilibili.com/video/{}"@, "best[ext=flv]"@, "flv"@),
        }
    }

    /// Returns the registry entry of the platform. Total over the enum:
    /// the match is exhaustive, so every variant has settings.
    pub fn settings(self) -> (r: PlatformSettings)
        ensures
            r.url_template@ == self.spec_settings().0,
            r.format@ == self.spec_settings().1,
            r.source_ext@ == self.spec_settings().2,
    {
        match self {
            Platform::YouTube => PlatformSettings {
                url_template: "https://www.youtube.com/watch?v={}".to_owned(),
                format: "bestaudio[ext=m4a]".to_owned(),
                source_ext: "mp4".to_owned(),
            },
            Platform::Twitter => PlatformSettings {
                url_template: "https://www.twitter.com/i/status/{}".to_owned(),
                format: "best[ext=mp4]".to_owned(),
                source_ext: "mp4".to_owned(),
            },
            Platform::Bilibili => PlatformSettings {
                url_template: "https://www.bilibili.com/video/{}".to_owned(),
                format: "best[ext=flv]".to_owned(),
                source_ext: "flv".to_owned(),
            },
        }
    }
}

} // verus!
