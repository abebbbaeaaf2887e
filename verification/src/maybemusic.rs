//! The raw record as the tabular decoder hands it over: loosely typed,
//! every field still a free-form string, the clip bounds and status possibly
//! absent. Normalization turns it into a domain record or rejects it.

use vstd::prelude::*;
use vstd::string::StringExecFns;

use crate::hashing::{identity_hex, spec_identity};

verus! {

/// A record as decoded from the tabular source, before validation.
/// Empty strings stand for absent values; only `status` is a real option.
#[derive(Debug, Clone)]
pub struct MaybeMusic {
    pub datetime: String,
    pub video_type: String,
    pub video_id: String,
    pub clip_start: String,
    pub clip_end: String,
    pub status: Option<u16>,
    pub title: String,
    pub artist: String,
    pub performer: String,
    pub comment: String,
}

/// The one-line human description of a record with the given fields:
/// `artist - title (video_type/video_id)`, with the artist or the title
/// dropped when empty, and `paid, datetime` standing in for the video
/// reference when the platform is blank.
pub open spec fn spec_describe(
    datetime: Seq<char>,
    video_type: Seq<char>,
    video_id: Seq<char>,
    title: Seq<char>,
    artist: Seq<char>,
) -> Seq<char> {
    let fmtid = if video_type.len() == 0 {
        "paid, "@ + datetime
    } else {
        video_type + "/"@ + video_id
    };
    if title.len() == 0 {
        "Untitled ("@ + fmtid + ")"@
    } else if artist.len() == 0 {
        title + " ("@ + fmtid + ")"@
    } else {
        artist + " - "@ + title + " ("@ + fmtid + ")"@
    }
}

impl MaybeMusic {
    /// The stable content identity of the record: the fixed-seed digest of
    /// its raw field strings, in the fixed order, as 16 lowercase hex
    /// characters. Comment and status deliberately do not take part.
    pub fn hash(&self) -> (r: String)
        ensures
            r@ == spec_identity(
                self.video_type@,
                self.video_id@,
                self.clip_start@,
                self.clip_end@,
                self.title@,
                self.artist@,
                self.performer@,
            ),
            r@.len() == 16,
    {
        identity_hex(
            self.video_type.as_str(),
            self.video_id.as_str(),
            self.clip_start.as_str(),
            self.clip_end.as_str(),
            self.title.as_str(),
            self.artist.as_str(),
            self.performer.as_str(),
        )
    }

    /// A field-identical copy of the record.
    pub fn duplicate(&self) -> (r: MaybeMusic)
        ensures
            r.datetime@ == self.datetime@,
            r.video_type@ == self.video_type@,
            r.video_id@ == self.video_id@,
            r.clip_start@ == self.clip_start@,
            r.clip_end@ == self.clip_end@,
            r.status == self.status,
            r.title@ == self.title@,
            r.artist@ == self.artist@,
            r.performer@ == self.performer@,
            r.comment@ == self.comment@,
    {
        MaybeMusic {
            datetime: self.datetime.clone(),
            video_type: self.video_type.clone(),
            video_id: self.video_id.clone(),
            clip_start: self.clip_start.clone(),
            clip_end: self.clip_end.clone(),
            status: self.status,
            title: self.title.clone(),
            artist: self.artist.clone(),
            performer: self.performer.clone(),
            comment: self.comment.clone(),
        }
    }

    /// Renders the one-line human description of the record.
    pub fn describe(&self) -> (r: String)
        ensures
            r@ == spec_describe(
                self.datetime@,
                self.video_type@,
                self.video_id@,
                self.title@,
                self.artist@,
            ),
    {
        let fmtid: String = if self.video_type.as_str().is_empty() {
            "paid, ".to_owned().concat(self.datetime.as_str())
        } else {
            self.video_type.clone().concat("/").concat(self.video_id.as_str())
        };
        if self.title.as_str().is_empty() {
            "Untitled (".to_owned().concat(fmtid.as_str()).concat(")")
        } else if self.artist.as_str().is_empty() {
            self.title.clone().concat(" (").concat(fmtid.as_str()).concat(")")
        } else {
            self.artist.clone().concat(" - ").concat(self.title.as_str()).concat(" (").concat(
                fmtid.as_str(),
            ).concat(")")
        }
    }
}

} // verus!
