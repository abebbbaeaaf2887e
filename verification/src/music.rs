//! The domain record and its normalization.
//!
//! Normalization turns a raw record into a strongly typed, validated domain
//! record, attaching its stable content identity, or rejects it with a
//! distinguishable reason so callers can tell malformed records from
//! intentionally incomplete ones.

use vstd::prelude::*;

use crate::clip::{valid_clip_text, ClipBound};
use crate::datetime::{parse_time, spec_parse_time};
use crate::hashing::{identity_hex, spec_identity};
use crate::maybemusic::MaybeMusic;
use crate::platform::Platform;
use crate::strutil::{trim, trim_of};
use vstd::string::StringExecFns;

verus! {

/// Why a raw record was rejected during normalization. The variants are a
/// closed set so callers can branch on the cause instead of matching
/// message strings.
#[derive(Clone, Copy, Debug, PartialEq, Eq, Structural)]
pub enum RejectionReason {
    /// The timestamp parses neither as RFC 3339 nor in the legacy form.
    InvalidTimestamp,
    /// No status value is present; records omit it to skip processing
    /// on purpose, so this is an expected, quiet rejection.
    MissingStatus,
    /// The platform string is blank; used as an intentional skip marker.
    BlankPlatform,
    /// The platform string names no known platform.
    UnsupportedPlatform,
    /// The title is empty once trimmed.
    EmptyTitle,
    /// A clip bound is present but is not a well-formed decimal.
    MalformedClipBound,
}

impl RejectionReason {
    /// Whether the rejection marks a record that was left incomplete on
    /// purpose (blank platform, omitted status) rather than a malformed
    /// one; such rejections are expected and not warn-worthy.
    pub fn is_intentional_skip(&self) -> (r: bool)
        ensures
            r == (*self == RejectionReason::MissingStatus || *self
                == RejectionReason::BlankPlatform),
    {
        match self {
            RejectionReason::MissingStatus => true,
            RejectionReason::BlankPlatform => true,
            _ => false,
        }
    }
}

/// The text of an optional clip bound: its decimal text, or empty when the
/// bound is absent. An absent bound hashes as the empty string, which is
/// detectably different from any zero-valued bound's text.
pub open spec fn spec_clip_text(c: Option<ClipBound>) -> Seq<char> {
    match c {
        Some(cb) => cb.spec_text(),
        None => Seq::empty(),
    }
}

/// A validated domain record. Immutable once produced; `xxhash` is its
/// stable content identity, computed at normalization time.
#[derive(Debug)]
pub struct Music {
    /// Canonical RFC 3339 rendering of the recording timestamp.
    pub datetime: String,
    pub video_type: Platform,
    pub video_id: String,
    pub clip_start: Option<ClipBound>,
    pub clip_end: Option<ClipBound>,
    /// The stable content identity: 16 lowercase hex characters.
    pub xxhash: String,
    pub status: u16,
    pub title: String,
    pub artist: String,
    pub performer: String,
    pub comment: String,
}

/// How a normalized domain record relates to the raw record it came from:
/// identifier-like fields trimmed, the comment verbatim, the timestamp
/// canonicalized, the clip bounds carried over exactly, and the identity
/// computed from the domain fields.
pub open spec fn spec_normalized_from(m: Music, v: MaybeMusic) -> bool {
    &&& m.wf()
    &&& Some(m.datetime@) == spec_parse_time(v.datetime@)
    &&& Some(m.status) == v.status
    &&& Some(m.video_type) == Platform::spec_from_code(trim_of(v.video_type@))
    &&& m.video_id@ == trim_of(v.video_id@)
    &&& m.title@ == trim_of(v.title@)
    &&& m.artist@ == trim_of(v.artist@)
    &&& m.performer@ == trim_of(v.performer@)
    &&& m.comment@ == v.comment@
    &&& (m.clip_start is Some <==> v.clip_start@.len() > 0)
    &&& (m.clip_start matches Some(cb) ==> cb.spec_text() == v.clip_start@)
    &&& (m.clip_end is Some <==> v.clip_end@.len() > 0)
    &&& (m.clip_end matches Some(cb) ==> cb.spec_text() == v.clip_end@)
    &&& m.xxhash@ == m.spec_hash()
}

/// Whether a raw record passes every normalization check.
pub open spec fn spec_accepts(v: MaybeMusic) -> bool {
    &&& spec_parse_time(v.datetime@) is Some
    &&& v.status is Some
    &&& trim_of(v.video_type@).len() > 0
    &&& Platform::spec_from_code(trim_of(v.video_type@)) is Some
    &&& trim_of(v.title@).len() > 0
    &&& (v.clip_start@.len() == 0 || valid_clip_text(v.clip_start@))
    &&& (v.clip_end@.len() == 0 || valid_clip_text(v.clip_end@))
}

/// The reason a raw record is rejected, following the order in which the
/// checks run: timestamp, status, platform, title, clip bounds.
pub open spec fn spec_reject_reason(v: MaybeMusic) -> RejectionReason {
    if spec_parse_time(v.datetime@) is None {
        RejectionReason::InvalidTimestamp
    } else if v.status is None {
        RejectionReason::MissingStatus
    } else if trim_of(v.video_type@).len() == 0 {
        RejectionReason::BlankPlatform
    } else if Platform::spec_from_code(trim_of(v.video_type@)) is None {
        RejectionReason::UnsupportedPlatform
    } else if trim_of(v.title@).len() == 0 {
        RejectionReason::EmptyTitle
    } else {
        RejectionReason::MalformedClipBound
    }
}

impl Music {
    /// Well-formedness: any clip bound present carries normalized digits
    /// matching its text.
    pub open spec fn wf(self) -> bool {
        &&& (self.clip_start matches Some(cb) ==> cb.wf())
        &&& (self.clip_end matches Some(cb) ==> cb.wf())
    }

    /// The stable content identity of the record's own fields: platform
    /// code, external id, clip texts, title, artist, performer — never the
    /// comment or the status.
    pub open spec fn spec_hash(self) -> Seq<char> {
        spec_identity(
            self.video_type.spec_code(),
            self.video_id@,
            spec_clip_text(self.clip_start),
            spec_clip_text(self.clip_end),
            self.title@,
            self.artist@,
            self.performer@,
        )
    }

    /// Computes the record's stable content identity.
    pub fn hash(&self) -> (r: String)
        ensures
            r@ == self.spec_hash(),
            r@.len() == 16,
    {
        proof {
            reveal_strlit("");
        }
        let clip_start_text: &str = match &self.clip_start {
            Some(cb) => cb.text().as_str(),
            None => "",
        };
        let clip_end_text: &str = match &self.clip_end {
            Some(cb) => cb.text().as_str(),
            None => "",
        };
        assert(clip_start_text@ =~= spec_clip_text(self.clip_start));
        assert(clip_end_text@ =~= spec_clip_text(self.clip_end));
        identity_hex(
            self.video_type.code(),
            self.video_id.as_str(),
            clip_start_text,
            clip_end_text,
            self.title.as_str(),
            self.artist.as_str(),
            self.performer.as_str(),
        )
    }

    /// The one-line human description of the record:
    /// `artist - title (CODE/id)`, with empty artist or title dropped.
    pub open spec fn spec_describe(self) -> Seq<char> {
        let fmtid = self.video_type.spec_code() + "/"@ + self.video_id@;
        if self.title@.len() == 0 {
            "Untitled ("@ + fmtid + ")"@
        } else if self.artist@.len() == 0 {
            self.title@ + " ("@ + fmtid + ")"@
        } else {
            self.artist@ + " - "@ + self.title@ + " ("@ + fmtid + ")"@
        }
    }

    /// Renders the one-line human description of the record.
    pub fn describe(&self) -> (r: String)
        ensures
            r@ == self.spec_describe(),
    {
        let fmtid: String = self.video_type.code().to_owned().concat("/").concat(
            self.video_id.as_str(),
        );
        if self.title.as_str().is_empty() {
            "Untitled (".to_owned().concat(fmtid.as_str()).concat(")")
        } else if self.artist.as_str().is_empty() {
            self.title.clone().concat(" (").concat(fmtid.as_str()).concat(")")
        } else {
            self.artist.clone().concat(" - ").concat(self.title.as_str()).concat(" (").concat(
                fmtid.as_str(),
            ).concat(")")
        }
    }

    /// Whether the record is member-restricted and therefore not eligible
    /// for processing: status code 1 marks a source restricted to members.
    /// Such a record is excluded from the process set, though an artifact
    /// already produced for it in an earlier run may still be cataloged.
    pub fn is_member_only(&self) -> (r: bool)
        ensures
            r == (self.status == 1),
    {
        self.status == 1
    }

    /// Normalizes a raw record into a domain record, or rejects it.
    ///
    /// Acceptance is exactly [`spec_accepts`]; on rejection the reason is
    /// exactly [`spec_reject_reason`]. On success every field relates to
    /// the raw record as stated: identifier-like fields trimmed, the
    /// comment verbatim, the timestamp canonicalized, and the identity
    /// computed from the domain fields.
    pub fn try_from(v: MaybeMusic) -> (r: Result<Music, RejectionReason>)
        ensures
            r is Ok <==> spec_accepts(v),
            r matches Err(e) ==> e == spec_reject_reason(v),
            r matches Ok(m) ==> spec_normalized_from(m, v),
    {
        let datetime = match parse_time(v.datetime.as_str()) {
            Some(t) => t,
            None => {
                return Err(RejectionReason::InvalidTimestamp);
            },
        };
        let status = match v.status {
            Some(st) => st,
            None => {
                return Err(RejectionReason::MissingStatus);
            },
        };
        let vt_trim = trim(v.video_type.as_str());
        if vt_trim.is_empty() {
            return Err(RejectionReason::BlankPlatform);
        }
        let video_type = match Platform::from_code(vt_trim) {
            Some(p) => p,
            None => {
                return Err(RejectionReason::UnsupportedPlatform);
            },
        };
        let title = trim(v.title.as_str());
        if title.is_empty() {
            return Err(RejectionReason::EmptyTitle);
        }
        let clip_start: Option<ClipBound> = if v.clip_start.as_str().is_empty() {
            None
        } else {
            match ClipBound::parse(v.clip_start.as_str()) {
                Some(cb) => Some(cb),
                None => {
                    return Err(RejectionReason::MalformedClipBound);
                },
            }
        };
        let clip_end: Option<ClipBound> = if v.clip_end.as_str().is_empty() {
            None
        } else {
            match ClipBound::parse(v.clip_end.as_str()) {
                Some(cb) => Some(cb),
                None => {
                    return Err(RejectionReason::MalformedClipBound);
                },
            }
        };

        proof {
            reveal_strlit("");
        }
        let clip_start_text: &str = match &clip_start {
            Some(cb) => cb.text().as_str(),
            None => "",
        };
        let clip_end_text: &str = match &clip_end {
            Some(cb) => cb.text().as_str(),
            None => "",
        };
        assert(clip_start_text@ =~= spec_clip_text(clip_start));
        assert(clip_end_text@ =~= spec_clip_text(clip_end));

        let video_id = trim(v.video_id.as_str()).to_owned();
        let title_owned = title.to_owned();
        let artist = trim(v.artist.as_str()).to_owned();
        let performer = trim(v.performer.as_str()).to_owned();
        let xxhash = identity_hex(
            video_type.code(),
            video_id.as_str(),
            clip_start_text,
            clip_end_text,
            title_owned.as_str(),
            artist.as_str(),
            performer.as_str(),
        );
        Ok(
            Music {
                datetime,
                video_type,
                video_id,
                clip_start,
                clip_end,
                xxhash,
                status,
                title: title_owned,
                artist,
                performer,
                comment: v.comment,
            },
        )
    }
}

/// Determinism of the identity: two domain records that agree on platform,
/// external id, clip bounds, title, artist and performer have the same
/// identity, however their comment or status differ.
pub proof fn lemma_identity_determinism(a: Music, b: Music)
    requires
        a.video_type == b.video_type,
        a.video_id@ == b.video_id@,
        spec_clip_text(a.clip_start) == spec_clip_text(b.clip_start),
        spec_clip_text(a.clip_end) == spec_clip_text(b.clip_end),
        a.title@ == b.title@,
        a.artist@ == b.artist@,
        a.performer@ == b.performer@,
    ensures
        a.spec_hash() == b.spec_hash(),
{
}

/// Normalizes every record of a batch in order, one result per record:
/// acceptance, rejection reason and the produced record's fields are
/// exactly those of [`Music::try_from`] on that record.
pub fn convert_records(records: &Vec<MaybeMusic>) -> (r: Vec<Result<Music, RejectionReason>>)
    ensures
        r@.len() == records@.len(),
        forall|i: int|
            0 <= i < records@.len() ==> {
                &&& (#[trigger] r@[i] is Ok <==> spec_accepts(records@[i]))
                &&& (r@[i] matches Ok(m) ==> spec_normalized_from(m, records@[i]))
                &&& (r@[i] matches Err(e) ==> e == spec_reject_reason(records@[i]))
            },
{
    let n = records.len();
    let mut r: Vec<Result<Music, RejectionReason>> = Vec::new();
    let mut i: usize = 0;
    while i < n
        invariant
            n == records.len(),
            i <= n,
            r@.len() == i,
            forall|j: int|
                0 <= j < i ==> {
                    &&& (#[trigger] r@[j] is Ok <==> spec_accepts(records@[j]))
                    &&& (r@[j] matches Ok(m) ==> spec_normalized_from(m, records@[j]))
                    &&& (r@[j] matches Err(e) ==> e == spec_reject_reason(records@[j]))
                },
        decreases n - i,
    {
        let v = records[i].duplicate();
        r.push(Music::try_from(v));
        i = i + 1;
    }
    r
}

/// Why a domain record fails the logic check.
#[derive(Clone, Copy, Debug, PartialEq, Eq, Structural)]
pub enum LogicError {
    /// Both clip bounds are present but the start is not strictly before
    /// the end.
    ClipOutOfOrder,
}

/// The logic check: when both clip bounds are present, the start must lie
/// strictly before the end. A record can carry a valid identity and still
/// fail this check.
pub fn check_logic(x: &Music) -> (r: Result<(), LogicError>)
    requires
        x.wf(),
    ensures
        r is Err <==> (x.clip_start matches Some(s) && x.clip_end matches Some(e) && !s.spec_lt(e)),
        r matches Err(e) ==> e == LogicError::ClipOutOfOrder,
{
    match (&x.clip_start, &x.clip_end) {
        (Some(s), Some(e)) => {
            if s.lt(e) {
                Ok(())
            } else {
                Err(LogicError::ClipOutOfOrder)
            }
        },
        _ => Ok(()),
    }
}

} // verus!
